//! Counters of what the filesystem does, and their reports.
use crate::text::{decimal, same_text, texts, u64_to_text};
use crate::text_map::TextMap;
use vstd::prelude::*;

pub mod core_counters;
pub mod counter_laws;
pub mod record;
pub mod snapshot_laws;

pub use core_counters::{BaseCounters, CoreCounters};

verus! {

/// Whether counters are kept unless the environment says otherwise.
pub const DEFAULT_PROFILE_ENABLED: bool = false;

/// What is left of a number in 64 bits.
pub open spec fn wrapped(n: int) -> u64 {
    (n % 0x1_0000_0000_0000_0000) as u64
}

fn wrapping_sum(a: u64, b: u64) -> (sum: u64)
    ensures
        sum == wrapped(a + b),
{
    a.wrapping_add(b)
}

/// A named group of counters.
pub trait TelemetrySection {
    fn name(&self) -> (name: &'static str);

    fn snapshot(&self) -> (counters: TextMap<u64>)
        ensures
            counters.wf(),
    ;
}

/// A counter that goes up by one.
#[derive(Debug)]
pub struct Counter {
    pub name: &'static str,
    pub value: u64,
}

impl Counter {
    pub fn new(name: &'static str) -> (counter: Counter)
        ensures
            counter == (Counter { name, value: 0 }),
    {
        Counter { name, value: 0 }
    }

    pub open spec fn plus_one(self) -> Counter {
        Counter { name: self.name, value: wrapped(self.value + 1) }
    }

    pub fn increment(&mut self)
        ensures
            *final(self) == old(self).plus_one(),
    {
        self.value = wrapping_sum(self.value, 1);
    }

    /// Adds the counter to a report.
    pub fn snapshot_into(&self, out: &mut TextMap<u64>)
        requires
            old(out).wf(),
        ensures
            final(out).wf(),
            final(out)@ == old(out)@.insert(self.name@, self.value),
    {
        out.insert(self.name, self.value);
    }
}

/// A counter that sums amounts.
#[derive(Debug)]
pub struct Sum {
    pub name: &'static str,
    pub value: u64,
}

impl Sum {
    pub fn new(name: &'static str) -> (sum: Sum)
        ensures
            sum == (Sum { name, value: 0 }),
    {
        Sum { name, value: 0 }
    }

    pub open spec fn plus(self, amount: u64) -> Sum {
        Sum { name: self.name, value: wrapped(self.value + amount) }
    }

    pub fn add(&mut self, amount: u64)
        ensures
            *final(self) == old(self).plus(amount),
    {
        self.value = wrapping_sum(self.value, amount);
    }

    /// Adds the counter to a report.
    pub fn snapshot_into(&self, out: &mut TextMap<u64>)
        requires
            old(out).wf(),
        ensures
            final(out).wf(),
            final(out)@ == old(out)@.insert(self.name@, self.value),
    {
        out.insert(self.name, self.value);
    }
}

/// A counter of durations, reported as how many there were and their sum in nanoseconds.
#[derive(Debug)]
pub struct Timer {
    pub name: &'static str,
    pub count: u64,
    pub nanos: u64,
}

impl Timer {
    pub fn new(name: &'static str) -> (timer: Timer)
        ensures
            timer == (Timer { name, count: 0, nanos: 0 }),
    {
        Timer { name, count: 0, nanos: 0 }
    }

    pub open spec fn plus(self, nanos: u128) -> Timer {
        Timer {
            name: self.name,
            count: wrapped(self.count + 1),
            nanos: wrapped(self.nanos + nanos),
        }
    }

    /// Counts a duration, in nanoseconds.
    pub fn record(&mut self, nanos: u128)
        ensures
            *final(self) == old(self).plus(nanos),
    {
        let low: u64 = low_bits(nanos);
        self.count = wrapping_sum(self.count, 1);
        let ghost sum = self.nanos + nanos;
        assert(wrapped(self.nanos + low) == wrapped(sum)) by {
            let word: int = 0x1_0000_0000_0000_0000;
            let quotient = nanos as int / word;
            assert(nanos == quotient * word + low);
            vstd::arithmetic::div_mod::lemma_mod_multiples_vanish(
                quotient,
                self.nanos + low,
                word,
            );
        }
        self.nanos = wrapping_sum(self.nanos, low);
    }

    /// Adds the two numbers to a report.
    pub fn snapshot_into(&self, out: &mut TextMap<u64>)
        requires
            old(out).wf(),
        ensures
            final(out).wf(),
            final(out)@ == old(out)@.insert(self.name@ + "_count"@, self.count).insert(
                self.name@ + "_nanos"@,
                self.nanos,
            ),
    {
        let mut count: String = self.name.to_owned();
        count.append("_count");
        out.insert(count.as_str(), self.count);
        let mut nanos: String = self.name.to_owned();
        nanos.append("_nanos");
        out.insert(nanos.as_str(), self.nanos);
    }
}

/// The low 64 bits of a number.
pub fn low_bits(n: u128) -> (low: u64)
    ensures
        low == wrapped(n as int),
{
    assert(n as u64 == n % 0x1_0000_0000_0000_0000u128) by (bit_vector);
    #[verifier::truncate]
    (n as u64)
}

/// The largest value seen.
#[derive(Debug)]
pub struct Max {
    pub name: &'static str,
    pub value: u64,
}

impl Max {
    pub fn new(name: &'static str) -> (max: Max)
        ensures
            max == (Max { name, value: 0 }),
    {
        Max { name, value: 0 }
    }

    pub open spec fn with(self, candidate: u64) -> Max {
        Max {
            name: self.name,
            value: if candidate > self.value {
                candidate
            } else {
                self.value
            },
        }
    }

    pub fn update(&mut self, candidate: u64)
        ensures
            *final(self) == old(self).with(candidate),
    {
        if candidate > self.value {
            self.value = candidate;
        }
    }

    /// Adds the value to a report.
    pub fn snapshot_into(&self, out: &mut TextMap<u64>)
        requires
            old(out).wf(),
        ensures
            final(out).wf(),
            final(out)@ == old(out)@.insert(self.name@, self.value),
    {
        out.insert(self.name, self.value);
    }
}

/// The last value seen.
#[derive(Debug)]
pub struct Gauge {
    pub name: &'static str,
    pub value: u64,
}

impl Gauge {
    pub fn new(name: &'static str) -> (gauge: Gauge)
        ensures
            gauge == (Gauge { name, value: 0 }),
    {
        Gauge { name, value: 0 }
    }

    pub fn set(&mut self, value: u64)
        ensures
            *final(self) == (Gauge { name: old(self).name, value }),
    {
        self.value = value;
    }

    /// Adds the value to a report.
    pub fn snapshot_into(&self, out: &mut TextMap<u64>)
        requires
            old(out).wf(),
        ensures
            final(out).wf(),
            final(out)@ == old(out)@.insert(self.name@, self.value),
    {
        out.insert(self.name, self.value);
    }
}

/// All the counters of a process and what it has reported.
#[derive(Debug)]
pub struct Telemetry {
    pub enabled: bool,
    pub core: CoreCounters,
    pub base: BaseCounters,
    pub summary_emitted: bool,
    pub checkpoint_seq: u64,
}

impl Telemetry {
    /// Each counter has its own name.
    pub open spec fn named(self) -> bool {
        self.core.named() && self.base.named()
    }

    /// Counters at zero.
    pub fn new(enabled: bool) -> (telemetry: Telemetry)
        ensures
            telemetry.enabled == enabled,
            telemetry.core.zeroed(),
            telemetry.base.zeroed(),
            telemetry.named(),
            !telemetry.summary_emitted,
            telemetry.checkpoint_seq == 0,
    {
        Telemetry {
            enabled,
            core: CoreCounters::new(),
            base: BaseCounters::new(),
            summary_emitted: false,
            checkpoint_seq: 0,
        }
    }
}

/// Whether counters are kept.
pub fn is_enabled(telemetry: &Telemetry) -> (yes: bool)
    ensures
        yes == telemetry.enabled,
{
    telemetry.enabled
}

/// A running measurement, or none while counters are not kept. Times are nanoseconds of a
/// clock that does not go back.
#[derive(Debug, Default)]
pub struct TimerGuard {
    pub started: Option<u128>,
}

impl TimerGuard {
    fn disarmed() -> (guard: TimerGuard)
        ensures
            guard.started is None,
    {
        TimerGuard { started: None }
    }

    /// Ends the measurement and counts its duration.
    pub fn stop(self, slot: &mut Timer, now: u128)
        ensures
            *final(slot) == match self.started {
                Some(started) => old(slot).plus(
                    if now > started {
                        (now - started) as u128
                    } else {
                        0
                    },
                ),
                None => *old(slot),
            },
    {
        if let Some(started) = self.started {
            let elapsed: u128 = if now > started {
                now - started
            } else {
                0
            };
            slot.record(elapsed);
        }
    }
}

/// Starts a measurement, if counters are kept.
pub fn timer(telemetry: &Telemetry, now: u128) -> (guard: TimerGuard)
    ensures
        guard.started == if telemetry.enabled {
            Some(now)
        } else {
            None
        },
{
    if is_enabled(telemetry) {
        TimerGuard { started: Some(now) }
    } else {
        TimerGuard::disarmed()
    }
}

/// The sections of adapters, each under its own name.
#[derive(Debug)]
pub struct Registry<S> {
    pub names: Vec<&'static str>,
    pub sections: Vec<S>,
}

/// What sections under these names add to others. A section under the name of one before it
/// takes that one's place.
pub open spec fn with_sections(
    base: Map<Seq<char>, Map<Seq<char>, u64>>,
    names: Seq<Seq<char>>,
    reports: Seq<TextMap<u64>>,
) -> Map<Seq<char>, Map<Seq<char>, u64>>
    decreases names.len(),
{
    if names.len() == 0 || reports.len() == 0 {
        base
    } else {
        with_sections(base, names.drop_last(), reports.drop_last()).insert(
            names.last(),
            reports.last()@,
        )
    }
}

/// The counters of the process and of registered sections, by section.
pub open spec fn process_sections(
    telemetry: Telemetry,
    names: Seq<Seq<char>>,
    reports: Seq<TextMap<u64>>,
) -> Map<Seq<char>, Map<Seq<char>, u64>> {
    with_sections(
        Map::empty().insert("core"@, telemetry.core.counters()).insert(
            "base"@,
            telemetry.base.counters(),
        ),
        names,
        reports,
    )
}

impl<S: TelemetrySection> Registry<S> {
    /// Every section has a name, and no two have the same.
    pub open spec fn wf(self) -> bool {
        &&& self.names@.len() == self.sections@.len()
        &&& texts(self.names@).no_duplicates()
    }

    /// Whether these are counters that the sections gave.
    pub open spec fn gave(self, reports: Seq<TextMap<u64>>) -> bool {
        &&& reports.len() == self.sections@.len()
        &&& forall|i: int|
            0 <= i < reports.len() ==> call_ensures(
                S::snapshot,
                (&self.sections@[i],),
                #[trigger] reports[i],
            )
    }

    pub fn new() -> (registry: Registry<S>)
        ensures
            registry.wf(),
            registry.names@.len() == 0,
            registry.sections@.len() == 0,
    {
        let registry = Registry { names: Vec::new(), sections: Vec::new() };
        assert(texts(registry.names@) =~= Seq::<Seq<char>>::empty());
        registry
    }

    /// Adds a section under a name, unless one of that name is there.
    pub fn register_as(&mut self, name: &'static str, section: S)
        requires
            old(self).wf(),
        ensures
            final(self).wf(),
            texts(old(self).names@).contains(name@) ==> *final(self) == *old(self),
            !texts(old(self).names@).contains(name@) ==> final(self).names@ == old(
                self,
            ).names@.push(name) && final(self).sections@ == old(self).sections@.push(section),
    {
        let ghost known = texts(self.names@);
        let len: usize = self.names.len();
        let mut i: usize = 0;
        while i < len
            invariant
                len == self.names@.len(),
                i <= len,
                *self == *old(self),
                old(self).wf(),
                known == texts(self.names@),
                forall|k: int| 0 <= k < i ==> #[trigger] known[k] != name@,
            decreases len - i,
        {
            assert(known[i as int] == self.names@[i as int]@);
            if same_text(self.names[i], name) {
                assert(known.contains(name@));
                return ;
            }
            i += 1;
        }
        self.names.push(name);
        self.sections.push(section);
        assert(texts(self.names@) =~= known.push(name@));
    }

    /// Adds a section under its name, unless one of that name is there.
    pub fn register(&mut self, section: S)
        requires
            old(self).wf(),
        ensures
            final(self).wf(),
            exists|name: &'static str| #[trigger]
                call_ensures(S::name, (&section,), name) && if texts(old(self).names@).contains(
                    name@,
                ) {
                    *final(self) == *old(self)
                } else {
                    final(self).names@ == old(self).names@.push(name) && final(self).sections@
                        == old(self).sections@.push(section)
                },
    {
        let name: &'static str = section.name();
        self.register_as(name, section);
    }

    /// The counters of the process and of every section.
    pub fn snapshot(&self, telemetry: &Telemetry) -> (snapshot: ProfileSnapshot)
        requires
            self.wf(),
        ensures
            snapshot.wf(),
            exists|reports: Seq<TextMap<u64>>| #[trigger]
                self.gave(reports) && snapshot@ == process_sections(
                    *telemetry,
                    texts(self.names@),
                    reports,
                ),
    {
        snapshot(telemetry, self)
    }
}

/// Counters at one time, by section.
#[derive(Clone, Debug, PartialEq, Eq, Default)]
pub struct ProfileSnapshot {
    pub sections: TextMap<TextMap<u64>>,
}

impl View for ProfileSnapshot {
    type V = Map<Seq<char>, Map<Seq<char>, u64>>;

    open spec fn view(&self) -> Map<Seq<char>, Map<Seq<char>, u64>> {
        self.sections@.map_values(|section: TextMap<u64>| section@)
    }
}

/// All counters of some sections, where later sections prevail.
pub open spec fn flattened(sections: Seq<TextMap<u64>>) -> Map<Seq<char>, u64>
    decreases sections.len(),
{
    if sections.len() == 0 {
        Map::empty()
    } else {
        flattened(sections.drop_last()).union_prefer_right(sections.last()@)
    }
}

/// A map with the first entries of another put over it.
spec fn overlaid(
    below: Map<Seq<char>, u64>,
    section: TextMap<u64>,
    count: int,
) -> Map<Seq<char>, u64> {
    Map::new(
        |key: Seq<char>|
            below.contains_key(key) || section.names().take(count).contains(key),
        |key: Seq<char>|
            if section.names().take(count).contains(key) {
                section@[key]
            } else {
                below[key]
            },
    )
}

impl ProfileSnapshot {
    /// Every section is a proper map.
    pub open spec fn wf(self) -> bool {
        &&& self.sections.wf()
        &&& forall|i: int|
            0 <= i < self.sections.entries().len() ==> (#[trigger] self.sections.entries()[i]).wf()
    }

    /// All counters together. Of counters with the same name, the one of the last section in
    /// the order of names counts.
    pub fn flat(&self) -> (counters: TextMap<u64>)
        requires
            self.wf(),
        ensures
            counters.wf(),
            counters@ == flattened(self.sections.entries()),
    {
        let ghost all = self.sections.entries();
        let mut counters: TextMap<u64> = TextMap::new();
        let len: usize = self.sections.values().len();
        let mut i: usize = 0;
        assert(all.take(0) =~= Seq::<TextMap<u64>>::empty());
        while i < len
            invariant
                len == all.len(),
                i <= len,
                all == self.sections.entries(),
                self.wf(),
                counters.wf(),
                counters@ == flattened(all.take(i as int)),
            decreases len - i,
        {
            let section: &TextMap<u64> = &self.sections.values()[i];
            let ghost below = counters@;
            let ghost names = section.names();
            let entries: usize = section.keys().len();
            let mut j: usize = 0;
            assert(names.take(0) =~= Seq::<Seq<char>>::empty());
            assert(counters@ =~= overlaid(below, *section, 0));
            while j < entries
                invariant
                    entries == section.names().len(),
                    j <= entries,
                    section.wf(),
                    names == section.names(),
                    counters.wf(),
                    counters@ == overlaid(below, *section, j as int),
                decreases entries - j,
            {
                proof {
                    section.entry_at(j as int);
                    let part = names.take(j as int);
                    let more = names.take(j + 1);
                    assert(more =~= part.push(section.names()[j as int]));
                    assert forall|key: Seq<char>| #[trigger]
                        more.contains(key) <==> part.contains(key) || key
                            == section.names()[j as int] by {
                        if part.contains(key) {
                            let k = part.index_of(key);
                            assert(more[k] == key);
                        }
                        assert(more[j as int] == section.names()[j as int]);
                    }
                    assert(overlaid(below, *section, j + 1) =~= overlaid(
                        below,
                        *section,
                        j as int,
                    ).insert(section.names()[j as int], section.entries()[j as int]));
                }
                counters.insert(section.keys()[j].as_str(), section.values()[j]);
                j += 1;
            }
            proof {
                assert(names.take(j as int) =~= names);
                assert(overlaid(below, *section, j as int) =~= below.union_prefer_right(section@));
                assert(all.take(i + 1).drop_last() =~= all.take(i as int));
                assert(all.take(i + 1).last() == *section);
            }
            i += 1;
        }
        assert(all.take(i as int) =~= all);
        counters
    }

    /// The value of a counter, zero if there is none.
    pub fn counter(&self, name: &str) -> (value: u64)
        requires
            self.wf(),
        ensures
            value == if flattened(self.sections.entries()).contains_key(name@) {
                flattened(self.sections.entries())[name@]
            } else {
                0
            },
    {
        let counters: TextMap<u64> = self.flat();
        match counters.get(name) {
            Some(value) => *value,
            None => 0,
        }
    }
}

fn put_section(sections: &mut TextMap<TextMap<u64>>, name: &str, counters: TextMap<u64>)
    requires
        old(sections).wf(),
        counters.wf(),
        forall|i: int|
            0 <= i < old(sections).entries().len() ==> (#[trigger] old(sections).entries()[i]).wf(),
    ensures
        final(sections).wf(),
        forall|i: int|
            0 <= i < final(sections).entries().len() ==> (
            #[trigger] final(sections).entries()[i]).wf(),
        final(sections)@.map_values(|section: TextMap<u64>| section@) == old(
            sections,
        )@.map_values(|section: TextMap<u64>| section@).insert(name@, counters@),
{
    let ghost before = sections@;
    let ghost values = sections.entries();
    sections.insert(name, counters);
    proof {
        assert forall|i: int| 0 <= i < sections.entries().len() implies (
        #[trigger] sections.entries()[i]).wf() by {
            if sections.entries()[i] != counters {
                let k = values.index_of(sections.entries()[i]);
                assert(values[k].wf());
            }
        }
        let models = |section: TextMap<u64>| section@;
        assert(sections@.map_values(models) =~= before.map_values(models).insert(
            name@,
            counters@,
        ));
    }
}

/// The counters of the process, and those that sections gave, by section.
pub fn assemble(telemetry: &Telemetry, names: &Vec<&'static str>, reports: Vec<TextMap<u64>>) -> (snapshot:
    ProfileSnapshot)
    requires
        names@.len() == reports@.len(),
        forall|i: int| 0 <= i < reports@.len() ==> (#[trigger] reports@[i]).wf(),
    ensures
        snapshot.wf(),
        snapshot@ == process_sections(*telemetry, texts(names@), reports@),
{
    let mut sections: TextMap<TextMap<u64>> = TextMap::new();
    let ghost models = |section: TextMap<u64>| section@;
    assert(sections@.map_values(models) =~= Map::<Seq<char>, Map<Seq<char>, u64>>::empty());
    put_section(&mut sections, telemetry.core.name(), telemetry.core.snapshot());
    put_section(&mut sections, telemetry.base.name(), telemetry.base.snapshot());
    let ghost base = sections@.map_values(models);
    let ghost known = texts(names@);
    let ghost all = reports@;
    let len: usize = names.len();
    let mut rest: Vec<TextMap<u64>> = reports;
    let mut i: usize = 0;
    assert(known.take(0) =~= Seq::<Seq<char>>::empty());
    assert(all.skip(0) =~= all);
    while i < len
        invariant
            len == names@.len(),
            len == all.len(),
            i <= len,
            known == texts(names@),
            rest@ == all.skip(i as int),
            forall|k: int| 0 <= k < all.len() ==> (#[trigger] all[k]).wf(),
            sections.wf(),
            forall|k: int|
                0 <= k < sections.entries().len() ==> (#[trigger] sections.entries()[k]).wf(),
            models == (|section: TextMap<u64>| section@),
            sections@.map_values(models) == with_sections(
                base,
                known.take(i as int),
                all.take(i as int),
            ),
        decreases len - i,
    {
        proof {
            assert(known.take(i + 1).drop_last() =~= known.take(i as int));
            assert(known.take(i + 1).last() == names@[i as int]@);
            assert(all.take(i + 1).drop_last() =~= all.take(i as int));
            assert(rest@[0] == all[i as int]);
            assert(rest@.remove(0) =~= all.skip(i + 1));
        }
        let report: TextMap<u64> = rest.remove(0);
        put_section(&mut sections, names[i], report);
        i += 1;
    }
    assert(known.take(i as int) =~= known);
    assert(all.take(i as int) =~= all);
    ProfileSnapshot { sections }
}

/// The counters of the process and of every registered section.
pub fn snapshot<S: TelemetrySection>(telemetry: &Telemetry, registry: &Registry<S>) -> (snapshot:
    ProfileSnapshot)
    requires
        registry.wf(),
    ensures
        snapshot.wf(),
        exists|reports: Seq<TextMap<u64>>| #[trigger]
            registry.gave(reports) && snapshot@ == process_sections(
                *telemetry,
                texts(registry.names@),
                reports,
            ),
{
    let mut reports: Vec<TextMap<u64>> = Vec::new();
    let len: usize = registry.sections.len();
    let mut i: usize = 0;
    while i < len
        invariant
            len == registry.sections@.len(),
            i <= len,
            reports@.len() == i,
            forall|k: int|
                0 <= k < i ==> (#[trigger] reports@[k]).wf() && call_ensures(
                    S::snapshot,
                    (&registry.sections@[k],),
                    reports@[k],
                ),
        decreases len - i,
    {
        let report: TextMap<u64> = registry.sections[i].snapshot();
        reports.push(report);
        i += 1;
    }
    assert(registry.gave(reports@));
    assemble(telemetry, &registry.names, reports)
}

/// A member of a report.
#[derive(Debug)]
pub enum JsonPart<'a> {
    Text(String),
    Flag(bool),
    Counters(&'a TextMap<u64>),
    Sections(&'a TextMap<TextMap<u64>>),
}

/// A member of a report as a mathematical value.
pub enum PartModel {
    Text(Seq<char>),
    Flag(bool),
    Counters(Map<Seq<char>, u64>),
    Sections(Map<Seq<char>, Map<Seq<char>, u64>>),
}

impl<'a> JsonPart<'a> {
    /// The maps in a member are proper maps.
    pub open spec fn wf(self) -> bool {
        match self {
            JsonPart::Counters(counters) => counters.wf(),
            JsonPart::Sections(sections) => sections.wf() && forall|i: int|
                0 <= i < sections.entries().len() ==> (#[trigger] sections.entries()[i]).wf(),
            _ => true,
        }
    }
}

impl<'a> View for JsonPart<'a> {
    type V = PartModel;

    open spec fn view(&self) -> PartModel {
        match self {
            JsonPart::Text(text) => PartModel::Text(text@),
            JsonPart::Flag(flag) => PartModel::Flag(*flag),
            JsonPart::Counters(counters) => PartModel::Counters(counters@),
            JsonPart::Sections(sections) => PartModel::Sections(
                sections@.map_values(|section: TextMap<u64>| section@),
            ),
        }
    }
}

pub open spec fn members_view<'a>(members: Seq<(String, JsonPart<'a>)>) -> Seq<
    (Seq<char>, PartModel),
> {
    members.map_values(|member: (String, JsonPart)| (member.0@, member.1@))
}

/// The JSON text of an object with these members.
pub uninterp spec fn json_object(members: Seq<(Seq<char>, PartModel)>) -> Seq<char>;

/// `serde_json::Value::to_string` of an object with the given members: its JSON text. The
/// text depends on nothing but the members. Each map is written by its keys and values, so it
/// has to be a proper one.
#[verifier::external_body]
fn json_text(members: Vec<(String, JsonPart)>) -> (text: String)
    requires
        forall|i: int| 0 <= i < members@.len() ==> (#[trigger] members@[i]).1.wf(),
    ensures
        text@ == json_object(members_view(members@)),
{
    let counters = |map: &TextMap<u64>| -> serde_json::Value {
        map.keys.iter().cloned().zip(map.values.iter().copied()).collect()
    };
    let value = |part: JsonPart| -> serde_json::Value {
        match part {
            JsonPart::Text(text) => text.into(),
            JsonPart::Flag(flag) => flag.into(),
            JsonPart::Counters(map) => counters(map),
            JsonPart::Sections(map) => {
                map.keys.iter().cloned().zip(map.values.iter().map(counters)).collect()
            },
        }
    };
    members.into_iter().map(|m| (m.0, value(m.1))).collect::<serde_json::Value>().to_string()
}

/// Whether reads can be passed through to the base file.
pub fn passthrough_supported() -> (yes: bool)
    ensures
        !yes,
{
    false
}

/// What reads of base files go through instead.
pub fn passthrough_fallback_read_path() -> (path: &'static str)
    ensures
        path@ == "hostfs"@,
{
    "hostfs"
}

/// The members of a report.
pub open spec fn summary_members(
    event: Seq<char>,
    source: Seq<char>,
    snapshot: ProfileSnapshot,
) -> Seq<(Seq<char>, PartModel)> {
    seq![
        ("event"@, PartModel::Text(event)),
        ("source"@, PartModel::Text(source)),
        ("sections"@, PartModel::Sections(snapshot@)),
        ("counters"@, PartModel::Counters(flattened(snapshot.sections.entries()))),
        ("passthrough_supported"@, PartModel::Flag(false)),
        ("fallback_read_path"@, PartModel::Text("hostfs"@)),
    ]
}

/// The report of an event: its source, the counters by section and all together, and how
/// base files are read.
pub fn summary_payload(event: &str, source: &str, snapshot: &ProfileSnapshot) -> (payload: String)
    requires
        snapshot.wf(),
    ensures
        payload@ == json_object(summary_members(event@, source@, *snapshot)),
{
    let counters: TextMap<u64> = snapshot.flat();
    let mut members: Vec<(String, JsonPart)> = Vec::new();
    members.push(("event".to_owned(), JsonPart::Text(event.to_owned())));
    members.push(("source".to_owned(), JsonPart::Text(source.to_owned())));
    members.push(("sections".to_owned(), JsonPart::Sections(&snapshot.sections)));
    members.push(("counters".to_owned(), JsonPart::Counters(&counters)));
    members.push(("passthrough_supported".to_owned(), JsonPart::Flag(passthrough_supported())));
    members.push(
        (
            "fallback_read_path".to_owned(),
            JsonPart::Text(passthrough_fallback_read_path().to_owned()),
        ),
    );
    assert(members_view(members@) =~= summary_members(event@, source@, *snapshot));
    json_text(members)
}

/// Whether a payload is the report of an event with the present counters.
pub open spec fn reports<S: TelemetrySection>(
    payload: Seq<char>,
    event: Seq<char>,
    source: Seq<char>,
    telemetry: Telemetry,
    registry: Registry<S>,
) -> bool {
    exists|snapshot: ProfileSnapshot, reports: Seq<TextMap<u64>>|
        {
            &&& #[trigger] snapshot.wf()
            &&& #[trigger] registry.gave(reports)
            &&& snapshot@ == process_sections(telemetry, texts(registry.names@), reports)
            &&& payload == json_object(summary_members(event, source, snapshot))
        }
}

/// The report of the whole process, which is made at most once and only if counters are
/// kept.
pub fn take_summary_payload<S: TelemetrySection>(
    telemetry: &mut Telemetry,
    registry: &Registry<S>,
    event: &str,
    source: &str,
) -> (payload: Option<String>)
    requires
        registry.wf(),
    ensures
        payload is Some <==> old(telemetry).enabled && !old(telemetry).summary_emitted,
        payload matches Some(text) ==> reports(
            text@,
            event@,
            source@,
            *old(telemetry),
            *registry,
        ),
        *final(telemetry) == (Telemetry {
            summary_emitted: old(telemetry).summary_emitted || old(telemetry).enabled,
            ..*old(telemetry)
        }),
{
    if !is_enabled(telemetry) {
        return None;
    }
    if telemetry.summary_emitted {
        return None;
    }
    let now: ProfileSnapshot = snapshot(telemetry, registry);
    telemetry.summary_emitted = true;
    Some(summary_payload(event, source, &now))
}

/// A report of the counters so far, tagged with the number of the checkpoint.
pub fn checkpoint_payload<S: TelemetrySection>(
    telemetry: &mut Telemetry,
    registry: &Registry<S>,
    event: &str,
) -> (payload: Option<String>)
    requires
        registry.wf(),
        old(telemetry).checkpoint_seq < u64::MAX,
    ensures
        payload is Some <==> old(telemetry).enabled,
        payload matches Some(text) ==> reports(
            text@,
            event@,
            "phase-checkpoint-"@ + decimal((old(telemetry).checkpoint_seq + 1) as nat),
            *old(telemetry),
            *registry,
        ),
        *final(telemetry) == (Telemetry {
            checkpoint_seq: if old(telemetry).enabled {
                (old(telemetry).checkpoint_seq + 1) as u64
            } else {
                old(telemetry).checkpoint_seq
            },
            ..*old(telemetry)
        }),
{
    if !is_enabled(telemetry) {
        return None;
    }
    let now: ProfileSnapshot = snapshot(telemetry, registry);
    let number: u64 = telemetry.checkpoint_seq + 1;
    telemetry.checkpoint_seq = number;
    let mut source: String = "phase-checkpoint-".to_owned();
    source.append(u64_to_text(number).as_str());
    Some(summary_payload(event, source.as_str(), &now))
}

/// Sections that are registered under other names leave a section as it was.
proof fn lemma_other_sections(
    base: Map<Seq<char>, Map<Seq<char>, u64>>,
    names: Seq<Seq<char>>,
    reports: Seq<TextMap<u64>>,
    name: Seq<char>,
    section: Map<Seq<char>, u64>,
)
    requires
        !names.contains(name),
    ensures
        with_sections(base.insert(name, section), names, reports) == with_sections(
            base,
            names,
            reports,
        ).insert(name, section),
        base.contains_key(name) ==> with_sections(base, names, reports).contains_key(name)
            && with_sections(base, names, reports)[name] == base[name],
    decreases names.len(),
{
    if names.len() > 0 && reports.len() > 0 {
        assert(names.contains(names.last()));
        assert forall|k: Seq<char>| names.drop_last().contains(k) implies names.contains(k) by {
            let i = names.drop_last().index_of(k);
            assert(names[i] == k);
        }
        lemma_other_sections(base, names.drop_last(), reports.drop_last(), name, section);
        assert(with_sections(base.insert(name, section), names, reports) =~= with_sections(
            base,
            names,
            reports,
        ).insert(name, section));
    }
}

/// A counter of the core that changed is the only entry of a snapshot that changed, as long
/// as nothing else is registered under the name of that section.
pub proof fn a_core_record_changes_one_entry(
    before: Telemetry,
    after: Telemetry,
    names: Seq<Seq<char>>,
    reports: Seq<TextMap<u64>>,
    counter: Seq<char>,
    value: u64,
)
    requires
        after.base == before.base,
        after.core.counters() == before.core.counters().insert(counter, value),
        !names.contains("core"@),
    ensures
        ({
            let then = process_sections(before, names, reports);
            process_sections(after, names, reports) == then.insert(
                "core"@,
                then["core"@].insert(counter, value),
            )
        }),
{
    reveal_strlit("core");
    reveal_strlit("base");
    assert("core"@[0] != "base"@[0]);
    let own = Map::empty().insert("core"@, before.core.counters()).insert(
        "base"@,
        before.base.counters(),
    );
    lemma_other_sections(own, names, reports, "core"@, after.core.counters());
    assert(own.insert("core"@, after.core.counters()) =~= Map::empty().insert(
        "core"@,
        after.core.counters(),
    ).insert("base"@, after.base.counters()));
}

/// A counter of base files that changed is the only entry of a snapshot that changed, as long
/// as nothing else is registered under the name of that section.
pub proof fn a_base_record_changes_one_entry(
    before: Telemetry,
    after: Telemetry,
    names: Seq<Seq<char>>,
    reports: Seq<TextMap<u64>>,
    counter: Seq<char>,
    value: u64,
)
    requires
        after.core == before.core,
        after.base.counters() == before.base.counters().insert(counter, value),
        !names.contains("base"@),
    ensures
        ({
            let then = process_sections(before, names, reports);
            process_sections(after, names, reports) == then.insert(
                "base"@,
                then["base"@].insert(counter, value),
            )
        }),
{
    let own = Map::empty().insert("core"@, before.core.counters()).insert(
        "base"@,
        before.base.counters(),
    );
    lemma_other_sections(own, names, reports, "base"@, after.base.counters());
    assert(own.insert("base"@, after.base.counters()) =~= Map::empty().insert(
        "core"@,
        after.core.counters(),
    ).insert("base"@, after.base.counters()));
}

/// Every snapshot has the sections of the process.
pub proof fn snapshots_have_core_and_base_sections(
    telemetry: Telemetry,
    names: Seq<Seq<char>>,
    reports: Seq<TextMap<u64>>,
)
    ensures
        process_sections(telemetry, names, reports).contains_key("core"@),
        process_sections(telemetry, names, reports).contains_key("base"@),
    decreases names.len(),
{
    if names.len() > 0 && reports.len() > 0 {
        snapshots_have_core_and_base_sections(telemetry, names.drop_last(), reports.drop_last());
    }
}

/// A snapshot has every registered section, with the counters that it gave.
pub proof fn snapshots_have_every_registered_section(
    telemetry: Telemetry,
    names: Seq<Seq<char>>,
    reports: Seq<TextMap<u64>>,
    at: int,
)
    requires
        names.no_duplicates(),
        names.len() == reports.len(),
        0 <= at < names.len(),
    ensures
        process_sections(telemetry, names, reports).contains_key(names[at]),
        process_sections(telemetry, names, reports)[names[at]] == reports[at]@,
    decreases names.len(),
{
    if at < names.len() - 1 {
        snapshots_have_every_registered_section(
            telemetry,
            names.drop_last(),
            reports.drop_last(),
            at,
        );
    }
}

} // verus!
