//! What a snapshot of the counters shows, and how often it is reported.
use crate::telemetry::{
    ProfileSnapshot, Registry, Telemetry, TelemetrySection, assemble, checkpoint_payload,
    flattened, take_summary_payload, with_sections,
};
use crate::text::texts;
use crate::text_map::TextMap;
use vstd::prelude::*;

verus! {

proof fn lemma_last_prevails(sections: Seq<TextMap<u64>>, name: Seq<char>, at: int)
    requires
        0 <= at < sections.len(),
        sections[at]@.contains_key(name),
        forall|k: int| at < k < sections.len() ==> !(#[trigger] sections[k])@.contains_key(name),
    ensures
        flattened(sections).contains_key(name),
        flattened(sections)[name] == sections[at]@[name],
    decreases sections.len(),
{
    if at < sections.len() - 1 {
        let rest = sections.drop_last();
        assert(!sections[sections.len() - 1]@.contains_key(name));
        assert forall|k: int| at < k < rest.len() implies !(#[trigger] rest[k])@.contains_key(
            name,
        ) by {
            assert(rest[k] == sections[k]);
        }
        lemma_last_prevails(rest, name, at);
    }
}

proof fn lemma_in_no_section(sections: Seq<TextMap<u64>>, name: Seq<char>)
    requires
        forall|k: int| 0 <= k < sections.len() ==> !(#[trigger] sections[k])@.contains_key(name),
    ensures
        !flattened(sections).contains_key(name),
    decreases sections.len(),
{
    if sections.len() > 0 {
        let rest = sections.drop_last();
        assert(!sections[sections.len() - 1]@.contains_key(name));
        assert forall|k: int| 0 <= k < rest.len() implies !(#[trigger] rest[k])@.contains_key(
            name,
        ) by {
            assert(rest[k] == sections[k]);
        }
        lemma_in_no_section(rest, name);
    }
}

/// A counter has the value that the last section with its name gives it, and is zero where no
/// section has it.
pub proof fn the_last_section_with_a_counter_prevails(
    snapshot: ProfileSnapshot,
    name: &str,
    value: u64,
    at: int,
)
    requires
        snapshot.wf(),
        call_ensures(ProfileSnapshot::counter, (&snapshot, name), value),
    ensures
        ({
            let sections = snapshot.sections.entries();
            &&& 0 <= at < sections.len() && sections[at]@.contains_key(name@) && (forall|k: int|
                at < k < sections.len() ==> !(#[trigger] sections[k])@.contains_key(name@))
                ==> value == sections[at]@[name@]
            &&& (forall|k: int|
                0 <= k < sections.len() ==> !(#[trigger] sections[k])@.contains_key(name@))
                ==> value == 0
        }),
{
    let sections = snapshot.sections.entries();
    if 0 <= at < sections.len() && sections[at]@.contains_key(name@) && (forall|k: int|
        at < k < sections.len() ==> !(#[trigger] sections[k])@.contains_key(name@)) {
        lemma_last_prevails(sections, name@, at);
    }
    if forall|k: int| 0 <= k < sections.len() ==> !(#[trigger] sections[k])@.contains_key(name@) {
        lemma_in_no_section(sections, name@);
    }
}

proof fn lemma_own_section(
    base: Map<Seq<char>, Map<Seq<char>, u64>>,
    names: Seq<Seq<char>>,
    reports: Seq<TextMap<u64>>,
    own: Seq<char>,
)
    requires
        base.contains_key(own),
        !names.contains(own),
    ensures
        with_sections(base, names, reports).contains_key(own),
        with_sections(base, names, reports)[own] == base[own],
    decreases names.len(),
{
    if names.len() > 0 && reports.len() > 0 {
        let rest = names.drop_last();
        assert(names[names.len() - 1] != own);
        assert forall|k: int| 0 <= k < rest.len() implies #[trigger] rest[k] != own by {
            assert(rest[k] == names[k]);
        }
        lemma_own_section(base, rest, reports.drop_last(), own);
    }
}

/// A snapshot has the counters of the process under `core` and of base files under `base`,
/// unless a section was registered under that name.
pub proof fn a_snapshot_has_the_sections_of_the_process(
    telemetry: Telemetry,
    names: Vec<&'static str>,
    reports: Vec<TextMap<u64>>,
    snapshot: ProfileSnapshot,
)
    requires
        names@.len() == reports@.len(),
        forall|i: int| 0 <= i < reports@.len() ==> (#[trigger] reports@[i]).wf(),
        call_ensures(assemble, (&telemetry, &names, reports), snapshot),
    ensures
        !texts(names@).contains("core"@) ==> snapshot@.contains_key("core"@) && snapshot@["core"@]
            == telemetry.core.counters(),
        !texts(names@).contains("base"@) ==> snapshot@.contains_key("base"@) && snapshot@["base"@]
            == telemetry.base.counters(),
        names@.len() > 0 ==> snapshot@.contains_key(names@.last()@) && snapshot@[names@.last()@]
            == reports@.last()@,
{
    let own = Map::empty().insert("core"@, telemetry.core.counters()).insert(
        "base"@,
        telemetry.base.counters(),
    );
    let given = texts(names@);
    reveal_strlit("core");
    reveal_strlit("base");
    assert("core"@[0] != "base"@[0]);
    assert(given.len() == names@.len());
    if !given.contains("core"@) {
        lemma_own_section(own, given, reports@, "core"@);
    }
    if !given.contains("base"@) {
        lemma_own_section(own, given, reports@, "base"@);
    }
    if names@.len() > 0 {
        assert(given.last() == names@.last()@);
    }
}

/// The first section that is registered under a name keeps it.
pub proof fn the_first_section_of_a_name_stays<S: TelemetrySection>(
    registry: &mut Registry<S>,
    name: &'static str,
    section: S,
    i: int,
)
    requires
        old(registry).wf(),
        call_ensures(Registry::<S>::register_as, (registry, name, section), ()),
    ensures
        texts(final(registry).names@).contains(name@),
        texts(old(registry).names@).contains(name@) ==> *final(registry) == *old(registry),
        !texts(old(registry).names@).contains(name@) ==> {
            &&& final(registry).names@.len() == old(registry).names@.len() + 1
            &&& final(registry).names@.last()@ == name@
            &&& final(registry).sections@.last() == section
        },
        0 <= i < old(registry).sections@.len() ==> final(registry).names@[i]
            == old(registry).names@[i] && final(registry).sections@[i]
            == old(registry).sections@[i],
{
    let after = final(registry).names@;
    if !texts(old(registry).names@).contains(name@) {
        assert(texts(after)[after.len() - 1] == name@);
    }
}

/// The report of the whole process is made once, and only where counters are kept.
pub proof fn the_whole_process_is_reported_once<S: TelemetrySection>(
    telemetry: &mut Telemetry,
    again: &mut Telemetry,
    registry: Registry<S>,
    event: &str,
    source: &str,
    first: Option<String>,
    second: Option<String>,
)
    requires
        registry.wf(),
        call_ensures(take_summary_payload::<S>, (telemetry, &registry, event, source), first),
        *old(again) == *final(telemetry),
        call_ensures(take_summary_payload::<S>, (again, &registry, event, source), second),
    ensures
        first is Some <==> old(telemetry).enabled && !old(telemetry).summary_emitted,
        second is None,
        final(telemetry).core == old(telemetry).core && final(telemetry).base
            == old(telemetry).base,
        final(telemetry).checkpoint_seq == old(telemetry).checkpoint_seq,
{
}

/// Checkpoints are numbered where counters are kept, and otherwise not reported.
pub proof fn checkpoints_are_numbered<S: TelemetrySection>(
    telemetry: &mut Telemetry,
    registry: Registry<S>,
    event: &str,
    payload: Option<String>,
)
    requires
        registry.wf(),
        old(telemetry).checkpoint_seq < u64::MAX,
        call_ensures(checkpoint_payload::<S>, (telemetry, &registry, event), payload),
    ensures
        payload is Some <==> old(telemetry).enabled,
        old(telemetry).enabled ==> final(telemetry).checkpoint_seq == old(telemetry).checkpoint_seq
            + 1,
        !old(telemetry).enabled ==> *final(telemetry) == *old(telemetry),
        final(telemetry).core == old(telemetry).core && final(telemetry).base
            == old(telemetry).base,
        final(telemetry).summary_emitted == old(telemetry).summary_emitted,
{
}

} // verus!
