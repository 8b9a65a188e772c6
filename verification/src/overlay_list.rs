//! Directory listings of the overlay: entries of both layers, without hidden ones.
use crate::lookup::DirEntry;
use crate::overlay_maps::{Layer, MapsModel, OverlayMaps, child_path, join_path};
use crate::stats::Stats;
use crate::text::{same_text, strings};
use crate::text_map::TextMap;
use crate::text_order::{in_order, lemma_inserted_in_order, slot};
use crate::whiteouts::{Whiteouts, hidden_names, hides};
use std::collections::HashMap;
use vstd::prelude::*;

verus! {

broadcast use vstd::std_specs::hash::group_hash_axioms;

/// Whether a directory shows a name that one of the layers has.
pub open spec fn shows(hidden: Set<Seq<char>>, dir: Seq<char>, name: Seq<char>) -> bool {
    !hides(hidden, child_path(dir, name)) && !hidden_names(hidden, dir).contains(name)
}

fn is_shown(whiteouts: &Whiteouts, dir: &str, child_whiteouts: &Vec<String>, name: &str) -> (yes:
    bool)
    requires
        strings(child_whiteouts@).to_set() == hidden_names(whiteouts@, dir@),
    ensures
        yes == shows(whiteouts@, dir@, name@),
{
    let path: String = join_path(dir, name);
    if whiteouts.is_whiteout(path.as_str()) {
        return false;
    }
    let ghost all = strings(child_whiteouts@);
    let mut i: usize = 0;
    while i < child_whiteouts.len()
        invariant
            i <= child_whiteouts@.len(),
            all == strings(child_whiteouts@),
            all.to_set() == hidden_names(whiteouts@, dir@),
            forall|k: int| 0 <= k < i ==> #[trigger] all[k] != name@,
        decreases child_whiteouts@.len() - i,
    {
        assert(all[i as int] == child_whiteouts@[i as int]@);
        if same_text(child_whiteouts[i].as_str(), name) {
            assert(all.contains(name@));
            assert(all.to_set().contains(name@));
            return false;
        }
        i += 1;
    }
    assert(!all.to_set().contains(name@)) by {
        if all.contains(name@) {
            let k = choose|k: int| 0 <= k < all.len() && all[k] == name@;
        }
    }
    true
}

/// The names among `names` that a directory shows.
pub open spec fn shown_names(
    hidden: Set<Seq<char>>,
    dir: Seq<char>,
    names: Seq<Seq<char>>,
) -> Set<Seq<char>> {
    Set::new(|name: Seq<char>| names.contains(name) && shows(hidden, dir, name))
}

fn add_shown(
    listed: &mut Vec<String>,
    whiteouts: &Whiteouts,
    dir: &str,
    child_whiteouts: &Vec<String>,
    names: &Vec<String>,
)
    requires
        in_order(strings(old(listed)@)),
        strings(child_whiteouts@).to_set() == hidden_names(whiteouts@, dir@),
    ensures
        in_order(strings(final(listed)@)),
        strings(final(listed)@).to_set() == strings(old(listed)@).to_set().union(
            shown_names(whiteouts@, dir@, strings(names@)),
        ),
{
    let ghost start = strings(listed@).to_set();
    let ghost all = strings(names@);
    let mut i: usize = 0;
    assert(start.union(shown_names(whiteouts@, dir@, all.take(0))) =~= start);
    while i < names.len()
        invariant
            i <= names@.len(),
            all == strings(names@),
            in_order(strings(listed@)),
            strings(child_whiteouts@).to_set() == hidden_names(whiteouts@, dir@),
            strings(listed@).to_set() == start.union(
                shown_names(whiteouts@, dir@, all.take(i as int)),
            ),
        decreases names@.len() - i,
    {
        let name: &str = names[i].as_str();
        let ghost before = strings(listed@);
        assert(all[i as int] == name@);
        let shown: bool = is_shown(whiteouts, dir, child_whiteouts, name);
        if shown {
            let (at, found) = slot(listed, name);
            if !found {
                proof {
                    lemma_inserted_in_order(before, at as int, name@);
                }
                let copy: String = name.to_owned();
                listed.insert(at, copy);
                assert(strings(listed@) =~= before.insert(at as int, name@));
            } else {
                assert(before.contains(name@));
                assert(before.to_set() =~= before.to_set().insert(name@));
            }
        }
        proof {
            let was = shown_names(whiteouts@, dir@, all.take(i as int));
            let more = shown_names(whiteouts@, dir@, all.take(i + 1));
            let head = all.take(i as int);
            let longer = all.take(i + 1);
            assert forall|n: Seq<char>| #[trigger] more.contains(n) <==> was.contains(n) || (shown
                && n == name@) by {
                if longer.contains(n) {
                    let k = choose|k: int| 0 <= k < longer.len() && longer[k] == n;
                    if k < i {
                        assert(head[k] == n);
                    }
                }
                if head.contains(n) {
                    let k = choose|k: int| 0 <= k < head.len() && head[k] == n;
                    assert(longer[k] == n);
                }
                assert(longer[i as int] == name@);
            }
            assert(strings(listed@).to_set() =~= start.union(more));
        }
        i += 1;
    }
    assert(all.take(i as int) =~= all);
}

/// The names of a directory: those of the delta and of the base that are not hidden,
/// each once and in order.
pub fn overlay_readdir(
    dir: &str,
    whiteouts: &Whiteouts,
    delta: &Vec<String>,
    base: &Vec<String>,
) -> (names: Vec<String>)
    ensures
        in_order(strings(names@)),
        strings(names@).to_set() == shown_names(whiteouts@, dir@, strings(delta@)).union(
            shown_names(whiteouts@, dir@, strings(base@)),
        ),
{
    let child_whiteouts: Vec<String> = whiteouts.child_whiteouts(dir);
    let mut names: Vec<String> = Vec::new();
    assert(strings(names@) =~= Seq::<Seq<char>>::empty());
    add_shown(&mut names, whiteouts, dir, &child_whiteouts, delta);
    add_shown(&mut names, whiteouts, dir, &child_whiteouts, base);
    assert(strings(names@).to_set() =~= shown_names(whiteouts@, dir@, strings(delta@)).union(
        shown_names(whiteouts@, dir@, strings(base@)),
    ));
    names
}

impl MapsModel {
    /// A number for a delta inode: that of the base inode it was copied from while that
    /// still stands for the path, so that copy-up keeps the number.
    pub open spec fn bound_delta(
        self,
        origins: Map<i64, i64>,
        delta_ino: i64,
        path: Seq<char>,
    ) -> (MapsModel, i64) {
        let (got, ino) = self.got(Layer::Delta, delta_ino, path);
        if origins.contains_key(delta_ino) {
            match got.live_origin(origins[delta_ino], path) {
                Some(live) => (got.refreshed(live, Layer::Delta, delta_ino, path), live),
                None => (got, ino),
            }
        } else {
            (got, ino)
        }
    }
}

impl OverlayMaps {
    /// The overlay inode of a delta inode found at `path`.
    pub fn bind_delta(&mut self, origins: &HashMap<i64, i64>, delta_ino: i64, path: &str) -> (ino:
        i64)
        requires
            old(self).wf(),
            old(self).next_ino < i64::MAX,
        ensures
            final(self).wf(),
            (final(self)@, ino) == old(self)@.bound_delta(origins@, delta_ino, path@),
    {
        let ino: i64 = self.get_or_create(Layer::Delta, delta_ino, path);
        match origins.get(&delta_ino) {
            None => ino,
            Some(base_ino) => match self.live_origin_overlay_ino(*base_ino, path) {
                Some(live) => {
                    self.refresh(live, Layer::Delta, delta_ino, path);
                    live
                },
                None => ino,
            },
        }
    }

    /// The attributes that a lookup at `path` returns, from those found in the delta.
    pub fn found_in_delta(
        &mut self,
        origins: &HashMap<i64, i64>,
        path: &str,
        found: Stats,
    ) -> (stats: Stats)
        requires
            old(self).wf(),
            old(self).next_ino < i64::MAX,
        ensures
            final(self).wf(),
            ({
                let (maps, ino) = old(self)@.bound_delta(origins@, found.ino, path@);
                &&& final(self)@ == maps
                &&& stats == (Stats { ino, ..found })
            }),
    {
        let ino: i64 = self.bind_delta(origins, found.ino, path);
        let mut stats = found;
        stats.ino = ino;
        stats
    }

    /// The attributes that a lookup at `path` returns, from those found in the base.
    pub fn found_in_base(&mut self, path: &str, found: Stats) -> (stats: Stats)
        requires
            old(self).wf(),
            old(self).next_ino < i64::MAX,
        ensures
            final(self).wf(),
            ({
                let (maps, ino) = old(self)@.got(Layer::Base, found.ino, path@);
                &&& final(self)@ == maps
                &&& stats == (Stats { ino, ..found })
            }),
    {
        let ino: i64 = self.get_or_create(Layer::Base, found.ino, path);
        let mut stats = found;
        stats.ino = ino;
        stats
    }
}

/// A copied-up file keeps the number that the base file had at the same path.
pub proof fn copy_up_keeps_the_number(
    maps: MapsModel,
    origins: Map<i64, i64>,
    base_ino: i64,
    delta_ino: i64,
    path: Seq<char>,
)
    requires
        maps.wf(),
        maps.next_ino < i64::MAX,
        origins.contains_key(delta_ino),
        origins[delta_ino] == base_ino,
        maps.live_origin(base_ino, path) is Some,
    ensures
        maps.bound_delta(origins, delta_ino, path).1 == maps.live_origin(base_ino, path)->0,
{
    let (got, ino) = maps.got(Layer::Delta, delta_ino, path);
    let live = maps.live_origin(base_ino, path)->0;
    assert(got.base == maps.base);
    assert(got.inode.contains_key(live) && got.inode[live] == maps.inode[live]);
}

/// An entry as a mathematical value.
pub open spec fn entry_model(entry: DirEntry) -> (Seq<char>, Stats) {
    (entry.name@, entry.stats)
}

pub open spec fn entry_models(entries: Seq<DirEntry>) -> Seq<(Seq<char>, Stats)> {
    entries.map_values(|entry: DirEntry| entry_model(entry))
}

/// What base entries add to a listing, with the numbers they get.
pub open spec fn base_listed(
    hidden: Set<Seq<char>>,
    dir: Seq<char>,
    maps: MapsModel,
    listed: Map<Seq<char>, Stats>,
    entries: Seq<(Seq<char>, Stats)>,
) -> (MapsModel, Map<Seq<char>, Stats>)
    decreases entries.len(),
{
    if entries.len() == 0 {
        (maps, listed)
    } else {
        let (m, out) = base_listed(hidden, dir, maps, listed, entries.drop_last());
        let (name, stats) = entries.last();
        if shows(hidden, dir, name) {
            let (next, ino) = m.got(Layer::Base, stats.ino, child_path(dir, name));
            (next, out.insert(name, Stats { ino, ..stats }))
        } else {
            (m, out)
        }
    }
}

/// What delta entries add to a listing, with the numbers they get. They replace base
/// entries of the same name.
pub open spec fn delta_listed(
    hidden: Set<Seq<char>>,
    dir: Seq<char>,
    origins: Map<i64, i64>,
    maps: MapsModel,
    listed: Map<Seq<char>, Stats>,
    entries: Seq<(Seq<char>, Stats)>,
) -> (MapsModel, Map<Seq<char>, Stats>)
    decreases entries.len(),
{
    if entries.len() == 0 {
        (maps, listed)
    } else {
        let (m, out) = delta_listed(hidden, dir, origins, maps, listed, entries.drop_last());
        let (name, stats) = entries.last();
        if shows(hidden, dir, name) {
            let (next, ino) = m.bound_delta(origins, stats.ino, child_path(dir, name));
            (next, out.insert(name, Stats { ino, ..stats }))
        } else {
            (m, out)
        }
    }
}

/// Whether an entry is the last one of its name.
pub open spec fn is_last_named(entries: Seq<(Seq<char>, Stats)>, at: int) -> bool {
    &&& 0 <= at < entries.len()
    &&& forall|k: int| at < k < entries.len() ==> (#[trigger] entries[k]).0 != entries[at].0
}

/// Whether a name is among the entries.
pub open spec fn is_named(entries: Seq<(Seq<char>, Stats)>, name: Seq<char>) -> bool {
    exists|at: int| 0 <= at < entries.len() && (#[trigger] entries[at]).0 == name
}

/// The numbers that were given out stand for the same paths, and inodes of the base keep theirs.
spec fn keeps_numbers(before: MapsModel, after: MapsModel) -> bool {
    &&& after.wf()
    &&& forall|ino: i64| #[trigger]
        before.inode.contains_key(ino) ==> after.inode.contains_key(ino) && after.inode[ino].path
            == before.inode[ino].path
    &&& forall|u: i64| #[trigger]
        before.base.contains_key(u) ==> after.base.contains_key(u) && after.base[u]
            == before.base[u]
}

/// Inodes of the delta that were not copied up keep their numbers.
spec fn keeps_delta_numbers(
    origins: Map<i64, i64>,
    before: MapsModel,
    after: MapsModel,
) -> bool {
    forall|u: i64| #[trigger]
        before.delta.contains_key(u) && !origins.contains_key(u) ==> after.delta.contains_key(u)
            && after.delta[u] == before.delta[u]
}

proof fn lemma_base_listed(
    hidden: Set<Seq<char>>,
    dir: Seq<char>,
    maps: MapsModel,
    entries: Seq<(Seq<char>, Stats)>,
)
    requires
        maps.wf(),
        maps.next_ino + entries.len() < i64::MAX,
    ensures
        ({
            let (m, out) = base_listed(hidden, dir, maps, Map::empty(), entries);
            &&& keeps_numbers(maps, m)
            &&& m.delta == maps.delta
            &&& m.next_ino <= maps.next_ino + entries.len()
            &&& forall|name: Seq<char>| #[trigger]
                out.contains_key(name) <==> is_named(entries, name) && shows(hidden, dir, name)
            &&& forall|at: int| #[trigger]
                is_last_named(entries, at) && shows(hidden, dir, entries[at].0) ==> {
                    let (name, stats) = entries[at];
                    &&& out[name] == (Stats { ino: out[name].ino, ..stats })
                    &&& m.base.contains_key(stats.ino)
                    &&& m.base[stats.ino] == out[name].ino
                }
        }),
    decreases entries.len(),
{
    if entries.len() > 0 {
        let rest = entries.drop_last();
        lemma_base_listed(hidden, dir, maps, rest);
        let (before, listed) = base_listed(hidden, dir, maps, Map::empty(), rest);
        let (m, out) = base_listed(hidden, dir, maps, Map::empty(), entries);
        let last = entries.last();
        assert forall|name: Seq<char>| #[trigger] is_named(entries, name) <==> is_named(rest, name)
            || name == last.0 by {
            if is_named(entries, name) {
                let at = choose|at: int|
                    0 <= at < entries.len() && (#[trigger] entries[at]).0 == name;
                if at < rest.len() {
                    assert(rest[at].0 == name);
                }
            }
            if is_named(rest, name) {
                let at = choose|at: int| 0 <= at < rest.len() && (#[trigger] rest[at]).0 == name;
                assert(entries[at].0 == name);
            }
            assert(entries[entries.len() - 1] == last);
        }
        assert forall|name: Seq<char>| #[trigger] out.contains_key(name) <==> is_named(
            entries,
            name,
        ) && shows(hidden, dir, name) by {
            assert(is_named(entries, name) <==> is_named(rest, name) || name == last.0);
            assert(listed.contains_key(name) <==> is_named(rest, name) && shows(hidden, dir, name));
        }
        assert forall|at: int| #[trigger]
            is_last_named(entries, at) && shows(hidden, dir, entries[at].0) implies {
            let (name, stats) = entries[at];
            &&& out[name] == (Stats { ino: out[name].ino, ..stats })
            &&& m.base.contains_key(stats.ino)
            &&& m.base[stats.ino] == out[name].ino
        } by {
            if at < rest.len() {
                assert(entries[at] == rest[at]);
                assert(entries[entries.len() - 1].0 != entries[at].0);
                assert forall|k: int| at < k < rest.len() implies (#[trigger] rest[k]).0
                    != rest[at].0 by {
                    assert(rest[k] == entries[k]);
                }
                assert(is_last_named(rest, at));
            }
        }
    }
}

#[verifier::rlimit(40)]
proof fn lemma_delta_listed(
    hidden: Set<Seq<char>>,
    dir: Seq<char>,
    origins: Map<i64, i64>,
    maps: MapsModel,
    listed: Map<Seq<char>, Stats>,
    entries: Seq<(Seq<char>, Stats)>,
)
    requires
        maps.wf(),
        maps.next_ino + entries.len() < i64::MAX,
    ensures
        ({
            let (m, out) = delta_listed(hidden, dir, origins, maps, listed, entries);
            &&& keeps_numbers(maps, m)
            &&& m.next_ino <= maps.next_ino + entries.len()
            &&& keeps_delta_numbers(origins, maps, m)
            &&& forall|name: Seq<char>| #[trigger]
                out.contains_key(name) <==> listed.contains_key(name) || (is_named(entries, name)
                    && shows(hidden, dir, name))
            &&& forall|name: Seq<char>|
                #![trigger out[name]]
                listed.contains_key(name) && !(is_named(entries, name) && shows(hidden, dir, name))
                    ==> out[name] == listed[name]
            &&& forall|at: int| #[trigger]
                is_last_named(entries, at) && shows(hidden, dir, entries[at].0) ==> {
                    let (name, stats) = entries[at];
                    &&& out[name] == (Stats { ino: out[name].ino, ..stats })
                    &&& !origins.contains_key(stats.ino) ==> m.delta.contains_key(stats.ino)
                        && m.delta[stats.ino] == out[name].ino
                    &&& origins.contains_key(stats.ino) ==> {
                        let live = maps.base[origins[stats.ino]];
                        maps.base.contains_key(origins[stats.ino]) && maps.inode.contains_key(live)
                            && maps.inode[live].path == child_path(dir, name) ==> out[name].ino
                            == live
                    }
                }
        }),
    decreases entries.len(),
{
    if entries.len() > 0 {
        let rest = entries.drop_last();
        lemma_delta_listed(hidden, dir, origins, maps, listed, rest);
        let (before, earlier) = delta_listed(hidden, dir, origins, maps, listed, rest);
        let (m, out) = delta_listed(hidden, dir, origins, maps, listed, entries);
        let last = entries.last();
        let path = child_path(dir, last.0);
        assert(before.wf());
        lemma_bound_keeps(before, origins, last.1.ino, path);
        assert forall|name: Seq<char>| #[trigger] is_named(entries, name) <==> is_named(rest, name)
            || name == last.0 by {
            if is_named(entries, name) {
                let at = choose|at: int|
                    0 <= at < entries.len() && (#[trigger] entries[at]).0 == name;
                if at < rest.len() {
                    assert(rest[at].0 == name);
                }
            }
            if is_named(rest, name) {
                let at = choose|at: int| 0 <= at < rest.len() && (#[trigger] rest[at]).0 == name;
                assert(entries[at].0 == name);
            }
            assert(entries[entries.len() - 1] == last);
        }
        assert(keeps_numbers(maps, m));
        assert(keeps_delta_numbers(origins, maps, m));
        assert forall|name: Seq<char>| #[trigger] out.contains_key(name) <==> listed.contains_key(
            name,
        ) || (is_named(entries, name) && shows(hidden, dir, name)) by {
            assert(is_named(entries, name) <==> is_named(rest, name) || name == last.0);
            assert(earlier.contains_key(name) <==> listed.contains_key(name) || (is_named(
                rest,
                name,
            ) && shows(hidden, dir, name)));
        }
        assert forall|name: Seq<char>|
            #![trigger out[name]]
            listed.contains_key(name) && !(is_named(entries, name) && shows(
                hidden,
                dir,
                name,
            )) implies out[name] == listed[name] by {
            assert(is_named(entries, name) <==> is_named(rest, name) || name == last.0);
            assert(earlier[name] == listed[name]);
        }
        assert forall|at: int| #[trigger]
            is_last_named(entries, at) && shows(hidden, dir, entries[at].0) implies {
            let (name, stats) = entries[at];
            &&& out[name] == (Stats { ino: out[name].ino, ..stats })
            &&& !origins.contains_key(stats.ino) ==> m.delta.contains_key(stats.ino)
                && m.delta[stats.ino] == out[name].ino
            &&& origins.contains_key(stats.ino) ==> {
                let live = maps.base[origins[stats.ino]];
                maps.base.contains_key(origins[stats.ino]) && maps.inode.contains_key(live)
                    && maps.inode[live].path == child_path(dir, name) ==> out[name].ino == live
            }
        } by {
            let (name, stats) = entries[at];
            if at < rest.len() {
                assert(entries[at] == rest[at]);
                assert(entries[entries.len() - 1].0 != entries[at].0);
                assert forall|k: int| at < k < rest.len() implies (#[trigger] rest[k]).0
                    != rest[at].0 by {
                    assert(rest[k] == entries[k]);
                }
                assert(is_last_named(rest, at));
                assert(out[name] == earlier[name]);
            } else {
                if origins.contains_key(stats.ino) {
                    let b = origins[stats.ino];
                    let live = maps.base[b];
                    if maps.base.contains_key(b) && maps.inode.contains_key(live)
                        && maps.inode[live].path == path {
                        assert(before.base.contains_key(b) && before.base[b] == live);
                        assert(before.inode.contains_key(live) && before.inode[live].path == path);
                        assert(before.live_origin(b, path) == Some(live));
                        copy_up_keeps_the_number(before, origins, b, stats.ino, path);
                    }
                }
            }
        }
    }
}

/// Binding a delta inode leaves the numbers of others alone.
proof fn lemma_bound_keeps(
    maps: MapsModel,
    origins: Map<i64, i64>,
    delta_ino: i64,
    path: Seq<char>,
)
    requires
        maps.wf(),
        maps.next_ino < i64::MAX,
    ensures
        ({
            let (m, ino) = maps.bound_delta(origins, delta_ino, path);
            &&& keeps_numbers(maps, m)
            &&& keeps_delta_numbers(origins, maps, m)
            &&& m.next_ino <= maps.next_ino + 1
            &&& !origins.contains_key(delta_ino) ==> m.delta.contains_key(delta_ino)
                && m.delta[delta_ino] == ino
        }),
{
    let (got, ino) = maps.got(Layer::Delta, delta_ino, path);
    assert(keeps_numbers(maps, got));
    if origins.contains_key(delta_ino) {
        if let Some(live) = got.live_origin(origins[delta_ino], path) {
            let m = got.refreshed(live, Layer::Delta, delta_ino, path);
            assert(got.inode.contains_key(live));
            assert(keeps_numbers(got, m));
        }
    }
}

/// The entries of a directory with their attributes: those of the delta, and those of
/// the base that the delta does not have, without hidden ones, in order of their names.
/// Every entry gets an overlay inode.
pub fn overlay_readdir_plus(
    maps: &mut OverlayMaps,
    origins: &HashMap<i64, i64>,
    dir: &str,
    whiteouts: &Whiteouts,
    delta: &Vec<DirEntry>,
    base: &Vec<DirEntry>,
) -> (entries: Vec<DirEntry>)
    requires
        old(maps).wf(),
        old(maps).next_ino + delta@.len() + base@.len() < i64::MAX,
    ensures
        final(maps).wf(),
        in_order(entry_models(entries@).map_values(|e: (Seq<char>, Stats)| e.0)),
        ({
            let (m, from_base) = base_listed(
                whiteouts@,
                dir@,
                old(maps)@,
                Map::empty(),
                entry_models(base@),
            );
            let (all_maps, listed) = delta_listed(
                whiteouts@,
                dir@,
                origins@,
                m,
                from_base,
                entry_models(delta@),
            );
            &&& final(maps)@ == all_maps
            &&& forall|i: int|
                0 <= i < entries@.len() ==> listed.contains_key((#[trigger] entries@[i]).name@)
                    && listed[entries@[i].name@] == entries@[i].stats
            &&& forall|name: Seq<char>| #[trigger]
                listed.contains_key(name) ==> exists|i: int|
                    0 <= i < entries@.len() && (#[trigger] entries@[i]).name@ == name
        }),
        forall|name: Seq<char>| #[trigger]
            is_named(entry_models(entries@), name) <==> shows(whiteouts@, dir@, name) && (is_named(
                entry_models(delta@),
                name,
            ) || is_named(entry_models(base@), name)),
        forall|i: int, at: int|
            #![trigger entries@[i], delta@[at]]
            0 <= i < entries@.len() && is_last_named(entry_models(delta@), at) && delta@[at].name@
                == entries@[i].name@ ==> {
                let ino = entries@[i].stats.ino;
                let held = delta@[at].stats.ino;
                &&& entries@[i].stats == (Stats { ino, ..delta@[at].stats })
                &&& !origins@.contains_key(held) ==> final(maps)@.delta.contains_key(held)
                    && final(maps)@.delta[held] == ino && (old(maps)@.delta.contains_key(held)
                    ==> old(maps)@.delta[held] == ino)
                &&& origins@.contains_key(held) && old(maps)@.base.contains_key(origins@[held])
                    ==> {
                    let live = old(maps)@.base[origins@[held]];
                    old(maps)@.inode.contains_key(live) && old(maps)@.inode[live].path
                        == child_path(dir@, entries@[i].name@) ==> ino == live
                }
            },
        forall|i: int, at: int|
            #![trigger entries@[i], base@[at]]
            0 <= i < entries@.len() && is_last_named(entry_models(base@), at) && base@[at].name@
                == entries@[i].name@ && !is_named(entry_models(delta@), entries@[i].name@) ==> {
                let ino = entries@[i].stats.ino;
                let held = base@[at].stats.ino;
                &&& entries@[i].stats == (Stats { ino, ..base@[at].stats })
                &&& final(maps)@.base.contains_key(held) && final(maps)@.base[held] == ino
                &&& old(maps)@.base.contains_key(held) ==> old(maps)@.base[held] == ino
            },
{
    let child_whiteouts: Vec<String> = whiteouts.child_whiteouts(dir);
    let mut listing: TextMap<Stats> = TextMap::new();
    let ghost start = maps@;
    let ghost base_models = entry_models(base@);
    let ghost delta_models = entry_models(delta@);
    let mut i: usize = 0;
    while i < base.len()
        invariant
            i <= base@.len(),
            base_models == entry_models(base@),
            maps.wf(),
            start.next_ino + delta@.len() + base@.len() < i64::MAX,
            maps.next_ino <= start.next_ino + i,
            listing.wf(),
            strings(child_whiteouts@).to_set() == hidden_names(whiteouts@, dir@),
            (maps@, listing@) == base_listed(
                whiteouts@,
                dir@,
                start,
                Map::empty(),
                base_models.take(i as int),
            ),
        decreases base@.len() - i,
    {
        proof {
            assert(base_models.take(i + 1).drop_last() =~= base_models.take(i as int));
            assert(base_models.take(i + 1).last() == entry_model(base@[i as int]));
        }
        let entry: &DirEntry = &base[i];
        if is_shown(whiteouts, dir, &child_whiteouts, entry.name.as_str()) {
            let path: String = join_path(dir, entry.name.as_str());
            let stats: Stats = maps.found_in_base(path.as_str(), entry.stats);
            listing.insert(entry.name.as_str(), stats);
        }
        i += 1;
    }
    assert(base_models.take(i as int) =~= base_models);
    let ghost middle = maps@;
    let ghost from_base = listing@;
    proof {
        lemma_base_listed(whiteouts@, dir@, start, base_models);
        let both = base_listed(whiteouts@, dir@, start, Map::empty(), base_models);
        assert(middle == both.0 && from_base == both.1);
        assert(forall|name: Seq<char>| #[trigger]
            from_base.contains_key(name) <==> is_named(base_models, name) && shows(
                whiteouts@,
                dir@,
                name,
            )) by {
            assert(forall|name: Seq<char>| #[trigger]
                both.1.contains_key(name) <==> is_named(base_models, name) && shows(
                    whiteouts@,
                    dir@,
                    name,
                ));
        }
    }
    let mut j: usize = 0;
    while j < delta.len()
        invariant
            j <= delta@.len(),
            delta_models == entry_models(delta@),
            maps.wf(),
            start.next_ino + delta@.len() + base@.len() < i64::MAX,
            maps.next_ino <= start.next_ino + base@.len() + j,
            listing.wf(),
            strings(child_whiteouts@).to_set() == hidden_names(whiteouts@, dir@),
            (maps@, listing@) == delta_listed(
                whiteouts@,
                dir@,
                origins@,
                middle,
                from_base,
                delta_models.take(j as int),
            ),
        decreases delta@.len() - j,
    {
        proof {
            assert(delta_models.take(j + 1).drop_last() =~= delta_models.take(j as int));
            assert(delta_models.take(j + 1).last() == entry_model(delta@[j as int]));
        }
        let entry: &DirEntry = &delta[j];
        if is_shown(whiteouts, dir, &child_whiteouts, entry.name.as_str()) {
            let path: String = join_path(dir, entry.name.as_str());
            let stats: Stats = maps.found_in_delta(origins, path.as_str(), entry.stats);
            listing.insert(entry.name.as_str(), stats);
        }
        j += 1;
    }
    assert(delta_models.take(j as int) =~= delta_models);
    let ghost listed = listing@;
    let ghost names = listing.names();
    proof {
        lemma_delta_listed(whiteouts@, dir@, origins@, middle, from_base, delta_models);
        let both = delta_listed(
            whiteouts@,
            dir@,
            origins@,
            middle,
            from_base,
            delta_models,
        );
        assert(maps@ == both.0 && listed == both.1);
        assert(forall|name: Seq<char>| #[trigger]
            listed.contains_key(name) <==> from_base.contains_key(name) || (is_named(
                delta_models,
                name,
            ) && shows(whiteouts@, dir@, name))) by {
            assert(forall|name: Seq<char>| #[trigger]
                both.1.contains_key(name) <==> from_base.contains_key(name) || (is_named(
                    delta_models,
                    name,
                ) && shows(whiteouts@, dir@, name)));
        }
        assert(forall|name: Seq<char>|
            #![trigger listed[name]]
            from_base.contains_key(name) && !(is_named(delta_models, name) && shows(
                whiteouts@,
                dir@,
                name,
            )) ==> listed[name] == from_base[name]) by {
            assert(forall|name: Seq<char>|
                #![trigger both.1[name]]
                from_base.contains_key(name) && !(is_named(delta_models, name) && shows(
                    whiteouts@,
                    dir@,
                    name,
                )) ==> both.1[name] == from_base[name]);
        }
    }
    let mut entries: Vec<DirEntry> = Vec::new();
    let mut k: usize = 0;
    while k < listing.keys().len()
        invariant
            k <= listing.names().len(),
            listing.wf(),
            names == listing.names(),
            entries@.len() == k,
            forall|n: int|
                0 <= n < k ==> (#[trigger] entries@[n]).name@ == names[n] && entries@[n].stats
                    == listing.entries()[n],
        decreases listing.names().len() - k,
    {
        entries.push(DirEntry { name: listing.keys()[k].clone(), stats: listing.values()[k] });
        k += 1;
    }
    proof {
        let out = entry_models(entries@).map_values(|e: (Seq<char>, Stats)| e.0);
        assert(out =~= names);
        assert forall|n: int| 0 <= n < entries@.len() implies listed.contains_key(
            (#[trigger] entries@[n]).name@,
        ) && listed[entries@[n].name@] == entries@[n].stats by {
            listing.entry_at(n);
        }
        assert forall|name: Seq<char>| #[trigger] listed.contains_key(name) implies exists|n: int|
            0 <= n < entries@.len() && (#[trigger] entries@[n]).name@ == name by {
            let n = names.index_of(name);
            assert(0 <= n < names.len() && names[n] == name);
            assert(entries@[n].name@ == name);
        }
        let models = entry_models(entries@);
        assert forall|name: Seq<char>| #[trigger] is_named(models, name) <==> shows(
            whiteouts@,
            dir@,
            name,
        ) && (is_named(delta_models, name) || is_named(base_models, name)) by {
            assert(listed.contains_key(name) <==> from_base.contains_key(name) || (is_named(
                delta_models,
                name,
            ) && shows(whiteouts@, dir@, name)));
            assert(from_base.contains_key(name) <==> is_named(base_models, name) && shows(
                whiteouts@,
                dir@,
                name,
            ));
            if is_named(models, name) {
                let n = choose|n: int| 0 <= n < models.len() && (#[trigger] models[n]).0 == name;
                assert(entries@[n].name@ == name);
            }
            if listed.contains_key(name) {
                let n = choose|n: int|
                    0 <= n < entries@.len() && (#[trigger] entries@[n]).name@ == name;
                assert(models[n].0 == name);
            }
        }
        assert forall|i: int, at: int|
            #![trigger entries@[i], delta@[at]]
            0 <= i < entries@.len() && is_last_named(delta_models, at) && delta@[at].name@
                == entries@[i].name@ implies {
            let ino = entries@[i].stats.ino;
            let held = delta@[at].stats.ino;
            &&& entries@[i].stats == (Stats { ino, ..delta@[at].stats })
            &&& !origins@.contains_key(held) ==> maps@.delta.contains_key(held)
                && maps@.delta[held] == ino && (start.delta.contains_key(held)
                ==> start.delta[held] == ino)
            &&& origins@.contains_key(held) && start.base.contains_key(origins@[held]) ==> {
                let live = start.base[origins@[held]];
                start.inode.contains_key(live) && start.inode[live].path == child_path(
                    dir@,
                    entries@[i].name@,
                ) ==> ino == live
            }
        } by {
            let name = entries@[i].name@;
            assert(delta_models[at] == (delta@[at].name@, delta@[at].stats));
            assert(models[i] == (name, entries@[i].stats));
            assert(is_named(models, name));
            assert(shows(whiteouts@, dir@, delta_models[at].0));
            assert(listed[name] == entries@[i].stats);
        }
        assert forall|i: int, at: int|
            #![trigger entries@[i], base@[at]]
            0 <= i < entries@.len() && is_last_named(base_models, at) && base@[at].name@
                == entries@[i].name@ && !is_named(delta_models, entries@[i].name@) implies {
            let ino = entries@[i].stats.ino;
            let held = base@[at].stats.ino;
            &&& entries@[i].stats == (Stats { ino, ..base@[at].stats })
            &&& maps@.base.contains_key(held) && maps@.base[held] == ino
            &&& start.base.contains_key(held) ==> start.base[held] == ino
        } by {
            let name = entries@[i].name@;
            let held = base@[at].stats.ino;
            assert(base_models[at] == (base@[at].name@, base@[at].stats));
            assert(models[i] == (name, entries@[i].stats));
            assert(is_named(models, name));
            assert(from_base.contains_key(name));
            assert(listed[name] == entries@[i].stats);
            assert(listed[name] == from_base[name]);
            assert(middle.base.contains_key(held));
            if start.base.contains_key(held) {
                assert(middle.base[held] == start.base[held]);
            }
        }
    }
    entries
}

} // verus!
