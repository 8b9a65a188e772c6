//! A lookup in the overlay, step by step: the delta first, then the base.
use crate::error::FsError;
use crate::overlay_maps::{InfoModel, InodeInfo, Layer, MapsModel, OverlayMaps, child_path};
use crate::path::{components, split_components};
use crate::stats::{ROOT_INO, S_IFDIR, Stats, mode_is};
use crate::text::strings;
use crate::whiteouts::{Whiteouts, hides};
use std::collections::HashMap;
use vstd::prelude::*;

verus! {

/// What a lookup asks for next.
#[derive(Debug, Clone, Copy, PartialEq, Eq, Structural)]
pub enum LookupAsk {
    /// A directory on the way to the parent, in the delta.
    DeltaStep(i64),
    /// The name itself, in the delta.
    DeltaName(i64),
    /// A directory on the way to the parent, in the base.
    BaseStep(i64),
    /// The name itself, in the base.
    BaseName(i64),
    /// Nothing: this is the answer.
    Found(Option<Stats>),
}

/// What the layers hold: the attributes behind a name in a directory of the layer.
pub type LayerModel = Map<(i64, Seq<char>), Stats>;

pub open spec fn in_layer(layer: LayerModel, dir: i64, name: Seq<char>) -> Option<Stats> {
    if layer.contains_key((dir, name)) {
        Some(layer[(dir, name)])
    } else {
        None
    }
}

/// The directory of the delta at the end of a way from the root. What is no directory ends
/// the way.
pub open spec fn delta_dir(delta: LayerModel, parts: Seq<Seq<char>>) -> Option<i64>
    decreases parts.len(),
{
    if parts.len() == 0 {
        Some(ROOT_INO)
    } else {
        match delta_dir(delta, parts.drop_last()) {
            Some(dir) => match in_layer(delta, dir, parts.last()) {
                Some(stats) => if mode_is(stats.mode, S_IFDIR) {
                    Some(stats.ino)
                } else {
                    None
                },
                None => None,
            },
            None => None,
        }
    }
}

/// The inode of the base at the end of a way from the root.
pub open spec fn base_dir(base: LayerModel, parts: Seq<Seq<char>>) -> Option<i64>
    decreases parts.len(),
{
    if parts.len() == 0 {
        Some(ROOT_INO)
    } else {
        match base_dir(base, parts.drop_last()) {
            Some(dir) => match in_layer(base, dir, parts.last()) {
                Some(stats) => Some(stats.ino),
                None => None,
            },
            None => None,
        }
    }
}

/// Where a directory of the overlay is in the delta.
pub open spec fn delta_parent(delta: LayerModel, info: InfoModel) -> Option<i64> {
    match info.layer {
        Layer::Delta => Some(info.underlying_ino),
        Layer::Base => delta_dir(delta, components(info.path)),
    }
}

/// Where a directory of the overlay is in the base.
pub open spec fn base_parent(base: LayerModel, info: InfoModel) -> Option<i64> {
    match info.layer {
        Layer::Base => Some(info.underlying_ino),
        Layer::Delta => base_dir(base, components(info.path)),
    }
}

/// What a name in a directory of the overlay leads to in the delta.
pub open spec fn delta_child(delta: LayerModel, info: InfoModel, name: Seq<char>) -> Option<Stats> {
    match delta_parent(delta, info) {
        Some(dir) => in_layer(delta, dir, name),
        None => None,
    }
}

/// What a name in a directory of the overlay leads to in the base.
pub open spec fn base_child(base: LayerModel, info: InfoModel, name: Seq<char>) -> Option<Stats> {
    match base_parent(base, info) {
        Some(dir) => in_layer(base, dir, name),
        None => None,
    }
}

/// What a lookup finds, and the inode maps after it: nothing if the path is hidden, else
/// what the delta has, else what the base has. What is found gets the inode of the overlay.
pub open spec fn looked_up(
    maps: MapsModel,
    origins: Map<i64, i64>,
    hidden: Set<Seq<char>>,
    delta: LayerModel,
    base: LayerModel,
    info: InfoModel,
    name: Seq<char>,
) -> (MapsModel, Option<Stats>) {
    let path = child_path(info.path, name);
    if hides(hidden, path) {
        (maps, None)
    } else if let Some(stats) = delta_child(delta, info, name) {
        let (next, ino) = maps.bound_delta(origins, stats.ino, path);
        (next, Some(Stats { ino, ..stats }))
    } else if let Some(stats) = base_child(base, info, name) {
        let (next, ino) = maps.got(Layer::Base, stats.ino, path);
        (next, Some(Stats { ino, ..stats }))
    } else {
        (maps, None)
    }
}

/// A lookup under way.
pub struct OverlayLookup<'a> {
    pub name: &'a str,
    /// The directory that the name is looked up in.
    pub parent: InodeInfo,
    /// The path that the name leads to.
    pub path: String,
    /// The way from the root to the directory.
    pub way: Vec<String>,
    /// How much of the way was walked in the present layer.
    pub walked: usize,
    pub asked: LookupAsk,
}

impl<'a> OverlayLookup<'a> {
    /// What stays the same during a lookup.
    pub open spec fn same_lookup(self, other: OverlayLookup<'a>) -> bool {
        &&& self.name@ == other.name@
        &&& self.parent@ == other.parent@
        &&& self.path@ == other.path@
        &&& self.way@ == other.way@
    }

    /// The parts of a lookup fit together.
    pub open spec fn wf(self) -> bool {
        &&& strings(self.way@) == components(self.parent@.path)
        &&& self.path@ == child_path(self.parent@.path, self.name@)
        &&& match self.asked {
            LookupAsk::DeltaStep(_) => self.parent@.layer is Base && self.walked < self.way@.len(),
            LookupAsk::BaseStep(_) => self.parent@.layer is Delta && self.walked < self.way@.len(),
            _ => true,
        }
    }

    /// How many answers a lookup can still take.
    pub open spec fn steps_left(self) -> int {
        let length = self.way@.len() as int;
        match self.asked {
            LookupAsk::DeltaStep(_) => length - self.walked + length + 2,
            LookupAsk::DeltaName(_) => length + 2,
            LookupAsk::BaseStep(_) => length - self.walked + 1,
            LookupAsk::BaseName(_) => 1,
            LookupAsk::Found(_) => 0,
        }
    }

    /// What a lookup has found out so far of the layers.
    pub open spec fn knows(
        self,
        start: MapsModel,
        maps: MapsModel,
        origins: Map<i64, i64>,
        hidden: Set<Seq<char>>,
        delta: LayerModel,
        base: LayerModel,
    ) -> bool {
        let parts = strings(self.way@).take(self.walked as int);
        let shown = !hides(hidden, self.path@);
        match self.asked {
            LookupAsk::DeltaStep(dir) => maps == start && shown && delta_dir(delta, parts) == Some(
                dir,
            ),
            LookupAsk::DeltaName(dir) => maps == start && shown && delta_parent(
                delta,
                self.parent@,
            ) == Some(dir),
            LookupAsk::BaseStep(dir) => maps == start && shown && delta_child(
                delta,
                self.parent@,
                self.name@,
            ) is None && base_dir(base, parts) == Some(dir),
            LookupAsk::BaseName(dir) => maps == start && shown && delta_child(
                delta,
                self.parent@,
                self.name@,
            ) is None && base_parent(base, self.parent@) == Some(dir),
            LookupAsk::Found(found) => (maps, found) == looked_up(
                start,
                origins,
                hidden,
                delta,
                base,
                self.parent@,
                self.name@,
            ),
        }
    }

    /// Whether a lookup knows what there is to know before the first answer.
    pub open spec fn begun(self, maps: MapsModel, hidden: Set<Seq<char>>) -> bool {
        forall|origins: Map<i64, i64>, delta: LayerModel, base: LayerModel|
            self.knows(maps, maps, origins, hidden, delta, base)
    }

    /// Whether a lookup knows what it knew before and what a true answer adds, whatever the
    /// layers hold.
    pub open spec fn learned(
        self,
        before: OverlayLookup<'a>,
        start: MapsModel,
        maps: MapsModel,
        origins: Map<i64, i64>,
        found: Option<Stats>,
    ) -> bool {
        forall|hidden: Set<Seq<char>>, delta: LayerModel, base: LayerModel|
            before.knows(start, start, origins, hidden, delta, base) && answered(
                before,
                delta,
                base,
                found,
            ) ==> #[trigger] self.knows(start, maps, origins, hidden, delta, base)
    }

    /// The name to look up next.
    pub open spec fn wanted_name(self) -> Seq<char> {
        match self.asked {
            LookupAsk::DeltaStep(_) | LookupAsk::BaseStep(_) => self.way@[self.walked as int]@,
            _ => self.name@,
        }
    }

    /// The name to look up next.
    pub fn wanted(&self) -> (name: &str)
        requires
            self.wf(),
        ensures
            name@ == self.wanted_name(),
    {
        match self.asked {
            LookupAsk::DeltaStep(_) => self.way[self.walked].as_str(),
            LookupAsk::BaseStep(_) => self.way[self.walked].as_str(),
            _ => self.name,
        }
    }

    /// Starts a lookup.
    pub fn start(maps: &OverlayMaps, whiteouts: &Whiteouts, parent_ino: i64, name: &'a str) -> (result:
        Result<OverlayLookup<'a>, FsError>)
        ensures
            match result {
                Err(error) => error is NotFound && !maps@.inode.contains_key(parent_ino),
                Ok(lookup) => {
                    &&& maps@.inode.contains_key(parent_ino)
                    &&& lookup.wf()
                    &&& lookup.name == name
                    &&& lookup.parent@ == maps@.inode[parent_ino]
                    &&& lookup.begun(maps@, whiteouts@)
                },
            },
    {
        let parent: InodeInfo = match maps.get_inode_info(parent_ino) {
            Some(info) => info,
            None => {
                return Err(FsError::NotFound);
            },
        };
        let path: String = match maps.build_path(parent_ino, name) {
            Ok(path) => path,
            Err(error) => {
                return Err(error);
            },
        };
        let way: Vec<String> = split_components(parent.path.as_str());
        let asked: LookupAsk = if whiteouts.is_whiteout(path.as_str()) {
            LookupAsk::Found(None)
        } else {
            match parent.layer {
                Layer::Delta => LookupAsk::DeltaName(parent.underlying_ino),
                Layer::Base => if way.len() == 0 {
                    LookupAsk::DeltaName(ROOT_INO)
                } else {
                    LookupAsk::DeltaStep(ROOT_INO)
                },
            }
        };
        let lookup = OverlayLookup { name, parent, path, way, walked: 0, asked };
        assert(strings(lookup.way@).take(0) =~= Seq::<Seq<char>>::empty());
        if lookup.way.len() == 0 {
            assert(components(lookup.parent@.path) =~= Seq::<Seq<char>>::empty());
        }
        Ok(lookup)
    }

    /// Goes on to the base, after the delta had nothing.
    fn turn_to_base(&mut self)
        requires
            strings(old(self).way@) == components(old(self).parent@.path),
            old(self).path@ == child_path(old(self).parent@.path, old(self).name@),
        ensures
            final(self).wf(),
            final(self).same_lookup(*old(self)),
            final(self).steps_left() <= final(self).way@.len() + 1,
            forall|
                start: MapsModel,
                origins: Map<i64, i64>,
                hidden: Set<Seq<char>>,
                delta: LayerModel,
                base: LayerModel,
            |
                !hides(hidden, old(self).path@) && delta_child(
                    delta,
                    old(self).parent@,
                    old(self).name@,
                ) is None ==> #[trigger] final(self).knows(
                    start,
                    start,
                    origins,
                    hidden,
                    delta,
                    base,
                ),
    {
        self.walked = 0;
        match self.parent.layer {
            Layer::Base => {
                self.asked = LookupAsk::BaseName(self.parent.underlying_ino);
            },
            Layer::Delta => {
                if self.way.len() == 0 {
                    self.asked = LookupAsk::BaseName(ROOT_INO);
                    assert(components(self.parent@.path) =~= Seq::<Seq<char>>::empty());
                } else {
                    self.asked = LookupAsk::BaseStep(ROOT_INO);
                }
            },
        }
        assert(strings(self.way@).take(0) =~= Seq::<Seq<char>>::empty());
    }

    /// Takes what the wanted name leads to in the layer and directory that were asked for.
    pub fn step(
        &mut self,
        maps: &mut OverlayMaps,
        origins: &HashMap<i64, i64>,
        found: Option<Stats>,
    )
        requires
            old(self).wf(),
            old(self).asked !is Found,
            old(maps).wf(),
            old(maps).next_ino < i64::MAX,
        ensures
            final(self).wf(),
            final(self).same_lookup(*old(self)),
            final(self).steps_left() < old(self).steps_left(),
            final(maps).wf(),
            final(self).asked !is Found ==> *final(maps) == *old(maps),
            final(self).learned(*old(self), old(maps)@, final(maps)@, origins@, found),
    {
        let ghost before = *self;
        let ghost parts = strings(self.way@);
        let ghost n = self.walked as int;
        match self.asked {
            LookupAsk::DeltaStep(_) => {
                let length: usize = self.way.len();
                proof {
                    assert(parts.take(n + 1).drop_last() =~= parts.take(n));
                    assert(parts.take(n + 1).last() == self.way@[n]@);
                }
                match crate::overlay::delta_step(found) {
                    Some(next) => {
                        self.walked = self.walked + 1;
                        if self.walked == length {
                            assert(parts.take(n + 1) =~= parts);
                            self.asked = LookupAsk::DeltaName(next);
                        } else {
                            self.asked = LookupAsk::DeltaStep(next);
                        }
                    },
                    None => {
                        proof {
                            assert forall|delta: LayerModel, base: LayerModel|
                                delta_dir(delta, parts.take(n)) == Some(before.asked->DeltaStep_0)
                                    && #[trigger] answered(before, delta, base, found) implies delta_dir(
                                delta,
                                parts,
                            ) is None by {
                                lemma_broken_way(delta, parts, n + 1);
                            }
                        }
                        self.turn_to_base();
                    },
                }
            },
            LookupAsk::DeltaName(_) => match found {
                Some(stats) => {
                    let answer: Stats = maps.found_in_delta(origins, self.path.as_str(), stats);
                    self.asked = LookupAsk::Found(Some(answer));
                },
                None => {
                    self.turn_to_base();
                },
            },
            LookupAsk::BaseStep(_) => {
                let length: usize = self.way.len();
                proof {
                    assert(parts.take(n + 1).drop_last() =~= parts.take(n));
                    assert(parts.take(n + 1).last() == self.way@[n]@);
                }
                match found {
                    Some(stats) => {
                        self.walked = self.walked + 1;
                        if self.walked == length {
                            assert(parts.take(n + 1) =~= parts);
                            self.asked = LookupAsk::BaseName(stats.ino);
                        } else {
                            self.asked = LookupAsk::BaseStep(stats.ino);
                        }
                    },
                    None => {
                        proof {
                            assert forall|delta: LayerModel, base: LayerModel|
                                base_dir(base, parts.take(n)) == Some(before.asked->BaseStep_0)
                                    && #[trigger] answered(before, delta, base, found) implies base_dir(
                                base,
                                parts,
                            ) is None by {
                                lemma_broken_base_way(base, parts, n + 1);
                            }
                        }
                        self.asked = LookupAsk::Found(None);
                    },
                }
            },
            LookupAsk::BaseName(_) => match found {
                Some(stats) => {
                    let answer: Stats = maps.found_in_base(self.path.as_str(), stats);
                    self.asked = LookupAsk::Found(Some(answer));
                },
                None => {
                    self.asked = LookupAsk::Found(None);
                },
            },
            LookupAsk::Found(_) => {},
        }
    }
}

/// Whether an answer is true of the layers.
pub open spec fn answered(
    lookup: OverlayLookup,
    delta: LayerModel,
    base: LayerModel,
    found: Option<Stats>,
) -> bool {
    match lookup.asked {
        LookupAsk::DeltaStep(dir) | LookupAsk::DeltaName(dir) => found == in_layer(
            delta,
            dir,
            lookup.wanted_name(),
        ),
        LookupAsk::BaseStep(dir) | LookupAsk::BaseName(dir) => found == in_layer(
            base,
            dir,
            lookup.wanted_name(),
        ),
        LookupAsk::Found(_) => true,
    }
}

proof fn lemma_broken_way(delta: LayerModel, parts: Seq<Seq<char>>, upto: int)
    requires
        0 <= upto <= parts.len(),
        delta_dir(delta, parts.take(upto)) is None,
    ensures
        delta_dir(delta, parts) is None,
    decreases parts.len() - upto,
{
    if upto == parts.len() {
        assert(parts.take(upto) =~= parts);
    } else {
        assert(parts.take(upto + 1).drop_last() =~= parts.take(upto));
        lemma_broken_way(delta, parts, upto + 1);
    }
}

pub proof fn lemma_broken_base_way(base: LayerModel, parts: Seq<Seq<char>>, upto: int)
    requires
        0 <= upto <= parts.len(),
        base_dir(base, parts.take(upto)) is None,
    ensures
        base_dir(base, parts) is None,
    decreases parts.len() - upto,
{
    if upto == parts.len() {
        assert(parts.take(upto) =~= parts);
    } else {
        assert(parts.take(upto + 1).drop_last() =~= parts.take(upto));
        lemma_broken_base_way(base, parts, upto + 1);
    }
}

/// A lookup that got true answers to the end has found what the layers show.
pub proof fn a_finished_lookup_is_exact(
    lookup: OverlayLookup,
    start: MapsModel,
    maps: MapsModel,
    origins: Map<i64, i64>,
    hidden: Set<Seq<char>>,
    delta: LayerModel,
    base: LayerModel,
    found: Option<Stats>,
)
    requires
        lookup.knows(start, maps, origins, hidden, delta, base),
        lookup.asked == LookupAsk::Found(found),
    ensures
        (maps, found) == looked_up(
            start,
            origins,
            hidden,
            delta,
            base,
            lookup.parent@,
            lookup.name@,
        ),
{
}

/// A hidden path is never found, whatever the layers hold.
pub proof fn hidden_paths_are_not_found(
    maps: MapsModel,
    origins: Map<i64, i64>,
    hidden: Set<Seq<char>>,
    delta: LayerModel,
    base: LayerModel,
    info: InfoModel,
    name: Seq<char>,
)
    requires
        hides(hidden, child_path(info.path, name)),
    ensures
        looked_up(maps, origins, hidden, delta, base, info, name) == (maps, None::<Stats>),
{
}

/// What the delta has comes before what the base has.
pub proof fn the_delta_covers_the_base(
    maps: MapsModel,
    origins: Map<i64, i64>,
    hidden: Set<Seq<char>>,
    delta: LayerModel,
    base: LayerModel,
    other_base: LayerModel,
    info: InfoModel,
    name: Seq<char>,
)
    requires
        delta_child(delta, info, name) is Some,
    ensures
        looked_up(maps, origins, hidden, delta, base, info, name) == looked_up(
            maps,
            origins,
            hidden,
            delta,
            other_base,
            info,
            name,
        ),
{
}

} // verus!
