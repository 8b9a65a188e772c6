//! Inode numbers of the overlay and what they stand for in its two layers.
use crate::batcher_state::map_keys;
use crate::error::FsError;
use crate::path::rendered;
use crate::stats::ROOT_INO;
use crate::text::same_text;
use std::collections::HashMap;
use vstd::hash_map::StringHashMap;
use vstd::prelude::*;

verus! {

broadcast use {
    vstd::std_specs::hash::group_hash_axioms,
    vstd::hash_map::group_hash_map_axioms,
};

/// The layer that an inode lives in.
#[derive(Debug, Clone, Copy, PartialEq, Eq, Hash, Structural)]
pub enum Layer {
    Delta,
    Base,
}

/// What an overlay inode stands for.
#[derive(Debug, Clone)]
pub struct InodeInfo {
    pub layer: Layer,
    /// Inode in that layer.
    pub underlying_ino: i64,
    /// Path in the overlay.
    pub path: String,
    /// Whether the base inode of a copied-up file also leads here.
    pub has_extra_reverse: bool,
}

#[verifier::ext_equal]
pub struct InfoModel {
    pub layer: Layer,
    pub underlying_ino: i64,
    pub path: Seq<char>,
    pub has_extra_reverse: bool,
}

impl View for InodeInfo {
    type V = InfoModel;

    open spec fn view(&self) -> InfoModel {
        InfoModel {
            layer: self.layer,
            underlying_ino: self.underlying_ino,
            path: self.path@,
            has_extra_reverse: self.has_extra_reverse,
        }
    }
}

impl InodeInfo {
    pub fn copied(&self) -> (info: InodeInfo)
        ensures
            info@ == self@,
    {
        InodeInfo {
            layer: self.layer,
            underlying_ino: self.underlying_ino,
            path: self.path.clone(),
            has_extra_reverse: self.has_extra_reverse,
        }
    }
}

/// The inode maps of the overlay.
pub struct OverlayMaps {
    pub inode: HashMap<i64, InodeInfo>,
    /// Overlay inodes of delta inodes.
    pub reverse_delta: HashMap<i64, i64>,
    /// Overlay inodes of base inodes.
    pub reverse_base: HashMap<i64, i64>,
    pub path: StringHashMap<i64>,
    /// How often the kernel was told of each inode.
    pub lookup_refs: HashMap<i64, u64>,
    pub next_ino: i64,
}

/// The inode maps as a mathematical value.
#[verifier::ext_equal]
pub struct MapsModel {
    pub inode: Map<i64, InfoModel>,
    pub delta: Map<i64, i64>,
    pub base: Map<i64, i64>,
    pub path: Map<Seq<char>, i64>,
    pub refs: Map<i64, u64>,
    pub next_ino: i64,
}

impl View for OverlayMaps {
    type V = MapsModel;

    open spec fn view(&self) -> MapsModel {
        MapsModel {
            inode: self.inode@.map_values(|info: InodeInfo| info@),
            delta: self.reverse_delta@,
            base: self.reverse_base@,
            path: self.path@,
            refs: self.lookup_refs@,
            next_ino: self.next_ino,
        }
    }
}

pub open spec fn root_info() -> InfoModel {
    InfoModel {
        layer: Layer::Delta,
        underlying_ino: ROOT_INO,
        path: seq!['/'],
        has_extra_reverse: false,
    }
}

impl MapsModel {
    /// The maps of a new overlay: only the root.
    pub open spec fn fresh() -> MapsModel {
        MapsModel {
            inode: Map::empty().insert(ROOT_INO, root_info()),
            delta: Map::empty().insert(ROOT_INO, ROOT_INO),
            base: Map::empty(),
            path: Map::empty().insert(seq!['/'], ROOT_INO),
            refs: Map::empty(),
            next_ino: 2,
        }
    }

    /// Every number that something stands for was handed out, the root is there, and no count
    /// is zero or that of the root.
    pub open spec fn wf(self) -> bool {
        &&& self.next_ino > ROOT_INO
        &&& self.inode.contains_key(ROOT_INO)
        &&& forall|ino: i64| #[trigger]
            self.inode.contains_key(ino) ==> ROOT_INO <= ino < self.next_ino
        &&& forall|ino: i64| #[trigger]
            self.refs.contains_key(ino) ==> ino != ROOT_INO && self.refs[ino] > 0
        &&& forall|u: i64| #[trigger]
            self.delta.contains_key(u) ==> ROOT_INO <= self.delta[u] < self.next_ino
        &&& forall|u: i64| #[trigger]
            self.base.contains_key(u) ==> ROOT_INO <= self.base[u] < self.next_ino
        &&& forall|p: Seq<char>| #[trigger]
            self.path.contains_key(p) ==> ROOT_INO <= self.path[p] < self.next_ino
    }

    /// The overlay inode of an inode of a layer.
    pub open spec fn reverse_of(self, layer: Layer, underlying: i64) -> Option<i64> {
        let map = if layer == Layer::Delta {
            self.delta
        } else {
            self.base
        };
        if map.contains_key(underlying) {
            Some(map[underlying])
        } else {
            None
        }
    }

    pub open spec fn with_reverse(self, layer: Layer, underlying: i64, ino: i64) -> MapsModel {
        if layer == Layer::Delta {
            MapsModel { delta: self.delta.insert(underlying, ino), ..self }
        } else {
            MapsModel { base: self.base.insert(underlying, ino), ..self }
        }
    }

    pub open spec fn without_reverse(self, layer: Layer, underlying: i64) -> MapsModel {
        if layer == Layer::Delta {
            MapsModel { delta: self.delta.remove(underlying), ..self }
        } else {
            MapsModel { base: self.base.remove(underlying), ..self }
        }
    }

    /// The kernel was told of an inode `nlookup` more times. The root is not counted.
    pub open spec fn retained(self, ino: i64, nlookup: u64) -> MapsModel {
        if ino == ROOT_INO || nlookup == 0 {
            self
        } else {
            let refs = if self.refs.contains_key(ino) {
                self.refs[ino]
            } else {
                0
            };
            let sum = if refs + nlookup > u64::MAX {
                u64::MAX
            } else {
                (refs + nlookup) as u64
            };
            MapsModel { refs: self.refs.insert(ino, sum), ..self }
        }
    }

    /// A number for an inode of a layer: the one it has, or a new one.
    pub open spec fn got(self, layer: Layer, underlying: i64, path: Seq<char>) -> (MapsModel, i64) {
        match self.reverse_of(layer, underlying) {
            Some(ino) => (self.retained(ino, 1), ino),
            None => {
                let ino = self.next_ino;
                (
                    MapsModel {
                        inode: self.inode.insert(
                            ino,
                            InfoModel {
                                layer,
                                underlying_ino: underlying,
                                path,
                                has_extra_reverse: false,
                            },
                        ),
                        path: self.path.insert(path, ino),
                        refs: self.refs.insert(ino, 1),
                        next_ino: (ino + 1) as i64,
                        ..self.with_reverse(layer, underlying, ino)
                    },
                    ino,
                )
            },
        }
    }

    /// An overlay inode that stands for another inode and path from now on.
    pub open spec fn refreshed(
        self,
        ino: i64,
        layer: Layer,
        underlying: i64,
        path: Seq<char>,
    ) -> MapsModel {
        if !self.inode.contains_key(ino) {
            self
        } else {
            let info = self.inode[ino];
            let left = if self.path.contains_key(info.path) && self.path[info.path] == ino {
                self.path.remove(info.path)
            } else {
                self.path
            };
            MapsModel {
                inode: self.inode.insert(
                    ino,
                    InfoModel {
                        layer,
                        underlying_ino: underlying,
                        path,
                        has_extra_reverse: info.has_extra_reverse || (info.layer == Layer::Base
                            && layer == Layer::Delta),
                    },
                ),
                path: left.insert(path, ino),
                ..self.with_reverse(layer, underlying, ino)
            }
        }
    }

    /// The overlay inode of a path moves from the base to the delta.
    pub open spec fn promoted(self, path: Seq<char>, delta_ino: i64) -> MapsModel {
        if self.path.contains_key(path) && self.inode.contains_key(self.path[path])
            && self.inode[self.path[path]].layer == Layer::Base {
            let ino = self.path[path];
            let info = self.inode[ino];
            MapsModel {
                inode: self.inode.insert(
                    ino,
                    InfoModel {
                        layer: Layer::Delta,
                        underlying_ino: delta_ino,
                        has_extra_reverse: false,
                        ..info
                    },
                ),
                ..self.without_reverse(Layer::Base, info.underlying_ino).with_reverse(
                    Layer::Delta,
                    delta_ino,
                    ino,
                )
            }
        } else {
            self
        }
    }

    /// Nothing stands for an inode number any more.
    pub open spec fn pruned(self, ino: i64) -> MapsModel {
        if !self.inode.contains_key(ino) {
            self
        } else {
            let info = self.inode[ino];
            let paths = if self.path.contains_key(info.path) && self.path[info.path] == ino {
                self.path.remove(info.path)
            } else {
                self.path
            };
            let cut = self.without_reverse(info.layer, info.underlying_ino);
            MapsModel {
                inode: self.inode.remove(ino),
                path: paths,
                delta: if info.has_extra_reverse {
                    without_value(cut.delta, ino)
                } else {
                    cut.delta
                },
                base: if info.has_extra_reverse {
                    without_value(cut.base, ino)
                } else {
                    cut.base
                },
                ..self
            }
        }
    }

    /// The kernel forgot an inode `nlookup` times; the last time it goes.
    pub open spec fn forgotten(self, ino: i64, nlookup: u64) -> MapsModel {
        if ino == ROOT_INO || !self.refs.contains_key(ino) {
            self
        } else if self.refs[ino] > nlookup {
            MapsModel { refs: self.refs.insert(ino, (self.refs[ino] - nlookup) as u64), ..self }
        } else {
            (MapsModel { refs: self.refs.remove(ino), ..self }).pruned(ino)
        }
    }

    /// The overlay inode of a base inode, if it still stands for the path.
    pub open spec fn live_origin(self, base_ino: i64, path: Seq<char>) -> Option<i64> {
        match self.reverse_of(Layer::Base, base_ino) {
            Some(ino) => if self.inode.contains_key(ino) && self.inode[ino].path == path {
                Some(ino)
            } else {
                None
            },
            None => None,
        }
    }
}

/// The entries of a map that lead elsewhere.
pub open spec fn without_value(map: Map<i64, i64>, value: i64) -> Map<i64, i64> {
    Map::new(|key: i64| map.contains_key(key) && map[key] != value, |key: i64| map[key])
}

fn drop_value(map: &mut HashMap<i64, i64>, value: i64)
    ensures
        final(map)@ == without_value(old(map)@, value),
{
    let keys: Vec<i64> = map_keys(map);
    let ghost before = map@;
    let mut i: usize = 0;
    while i < keys.len()
        invariant
            i <= keys@.len(),
            keys@.no_duplicates(),
            keys@.to_set() == before.dom(),
            forall|key: i64| #[trigger]
                map@.contains_key(key) <==> before.contains_key(key) && !(exists|k: int|
                    0 <= k < i && keys@[k] == key && before[key] == value),
            forall|key: i64| #[trigger] map@.contains_key(key) ==> map@[key] == before[key],
        decreases keys@.len() - i,
    {
        let key: i64 = keys[i];
        let ghost now = map@;
        assert(keys@.to_set().contains(key));
        assert(before.contains_key(key));
        assert(map@.contains_key(key)) by {
            if !map@.contains_key(key) {
                let k = choose|k: int| 0 <= k < i && keys@[k] == key && before[key] == value;
                assert(keys@[k] == keys@[i as int]);
            }
        }
        let found: Option<&i64> = map.get(&key);
        let is_value: bool = match found {
            Some(v) => *v == value,
            None => false,
        };
        if is_value {
            map.remove(&key);
        }
        i += 1;
        proof {
            assert forall|other: i64| #[trigger]
                map@.contains_key(other) <==> before.contains_key(other) && !(exists|k: int|
                    0 <= k < i && keys@[k] == other && before[other] == value) by {
                if other == key {
                    if is_value {
                        assert(keys@[i - 1] == other);
                    } else {
                        assert(now.contains_key(other));
                    }
                } else {
                    assert(map@.contains_key(other) == now.contains_key(other));
                    if exists|k: int| 0 <= k < i && keys@[k] == other && before[other] == value {
                        let k = choose|k: int|
                            0 <= k < i && keys@[k] == other && before[other] == value;
                        assert(k < i - 1);
                    }
                }
            }
        }
    }
    proof {
        assert forall|key: i64| #[trigger] map@.contains_key(key) <==> without_value(
            before,
            value,
        ).contains_key(key) by {
            if before.contains_key(key) && before[key] == value {
                assert(keys@.to_set().contains(key));
                assert(keys@.contains(key));
            }
        }
        assert(map@ =~= without_value(before, value));
    }
}

/// Sizes of the maps.
#[derive(Debug, Clone, Copy, PartialEq, Eq, Structural)]
pub struct OverlayMapCounts {
    pub inode_entries: usize,
    pub reverse_entries: usize,
    pub path_entries: usize,
    pub lookup_ref_entries: usize,
}

impl OverlayMaps {
    pub open spec fn wf(self) -> bool {
        self@.wf()
    }

    pub fn new() -> (maps: OverlayMaps)
        ensures
            maps.wf(),
            maps@ == MapsModel::fresh(),
    {
        proof {
            reveal_strlit("/");
            assert("/"@ =~= seq!['/']);
        }
        let mut inode: HashMap<i64, InodeInfo> = HashMap::new();
        inode.insert(
            ROOT_INO,
            InodeInfo {
                layer: Layer::Delta,
                underlying_ino: ROOT_INO,
                path: "/".to_owned(),
                has_extra_reverse: false,
            },
        );
        let mut reverse_delta: HashMap<i64, i64> = HashMap::new();
        reverse_delta.insert(ROOT_INO, ROOT_INO);
        let mut path: StringHashMap<i64> = StringHashMap::new();
        path.insert("/".to_owned(), ROOT_INO);
        let maps = OverlayMaps {
            inode,
            reverse_delta,
            reverse_base: HashMap::new(),
            path,
            lookup_refs: HashMap::new(),
            next_ino: 2,
        };
        assert(maps@.inode =~= MapsModel::fresh().inode);
        assert(maps@ =~= MapsModel::fresh());
        maps
    }

    fn alloc_ino(&mut self) -> (ino: i64)
        requires
            old(self).next_ino < i64::MAX,
        ensures
            ino == old(self).next_ino,
            final(self)@ == (MapsModel { next_ino: (ino + 1) as i64, ..old(self)@ }),
    {
        let ino: i64 = self.next_ino;
        self.next_ino = ino + 1;
        ino
    }

    fn reverse(&self, layer: Layer, underlying: i64) -> (ino: Option<i64>)
        ensures
            ino == self@.reverse_of(layer, underlying),
    {
        let found: Option<&i64> = match layer {
            Layer::Delta => self.reverse_delta.get(&underlying),
            Layer::Base => self.reverse_base.get(&underlying),
        };
        match found {
            Some(ino) => Some(*ino),
            None => None,
        }
    }

    fn set_reverse(&mut self, layer: Layer, underlying: i64, ino: i64)
        ensures
            final(self)@ == old(self)@.with_reverse(layer, underlying, ino),
    {
        match layer {
            Layer::Delta => {
                self.reverse_delta.insert(underlying, ino);
            },
            Layer::Base => {
                self.reverse_base.insert(underlying, ino);
            },
        }
    }

    fn remove_reverse(&mut self, layer: Layer, underlying: i64)
        ensures
            final(self)@ == old(self)@.without_reverse(layer, underlying),
    {
        match layer {
            Layer::Delta => {
                self.reverse_delta.remove(&underlying);
            },
            Layer::Base => {
                self.reverse_base.remove(&underlying);
            },
        }
    }

    fn path_leads_to(&self, path: &str, ino: i64) -> (yes: bool)
        ensures
            yes == (self@.path.contains_key(path@) && self@.path[path@] == ino),
    {
        match self.path.get(path) {
            Some(found) => *found == ino,
            None => false,
        }
    }

    /// The overlay inode of an inode of a layer. It is retained once; a new one stands
    /// for `path`.
    pub fn get_or_create(&mut self, layer: Layer, underlying_ino: i64, path: &str) -> (ino: i64)
        requires
            old(self).wf(),
            old(self).next_ino < i64::MAX,
        ensures
            final(self).wf(),
            (final(self)@, ino) == old(self)@.got(layer, underlying_ino, path@),
    {
        let ghost before = self@;
        if let Some(ino) = self.reverse(layer, underlying_ino) {
            self.retain_lookup(ino, 1);
            return ino;
        }
        let ino: i64 = self.alloc_ino();
        self.inode.insert(
            ino,
            InodeInfo { layer, underlying_ino, path: path.to_owned(), has_extra_reverse: false },
        );
        self.set_reverse(layer, underlying_ino, ino);
        self.path.insert(path.to_owned(), ino);
        self.lookup_refs.insert(ino, 1);
        proof {
            assert(self@.inode =~= before.got(layer, underlying_ino, path@).0.inode);
            assert(self@ =~= before.got(layer, underlying_ino, path@).0);
        }
        ino
    }

    /// Lets an overlay inode stand for another inode and path. The base inode of a file
    /// that was copied up keeps leading to it.
    pub fn refresh(&mut self, overlay_ino: i64, layer: Layer, underlying_ino: i64, path: &str)
        requires
            old(self).wf(),
        ensures
            final(self).wf(),
            final(self)@ == old(self)@.refreshed(overlay_ino, layer, underlying_ino, path@),
    {
        let ghost before = self@;
        let info: InodeInfo = match self.inode.remove(&overlay_ino) {
            Some(info) => info,
            None => {
                assert(self@ =~= before);
                return ;
            },
        };
        assert(before.inode.contains_key(overlay_ino) && before.inode[overlay_ino] == info@);
        let keeps_origin_reverse: bool = info.layer == Layer::Base && layer == Layer::Delta;
        self.inode.insert(
            overlay_ino,
            InodeInfo {
                layer,
                underlying_ino,
                path: path.to_owned(),
                has_extra_reverse: info.has_extra_reverse || keeps_origin_reverse,
            },
        );
        self.set_reverse(layer, underlying_ino, overlay_ino);
        if self.path_leads_to(info.path.as_str(), overlay_ino) {
            self.path.remove(info.path.as_str());
        }
        self.path.insert(path.to_owned(), overlay_ino);
        proof {
            let after = before.refreshed(overlay_ino, layer, underlying_ino, path@);
            assert(self@.inode =~= after.inode);
            assert(self@ =~= after);
        }
    }

    /// Moves the overlay inode of a path from the base to the delta.
    pub fn promote_to_delta(&mut self, path: &str, delta_ino: i64)
        requires
            old(self).wf(),
        ensures
            final(self).wf(),
            final(self)@ == old(self)@.promoted(path@, delta_ino),
    {
        let ghost before = self@;
        let overlay_ino: i64 = match self.path.get(path) {
            Some(ino) => *ino,
            None => {
                return ;
            },
        };
        let is_base: bool = match self.inode.get(&overlay_ino) {
            Some(info) => info.layer == Layer::Base,
            None => {
                return ;
            },
        };
        if !is_base {
            return ;
        }
        if let Some(info) = self.inode.remove(&overlay_ino) {
            assert(before.inode[overlay_ino] == info@);
            let old_base_ino: i64 = info.underlying_ino;
            self.inode.insert(
                overlay_ino,
                InodeInfo {
                    layer: Layer::Delta,
                    underlying_ino: delta_ino,
                    path: info.path,
                    has_extra_reverse: false,
                },
            );
            self.remove_reverse(Layer::Base, old_base_ino);
            self.set_reverse(Layer::Delta, delta_ino, overlay_ino);
            proof {
                let after = before.promoted(path@, delta_ino);
                assert(self@.inode =~= after.inode);
                assert(self@ =~= after);
            }
        }
    }

    /// Counts that the kernel was told of an inode.
    pub fn retain_lookup(&mut self, ino: i64, nlookup: u64)
        requires
            old(self).wf(),
        ensures
            final(self).wf(),
            final(self)@ == old(self)@.retained(ino, nlookup),
    {
        let ghost before = self@;
        if ino == ROOT_INO || nlookup == 0 {
            return ;
        }
        let refs: u64 = match self.lookup_refs.get(&ino) {
            Some(refs) => *refs,
            None => 0,
        };
        self.lookup_refs.insert(ino, refs.saturating_add(nlookup));
        assert(self@ =~= before.retained(ino, nlookup));
    }

    /// Counts that the kernel forgot an inode.
    pub fn forget_lookup(&mut self, ino: i64, nlookup: u64)
        requires
            old(self).wf(),
        ensures
            final(self).wf(),
            final(self)@ == old(self)@.forgotten(ino, nlookup),
    {
        let ghost before = self@;
        if ino == ROOT_INO {
            return ;
        }
        let refs: u64 = match self.lookup_refs.get(&ino) {
            Some(refs) => *refs,
            None => {
                return ;
            },
        };
        if refs > nlookup {
            self.lookup_refs.insert(ino, refs - nlookup);
            assert(self@ =~= before.forgotten(ino, nlookup));
            return ;
        }
        self.lookup_refs.remove(&ino);
        assert(self@ =~= (MapsModel { refs: before.refs.remove(ino), ..before }));
        self.prune_unreferenced(ino);
    }

    fn prune_unreferenced(&mut self, ino: i64)
        requires
            old(self).wf(),
            ino != ROOT_INO,
        ensures
            final(self).wf(),
            final(self)@ == old(self)@.pruned(ino),
    {
        let ghost before = self@;
        let info: InodeInfo = match self.inode.remove(&ino) {
            Some(info) => info,
            None => {
                assert(self@ =~= before);
                return ;
            },
        };
        assert(before.inode.contains_key(ino) && before.inode[ino] == info@);
        if self.path_leads_to(info.path.as_str(), ino) {
            self.path.remove(info.path.as_str());
        }
        self.remove_reverse(info.layer, info.underlying_ino);
        if info.has_extra_reverse {
            drop_value(&mut self.reverse_delta, ino);
            drop_value(&mut self.reverse_base, ino);
        }
        proof {
            let after = before.pruned(ino);
            assert(self@.inode =~= after.inode);
            assert(self@ =~= after);
        }
    }

    /// Sizes of the maps.
    pub fn counts(&self) -> (counts: OverlayMapCounts)
        requires
            self@.delta.dom().len() + self@.base.dom().len() <= usize::MAX,
        ensures
            counts.inode_entries == self@.inode.dom().len(),
            counts.reverse_entries == self@.delta.dom().len() + self@.base.dom().len(),
            counts.path_entries == self@.path.dom().len(),
            counts.lookup_ref_entries == self@.refs.dom().len(),
    {
        assert(self@.inode.dom() =~= self.inode@.dom());
        OverlayMapCounts {
            inode_entries: self.inode.len(),
            reverse_entries: self.reverse_delta.len() + self.reverse_base.len(),
            path_entries: self.path.len(),
            lookup_ref_entries: self.lookup_refs.len(),
        }
    }

    /// What an overlay inode stands for.
    pub fn get_inode_info(&self, ino: i64) -> (info: Option<InodeInfo>)
        ensures
            match info {
                Some(found) => self@.inode.contains_key(ino) && found@ == self@.inode[ino],
                None => !self@.inode.contains_key(ino),
            },
    {
        match self.inode.get(&ino) {
            Some(info) => Some(info.copied()),
            None => None,
        }
    }

    /// The overlay inode of a base inode, if it still stands for `path`.
    pub fn live_origin_overlay_ino(&self, base_ino: i64, path: &str) -> (ino: Option<i64>)
        ensures
            ino == self@.live_origin(base_ino, path@),
    {
        let overlay_ino: i64 = match self.reverse(Layer::Base, base_ino) {
            Some(ino) => ino,
            None => {
                return None;
            },
        };
        match self.inode.get(&overlay_ino) {
            Some(info) => if same_text(info.path.as_str(), path) {
                Some(overlay_ino)
            } else {
                None
            },
            None => None,
        }
    }

    /// The path of a name in a directory.
    pub fn build_path(&self, parent_ino: i64, name: &str) -> (result: Result<String, FsError>)
        ensures
            match result {
                Ok(path) => self@.inode.contains_key(parent_ino) && path@ == child_path(
                    self@.inode[parent_ino].path,
                    name@,
                ),
                Err(error) => error is NotFound && !self@.inode.contains_key(parent_ino),
            },
    {
        match self.inode.get(&parent_ino) {
            None => Err(FsError::NotFound),
            Some(info) => Ok(join_path(info.path.as_str(), name)),
        }
    }
}

/// The path of a name in the directory at `dir`.
pub open spec fn child_path(dir: Seq<char>, name: Seq<char>) -> Seq<char> {
    if dir == seq!['/'] {
        dir + name
    } else {
        dir + seq!['/'] + name
    }
}

/// The path of a name in the directory at `dir`.
pub fn join_path(dir: &str, name: &str) -> (path: String)
    ensures
        path@ == child_path(dir@, name@),
{
    proof {
        reveal_strlit("/");
        assert("/"@ =~= seq!['/']);
    }
    let mut path: String = dir.to_owned();
    if !same_text(dir, "/") {
        path.append("/");
    }
    path.append(name);
    path
}

/// A child path of a rendered directory is the rendering with one more component.
pub proof fn child_paths_extend_the_rendering(parts: Seq<Seq<char>>, name: Seq<char>)
    requires
        crate::path::all_plain(parts),
    ensures
        child_path(rendered(parts), name) == rendered(parts.push(name)),
{
    assert(parts.push(name).drop_last() =~= parts);
    if parts.len() == 0 {
        assert(crate::path::slashed(parts) =~= Seq::<char>::empty());
        assert(child_path(rendered(parts), name) =~= rendered(parts.push(name)));
    } else {
        let dir = rendered(parts);
        crate::path::lemma_slashed_shape(parts);
        assert(dir != seq!['/']);
        assert(child_path(dir, name) =~= rendered(parts.push(name)));
    }
}

/// The same inode of a layer keeps its number while the kernel refers to it.
pub proof fn numbers_are_stable(
    maps: MapsModel,
    layer: Layer,
    underlying: i64,
    path: Seq<char>,
    other_path: Seq<char>,
)
    requires
        maps.wf(),
        maps.next_ino < i64::MAX,
    ensures
        ({
            let (once, ino) = maps.got(layer, underlying, path);
            once.got(layer, underlying, other_path).1 == ino
        }),
{
}

/// A new number stood for nothing before, stands for what it was given to, and is counted once.
pub proof fn new_numbers_are_fresh(maps: MapsModel, layer: Layer, underlying: i64, path: Seq<char>)
    requires
        maps.wf(),
        maps.next_ino < i64::MAX,
        maps.reverse_of(layer, underlying) is None,
    ensures
        ({
            let (after, ino) = maps.got(layer, underlying, path);
            &&& !maps.inode.contains_key(ino)
            &&& after.refs.contains_key(ino)
            &&& after.refs[ino] == 1
            &&& after.inode[ino].underlying_ino == underlying
            &&& after.inode[ino].layer == layer
            &&& after.inode[ino].path == path
        }),
{
}

/// Once the kernel forgot an inode as often as it was told of it, nothing stands for
/// its number, and the root is never forgotten.
pub proof fn forgotten_numbers_are_gone(maps: MapsModel, ino: i64, nlookup: u64)
    requires
        maps.wf(),
    ensures
        ino != ROOT_INO && maps.refs.contains_key(ino) && maps.refs[ino] <= nlookup ==> {
            let after = maps.forgotten(ino, nlookup);
            &&& !after.inode.contains_key(ino)
            &&& !after.refs.contains_key(ino)
            &&& maps.inode.contains_key(ino) ==> after.reverse_of(
                maps.inode[ino].layer,
                maps.inode[ino].underlying_ino,
            ) is None
        },
        maps.forgotten(ino, nlookup).inode.contains_key(ROOT_INO),
        maps.forgotten(ino, nlookup).inode[ROOT_INO] == maps.inode[ROOT_INO],
{
}

/// Telling the kernel of an inode and forgetting that leaves the counts as they were.
pub proof fn forgetting_undoes_retaining(maps: MapsModel, ino: i64, nlookup: u64)
    requires
        maps.wf(),
        ino != ROOT_INO,
        maps.refs.contains_key(ino),
        maps.refs[ino] + nlookup <= u64::MAX,
    ensures
        maps.retained(ino, nlookup).forgotten(ino, nlookup) == maps,
{
    let after = maps.retained(ino, nlookup).forgotten(ino, nlookup);
    assert(after.refs =~= maps.refs);
}

} // verus!
