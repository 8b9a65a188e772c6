//! The rename of a name in the overlay, step by step: the source is brought into the delta
//! and moved there, and what the base still shows under the old name is hidden.
use crate::error::FsError;
use crate::overlay::{Layers, check_overlay_rename, needs_whiteout};
use crate::overlay_maps::{InodeInfo, Layer, OverlayMaps, child_path};
use crate::path::components;
use crate::stats::{S_IFDIR, Stats, mode_is};
use crate::whiteouts::hides;
use vstd::prelude::*;

verus! {

/// What a rename asks for next.
#[derive(Debug, Clone, Copy, PartialEq, Eq, Structural)]
pub enum MoveAsk {
    /// What the overlay shows under the old name.
    FindSource,
    /// Which layer this inode of the overlay is in, and where.
    PlaceOf(Stats),
    /// Whether the base still shows a directory at the old path.
    BaseShows(Stats),
    /// What the overlay shows under the new name.
    FindTarget,
    /// Show the new path again if it is hidden.
    Unhide,
    /// Copy this base inode into the delta, at the old path.
    CopySource(i64),
    /// Make the directories above the new path in the delta.
    MakeParents,
    /// Where the delta has the old parent.
    OldParent,
    /// Where the delta has the new parent.
    NewParent,
    /// Rename in the delta, from one directory to the other.
    MoveEntry { from: i64, to: i64 },
    /// Let this inode of the overlay lead to this delta inode at the new path.
    Refresh { ino: i64, delta_ino: i64 },
    /// What the overlay still shows under the old name.
    LookAgain,
    /// Hide the old path.
    Hide,
    /// Nothing: the rename is done.
    Finish,
}

/// What a rename is answered.
#[derive(Debug, Clone, Copy)]
pub enum MoveReply {
    Found(Option<Stats>),
    Place(Option<(Layer, i64)>),
    Shows(bool),
    Inode(i64),
    Dir(Option<i64>),
    Done,
}

/// A rename under way.
pub struct OverlayRename {
    pub old_parent: InodeInfo,
    pub new_parent: InodeInfo,
    pub old_path: String,
    pub new_path: String,
    pub state: MoveState,
}

/// How far a rename has come.
#[derive(Debug, Clone, Copy, PartialEq, Eq, Structural)]
pub struct MoveState {
    /// What was asked last.
    pub asked: MoveAsk,
    /// The inode of the overlay that is renamed, once it is known.
    pub source: i64,
    /// Its layer.
    pub layer: Layer,
    /// Its inode in that layer, and in the delta once it is there.
    pub underlying: i64,
    /// The inode of the overlay that had the new name.
    pub replaced: Option<i64>,
    /// Where the delta has the old parent.
    pub from: i64,
}

impl MoveState {
    pub open spec fn asking(self, asked: MoveAsk) -> MoveState {
        MoveState { asked, ..self }
    }

    /// Whether a reply is of the kind that was asked for.
    pub open spec fn expects(self, reply: MoveReply) -> bool {
        match self.asked {
            MoveAsk::FindSource | MoveAsk::FindTarget | MoveAsk::LookAgain => reply is Found,
            MoveAsk::PlaceOf(_) => reply is Place,
            MoveAsk::BaseShows(_) => reply is Shows,
            MoveAsk::CopySource(_) => reply is Inode,
            MoveAsk::OldParent | MoveAsk::NewParent => reply is Dir,
            MoveAsk::Unhide | MoveAsk::MakeParents | MoveAsk::MoveEntry { .. }
            | MoveAsk::Refresh { .. } | MoveAsk::Hide => reply is Done,
            MoveAsk::Finish => false,
        }
    }

    /// The rename after an answer, or why it ends. A directory that the base still shows
    /// cannot be renamed, since only the directory itself would be copied.
    pub open spec fn after(self, reply: MoveReply) -> Result<MoveState, FsError> {
        match (self.asked, reply) {
            (MoveAsk::FindSource, MoveReply::Found(None)) => Err(FsError::NotFound),
            (MoveAsk::FindSource, MoveReply::Found(Some(stats))) => Ok(
                MoveState { source: stats.ino, asked: MoveAsk::PlaceOf(stats), ..self },
            ),
            (MoveAsk::PlaceOf(_), MoveReply::Place(None)) => Err(FsError::NotFound),
            (MoveAsk::PlaceOf(stats), MoveReply::Place(Some((layer, underlying)))) => Ok(
                MoveState {
                    layer,
                    underlying,
                    asked: if mode_is(stats.mode, S_IFDIR) {
                        MoveAsk::BaseShows(stats)
                    } else {
                        MoveAsk::FindTarget
                    },
                    ..self
                },
            ),
            (MoveAsk::BaseShows(stats), MoveReply::Shows(yes)) => if yes && mode_is(
                stats.mode,
                S_IFDIR,
            ) {
                Err(FsError::CrossDevice)
            } else {
                Ok(self.asking(MoveAsk::FindTarget))
            },
            (MoveAsk::FindTarget, MoveReply::Found(found)) => Ok(
                MoveState {
                    replaced: match found {
                        Some(stats) => Some(stats.ino),
                        None => None,
                    },
                    asked: MoveAsk::Unhide,
                    ..self
                },
            ),
            (MoveAsk::Unhide, _) => match self.layer {
                Layer::Base => Ok(self.asking(MoveAsk::CopySource(self.underlying))),
                Layer::Delta => Ok(self.asking(MoveAsk::MakeParents)),
            },
            (MoveAsk::CopySource(_), MoveReply::Inode(ino)) => Ok(
                MoveState { underlying: ino, asked: MoveAsk::MakeParents, ..self },
            ),
            (MoveAsk::MakeParents, _) => Ok(self.asking(MoveAsk::OldParent)),
            (MoveAsk::OldParent, MoveReply::Dir(None)) => Err(FsError::NotFound),
            (MoveAsk::OldParent, MoveReply::Dir(Some(dir))) => Ok(
                MoveState { from: dir, asked: MoveAsk::NewParent, ..self },
            ),
            (MoveAsk::NewParent, MoveReply::Dir(None)) => Err(FsError::NotFound),
            (MoveAsk::NewParent, MoveReply::Dir(Some(dir))) => Ok(
                self.asking(MoveAsk::MoveEntry { from: self.from, to: dir }),
            ),
            (MoveAsk::MoveEntry { .. }, _) => Ok(
                self.asking(MoveAsk::Refresh { ino: self.source, delta_ino: self.underlying }),
            ),
            (MoveAsk::Refresh { .. }, _) => Ok(self.asking(MoveAsk::LookAgain)),
            (MoveAsk::LookAgain, MoveReply::Found(Some(_))) => Ok(self.asking(MoveAsk::Hide)),
            _ => Ok(self.asking(MoveAsk::Finish)),
        }
    }

    /// How far a rename has come. The new path is shown again before anything is copied,
    /// so that a failure there leaves no copy behind.
    pub open spec fn stage(self) -> int {
        match self.asked {
            MoveAsk::FindSource => 0,
            MoveAsk::PlaceOf(_) => 1,
            MoveAsk::BaseShows(_) => 2,
            MoveAsk::FindTarget => 3,
            MoveAsk::Unhide => 4,
            MoveAsk::CopySource(_) => 5,
            MoveAsk::MakeParents => 6,
            MoveAsk::OldParent => 7,
            MoveAsk::NewParent => 8,
            MoveAsk::MoveEntry { .. } => 9,
            MoveAsk::Refresh { .. } => 10,
            MoveAsk::LookAgain => 11,
            MoveAsk::Hide => 12,
            MoveAsk::Finish => 13,
        }
    }

    /// What the answer to a question says of the layers, and what was done to them.
    pub open spec fn answered(
        self,
        reply: MoveReply,
        old_path: Seq<char>,
        new_path: Seq<char>,
        now: Layers,
        next: Layers,
    ) -> bool {
        match (self.asked, reply) {
            (MoveAsk::PlaceOf(_), MoveReply::Place(Some((layer, ino)))) => {
                &&& layer is Delta ==> has_inode(now.delta, old_path, ino)
                &&& next == now
            },
            (MoveAsk::Unhide, _) => next == Layers { hidden: now.hidden.remove(new_path), ..now },
            (MoveAsk::CopySource(_), MoveReply::Inode(ino)) => {
                &&& next.base == now.base
                &&& next.hidden.subset_of(now.hidden)
                &&& has_inode(next.delta, old_path, ino)
            },
            (MoveAsk::MakeParents, _) => {
                &&& next.base == now.base
                &&& next.hidden.subset_of(now.hidden)
                &&& shows_the_way(next.hidden, new_path)
                &&& now.delta.contains_key(old_path) ==> has_inode(
                    next.delta,
                    old_path,
                    now.delta[old_path].ino,
                )
            },
            (MoveAsk::MoveEntry { .. }, _) => {
                &&& next.base == now.base
                &&& next.hidden == now.hidden
                &&& !next.delta.contains_key(old_path)
                &&& has_inode(next.delta, new_path, now.delta[old_path].ino)
            },
            (MoveAsk::LookAgain, MoveReply::Found(found)) => {
                &&& (found is Some) == (now.shown(old_path) is Some)
                &&& next == now
            },
            (MoveAsk::Hide, _) => next == Layers { hidden: now.hidden.insert(old_path), ..now },
            _ => next == now,
        }
    }

    /// What a rename has made of the layers that it found.
    pub open spec fn knows(
        self,
        old_path: Seq<char>,
        new_path: Seq<char>,
        before: Layers,
        now: Layers,
    ) -> bool {
        &&& now.base == before.base
        &&& self.stage() <= 4 ==> now == before
        &&& self.stage() > 4 ==> !now.hidden.contains(new_path)
        &&& 6 < self.stage() ==> !hides(now.hidden, new_path)
        &&& 1 < self.stage() <= 4 && self.layer is Delta ==> has_inode(
            now.delta,
            old_path,
            self.underlying,
        )
        &&& 6 <= self.stage() <= 9 ==> has_inode(now.delta, old_path, self.underlying)
        &&& 9 < self.stage() ==> has_inode(now.delta, new_path, self.underlying)
            && !now.delta.contains_key(old_path)
        &&& self.asked is Finish ==> now.shown(old_path) is None
    }
}

/// Whether a layer has this inode at a path.
pub open spec fn has_inode(layer: Map<Seq<char>, Stats>, path: Seq<char>, ino: i64) -> bool {
    layer.contains_key(path) && layer[path].ino == ino
}

/// No directory above a path is hidden.
pub open spec fn shows_the_way(hidden: Set<Seq<char>>, path: Seq<char>) -> bool {
    forall|k: int|
        0 < k < components(path).len() ==> !hidden.contains(
            crate::path::slashed(#[trigger] components(path).take(k)),
        )
}

/// A path that is not hidden itself, and that no hidden directory lies above, is shown.
pub proof fn lemma_shown_way(hidden: Set<Seq<char>>, path: Seq<char>)
    requires
        shows_the_way(hidden, path),
        components(path).len() > 0,
        path == crate::path::rendered(components(path)),
        !hidden.contains(path),
    ensures
        !hides(hidden, path),
{
    assert(components(path).take(components(path).len() as int) =~= components(path));
}

/// A path is hidden no longer once fewer paths are.
pub proof fn lemma_fewer_hidden(fewer: Set<Seq<char>>, hidden: Set<Seq<char>>, path: Seq<char>)
    requires
        fewer.subset_of(hidden),
        !hides(hidden, path),
    ensures
        !hides(fewer, path),
{
    assert forall|k: int| 0 < k <= components(path).len() implies !fewer.contains(
        crate::path::slashed(#[trigger] components(path).take(k)),
    ) by {}
}

impl OverlayRename {
    /// Starts the rename of a name in one directory of the overlay to a name in another.
    pub fn start(
        maps: &OverlayMaps,
        old_parent: i64,
        old_name: &str,
        new_parent: i64,
        new_name: &str,
    ) -> (result: Result<OverlayRename, FsError>)
        ensures
            match result {
                Err(error) => error is NotFound && !(maps@.inode.contains_key(old_parent)
                    && maps@.inode.contains_key(new_parent)),
                Ok(rename) => {
                    &&& maps@.inode.contains_key(old_parent)
                    &&& maps@.inode.contains_key(new_parent)
                    &&& rename.old_parent@ == maps@.inode[old_parent]
                    &&& rename.new_parent@ == maps@.inode[new_parent]
                    &&& rename.old_path@ == child_path(maps@.inode[old_parent].path, old_name@)
                    &&& rename.new_path@ == child_path(maps@.inode[new_parent].path, new_name@)
                    &&& rename.state.asked is FindSource
                },
            },
    {
        let old_info: InodeInfo = match maps.get_inode_info(old_parent) {
            Some(info) => info,
            None => {
                return Err(FsError::NotFound);
            },
        };
        let new_info: InodeInfo = match maps.get_inode_info(new_parent) {
            Some(info) => info,
            None => {
                return Err(FsError::NotFound);
            },
        };
        let old_path: String = maps.build_path(old_parent, old_name)?;
        let new_path: String = maps.build_path(new_parent, new_name)?;
        let state = MoveState {
            asked: MoveAsk::FindSource,
            source: 0,
            layer: Layer::Delta,
            underlying: 0,
            replaced: None,
            from: 0,
        };
        Ok(
            OverlayRename { old_parent: old_info, new_parent: new_info, old_path, new_path, state },
        )
    }

    /// Takes the answer to what was asked.
    pub fn step(&mut self, reply: MoveReply) -> (result: Result<(), FsError>)
        requires
            old(self).state.expects(reply),
        ensures
            final(self).old_parent@ == old(self).old_parent@,
            final(self).new_parent@ == old(self).new_parent@,
            final(self).old_path@ == old(self).old_path@,
            final(self).new_path@ == old(self).new_path@,
            match old(self).state.after(reply) {
                Ok(next) => result is Ok && final(self).state == next,
                Err(error) => result == Err::<(), FsError>(error) && final(self).state == old(
                    self,
                ).state,
            },
    {
        match (self.state.asked, reply) {
            (MoveAsk::FindSource, MoveReply::Found(found)) => {
                let stats: Stats = check_overlay_rename(found, false)?;
                self.state.source = stats.ino;
                self.state.asked = MoveAsk::PlaceOf(stats);
            },
            (MoveAsk::PlaceOf(stats), MoveReply::Place(place)) => match place {
                None => {
                    return Err(FsError::NotFound);
                },
                Some((layer, underlying)) => {
                    self.state.layer = layer;
                    self.state.underlying = underlying;
                    self.state.asked = if stats.is_directory() {
                        MoveAsk::BaseShows(stats)
                    } else {
                        MoveAsk::FindTarget
                    };
                },
            },
            (MoveAsk::BaseShows(stats), MoveReply::Shows(yes)) => {
                check_overlay_rename(Some(stats), yes)?;
                self.state.asked = MoveAsk::FindTarget;
            },
            (MoveAsk::FindTarget, MoveReply::Found(found)) => {
                self.state.replaced = match found {
                    Some(stats) => Some(stats.ino),
                    None => None,
                };
                self.state.asked = MoveAsk::Unhide;
            },
            (MoveAsk::Unhide, _) => {
                self.state.asked = match self.state.layer {
                    Layer::Base => MoveAsk::CopySource(self.state.underlying),
                    Layer::Delta => MoveAsk::MakeParents,
                };
            },
            (MoveAsk::CopySource(_), MoveReply::Inode(ino)) => {
                self.state.underlying = ino;
                self.state.asked = MoveAsk::MakeParents;
            },
            (MoveAsk::MakeParents, _) => {
                self.state.asked = MoveAsk::OldParent;
            },
            (MoveAsk::OldParent, MoveReply::Dir(dir)) => match dir {
                None => {
                    return Err(FsError::NotFound);
                },
                Some(from) => {
                    self.state.from = from;
                    self.state.asked = MoveAsk::NewParent;
                },
            },
            (MoveAsk::NewParent, MoveReply::Dir(dir)) => match dir {
                None => {
                    return Err(FsError::NotFound);
                },
                Some(to) => {
                    self.state.asked = MoveAsk::MoveEntry { from: self.state.from, to };
                },
            },
            (MoveAsk::MoveEntry { .. }, _) => {
                self.state.asked = MoveAsk::Refresh {
                    ino: self.state.source,
                    delta_ino: self.state.underlying,
                };
            },
            (MoveAsk::Refresh { .. }, _) => {
                self.state.asked = MoveAsk::LookAgain;
            },
            (MoveAsk::LookAgain, MoveReply::Found(found)) => {
                self.state.asked = if needs_whiteout(found) {
                    MoveAsk::Hide
                } else {
                    MoveAsk::Finish
                };
            },
            _ => {
                self.state.asked = MoveAsk::Finish;
            },
        }
        Ok(())
    }

    /// The inode of the overlay that had the new name before the rename.
    pub fn replaced(&self) -> (ino: Option<i64>)
        ensures
            ino == self.state.replaced,
    {
        self.state.replaced
    }
}

/// Each answer brings a rename forward: it comes to its end, and the new path is shown
/// again before the source is copied.
pub proof fn an_overlay_rename_goes_forward(state: MoveState, reply: MoveReply)
    requires
        state.expects(reply),
        state.after(reply) is Ok,
    ensures
        state.stage() < (state.after(reply)->Ok_0).stage(),
{
}

/// With true answers a rename knows at each step what it has done to the layers, provided
/// that the new path does not lie at or below the old one.
pub proof fn true_answers_keep_an_overlay_rename_right(
    state: MoveState,
    reply: MoveReply,
    old_path: Seq<char>,
    new_path: Seq<char>,
    before: Layers,
    now: Layers,
    next: Layers,
)
    requires
        components(old_path).len() > 0,
        old_path == crate::path::rendered(components(old_path)),
        components(new_path).len() > 0,
        new_path == crate::path::rendered(components(new_path)),
        forall|k: int|
            0 < k <= components(new_path).len() ==> #[trigger] components(new_path).take(k)
                != components(old_path),
        state.expects(reply),
        state.knows(old_path, new_path, before, now),
        state.answered(reply, old_path, new_path, now, next),
        state.after(reply) is Ok,
    ensures
        (state.after(reply)->Ok_0).knows(old_path, new_path, before, next),
{
    let then = state.after(reply)->Ok_0;
    match state.asked {
        MoveAsk::MakeParents => {
            lemma_shown_way(next.hidden, new_path);
        },
        MoveAsk::Hide => {
            let parts = components(old_path);
            crate::path::components_are_plain(old_path);
            crate::whiteouts::a_hidden_path_hides_what_is_below(now.hidden, parts, Seq::empty());
            assert(parts + Seq::<Seq<char>>::empty() =~= parts);
            // Hiding the old path and showing it again changes nothing for the new path.
            crate::whiteouts::showing_a_path_leaves_other_paths(next.hidden, parts, new_path);
            lemma_fewer_hidden(next.hidden.remove(old_path), now.hidden, new_path);
            assert(components(new_path).take(components(new_path).len() as int)
                =~= components(new_path));
            assert(!hides(next.hidden, new_path));
        },
        _ => {},
    }
}

/// A rename that has come to its end shows the delta inode of the source under the new name,
/// and nothing under the old name. The base is what it was.
pub proof fn a_finished_overlay_rename_has_moved(
    state: MoveState,
    old_path: Seq<char>,
    new_path: Seq<char>,
    before: Layers,
    now: Layers,
)
    requires
        state.asked is Finish,
        state.knows(old_path, new_path, before, now),
    ensures
        now.shown(old_path) is None,
        now.shown(new_path) == Some(now.delta[new_path]),
        now.delta[new_path].ino == state.underlying,
        now.base == before.base,
{
}

} // verus!
