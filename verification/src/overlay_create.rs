//! Making a name in the overlay, step by step: the path is shown again, the directories
//! above it are made in the delta, and then the name itself.
use crate::error::FsError;
use crate::overlay::Layers;
use crate::overlay_maps::{InodeInfo, Layer, OverlayMaps, child_path};
use crate::overlay_rename::{lemma_shown_way, shows_the_way};
use crate::path::components;
use crate::stats::Stats;
use crate::whiteouts::hides;
use vstd::prelude::*;

verus! {

/// What is to be made.
#[derive(Debug, Clone, Copy, PartialEq, Eq, Structural)]
pub enum NewEntry {
    /// A directory. Nothing may have the name.
    Directory,
    /// A file, a node or a symbolic link. The delta refuses a name that it has.
    Other,
    /// Another name for this inode of the overlay.
    Link(i64),
}

/// What making a name asks for next.
#[derive(Debug, Clone, Copy, PartialEq, Eq, Structural)]
pub enum MakeAsk {
    /// What the overlay shows under the name.
    FindExisting,
    /// Copy this base inode into the delta, where it gets the name.
    CopySource(i64),
    /// Show the path again if it is hidden.
    Unhide,
    /// Make the directories above the path in the delta. Those that the base does not have
    /// belong to this owner.
    MakeParents { uid: u32, gid: u32 },
    /// Where the delta has the parent.
    DeltaParent,
    /// Make the name in this directory of the delta.
    Make(i64),
    /// Nothing: the name was made.
    Finish,
}

/// What making a name is answered.
#[derive(Debug, Clone, Copy)]
pub enum MakeReply {
    Found(Option<Stats>),
    Inode(i64),
    Dir(Option<i64>),
    Done,
}

/// How far making a name has come.
#[derive(Debug, Clone, Copy, PartialEq, Eq, Structural)]
pub struct MakeState {
    /// What was asked last.
    pub asked: MakeAsk,
    /// Owner of the new directories above the path.
    pub uid: u32,
    pub gid: u32,
    /// The delta inode that gets another name, for a link.
    pub linked: Option<i64>,
}

/// A name that is being made.
pub struct OverlayCreate {
    pub parent: InodeInfo,
    pub path: String,
    pub state: MakeState,
}

impl MakeState {
    pub open spec fn asking(self, asked: MakeAsk) -> MakeState {
        MakeState { asked, ..self }
    }

    /// Whether a reply is of the kind that was asked for.
    pub open spec fn expects(self, reply: MakeReply) -> bool {
        match self.asked {
            MakeAsk::FindExisting => reply is Found,
            MakeAsk::CopySource(_) => reply is Inode,
            MakeAsk::DeltaParent => reply is Dir,
            MakeAsk::Unhide | MakeAsk::MakeParents { .. } | MakeAsk::Make(_) => reply is Done,
            MakeAsk::Finish => false,
        }
    }

    /// What follows from an answer.
    pub open spec fn after(self, reply: MakeReply) -> Result<MakeState, FsError> {
        match (self.asked, reply) {
            (MakeAsk::FindExisting, MakeReply::Found(Some(_))) => Err(FsError::AlreadyExists),
            (MakeAsk::FindExisting, _) => Ok(self.asking(MakeAsk::Unhide)),
            (MakeAsk::CopySource(_), MakeReply::Inode(ino)) => Ok(
                MakeState { linked: Some(ino), asked: MakeAsk::Unhide, ..self },
            ),
            (MakeAsk::Unhide, _) => Ok(
                self.asking(MakeAsk::MakeParents { uid: self.uid, gid: self.gid }),
            ),
            (MakeAsk::MakeParents { .. }, _) => Ok(self.asking(MakeAsk::DeltaParent)),
            (MakeAsk::DeltaParent, MakeReply::Dir(None)) => Err(FsError::NotFound),
            (MakeAsk::DeltaParent, MakeReply::Dir(Some(dir))) => Ok(
                self.asking(MakeAsk::Make(dir)),
            ),
            _ => Ok(self.asking(MakeAsk::Finish)),
        }
    }

    pub open spec fn stage(self) -> int {
        match self.asked {
            MakeAsk::FindExisting | MakeAsk::CopySource(_) => 0,
            MakeAsk::Unhide => 1,
            MakeAsk::MakeParents { .. } => 2,
            MakeAsk::DeltaParent => 3,
            MakeAsk::Make(_) => 4,
            MakeAsk::Finish => 5,
        }
    }

    /// What the answer to a question says of the layers, and what was done to them.
    pub open spec fn answered(
        self,
        reply: MakeReply,
        path: Seq<char>,
        now: Layers,
        next: Layers,
    ) -> bool {
        match (self.asked, reply) {
            (MakeAsk::FindExisting, MakeReply::Found(found)) => {
                &&& (found is Some) == (now.shown(path) is Some)
                &&& next == now
            },
            (MakeAsk::CopySource(_), _) => {
                &&& next.base == now.base
                &&& next.hidden.subset_of(now.hidden)
            },
            (MakeAsk::Unhide, _) => next == Layers { hidden: now.hidden.remove(path), ..now },
            (MakeAsk::MakeParents { .. }, _) => {
                &&& next.base == now.base
                &&& next.hidden.subset_of(now.hidden)
                &&& shows_the_way(next.hidden, path)
            },
            (MakeAsk::Make(_), _) => {
                &&& next.base == now.base
                &&& next.hidden == now.hidden
                &&& next.delta.contains_key(path)
            },
            _ => next == now,
        }
    }

    /// What making the name has made of the layers.
    pub open spec fn knows(self, path: Seq<char>, before: Layers, now: Layers) -> bool {
        &&& now.base == before.base
        &&& 1 < self.stage() ==> !now.hidden.contains(path)
        &&& 2 < self.stage() ==> !hides(now.hidden, path)
        &&& self.asked is Finish ==> now.delta.contains_key(path)
    }
}

/// What making a name asks for first. A base inode is copied before it is linked, and the
/// directories above a link belong to the superuser.
pub open spec fn make_begun(
    maps: crate::overlay_maps::MapsModel,
    entry: NewEntry,
    uid: u32,
    gid: u32,
) -> Result<MakeState, FsError> {
    match entry {
        NewEntry::Directory => Ok(
            MakeState { asked: MakeAsk::FindExisting, uid, gid, linked: None },
        ),
        NewEntry::Other => Ok(MakeState { asked: MakeAsk::Unhide, uid, gid, linked: None }),
        NewEntry::Link(ino) => if maps.inode.contains_key(ino) {
            let info = maps.inode[ino];
            match info.layer {
                Layer::Delta => Ok(
                    MakeState {
                        asked: MakeAsk::Unhide,
                        uid: 0,
                        gid: 0,
                        linked: Some(info.underlying_ino),
                    },
                ),
                Layer::Base => Ok(
                    MakeState {
                        asked: MakeAsk::CopySource(info.underlying_ino),
                        uid: 0,
                        gid: 0,
                        linked: None,
                    },
                ),
            }
        } else {
            Err(FsError::NotFound)
        },
    }
}

impl OverlayCreate {
    /// Starts to make a name in a directory of the overlay.
    pub fn start(
        maps: &OverlayMaps,
        parent_ino: i64,
        name: &str,
        entry: NewEntry,
        uid: u32,
        gid: u32,
    ) -> (result: Result<OverlayCreate, FsError>)
        ensures
            match result {
                Err(error) => error is NotFound && (!maps@.inode.contains_key(parent_ino)
                    || make_begun(maps@, entry, uid, gid) is Err),
                Ok(making) => {
                    &&& maps@.inode.contains_key(parent_ino)
                    &&& making.parent@ == maps@.inode[parent_ino]
                    &&& making.path@ == child_path(maps@.inode[parent_ino].path, name@)
                    &&& make_begun(maps@, entry, uid, gid) == Ok::<MakeState, FsError>(making.state)
                },
            },
    {
        let state: MakeState = match entry {
            NewEntry::Directory => MakeState {
                asked: MakeAsk::FindExisting,
                uid,
                gid,
                linked: None,
            },
            NewEntry::Other => MakeState { asked: MakeAsk::Unhide, uid, gid, linked: None },
            NewEntry::Link(ino) => match maps.get_inode_info(ino) {
                None => {
                    return Err(FsError::NotFound);
                },
                Some(info) => match info.layer {
                    Layer::Delta => MakeState {
                        asked: MakeAsk::Unhide,
                        uid: 0,
                        gid: 0,
                        linked: Some(info.underlying_ino),
                    },
                    Layer::Base => MakeState {
                        asked: MakeAsk::CopySource(info.underlying_ino),
                        uid: 0,
                        gid: 0,
                        linked: None,
                    },
                },
            },
        };
        let parent: InodeInfo = match maps.get_inode_info(parent_ino) {
            Some(info) => info,
            None => {
                return Err(FsError::NotFound);
            },
        };
        let path: String = maps.build_path(parent_ino, name)?;
        Ok(OverlayCreate { parent, path, state })
    }

    /// Takes the answer to what was asked.
    pub fn step(&mut self, reply: MakeReply) -> (result: Result<(), FsError>)
        requires
            old(self).state.expects(reply),
        ensures
            final(self).parent@ == old(self).parent@,
            final(self).path@ == old(self).path@,
            match old(self).state.after(reply) {
                Ok(next) => result is Ok && final(self).state == next,
                Err(error) => result == Err::<(), FsError>(error) && final(self).state == old(
                    self,
                ).state,
            },
    {
        match (self.state.asked, reply) {
            (MakeAsk::FindExisting, MakeReply::Found(Some(_))) => {
                return Err(FsError::AlreadyExists);
            },
            (MakeAsk::FindExisting, _) => {
                self.state.asked = MakeAsk::Unhide;
            },
            (MakeAsk::CopySource(_), MakeReply::Inode(ino)) => {
                self.state.linked = Some(ino);
                self.state.asked = MakeAsk::Unhide;
            },
            (MakeAsk::Unhide, _) => {
                self.state.asked = MakeAsk::MakeParents {
                    uid: self.state.uid,
                    gid: self.state.gid,
                };
            },
            (MakeAsk::MakeParents { .. }, _) => {
                self.state.asked = MakeAsk::DeltaParent;
            },
            (MakeAsk::DeltaParent, MakeReply::Dir(dir)) => match dir {
                None => {
                    return Err(FsError::NotFound);
                },
                Some(dir) => {
                    self.state.asked = MakeAsk::Make(dir);
                },
            },
            _ => {
                self.state.asked = MakeAsk::Finish;
            },
        }
        Ok(())
    }
}

/// Each answer brings the making of a name forward: it comes to its end.
pub proof fn making_a_name_goes_forward(state: MakeState, reply: MakeReply)
    requires
        state.expects(reply),
        state.after(reply) is Ok,
    ensures
        state.stage() < (state.after(reply)->Ok_0).stage(),
{
}

/// With true answers the making of a name knows at each step what it has done to the
/// layers.
pub proof fn true_answers_keep_the_making_right(
    state: MakeState,
    reply: MakeReply,
    path: Seq<char>,
    before: Layers,
    now: Layers,
    next: Layers,
)
    requires
        components(path).len() > 0,
        path == crate::path::rendered(components(path)),
        state.expects(reply),
        state.knows(path, before, now),
        state.answered(reply, path, now, next),
        state.after(reply) is Ok,
    ensures
        (state.after(reply)->Ok_0).knows(path, before, next),
{
    if state.asked is MakeParents {
        lemma_shown_way(next.hidden, path);
    }
}

/// A name that was made is shown: what the delta has there, whatever was hidden before. The
/// base is what it was.
pub proof fn a_made_name_is_shown(state: MakeState, path: Seq<char>, before: Layers, now: Layers)
    requires
        state.asked is Finish,
        state.knows(path, before, now),
    ensures
        now.shown(path) == Some(now.delta[path]),
        now.base == before.base,
{
}

} // verus!
