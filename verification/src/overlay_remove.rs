//! The removal of a name from the overlay, step by step: the delta loses it, and what the
//! base then still shows is hidden.
use crate::error::FsError;
use crate::overlay::{Layers, check_overlay_rmdir, check_overlay_unlink, needs_whiteout, removed_from_delta};
use crate::overlay_maps::{InodeInfo, OverlayMaps, child_path};
use crate::stats::{S_IFDIR, Stats, mode_is};
use vstd::prelude::*;

verus! {

/// What a removal asks for next.
#[derive(Debug, Clone, Copy, PartialEq, Eq, Structural)]
pub enum RemoveAsk {
    /// What the overlay shows under the name.
    Find,
    /// How many entries the overlay shows in this directory.
    CountEntries(Stats),
    /// Where the delta has the parent.
    DeltaParent,
    /// What this directory of the delta has under the name.
    FindInDelta(i64),
    /// Remove the name from this directory of the delta.
    RemoveInDelta(i64),
    /// Drop what is recorded of this delta inode, if it is gone.
    CleanUp(i64),
    /// What the overlay still shows under the name.
    LookAgain,
    /// Hide the path.
    Hide,
    /// Nothing: the name is gone.
    Finish,
}

/// What a removal is answered.
#[derive(Debug)]
pub enum RemoveReply {
    Found(Option<Stats>),
    Entries(usize),
    Dir(Option<i64>),
    Removed(Result<(), FsError>),
    Done,
}

/// A removal under way.
pub struct OverlayRemove {
    pub path: String,
    pub parent: InodeInfo,
    /// Whether a directory is to be removed, else anything but a directory.
    pub directory: bool,
    /// What was asked last.
    pub asked: RemoveAsk,
    /// The delta inode that loses the name, once it is known.
    pub removed: Option<i64>,
}

/// A removal under way, without the path.
#[verifier::ext_equal]
pub struct RemoveState {
    pub directory: bool,
    pub asked: RemoveAsk,
    pub removed: Option<i64>,
}

impl View for OverlayRemove {
    type V = RemoveState;

    open spec fn view(&self) -> RemoveState {
        RemoveState { directory: self.directory, asked: self.asked, removed: self.removed }
    }
}

impl RemoveState {
    pub open spec fn asking(self, asked: RemoveAsk) -> RemoveState {
        RemoveState { asked, ..self }
    }

    /// Whether a reply is of the kind that was asked for.
    pub open spec fn expects(self, reply: RemoveReply) -> bool {
        match self.asked {
            RemoveAsk::Find | RemoveAsk::FindInDelta(_) | RemoveAsk::LookAgain => reply is Found,
            RemoveAsk::CountEntries(_) => reply is Entries,
            RemoveAsk::DeltaParent => reply is Dir,
            RemoveAsk::RemoveInDelta(_) => reply is Removed,
            RemoveAsk::CleanUp(_) | RemoveAsk::Hide => reply is Done,
            RemoveAsk::Finish => false,
        }
    }

    /// The removal after an answer, or why it ends. A name that only the base has is not
    /// found in the delta, which is no failure.
    pub open spec fn after(self, reply: RemoveReply) -> Result<RemoveState, FsError> {
        match (self.asked, reply) {
            (RemoveAsk::Find, RemoveReply::Found(None)) => Err(FsError::NotFound),
            (RemoveAsk::Find, RemoveReply::Found(Some(stats))) => if self.directory {
                if mode_is(stats.mode, S_IFDIR) {
                    Ok(self.asking(RemoveAsk::CountEntries(stats)))
                } else {
                    Err(FsError::NotADirectory)
                }
            } else if mode_is(stats.mode, S_IFDIR) {
                Err(FsError::IsADirectory)
            } else {
                Ok(self.asking(RemoveAsk::DeltaParent))
            },
            (RemoveAsk::CountEntries(_), RemoveReply::Entries(entries)) => if entries > 0 {
                Err(FsError::NotEmpty)
            } else {
                Ok(self.asking(RemoveAsk::DeltaParent))
            },
            (RemoveAsk::DeltaParent, RemoveReply::Dir(None)) => Ok(
                self.asking(RemoveAsk::LookAgain),
            ),
            (RemoveAsk::DeltaParent, RemoveReply::Dir(Some(dir))) => if self.directory {
                Ok(self.asking(RemoveAsk::RemoveInDelta(dir)))
            } else {
                Ok(self.asking(RemoveAsk::FindInDelta(dir)))
            },
            (RemoveAsk::FindInDelta(dir), RemoveReply::Found(found)) => Ok(
                RemoveState {
                    removed: match found {
                        Some(stats) => Some(stats.ino),
                        None => None,
                    },
                    asked: RemoveAsk::RemoveInDelta(dir),
                    ..self
                },
            ),
            (RemoveAsk::RemoveInDelta(_), RemoveReply::Removed(outcome)) => if outcome is Ok
                || outcome->Err_0 is NotFound {
                match self.removed {
                    Some(ino) => Ok(self.asking(RemoveAsk::CleanUp(ino))),
                    None => Ok(self.asking(RemoveAsk::LookAgain)),
                }
            } else {
                Err(outcome->Err_0)
            },
            (RemoveAsk::CleanUp(_), _) => Ok(self.asking(RemoveAsk::LookAgain)),
            (RemoveAsk::LookAgain, RemoveReply::Found(Some(_))) => Ok(self.asking(RemoveAsk::Hide)),
            _ => Ok(self.asking(RemoveAsk::Finish)),
        }
    }

    /// How far a removal has come.
    pub open spec fn stage(self) -> int {
        match self.asked {
            RemoveAsk::Find => 0,
            RemoveAsk::CountEntries(_) => 1,
            RemoveAsk::DeltaParent => 2,
            RemoveAsk::FindInDelta(_) => 3,
            RemoveAsk::RemoveInDelta(_) => 4,
            RemoveAsk::CleanUp(_) => 5,
            RemoveAsk::LookAgain => 6,
            RemoveAsk::Hide => 7,
            RemoveAsk::Finish => 8,
        }
    }

    /// What the answer to a question says of the layers, and what was done to them. The
    /// delta has nothing under the name if it does not even have the parent.
    pub open spec fn answered(
        self,
        reply: RemoveReply,
        path: Seq<char>,
        now: Layers,
        next: Layers,
    ) -> bool {
        match (self.asked, reply) {
            (RemoveAsk::RemoveInDelta(_), RemoveReply::Removed(outcome)) => {
                &&& outcome is Err ==> !now.delta.contains_key(path)
                &&& next == Layers { delta: now.delta.remove(path), ..now }
            },
            (RemoveAsk::DeltaParent, RemoveReply::Dir(dir)) => {
                &&& dir is None ==> !now.delta.contains_key(path)
                &&& next == now
            },
            (RemoveAsk::LookAgain, RemoveReply::Found(found)) => {
                &&& (found is Some) == (now.shown(path) is Some)
                &&& next == now
            },
            (RemoveAsk::Hide, _) => next == Layers { hidden: now.hidden.insert(path), ..now },
            _ => next == now,
        }
    }

    /// What a removal has made of the layers that it found.
    pub open spec fn knows(self, path: Seq<char>, before: Layers, now: Layers) -> bool {
        let cut = Layers { delta: before.delta.remove(path), ..before };
        match self.asked {
            RemoveAsk::CleanUp(_) | RemoveAsk::LookAgain => now == cut,
            RemoveAsk::Hide => now == cut && cut.shown(path) is Some,
            RemoveAsk::Finish => now == before.unlinked(path),
            _ => now == before,
        }
    }
}

impl OverlayRemove {
    /// Starts the removal of a name from a directory of the overlay.
    pub fn start(maps: &OverlayMaps, parent_ino: i64, name: &str, directory: bool) -> (result: Result<
        OverlayRemove,
        FsError,
    >)
        ensures
            match result {
                Err(error) => error is NotFound && !maps@.inode.contains_key(parent_ino),
                Ok(removal) => {
                    &&& maps@.inode.contains_key(parent_ino)
                    &&& removal.parent@ == maps@.inode[parent_ino]
                    &&& removal.path@ == child_path(maps@.inode[parent_ino].path, name@)
                    &&& removal@ == (RemoveState {
                        directory,
                        asked: RemoveAsk::Find,
                        removed: None,
                    })
                },
            },
    {
        let parent: InodeInfo = match maps.get_inode_info(parent_ino) {
            Some(info) => info,
            None => {
                return Err(FsError::NotFound);
            },
        };
        let path: String = match maps.build_path(parent_ino, name) {
            Ok(path) => path,
            Err(error) => {
                return Err(error);
            },
        };
        Ok(OverlayRemove { path, parent, directory, asked: RemoveAsk::Find, removed: None })
    }

    /// Takes the answer to what was asked.
    pub fn step(&mut self, reply: RemoveReply) -> (result: Result<(), FsError>)
        requires
            old(self)@.expects(reply),
        ensures
            final(self).path@ == old(self).path@,
            final(self).parent@ == old(self).parent@,
            match old(self)@.after(reply) {
                Ok(next) => result is Ok && final(self)@ == next,
                Err(error) => result == Err::<(), FsError>(error) && final(self)@ == old(self)@,
            },
    {
        match (self.asked, reply) {
            (RemoveAsk::Find, RemoveReply::Found(found)) => {
                if self.directory {
                    check_overlay_rmdir(found, 0)?;
                    if let Some(stats) = found {
                        self.asked = RemoveAsk::CountEntries(stats);
                    }
                } else {
                    check_overlay_unlink(found)?;
                    self.asked = RemoveAsk::DeltaParent;
                }
            },
            (RemoveAsk::CountEntries(_), RemoveReply::Entries(entries)) => {
                if entries > 0 {
                    return Err(FsError::NotEmpty);
                }
                self.asked = RemoveAsk::DeltaParent;
            },
            (RemoveAsk::DeltaParent, RemoveReply::Dir(None)) => {
                self.asked = RemoveAsk::LookAgain;
            },
            (RemoveAsk::DeltaParent, RemoveReply::Dir(Some(dir))) => {
                self.asked = if self.directory {
                    RemoveAsk::RemoveInDelta(dir)
                } else {
                    RemoveAsk::FindInDelta(dir)
                };
            },
            (RemoveAsk::FindInDelta(dir), RemoveReply::Found(found)) => {
                self.removed = match found {
                    Some(stats) => Some(stats.ino),
                    None => None,
                };
                self.asked = RemoveAsk::RemoveInDelta(dir);
            },
            (RemoveAsk::RemoveInDelta(_), RemoveReply::Removed(outcome)) => {
                removed_from_delta(outcome)?;
                self.asked = match self.removed {
                    Some(ino) => RemoveAsk::CleanUp(ino),
                    None => RemoveAsk::LookAgain,
                };
            },
            (RemoveAsk::CleanUp(_), _) => {
                self.asked = RemoveAsk::LookAgain;
            },
            (RemoveAsk::LookAgain, RemoveReply::Found(found)) => {
                self.asked = if needs_whiteout(found) {
                    RemoveAsk::Hide
                } else {
                    RemoveAsk::Finish
                };
            },
            _ => {
                self.asked = RemoveAsk::Finish;
            },
        }
        Ok(())
    }
}

/// Each answer brings a removal forward: it comes to its end, and asks nothing twice.
pub proof fn a_removal_goes_forward(state: RemoveState, reply: RemoveReply)
    requires
        state.expects(reply),
        state.after(reply) is Ok,
    ensures
        state.stage() < (state.after(reply)->Ok_0).stage(),
{
}

/// With true answers a removal knows at each step what it has done to the layers. It
/// begins knowing that it has done nothing.
pub proof fn true_answers_keep_a_removal_right(
    state: RemoveState,
    reply: RemoveReply,
    path: Seq<char>,
    before: Layers,
    now: Layers,
    next: Layers,
)
    requires
        state.expects(reply),
        state.knows(path, before, now),
        state.answered(reply, path, now, next),
        state.after(reply) is Ok,
    ensures
        (state.after(reply)->Ok_0).knows(path, before, next),
{
    let cut = Layers { delta: before.delta.remove(path), ..before };
    if !before.delta.contains_key(path) {
        assert(before.delta.remove(path) =~= before.delta);
    }
    assert(before.unlinked(path) == if cut.shown(path) is Some {
        Layers { hidden: cut.hidden.insert(path), ..cut }
    } else {
        cut
    });
}

/// A removal that has come to its end has unlinked the path: it shows nothing any more, and
/// the base is what it was.
pub proof fn a_finished_removal_leaves_nothing(
    state: RemoveState,
    path: Seq<char>,
    before: Layers,
    now: Layers,
)
    requires
        state.asked is Finish,
        state.knows(path, before, now),
        crate::path::components(path).len() > 0,
        path == crate::path::rendered(crate::path::components(path)),
    ensures
        now.shown(path) is None,
        now.base == before.base,
{
    crate::overlay::unlinked_paths_are_gone(before, path);
}

} // verus!
