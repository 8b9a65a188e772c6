//! Copying a base inode into the delta, step by step.
use crate::copy_up::{CopyKind, copy_kind, kind_of};
use crate::error::FsError;
use crate::path::{components, split_components, walk};
use crate::stats::{ROOT_INO, S_IFREG, Stats, mode_is};
use crate::text::strings;
use vstd::prelude::*;

verus! {

/// What a copy asks for next.
#[derive(Debug, Clone, Copy, PartialEq, Eq, Structural)]
pub enum CopyAsk {
    /// A directory on the way to the path, in this directory of the delta.
    Early(i64),
    /// The name itself in this directory of the delta: it may have been copied before.
    EarlyName(i64),
    /// What the base has at the path now.
    BaseAtPath,
    /// The attributes of the base inode.
    StatBase,
    /// Make the directories above the path in the delta. Those that the base does not have
    /// belong to this owner.
    MakeParents { uid: u32, gid: u32 },
    /// A directory on the way to the path, in this directory of the delta.
    Walk(i64),
    /// The name itself in this directory of the delta.
    FindName(i64),
    /// Make the name in this directory of the delta.
    Make { dir: i64, kind: CopyKind, uid: u32, gid: u32 },
    /// Give this delta inode the attributes of the base file, and no contents of its own.
    SetInode(i64),
    /// Record that this delta inode was made from the base inode.
    RecordOrigin(i64),
    /// Record what the base file is like that shows through this delta inode.
    RecordPartial(i64),
    /// Nothing: this is the delta inode.
    Finish(i64),
}

/// What a copy is answered.
#[derive(Debug, Clone, Copy)]
pub enum CopyReply {
    Found(Option<Stats>),
    Inode(i64),
    Done,
}

/// A copy under way.
pub struct CopyUp {
    pub base_ino: i64,
    /// Components of the path.
    pub names: Vec<String>,
    /// How many directories of the way were walked in the delta.
    pub walked: usize,
    /// Whether the contents stay in the base until they are changed.
    pub partial: bool,
    /// Attributes of the base inode, once they are known.
    pub base: Option<Stats>,
    /// What was asked last.
    pub asked: CopyAsk,
}

/// A copy under way, without the path.
#[verifier::ext_equal]
pub struct CopyState {
    pub walked: int,
    pub partial: bool,
    pub base: Option<Stats>,
    pub asked: CopyAsk,
}

impl View for CopyUp {
    type V = CopyState;

    open spec fn view(&self) -> CopyState {
        CopyState {
            walked: self.walked as int,
            partial: self.partial,
            base: self.base,
            asked: self.asked,
        }
    }
}

impl CopyState {
    pub open spec fn asking(self, asked: CopyAsk) -> CopyState {
        CopyState { asked, ..self }
    }

    /// The parts of a copy to a path below `count` directories fit together.
    pub open spec fn wf(self, count: int) -> bool {
        match self.asked {
            CopyAsk::Early(_) => 0 <= self.walked < count,
            CopyAsk::Walk(_) => 0 <= self.walked < count && self.base is Some,
            CopyAsk::MakeParents { .. } | CopyAsk::FindName(_) => self.base is Some,
            _ => true,
        }
    }

    /// Whether a reply is of the kind that was asked for.
    pub open spec fn expects(self, reply: CopyReply) -> bool {
        match self.asked {
            CopyAsk::Early(_) | CopyAsk::EarlyName(_) | CopyAsk::BaseAtPath | CopyAsk::StatBase
            | CopyAsk::Walk(_) | CopyAsk::FindName(_) => reply is Found,
            CopyAsk::Make { .. } => reply is Inode,
            CopyAsk::MakeParents { .. } | CopyAsk::SetInode(_) | CopyAsk::RecordOrigin(_)
            | CopyAsk::RecordPartial(_) => reply is Done,
            CopyAsk::Finish(_) => false,
        }
    }

    /// A whole copy begins by looking whether the delta has the path already.
    pub open spec fn looking(self, count: int) -> CopyState {
        CopyState {
            walked: 0,
            partial: false,
            asked: if count == 0 {
                CopyAsk::EarlyName(ROOT_INO)
            } else {
                CopyAsk::Early(ROOT_INO)
            },
            ..self
        }
    }

    /// The copy once the attributes of the base are known. What is no regular file is
    /// copied whole.
    pub open spec fn with_base(self, stats: Stats, count: int) -> CopyState {
        let next = CopyState { base: Some(stats), ..self };
        if self.partial && !mode_is(stats.mode, S_IFREG) {
            next.looking(count)
        } else {
            next.asking(CopyAsk::MakeParents { uid: stats.uid, gid: stats.gid })
        }
    }

    /// The copy once the directory of the path was reached in the delta.
    pub open spec fn arrived(self, dir: i64) -> CopyState {
        if self.partial {
            self.asking(CopyAsk::FindName(dir))
        } else {
            self.asking(self.making(dir))
        }
    }

    /// The name as it is made: a copy in parts begins as an empty file.
    pub open spec fn making(self, dir: i64) -> CopyAsk {
        let stats = self.base->0;
        let kind = if self.partial {
            CopyKind::File { mode: stats.mode, size: 0 }
        } else {
            kind_of(stats)
        };
        CopyAsk::Make { dir, kind, uid: stats.uid, gid: stats.gid }
    }

    /// The copy after an answer, or why it ends.
    pub open spec fn after(self, reply: CopyReply, count: int) -> Result<CopyState, FsError> {
        match (self.asked, reply) {
            (CopyAsk::Early(_), CopyReply::Found(Some(stats))) => Ok(
                CopyState {
                    walked: self.walked + 1,
                    asked: if self.walked + 1 == count {
                        CopyAsk::EarlyName(stats.ino)
                    } else {
                        CopyAsk::Early(stats.ino)
                    },
                    ..self
                },
            ),
            (CopyAsk::Early(_), _) => Ok(self.asking(CopyAsk::StatBase)),
            (CopyAsk::EarlyName(_), CopyReply::Found(Some(stats))) => Ok(
                self.asking(CopyAsk::Finish(stats.ino)),
            ),
            (CopyAsk::EarlyName(_), _) => Ok(self.asking(CopyAsk::StatBase)),
            (CopyAsk::BaseAtPath, CopyReply::Found(Some(stats))) => Ok(
                self.with_base(stats, count),
            ),
            (CopyAsk::BaseAtPath, _) => Ok(self.asking(CopyAsk::StatBase)),
            (CopyAsk::StatBase, CopyReply::Found(Some(stats))) => Ok(self.with_base(stats, count)),
            (CopyAsk::StatBase, _) => Err(FsError::NotFound),
            (CopyAsk::MakeParents { .. }, _) => if count == 0 {
                Ok((CopyState { walked: 0, ..self }).arrived(ROOT_INO))
            } else {
                Ok(CopyState { walked: 0, asked: CopyAsk::Walk(ROOT_INO), ..self })
            },
            (CopyAsk::Walk(_), CopyReply::Found(Some(stats))) => {
                let next = CopyState { walked: self.walked + 1, ..self };
                if self.walked + 1 == count {
                    Ok(next.arrived(stats.ino))
                } else {
                    Ok(next.asking(CopyAsk::Walk(stats.ino)))
                }
            },
            (CopyAsk::Walk(_), _) => Err(FsError::NotFound),
            (CopyAsk::FindName(_), CopyReply::Found(Some(stats))) => Ok(
                self.asking(CopyAsk::Finish(stats.ino)),
            ),
            (CopyAsk::FindName(dir), _) => Ok(self.asking(self.making(dir))),
            (CopyAsk::Make { .. }, CopyReply::Inode(ino)) => if self.partial {
                Ok(self.asking(CopyAsk::SetInode(ino)))
            } else {
                Ok(self.asking(CopyAsk::RecordOrigin(ino)))
            },
            (CopyAsk::SetInode(ino), _) => Ok(self.asking(CopyAsk::RecordOrigin(ino))),
            (CopyAsk::RecordOrigin(ino), _) => if self.partial {
                Ok(self.asking(CopyAsk::RecordPartial(ino)))
            } else {
                Ok(self.asking(CopyAsk::Finish(ino)))
            },
            (CopyAsk::RecordPartial(ino), _) => Ok(self.asking(CopyAsk::Finish(ino))),
            _ => Ok(self),
        }
    }

    /// A bound on the answers that a copy can still take.
    pub open spec fn steps_left(self, count: int) -> int {
        let round = count + 1;
        let rest = match self.asked {
            CopyAsk::BaseAtPath => 11 * round,
            CopyAsk::Early(_) => 10 * round + (count - self.walked),
            CopyAsk::EarlyName(_) => 9 * round,
            CopyAsk::StatBase => 8 * round,
            CopyAsk::MakeParents { .. } => 7 * round,
            CopyAsk::Walk(_) => 6 * round + (count - self.walked),
            CopyAsk::FindName(_) => 5 * round,
            CopyAsk::Make { .. } => 4 * round,
            CopyAsk::SetInode(_) => 3 * round,
            CopyAsk::RecordOrigin(_) => 2 * round,
            CopyAsk::RecordPartial(_) => round,
            CopyAsk::Finish(_) => 0,
        };
        if self.partial {
            rest + 20 * round
        } else {
            rest
        }
    }

    /// Whether an answer is what these entries of the delta hold.
    pub open spec fn answered(
        self,
        reply: CopyReply,
        names: Seq<Seq<char>>,
        delta: Map<(i64, Seq<char>), i64>,
    ) -> bool {
        match (self.asked, reply) {
            (CopyAsk::Early(dir), CopyReply::Found(found)) => entry_is(
                delta,
                dir,
                names[self.walked],
                found,
            ),
            (CopyAsk::Walk(dir), CopyReply::Found(found)) => entry_is(
                delta,
                dir,
                names[self.walked],
                found,
            ),
            (CopyAsk::EarlyName(dir), CopyReply::Found(found)) => entry_is(
                delta,
                dir,
                names.last(),
                found,
            ),
            (CopyAsk::FindName(dir), CopyReply::Found(found)) => entry_is(
                delta,
                dir,
                names.last(),
                found,
            ),
            _ => true,
        }
    }

    /// A copy stands where it thinks it does in these entries of the delta.
    pub open spec fn knows(
        self,
        names: Seq<Seq<char>>,
        delta: Map<(i64, Seq<char>), i64>,
    ) -> bool {
        match self.asked {
            CopyAsk::Early(dir) | CopyAsk::Walk(dir) => walk(
                delta,
                ROOT_INO,
                names.take(self.walked),
            ) == Some(dir),
            CopyAsk::EarlyName(dir) | CopyAsk::FindName(dir) => walk(
                delta,
                ROOT_INO,
                names.drop_last(),
            ) == Some(dir),
            CopyAsk::Make { dir, .. } => walk(delta, ROOT_INO, names.drop_last()) == Some(dir),
            _ => true,
        }
    }
}

/// Whether the entries have under a name what was found.
pub open spec fn entry_is(
    delta: Map<(i64, Seq<char>), i64>,
    dir: i64,
    name: Seq<char>,
    found: Option<Stats>,
) -> bool {
    match found {
        Some(stats) => delta.contains_key((dir, name)) && delta[(dir, name)] == stats.ino,
        None => !delta.contains_key((dir, name)),
    }
}

impl CopyUp {
    /// How many directories lie above the path.
    pub open spec fn count(self) -> int {
        self.names@.len() - 1
    }

    pub open spec fn wf(self) -> bool {
        &&& self.names@.len() > 0
        &&& self@.wf(self.count())
    }

    pub open spec fn same_copy(self, other: CopyUp) -> bool {
        &&& self.base_ino == other.base_ino
        &&& self.names@ == other.names@
    }

    fn look(&mut self)
        requires
            old(self).names@.len() > 0,
        ensures
            final(self)@ == old(self)@.looking(old(self).count()),
            final(self).same_copy(*old(self)),
    {
        self.walked = 0;
        self.partial = false;
        self.asked = if self.names.len() == 1 {
            CopyAsk::EarlyName(ROOT_INO)
        } else {
            CopyAsk::Early(ROOT_INO)
        };
    }

    /// Starts the copy of a base inode at a path. The root cannot be copied.
    pub fn start(path: &str, base_ino: i64, partial: bool) -> (result: Result<CopyUp, FsError>)
        ensures
            match result {
                Err(error) => error is RootOperation && components(path@).len() == 0,
                Ok(copy) => {
                    let begun = CopyState {
                        walked: 0,
                        partial,
                        base: None,
                        asked: CopyAsk::BaseAtPath,
                    };
                    &&& components(path@).len() > 0
                    &&& copy.wf()
                    &&& copy.base_ino == base_ino
                    &&& strings(copy.names@) == components(path@)
                    &&& copy@ == if partial {
                        begun
                    } else {
                        begun.looking(copy.count())
                    }
                },
            },
    {
        let names: Vec<String> = split_components(path);
        if names.len() == 0 {
            assert(components(path@) =~= Seq::empty());
            return Err(FsError::RootOperation);
        }
        let mut copy = CopyUp {
            base_ino,
            names,
            walked: 0,
            partial,
            base: None,
            asked: CopyAsk::BaseAtPath,
        };
        if !partial {
            copy.look();
        }
        Ok(copy)
    }

    /// The name to look up or to make next in the delta.
    pub fn wanted(&self) -> (name: &str)
        requires
            self.wf(),
        ensures
            name@ == match self.asked {
                CopyAsk::Early(_) | CopyAsk::Walk(_) => self.names@[self.walked as int]@,
                _ => self.names@.last()@,
            },
    {
        match self.asked {
            CopyAsk::Early(_) | CopyAsk::Walk(_) => self.names[self.walked].as_str(),
            _ => self.names[self.names.len() - 1].as_str(),
        }
    }

    fn take_base(&mut self, stats: Stats)
        requires
            old(self).names@.len() > 0,
        ensures
            final(self)@ == old(self)@.with_base(stats, old(self).count()),
            final(self).same_copy(*old(self)),
    {
        self.base = Some(stats);
        if self.partial && !stats.is_file() {
            self.look();
        } else {
            self.asked = CopyAsk::MakeParents { uid: stats.uid, gid: stats.gid };
        }
    }

    fn making_in(&self, dir: i64) -> (asked: CopyAsk)
        requires
            self.base is Some,
        ensures
            asked == self@.making(dir),
    {
        match self.base {
            Some(stats) => {
                let kind: CopyKind = if self.partial {
                    CopyKind::File { mode: stats.mode, size: 0 }
                } else {
                    copy_kind(&stats)
                };
                CopyAsk::Make { dir, kind, uid: stats.uid, gid: stats.gid }
            },
            None => CopyAsk::StatBase,
        }
    }

    fn arrive(&mut self, dir: i64)
        requires
            old(self).base is Some,
        ensures
            final(self)@ == old(self)@.arrived(dir),
            final(self).same_copy(*old(self)),
    {
        self.asked = if self.partial {
            CopyAsk::FindName(dir)
        } else {
            self.making_in(dir)
        };
    }

    /// Takes the answer to what was asked.
    pub fn step(&mut self, reply: CopyReply) -> (result: Result<(), FsError>)
        requires
            old(self).wf(),
            old(self)@.expects(reply),
        ensures
            final(self).wf(),
            final(self).same_copy(*old(self)),
            match old(self)@.after(reply, old(self).count()) {
                Ok(next) => result is Ok && final(self)@ == next,
                Err(error) => result == Err::<(), FsError>(error) && final(self)@ == old(self)@,
            },
    {
        let count: usize = self.names.len() - 1;
        match (self.asked, reply) {
            (CopyAsk::Early(_), CopyReply::Found(Some(stats))) => {
                self.walked = self.walked + 1;
                self.asked = if self.walked == count {
                    CopyAsk::EarlyName(stats.ino)
                } else {
                    CopyAsk::Early(stats.ino)
                };
            },
            (CopyAsk::EarlyName(_), CopyReply::Found(Some(stats))) => {
                self.asked = CopyAsk::Finish(stats.ino);
            },
            (CopyAsk::Early(_), _) | (CopyAsk::EarlyName(_), _) => {
                self.asked = CopyAsk::StatBase;
            },
            (CopyAsk::BaseAtPath, CopyReply::Found(Some(stats))) => {
                self.take_base(stats);
            },
            (CopyAsk::BaseAtPath, _) => {
                self.asked = CopyAsk::StatBase;
            },
            (CopyAsk::StatBase, CopyReply::Found(Some(stats))) => {
                self.take_base(stats);
            },
            (CopyAsk::StatBase, _) | (CopyAsk::Walk(_), CopyReply::Found(None)) => {
                return Err(FsError::NotFound);
            },
            (CopyAsk::MakeParents { .. }, _) => {
                self.walked = 0;
                if count == 0 {
                    self.arrive(ROOT_INO);
                } else {
                    self.asked = CopyAsk::Walk(ROOT_INO);
                }
            },
            (CopyAsk::Walk(_), CopyReply::Found(Some(stats))) => {
                self.walked = self.walked + 1;
                if self.walked == count {
                    self.arrive(stats.ino);
                } else {
                    self.asked = CopyAsk::Walk(stats.ino);
                }
            },
            (CopyAsk::FindName(_), CopyReply::Found(Some(stats))) => {
                self.asked = CopyAsk::Finish(stats.ino);
            },
            (CopyAsk::FindName(dir), _) => {
                self.asked = self.making_in(dir);
            },
            (CopyAsk::Make { .. }, CopyReply::Inode(ino)) => {
                self.asked = if self.partial {
                    CopyAsk::SetInode(ino)
                } else {
                    CopyAsk::RecordOrigin(ino)
                };
            },
            (CopyAsk::SetInode(ino), _) => {
                self.asked = CopyAsk::RecordOrigin(ino);
            },
            (CopyAsk::RecordOrigin(ino), _) => {
                self.asked = if self.partial {
                    CopyAsk::RecordPartial(ino)
                } else {
                    CopyAsk::Finish(ino)
                };
            },
            (CopyAsk::RecordPartial(ino), _) => {
                self.asked = CopyAsk::Finish(ino);
            },
            _ => {},
        }
        Ok(())
    }
}

/// Each answer brings a copy forward: it comes to its end.
pub proof fn a_copy_goes_forward(state: CopyState, reply: CopyReply, count: int)
    requires
        count >= 0,
        state.wf(count),
        state.expects(reply),
        state.after(reply, count) is Ok,
    ensures
        0 <= (state.after(reply, count)->Ok_0).steps_left(count) < state.steps_left(count),
{
}

/// With true answers a copy knows where it is in the delta, so that the name is made in the
/// directory that the path leads to.
pub proof fn true_answers_keep_a_copy_on_its_way(
    state: CopyState,
    reply: CopyReply,
    names: Seq<Seq<char>>,
    delta: Map<(i64, Seq<char>), i64>,
)
    requires
        names.len() > 0,
        state.wf(names.len() - 1),
        state.expects(reply),
        state.knows(names, delta),
        state.answered(reply, names, delta),
        state.after(reply, names.len() - 1) is Ok,
    ensures
        (state.after(reply, names.len() - 1)->Ok_0).knows(names, delta),
{
    let taken = names.take(state.walked);
    assert(names.take(0) =~= Seq::<Seq<char>>::empty());
    assert(names.take(names.len() - 1) =~= names.drop_last());
    if state.asked is Early || state.asked is Walk {
        let longer = names.take(state.walked + 1);
        assert(longer.drop_last() =~= taken);
        assert(longer.last() == names[state.walked]);
    }
}

/// What the delta has at the path already is not copied again: a copy that finds it ends
/// with its inode.
pub proof fn what_was_copied_is_not_copied_again(
    state: CopyState,
    stats: Stats,
    names: Seq<Seq<char>>,
    delta: Map<(i64, Seq<char>), i64>,
)
    requires
        names.len() > 0,
        state.asked is EarlyName || state.asked is FindName,
        state.knows(names, delta),
        state.answered(CopyReply::Found(Some(stats)), names, delta),
    ensures
        walk(delta, ROOT_INO, names) == Some(stats.ino),
        state.after(CopyReply::Found(Some(stats)), names.len() - 1) == Ok::<CopyState, FsError>(
            state.asking(CopyAsk::Finish(stats.ino)),
        ),
{
}

} // verus!
