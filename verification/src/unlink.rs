//! The removal of a name of a file, step by step: what is asked of the database and of the
//! pending writes, in which order, and what follows from each answer.
use crate::batcher_state::BatcherModel;
use crate::caches::{CacheChange, CacheModel};
use crate::error::FsError;
use crate::namespace::too_long;
use crate::removal::{detach_changes, reap_after_unlink, removal_caches, unlink_error};
use crate::rename::{child_of, mode_of};
use crate::stats::{MAX_NAME_LEN, S_IFDIR, S_IFMT, mode_is};
use crate::tables::{RowChange, Tables};
use vstd::prelude::*;

verus! {

broadcast use {crate::tables::changed_by_push, crate::tables::changed_by_none};

/// What an unlink asks for next.
#[derive(Debug, Clone, Copy, PartialEq, Eq, Structural)]
pub enum UnlinkAsk {
    /// Start a transaction. All that follows is in it, up to its commit or rollback.
    Begin,
    /// What the name leads to.
    Find,
    /// The mode of the inode that it leads to.
    Stat(i64),
    /// Take the name away from this inode.
    Detach(i64),
    /// How many links the inode has left, and whether it is open. One that is open without a
    /// link is noted, to be removed when it is closed.
    AskLinks(i64),
    /// Remove this inode with its contents.
    Reap(i64),
    /// Tell whoever wants to know that the inode goes.
    TellHooks(i64),
    Commit,
    Rollback,
    /// Discard the pending writes of this inode.
    Discard(i64),
    /// Nothing: the unlink is over.
    Finished,
}

/// What is answered.
#[derive(Debug, Clone, Copy, PartialEq, Eq, Structural)]
pub enum UnlinkReply {
    Child(Option<i64>),
    Mode(Option<u32>),
    Links { count: u32, still_open: bool },
    Done,
    /// What was asked for did not succeed.
    Failed,
}

/// An unlink under way.
pub struct Unlink<'a> {
    pub parent: i64,
    pub name: &'a str,
    /// What was asked last.
    pub asked: UnlinkAsk,
    /// The inode that the name leads to, once it is known.
    pub ino: i64,
    /// Whether that inode was removed with its contents.
    pub reaped: bool,
    /// Why the unlink is refused, if it is.
    pub refused: Option<FsError>,
    /// Whether something that was asked for did not succeed.
    pub failed: bool,
}

/// An unlink under way, without the name.
#[verifier::ext_equal]
pub struct UnlinkState {
    pub asked: UnlinkAsk,
    pub ino: i64,
    pub reaped: bool,
    pub refused: Option<FsError>,
    pub failed: bool,
}

impl<'a> View for Unlink<'a> {
    type V = UnlinkState;

    open spec fn view(&self) -> UnlinkState {
        UnlinkState {
            asked: self.asked,
            ino: self.ino,
            reaped: self.reaped,
            refused: self.refused,
            failed: self.failed,
        }
    }
}

impl UnlinkState {
    /// An unlink of which nothing is known yet.
    pub open spec fn begun() -> UnlinkState {
        UnlinkState {
            asked: UnlinkAsk::Begin,
            ino: 0,
            reaped: false,
            refused: None,
            failed: false,
        }
    }

    pub open spec fn asking(self, asked: UnlinkAsk) -> UnlinkState {
        UnlinkState { asked, ..self }
    }

    /// Whether a reply is of the kind that was asked for. A rollback and a discard succeed.
    pub open spec fn expects(self, reply: UnlinkReply) -> bool {
        match self.asked {
            UnlinkAsk::Finished => false,
            UnlinkAsk::Rollback | UnlinkAsk::Discard(_) => reply is Done,
            UnlinkAsk::Find => reply is Child || reply is Failed,
            UnlinkAsk::Stat(_) => reply is Mode || reply is Failed,
            UnlinkAsk::AskLinks(_) => reply is Links || reply is Failed,
            _ => reply is Done || reply is Failed,
        }
    }

    /// The unlink is refused, and the transaction rolled back.
    pub open spec fn refusing(self, error: FsError) -> UnlinkState {
        UnlinkState { asked: UnlinkAsk::Rollback, refused: Some(error), ..self }
    }

    /// The unlink after an answer. Whatever fails after the transaction was started rolls it
    /// back, and pending writes are discarded after its commit.
    pub open spec fn after(self, reply: UnlinkReply) -> UnlinkState {
        match (self.asked, reply) {
            (UnlinkAsk::Begin, UnlinkReply::Failed) => UnlinkState {
                asked: UnlinkAsk::Finished,
                failed: true,
                ..self
            },
            (_, UnlinkReply::Failed) => UnlinkState {
                asked: UnlinkAsk::Rollback,
                failed: true,
                ..self
            },
            (UnlinkAsk::Begin, _) => self.asking(UnlinkAsk::Find),
            (UnlinkAsk::Find, UnlinkReply::Child(Some(ino))) => UnlinkState {
                asked: UnlinkAsk::Stat(ino),
                ino,
                ..self
            },
            (UnlinkAsk::Find, _) => self.refusing(FsError::NotFound),
            (UnlinkAsk::Stat(ino), UnlinkReply::Mode(Some(mode))) => if mode_is(mode, S_IFDIR) {
                self.refusing(FsError::IsADirectory)
            } else {
                self.asking(UnlinkAsk::Detach(ino))
            },
            (UnlinkAsk::Stat(_), _) => self.refusing(FsError::NotFound),
            (UnlinkAsk::Detach(ino), _) => self.asking(UnlinkAsk::AskLinks(ino)),
            (UnlinkAsk::AskLinks(ino), UnlinkReply::Links { count, still_open }) => if count == 0
                && !still_open {
                self.asking(UnlinkAsk::Reap(ino))
            } else {
                self.asking(UnlinkAsk::Commit)
            },
            (UnlinkAsk::Reap(ino), _) => self.asking(UnlinkAsk::TellHooks(ino)),
            (UnlinkAsk::TellHooks(_), _) => UnlinkState {
                asked: UnlinkAsk::Commit,
                reaped: true,
                ..self
            },
            (UnlinkAsk::Commit, _) => if self.reaped {
                self.asking(UnlinkAsk::Discard(self.ino))
            } else {
                self.asking(UnlinkAsk::Finished)
            },
            _ => self.asking(UnlinkAsk::Finished),
        }
    }
}

impl<'a> Unlink<'a> {
    /// Starts an unlink. Its first question is for a transaction.
    pub fn start(parent: i64, name: &'a str) -> (result: Result<Unlink<'a>, FsError>)
        ensures
            if too_long(name) {
                result == Err::<Unlink<'a>, FsError>(FsError::NameTooLong)
            } else {
                result matches Ok(unlink) && {
                    &&& unlink@ == UnlinkState::begun()
                    &&& unlink.parent == parent
                    &&& unlink.name == name
                }
            },
    {
        if name.len() > MAX_NAME_LEN {
            return Err(FsError::NameTooLong);
        }
        Ok(
            Unlink {
                parent,
                name,
                asked: UnlinkAsk::Begin,
                ino: 0,
                reaped: false,
                refused: None,
                failed: false,
            },
        )
    }

    fn refuse(&mut self, error: FsError)
        ensures
            final(self)@ == old(self)@.refusing(error),
            final(self).parent == old(self).parent,
            final(self).name == old(self).name,
    {
        self.asked = UnlinkAsk::Rollback;
        self.refused = Some(error);
    }

    /// Takes the answer to what was asked last. What is asked next is in `asked`.
    pub fn step(&mut self, reply: UnlinkReply)
        requires
            old(self)@.expects(reply),
        ensures
            final(self)@ == old(self)@.after(reply),
            final(self).parent == old(self).parent,
            final(self).name == old(self).name,
    {
        if let UnlinkReply::Failed = reply {
            self.failed = true;
            self.asked = match self.asked {
                UnlinkAsk::Begin => UnlinkAsk::Finished,
                _ => UnlinkAsk::Rollback,
            };
            return ;
        }
        match (self.asked, reply) {
            (UnlinkAsk::Begin, _) => {
                self.asked = UnlinkAsk::Find;
            },
            (UnlinkAsk::Find, UnlinkReply::Child(Some(ino))) => {
                self.ino = ino;
                self.asked = UnlinkAsk::Stat(ino);
            },
            (UnlinkAsk::Find, _) => {
                self.refuse(FsError::NotFound);
            },
            (UnlinkAsk::Stat(ino), UnlinkReply::Mode(Some(mode))) => {
                if (mode & S_IFMT) == S_IFDIR {
                    self.refuse(FsError::IsADirectory);
                } else {
                    self.asked = UnlinkAsk::Detach(ino);
                }
            },
            (UnlinkAsk::Stat(_), _) => {
                self.refuse(FsError::NotFound);
            },
            (UnlinkAsk::Detach(ino), _) => {
                self.asked = UnlinkAsk::AskLinks(ino);
            },
            (UnlinkAsk::AskLinks(ino), UnlinkReply::Links { count, still_open }) => {
                self.asked = match reap_after_unlink(ino, count, still_open) {
                    Some(_) => UnlinkAsk::Reap(ino),
                    None => UnlinkAsk::Commit,
                };
            },
            (UnlinkAsk::Reap(ino), _) => {
                self.asked = UnlinkAsk::TellHooks(ino);
            },
            (UnlinkAsk::TellHooks(_), _) => {
                self.reaped = true;
                self.asked = UnlinkAsk::Commit;
            },
            (UnlinkAsk::Commit, _) => {
                self.asked = if self.reaped {
                    UnlinkAsk::Discard(self.ino)
                } else {
                    UnlinkAsk::Finished
                };
            },
            _ => {
                self.asked = UnlinkAsk::Finished;
            },
        }
    }

    /// The changes that carry out what was asked last, at a time.
    pub fn changes(&self, now: (i64, i64)) -> (changes: Vec<RowChange>)
        ensures
            forall|t: Tables| #[trigger]
                t.changed_by(changes@) == carried_out(t, self@.asked, self.parent, self.name@, now),
    {
        match self.asked {
            UnlinkAsk::Detach(ino) => detach_changes(self.parent, self.name, ino, now),
            UnlinkAsk::Reap(ino) => {
                let mut changes: Vec<RowChange> = Vec::new();
                changes.push(RowChange::Reap { ino });
                changes
            },
            _ => Vec::new(),
        }
    }

    /// What the caches hold after an unlink that was committed.
    pub fn caches(&self) -> (caches: Vec<CacheChange>)
        ensures
            forall|c: CacheModel| #[trigger]
                c.changed_by(caches@) == c.after_removal(self.parent, self.name@, self.ino),
    {
        removal_caches(self.parent, self.name, self.ino)
    }

    /// The inode whose pending writes are to be discarded now. There is none before the commit.
    pub fn discarded(&self) -> (ino: Option<i64>)
        ensures
            ino == match self.asked {
                UnlinkAsk::Discard(ino) => Some(ino),
                _ => None,
            },
    {
        match self.asked {
            UnlinkAsk::Discard(ino) => Some(ino),
            _ => None,
        }
    }
}

/// The tables after what was asked of the database was done.
pub open spec fn carried_out(
    t: Tables,
    asked: UnlinkAsk,
    parent: i64,
    name: Seq<char>,
    now: (i64, i64),
) -> Tables {
    match asked {
        UnlinkAsk::Detach(ino) => t.detached(parent, name, ino, now),
        UnlinkAsk::Reap(ino) => t.reaped(ino),
        _ => t,
    }
}

/// What an unlink acts on.
#[verifier::ext_equal]
pub struct UnlinkWorld {
    /// The tables as they were committed.
    pub committed: Tables,
    /// The tables as the transaction sees them.
    pub tables: Tables,
    /// The writes that wait.
    pub pending: BatcherModel,
}

impl UnlinkWorld {
    /// Whether a world can follow when something was asked and answered. What fails may have
    /// been done in part, but only inside the transaction.
    pub open spec fn leads_to(
        self,
        next: UnlinkWorld,
        asked: UnlinkAsk,
        reply: UnlinkReply,
        parent: i64,
        name: Seq<char>,
        now: (i64, i64),
    ) -> bool {
        match (asked, reply) {
            (UnlinkAsk::Begin, UnlinkReply::Failed) => next == self,
            (_, UnlinkReply::Failed) => next.committed == self.committed && next.pending
                == self.pending,
            (UnlinkAsk::Commit, _) => next == (UnlinkWorld { committed: self.tables, ..self }),
            (UnlinkAsk::Rollback, _) => next == (UnlinkWorld { tables: self.committed, ..self }),
            (UnlinkAsk::Discard(ino), _) => next == (UnlinkWorld {
                pending: self.pending.discarded(ino),
                ..self
            }),
            _ => next == (UnlinkWorld {
                tables: carried_out(self.tables, asked, parent, name, now),
                ..self
            }),
        }
    }
}

/// Whether an answer is true of the tables, and of which inodes are open.
pub open spec fn answers(
    t: Tables,
    open: Set<i64>,
    parent: i64,
    name: Seq<char>,
    asked: UnlinkAsk,
    reply: UnlinkReply,
) -> bool {
    match (asked, reply) {
        (UnlinkAsk::Find, UnlinkReply::Child(child)) => child == child_of(t, parent, name),
        (UnlinkAsk::Stat(ino), UnlinkReply::Mode(mode)) => mode == mode_of(t, ino),
        (UnlinkAsk::AskLinks(ino), UnlinkReply::Links { count, still_open }) => {
            &&& t.inodes[ino].nlink == count
            &&& still_open == open.contains(ino)
        },
        _ => true,
    }
}

/// Why the tables refuse an unlink, if they do.
pub open spec fn refusal(before: Tables, parent: i64, name: &str) -> Option<FsError> {
    let child = child_of(before, parent, name@);
    unlink_error(name, child, mode_of(before, child->Some_0))
}

/// What an unlink knows: how the world stands to the one it started in.
pub open spec fn knows(
    start: UnlinkWorld,
    world: UnlinkWorld,
    open: Set<i64>,
    parent: i64,
    name: &str,
    now: (i64, i64),
    state: UnlinkState,
) -> bool {
    let before = start.tables;
    let ino = state.ino;
    let found = child_of(before, parent, name@) == Some(ino);
    let detached = before.detached(parent, name@, ino, now);
    let unlinked = before.unlinked(parent, name@, ino, now, open.contains(ino));
    let reaps = detached.inodes[ino].nlink == 0 && !open.contains(ino);
    let on = state.refused is None && !state.failed;
    let untouched = world.committed == before && world.pending == start.pending;
    let allowed = found && refusal(before, parent, name) is None;
    &&& start.committed == before
    &&& !too_long(name)
    &&& match state.asked {
        UnlinkAsk::Begin => world == start && state == UnlinkState::begun(),
        UnlinkAsk::Find => on && untouched && world.tables == before && !state.reaped,
        UnlinkAsk::Stat(n) => on && untouched && world.tables == before && !state.reaped && n == ino
            && found,
        UnlinkAsk::Detach(n) => on && untouched && world.tables == before && !state.reaped && n
            == ino && allowed,
        UnlinkAsk::AskLinks(n) => on && untouched && world.tables == detached && !state.reaped && n
            == ino && allowed,
        UnlinkAsk::Reap(n) => on && untouched && world.tables == detached && !state.reaped && n
            == ino && allowed && reaps,
        UnlinkAsk::TellHooks(n) => on && untouched && world.tables == unlinked && !state.reaped && n
            == ino && allowed && reaps,
        UnlinkAsk::Commit => on && untouched && world.tables == unlinked && state.reaped == reaps
            && allowed,
        UnlinkAsk::Discard(n) => on && world.committed == unlinked && world.tables == unlinked
            && world.pending == start.pending && n == ino && reaps && state.reaped && allowed,
        UnlinkAsk::Rollback => untouched && !on && (state.refused is Some ==> state.refused
            == refusal(before, parent, name)),
        UnlinkAsk::Finished => if on {
            &&& allowed
            &&& world.committed == unlinked
            &&& world.tables == unlinked
            &&& world.pending == if reaps {
                start.pending.discarded(ino)
            } else {
                start.pending
            }
        } else {
            &&& untouched
            &&& world.tables == before
            &&& state.refused is Some ==> state.refused == refusal(before, parent, name)
        },
    }
}

/// What an unlink knows stays true with every true answer, also when something fails.
pub proof fn an_unlink_keeps_track(
    start: UnlinkWorld,
    world: UnlinkWorld,
    next: UnlinkWorld,
    open: Set<i64>,
    parent: i64,
    name: &str,
    now: (i64, i64),
    state: UnlinkState,
    reply: UnlinkReply,
)
    requires
        knows(start, world, open, parent, name, now, state),
        state.expects(reply),
        answers(world.tables, open, parent, name@, state.asked, reply),
        world.leads_to(next, state.asked, reply, parent, name@, now),
    ensures
        knows(start, next, open, parent, name, now, state.after(reply)),
{
}

/// An unlink that is over has happened as a whole or not at all. If it was refused, or if
/// anything failed, a hook among it, then the name, the link counts, all other rows and the
/// pending writes are as they were. Otherwise the name is gone, and the pending writes of the
/// inode with it exactly where the inode went too.
pub proof fn an_unlink_is_whole_or_nothing(
    start: UnlinkWorld,
    world: UnlinkWorld,
    open: Set<i64>,
    parent: i64,
    name: &str,
    now: (i64, i64),
    state: UnlinkState,
)
    requires
        knows(start, world, open, parent, name, now, state),
        state.asked is Finished,
    ensures
        state.refused is Some || state.failed ==> world == start,
        state.refused is Some ==> state.refused == refusal(start.tables, parent, name),
        state.refused is None && !state.failed ==> {
            let ino = state.ino;
            let still_open = open.contains(ino);
            let detached = start.tables.detached(parent, name@, ino, now);
            &&& child_of(start.tables, parent, name@) == Some(ino)
            &&& refusal(start.tables, parent, name) is None
            &&& world.committed == start.tables.unlinked(parent, name@, ino, now, still_open)
            &&& world.pending == if detached.inodes[ino].nlink == 0 && !still_open {
                start.pending.discarded(ino)
            } else {
                start.pending
            }
        },
{
    if state.refused is Some || state.failed {
        assert(world =~= start);
    }
}

/// Pending writes are discarded only once the removal of their inode is committed.
pub proof fn pending_writes_go_after_the_commit(
    start: UnlinkWorld,
    world: UnlinkWorld,
    open: Set<i64>,
    parent: i64,
    name: &str,
    now: (i64, i64),
    state: UnlinkState,
)
    requires
        knows(start, world, open, parent, name, now, state),
    ensures
        state.asked is Discard || world.pending != start.pending ==> {
            &&& world.committed == start.tables.unlinked(parent, name@, state.ino, now, false)
            &&& !world.committed.inodes.contains_key(state.ino)
        },
{
}

/// A hook that fails leaves everything as it was: what is asked next is the rollback, and the
/// unlink is over after it.
pub proof fn a_failing_hook_undoes_the_unlink(
    start: UnlinkWorld,
    world: UnlinkWorld,
    failed: UnlinkWorld,
    undone: UnlinkWorld,
    open: Set<i64>,
    parent: i64,
    name: &str,
    now: (i64, i64),
    state: UnlinkState,
)
    requires
        knows(start, world, open, parent, name, now, state),
        state.asked is TellHooks,
        world.leads_to(failed, state.asked, UnlinkReply::Failed, parent, name@, now),
        failed.leads_to(undone, UnlinkAsk::Rollback, UnlinkReply::Done, parent, name@, now),
    ensures
        state.after(UnlinkReply::Failed).asked is Rollback,
        state.after(UnlinkReply::Failed).after(UnlinkReply::Done).asked is Finished,
        undone == start,
{
    assert(undone =~= start);
}

} // verus!
