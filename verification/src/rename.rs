//! The rename of an entry, step by step: what is asked of the database, and what follows
//! from each answer.
use crate::caches::CacheModel;
use crate::error::FsError;
use crate::namespace::{Plan, too_long};
use crate::removal::{Move, ParentRows, clear_target, move_plan};
use crate::rename_laws::{ascends, holds, renamed, target_of, trail};
use crate::stats::{MAX_NAME_LEN, ROOT_INO, S_IFDIR, S_IFMT, mode_is};
use crate::tables::{RowChange, Tables};
use vstd::prelude::*;

verus! {

broadcast use {crate::tables::changed_by_push, crate::tables::changed_by_none};

/// What a rename asks of the database next.
#[derive(Debug, Clone, Copy, PartialEq, Eq, Structural)]
pub enum RenameAsk {
    /// What the old name leads to.
    FindSource,
    /// The mode of the inode to move.
    StatSource(i64),
    /// Start a transaction. All that follows is in it.
    Begin,
    /// The parents of a directory.
    AskParents(i64),
    /// What the new name leads to.
    FindTarget,
    /// The mode of the inode that the new name leads to.
    StatTarget(i64),
    /// How many entries the directory has that the new name leads to.
    CountTarget(i64),
    /// Remove the new name from this inode.
    ClearTarget(i64),
    /// How many links the inode has left, and whether it is open.
    AskLinks(i64),
    /// Remove this inode with its contents.
    ReapTarget(i64),
    /// Move the entry.
    MoveEntry,
    /// Commit.
    Finish,
}

/// What the database answers.
#[derive(Debug, Clone, Copy, PartialEq, Eq, Structural)]
pub enum RenameReply {
    Child(Option<i64>),
    Mode(Option<u32>),
    Parents(ParentRows),
    Count(i64),
    Links { count: u32, still_open: bool },
    Done,
}

/// A rename under way.
pub struct Rename<'a> {
    pub parent: i64,
    pub name: &'a str,
    pub new_parent: i64,
    pub new_name: &'a str,
    /// What was asked last.
    pub asked: RenameAsk,
    /// The inode to move, once it is known.
    pub source: i64,
    pub source_is_dir: bool,
    /// Where the way from the new parent to the root has come to.
    pub current: i64,
    /// The directories passed on the way, lowest first.
    pub passed: Vec<i64>,
    /// The inode that the new name leads to, once it is known.
    pub target: Option<i64>,
    /// Whether that inode was removed with its contents.
    pub reaped: bool,
}

/// A rename under way, without the names.
#[verifier::ext_equal]
pub struct RenameState {
    pub asked: RenameAsk,
    pub source: i64,
    pub source_is_dir: bool,
    pub current: i64,
    pub passed: Seq<i64>,
    pub target: Option<i64>,
    pub reaped: bool,
}

impl<'a> View for Rename<'a> {
    type V = RenameState;

    open spec fn view(&self) -> RenameState {
        RenameState {
            asked: self.asked,
            source: self.source,
            source_is_dir: self.source_is_dir,
            current: self.current,
            passed: self.passed@,
            target: self.target,
            reaped: self.reaped,
        }
    }
}

impl RenameState {
    pub open spec fn asking(self, asked: RenameAsk) -> RenameState {
        RenameState { asked, ..self }
    }

    /// Whether a reply is of the kind that was asked for.
    pub open spec fn expects(self, reply: RenameReply) -> bool {
        match self.asked {
            RenameAsk::FindSource | RenameAsk::FindTarget => reply is Child,
            RenameAsk::StatSource(_) | RenameAsk::StatTarget(_) => reply is Mode,
            RenameAsk::AskParents(_) => reply is Parents,
            RenameAsk::CountTarget(_) => reply is Count,
            RenameAsk::AskLinks(_) => reply is Links,
            RenameAsk::Begin | RenameAsk::ClearTarget(_) | RenameAsk::ReapTarget(_)
            | RenameAsk::MoveEntry => reply is Done,
            RenameAsk::Finish => false,
        }
    }

    /// The next step up from where the way has come to. Meeting the moved directory refuses
    /// the rename, meeting a directory twice shows a broken tree, and the root ends the way.
    pub open spec fn climbing(self) -> Result<RenameState, FsError> {
        if self.current == ROOT_INO {
            Ok(self.asking(RenameAsk::FindTarget))
        } else if self.current == self.source {
            Err(FsError::InvalidRename)
        } else if self.passed.contains(self.current) {
            Err(FsError::InvalidPath)
        } else {
            Ok(
                RenameState {
                    asked: RenameAsk::AskParents(self.current),
                    passed: self.passed.push(self.current),
                    ..self
                },
            )
        }
    }

    /// The rename after an answer, or why it ends.
    pub open spec fn after(self, reply: RenameReply, new_parent: i64) -> Result<
        RenameState,
        FsError,
    > {
        match (self.asked, reply) {
            (RenameAsk::FindSource, RenameReply::Child(None)) => Err(FsError::NotFound),
            (RenameAsk::FindSource, RenameReply::Child(Some(ino))) => if ino == ROOT_INO {
                Err(FsError::RootOperation)
            } else {
                Ok(RenameState { source: ino, asked: RenameAsk::StatSource(ino), ..self })
            },
            (RenameAsk::StatSource(_), RenameReply::Mode(None)) => Err(FsError::NotFound),
            (RenameAsk::StatSource(_), RenameReply::Mode(Some(mode))) => Ok(
                RenameState {
                    source_is_dir: mode_is(mode, S_IFDIR),
                    asked: RenameAsk::Begin,
                    ..self
                },
            ),
            (RenameAsk::Begin, _) => if self.source_is_dir {
                (RenameState { current: new_parent, ..self }).climbing()
            } else {
                Ok(self.asking(RenameAsk::FindTarget))
            },
            (RenameAsk::AskParents(_), RenameReply::Parents(rows)) => match rows {
                ParentRows::One(parent) => (RenameState { current: parent, ..self }).climbing(),
                ParentRows::Missing => Err(FsError::NotFound),
                _ => Err(FsError::InvalidPath),
            },
            (RenameAsk::FindTarget, RenameReply::Child(None)) => Ok(
                RenameState { target: None, asked: RenameAsk::MoveEntry, ..self },
            ),
            (RenameAsk::FindTarget, RenameReply::Child(Some(ino))) => Ok(
                RenameState { target: Some(ino), asked: RenameAsk::StatTarget(ino), ..self },
            ),
            (RenameAsk::StatTarget(_), RenameReply::Mode(None)) => Err(FsError::NotFound),
            (RenameAsk::StatTarget(ino), RenameReply::Mode(Some(mode))) => {
                let target_is_dir = mode_is(mode, S_IFDIR);
                if target_is_dir && !self.source_is_dir {
                    Err(FsError::IsADirectory)
                } else if !target_is_dir && self.source_is_dir {
                    Err(FsError::NotADirectory)
                } else if target_is_dir {
                    Ok(self.asking(RenameAsk::CountTarget(ino)))
                } else {
                    Ok(self.asking(RenameAsk::ClearTarget(ino)))
                }
            },
            (RenameAsk::CountTarget(ino), RenameReply::Count(entries)) => if entries > 0 {
                Err(FsError::NotEmpty)
            } else {
                Ok(self.asking(RenameAsk::ClearTarget(ino)))
            },
            (RenameAsk::ClearTarget(ino), _) => Ok(self.asking(RenameAsk::AskLinks(ino))),
            (RenameAsk::AskLinks(ino), RenameReply::Links { count, still_open }) => if count == 0
                && !still_open {
                Ok(RenameState { reaped: true, asked: RenameAsk::ReapTarget(ino), ..self })
            } else {
                Ok(self.asking(RenameAsk::MoveEntry))
            },
            (RenameAsk::ReapTarget(_), _) => Ok(self.asking(RenameAsk::MoveEntry)),
            _ => Ok(self.asking(RenameAsk::Finish)),
        }
    }
}

/// The state of a rename before anything is known.
pub open spec fn rename_begun(new_parent: i64) -> RenameState {
    RenameState {
        asked: RenameAsk::FindSource,
        source: 0,
        source_is_dir: false,
        current: new_parent,
        passed: Seq::empty(),
        target: None,
        reaped: false,
    }
}

fn passes(passed: &Vec<i64>, ino: i64) -> (yes: bool)
    ensures
        yes == passed@.contains(ino),
{
    let mut i: usize = 0;
    while i < passed.len()
        invariant
            i <= passed@.len(),
            forall|k: int| 0 <= k < i ==> passed@[k] != ino,
        decreases passed@.len() - i,
    {
        if passed[i] == ino {
            assert(passed@[i as int] == ino);
            return true;
        }
        i += 1;
    }
    false
}

impl<'a> Rename<'a> {
    /// Whether two states are of the same rename.
    pub open spec fn same_names(self, other: Rename<'a>) -> bool {
        &&& self.parent == other.parent
        &&& self.name@ == other.name@
        &&& self.new_parent == other.new_parent
        &&& self.new_name@ == other.new_name@
    }

    /// The move that this rename makes.
    pub open spec fn motion(self) -> Move<'a> {
        Move {
            source: self.source,
            source_is_dir: self.source_is_dir,
            parent: self.parent,
            name: self.name,
            new_parent: self.new_parent,
            new_name: self.new_name,
        }
    }

    /// Starts a rename. Its first question is for the old name.
    pub fn start(parent: i64, name: &'a str, new_parent: i64, new_name: &'a str) -> (result: Result<
        Rename<'a>,
        FsError,
    >)
        ensures
            if too_long(new_name) {
                result == Err::<Rename<'a>, FsError>(FsError::NameTooLong)
            } else {
                result matches Ok(rename) && {
                    &&& rename@ == rename_begun(new_parent)
                    &&& rename.parent == parent
                    &&& rename.name == name
                    &&& rename.new_parent == new_parent
                    &&& rename.new_name == new_name
                }
            },
    {
        if new_name.len() > MAX_NAME_LEN {
            return Err(FsError::NameTooLong);
        }
        let rename = Rename {
            parent,
            name,
            new_parent,
            new_name,
            asked: RenameAsk::FindSource,
            source: 0,
            source_is_dir: false,
            current: new_parent,
            passed: Vec::new(),
            target: None,
            reaped: false,
        };
        assert(rename@ =~= rename_begun(new_parent));
        Ok(rename)
    }

    fn climb(&mut self) -> (result: Result<(), FsError>)
        ensures
            match old(self)@.climbing() {
                Ok(state) => result is Ok && final(self)@ == state,
                Err(error) => result == Err::<(), FsError>(error),
            },
            final(self).same_names(*old(self)),
    {
        if self.current == ROOT_INO {
            self.asked = RenameAsk::FindTarget;
            return Ok(());
        }
        if self.current == self.source {
            return Err(FsError::InvalidRename);
        }
        if passes(&self.passed, self.current) {
            return Err(FsError::InvalidPath);
        }
        self.passed.push(self.current);
        self.asked = RenameAsk::AskParents(self.current);
        Ok(())
    }

    /// Takes the answer to what was asked last. What is asked next is in `asked`. An error
    /// ends the rename, and the transaction is rolled back.
    pub fn step(&mut self, reply: RenameReply) -> (result: Result<(), FsError>)
        requires
            old(self)@.expects(reply),
        ensures
            match old(self)@.after(reply, old(self).new_parent) {
                Ok(state) => result is Ok && final(self)@ == state,
                Err(error) => result == Err::<(), FsError>(error),
            },
            final(self).same_names(*old(self)),
    {
        match (self.asked, reply) {
            (RenameAsk::FindSource, RenameReply::Child(child)) => match child {
                None => {
                    return Err(FsError::NotFound);
                },
                Some(ino) => {
                    if ino == ROOT_INO {
                        return Err(FsError::RootOperation);
                    }
                    self.source = ino;
                    self.asked = RenameAsk::StatSource(ino);
                },
            },
            (RenameAsk::StatSource(_), RenameReply::Mode(mode)) => match mode {
                None => {
                    return Err(FsError::NotFound);
                },
                Some(mode) => {
                    self.source_is_dir = (mode & S_IFMT) == S_IFDIR;
                    self.asked = RenameAsk::Begin;
                },
            },
            (RenameAsk::Begin, _) => {
                if self.source_is_dir {
                    self.current = self.new_parent;
                    return self.climb();
                }
                self.asked = RenameAsk::FindTarget;
            },
            (RenameAsk::AskParents(_), RenameReply::Parents(rows)) => match rows {
                ParentRows::One(parent) => {
                    self.current = parent;
                    return self.climb();
                },
                ParentRows::Missing => {
                    return Err(FsError::NotFound);
                },
                ParentRows::NotAnInteger => {
                    return Err(FsError::InvalidPath);
                },
                ParentRows::Many => {
                    return Err(FsError::InvalidPath);
                },
            },
            (RenameAsk::FindTarget, RenameReply::Child(child)) => match child {
                None => {
                    self.target = None;
                    self.asked = RenameAsk::MoveEntry;
                },
                Some(ino) => {
                    self.target = Some(ino);
                    self.asked = RenameAsk::StatTarget(ino);
                },
            },
            (RenameAsk::StatTarget(ino), RenameReply::Mode(mode)) => match mode {
                None => {
                    return Err(FsError::NotFound);
                },
                Some(mode) => {
                    let target_is_dir: bool = (mode & S_IFMT) == S_IFDIR;
                    if target_is_dir && !self.source_is_dir {
                        return Err(FsError::IsADirectory);
                    }
                    if !target_is_dir && self.source_is_dir {
                        return Err(FsError::NotADirectory);
                    }
                    if target_is_dir {
                        self.asked = RenameAsk::CountTarget(ino);
                    } else {
                        self.asked = RenameAsk::ClearTarget(ino);
                    }
                },
            },
            (RenameAsk::CountTarget(ino), RenameReply::Count(entries)) => {
                if entries > 0 {
                    return Err(FsError::NotEmpty);
                }
                self.asked = RenameAsk::ClearTarget(ino);
            },
            (RenameAsk::ClearTarget(ino), _) => {
                self.asked = RenameAsk::AskLinks(ino);
            },
            (RenameAsk::AskLinks(ino), RenameReply::Links { count, still_open }) => {
                if count == 0 && !still_open {
                    self.reaped = true;
                    self.asked = RenameAsk::ReapTarget(ino);
                } else {
                    self.asked = RenameAsk::MoveEntry;
                }
            },
            (RenameAsk::ReapTarget(_), _) => {
                self.asked = RenameAsk::MoveEntry;
            },
            _ => {
                self.asked = RenameAsk::Finish;
            },
        }
        Ok(())
    }

    /// The changes that carry out what was asked last, at a time.
    pub fn changes(&self, now: (i64, i64)) -> (changes: Vec<RowChange>)
        ensures
            forall|t: Tables| #[trigger]
                t.changed_by(changes@) == carried_out(t, self@.asked, self.motion(), now),
    {
        match self.asked {
            RenameAsk::ClearTarget(ino) => clear_target(self.new_parent, self.new_name, ino, now),
            RenameAsk::ReapTarget(ino) => {
                let mut changes: Vec<RowChange> = Vec::new();
                changes.push(RowChange::Reap { ino });
                changes
            },
            RenameAsk::MoveEntry => self.finish(now).changes,
            _ => Vec::new(),
        }
    }

    /// The move itself and what the caches hold after it.
    pub fn finish(&self, now: (i64, i64)) -> (plan: Plan)
        ensures
            forall|t: Tables| #[trigger] t.changed_by(plan.changes@) == t.moved(self.motion(), now),
            forall|c: CacheModel| #[trigger]
                c.changed_by(plan.caches@) == c.after_move(self.motion(), self.target),
    {
        let motion = Move {
            source: self.source,
            source_is_dir: self.source_is_dir,
            parent: self.parent,
            name: self.name,
            new_parent: self.new_parent,
            new_name: self.new_name,
        };
        move_plan(&motion, self.target, now)
    }

    /// The inode whose pending writes are discarded after the commit.
    pub fn discarded(&self) -> (ino: Option<i64>)
        ensures
            ino == if self.reaped {
                self.target
            } else {
                None
            },
    {
        if self.reaped {
            self.target
        } else {
            None
        }
    }
}

/// The tables after what was asked of the database was done.
pub open spec fn carried_out(t: Tables, asked: RenameAsk, m: Move, now: (i64, i64)) -> Tables {
    match asked {
        RenameAsk::ClearTarget(ino) => t.cleared(m.new_parent, m.new_name@, ino, now),
        RenameAsk::ReapTarget(ino) => t.reaped(ino),
        RenameAsk::MoveEntry => t.moved(m, now),
        _ => t,
    }
}

/// What a name leads to.
pub open spec fn child_of(t: Tables, parent: i64, name: Seq<char>) -> Option<i64> {
    if t.dentries.contains_key((parent, name)) {
        Some(t.dentries[(parent, name)])
    } else {
        None
    }
}

/// Whether an answer is true of the tables, and of which inodes are open.
pub open spec fn answers(
    t: Tables,
    open: Set<i64>,
    m: Move,
    asked: RenameAsk,
    reply: RenameReply,
) -> bool {
    match (asked, reply) {
        (RenameAsk::FindSource, RenameReply::Child(child)) => child == child_of(
            t,
            m.parent,
            m.name@,
        ),
        (RenameAsk::FindTarget, RenameReply::Child(child)) => child == child_of(
            t,
            m.new_parent,
            m.new_name@,
        ),
        (RenameAsk::StatSource(ino), RenameReply::Mode(mode)) => mode == mode_of(t, ino),
        (RenameAsk::StatTarget(ino), RenameReply::Mode(mode)) => mode == mode_of(t, ino),
        (RenameAsk::AskParents(ino), RenameReply::Parents(rows)) => match rows {
            ParentRows::Missing => forall|dir: i64| !holds(t.dentries, dir, ino),
            ParentRows::NotAnInteger => false,
            ParentRows::One(parent) => holds(t.dentries, parent, ino) && !named_twice(t, ino),
            ParentRows::Many => named_twice(t, ino),
        },
        (RenameAsk::CountTarget(ino), RenameReply::Count(entries)) => (entries > 0)
            == t.has_entries(ino),
        (RenameAsk::AskLinks(ino), RenameReply::Links { count, still_open }) => t.inodes[ino].nlink
            == count && still_open == open.contains(ino),
        (_, RenameReply::Done) => true,
        _ => false,
    }
}

/// Whether two names lead to an inode.
pub open spec fn named_twice(t: Tables, ino: i64) -> bool {
    exists|a: (i64, Seq<char>), b: (i64, Seq<char>)|
        a != b && #[trigger] t.names_of(ino).contains(a) && #[trigger] t.names_of(ino).contains(b)
}

pub open spec fn mode_of(t: Tables, ino: i64) -> Option<u32> {
    if t.inodes.contains_key(ino) {
        Some(t.inodes[ino].mode)
    } else {
        None
    }
}

/// Whether the way up has passed only directories between the new parent and where it has
/// come to, and not the moved one.
pub open spec fn on_the_way(t: Tables, m: Move, state: RenameState) -> bool {
    let done = match state.asked {
        RenameAsk::AskParents(_) => state.passed,
        _ => state.passed.push(state.current),
    };
    &&& done.len() > 0
    &&& done[0] == m.new_parent
    &&& done.last() == state.current
    &&& ascends(t.dentries, done)
    &&& !state.passed.contains(state.source)
}

/// What a rename knows of the tables as they were when it started. `cleared_at` is when the
/// target was cleared and `now` when the entry was moved.
pub open spec fn knows(
    before: Tables,
    t: Tables,
    open: Set<i64>,
    m: Move,
    state: RenameState,
    cleared_at: (i64, i64),
) -> bool {
    let target = target_of(before, m);
    let found_source = child_of(before, m.parent, m.name@) == Some(state.source) && state.source
        != ROOT_INO;
    let source_known = found_source && before.inodes.contains_key(state.source)
        && state.source_is_dir == before.is_dir(state.source);
    let way_clear = state.source_is_dir ==> state.current == ROOT_INO && on_the_way(
        before,
        m,
        state,
    );
    let replaceable = before.inodes.contains_key(target->Some_0) && before.is_dir(target->Some_0)
        == state.source_is_dir;
    match state.asked {
        RenameAsk::FindSource => t == before && state == rename_begun(m.new_parent),
        RenameAsk::StatSource(ino) => t == before && found_source && ino == state.source
            && state.passed.len() == 0 && !state.reaped,
        RenameAsk::Begin => t == before && source_known && state.passed.len() == 0
            && !state.reaped,
        RenameAsk::AskParents(ino) => t == before && source_known && state.source_is_dir && ino
            == state.current && ino != ROOT_INO && on_the_way(before, m, state) && !state.reaped,
        RenameAsk::FindTarget => t == before && source_known && way_clear && !state.reaped,
        RenameAsk::StatTarget(ino) => t == before && source_known && way_clear && target == Some(
            ino,
        ) && state.target == target && !state.reaped,
        RenameAsk::CountTarget(ino) => t == before && source_known && way_clear && target == Some(
            ino,
        ) && state.target == target && replaceable && before.is_dir(ino) && !state.reaped,
        RenameAsk::ClearTarget(ino) => t == before && source_known && way_clear && target == Some(
            ino,
        ) && state.target == target && replaceable && (before.is_dir(ino) ==> !before.has_entries(
            ino,
        )) && !state.reaped,
        RenameAsk::AskLinks(ino) => t == before.cleared(m.new_parent, m.new_name@, ino, cleared_at)
            && source_known && way_clear && target == Some(ino) && state.target == target
            && replaceable && (before.is_dir(ino) ==> !before.has_entries(ino)) && !state.reaped,
        RenameAsk::ReapTarget(ino) => {
            let cleared = before.cleared(m.new_parent, m.new_name@, ino, cleared_at);
            t == cleared && source_known && way_clear && target == Some(ino) && state.target
                == target && replaceable && (before.is_dir(ino) ==> !before.has_entries(ino))
                && cleared.inodes[ino].nlink == 0 && !open.contains(ino) && state.reaped
        },
        RenameAsk::MoveEntry => t == made_way(before, open, m, cleared_at) && source_known
            && way_clear && state.target == target && (target is Some ==> replaceable && (
        before.is_dir(target->Some_0) ==> !before.has_entries(target->Some_0))) && state.reaped
            == reaps(before, open, m, cleared_at),
        RenameAsk::Finish => true,
    }
}

/// Whether a rename removes the inode it replaces with its contents.
pub open spec fn reaps(before: Tables, open: Set<i64>, m: Move, cleared_at: (i64, i64)) -> bool {
    match target_of(before, m) {
        None => false,
        Some(ino) => before.cleared(
            m.new_parent,
            m.new_name@,
            ino,
            cleared_at,
        ).inodes[ino].nlink == 0 && !open.contains(ino),
    }
}

pub open spec fn made_way(
    before: Tables,
    open: Set<i64>,
    m: Move,
    cleared_at: (i64, i64),
) -> Tables {
    before.made_way(
        m.new_parent,
        m.new_name@,
        target_of(before, m),
        cleared_at,
        target_of(before, m) matches Some(ino) && open.contains(ino),
    )
}

/// Why a rename is refused.
pub open spec fn rightly_refused(before: Tables, m: Move, error: FsError) -> bool {
    let source = child_of(before, m.parent, m.name@);
    let target = target_of(before, m);
    let source_is_dir = source is Some && before.is_dir(source->Some_0);
    match error {
        FsError::NotFound => {
            ||| source is None
            ||| !before.inodes.contains_key(source->Some_0)
            ||| target is Some && !before.inodes.contains_key(target->Some_0)
            ||| source_is_dir && exists|dir: i64|
                dir != ROOT_INO && #[trigger] dangling(before, m.new_parent, dir)
        },
        FsError::RootOperation => source == Some(ROOT_INO),
        FsError::InvalidRename => source_is_dir && lies_below(
            before,
            m.new_parent,
            source->Some_0,
        ),
        FsError::InvalidPath => source_is_dir && exists|dir: i64|
            dir != ROOT_INO && #[trigger] lies_below(before, m.new_parent, dir) && (named_twice(
                before,
                dir,
            ) || loops(before, dir)),
        FsError::IsADirectory => target is Some && before.is_dir(target->Some_0)
            && !source_is_dir,
        FsError::NotADirectory => target is Some && !before.is_dir(target->Some_0)
            && source_is_dir,
        FsError::NotEmpty => target is Some && before.is_dir(target->Some_0)
            && before.has_entries(target->Some_0),
        _ => false,
    }
}

/// Whether a way up from one directory comes to another.
pub open spec fn lies_below(t: Tables, low: i64, high: i64) -> bool {
    exists|steps: Seq<i64>|
        {
            &&& #[trigger] ascends(t.dentries, steps)
            &&& steps.len() > 0
            &&& steps[0] == low
            &&& steps.last() == high
        }
}

/// Whether a way up from a directory comes back to it.
pub open spec fn loops(t: Tables, dir: i64) -> bool {
    exists|steps: Seq<i64>|
        {
            &&& #[trigger] ascends(t.dentries, steps)
            &&& steps.len() > 1
            &&& steps[0] == dir
            &&& steps.last() == dir
        }
}

/// Whether a way up from a directory ends at one that nothing holds.
pub open spec fn dangling(t: Tables, low: i64, high: i64) -> bool {
    lies_below(t, low, high) && forall|dir: i64| !holds(t.dentries, dir, high)
}

proof fn lemma_climb(t: Tables, m: Move, state: RenameState, done: Seq<i64>)
    requires
        done.len() > 0,
        done[0] == m.new_parent,
        done.last() == state.current,
        done == state.passed.push(state.current),
        ascends(t.dentries, done),
        !state.passed.contains(state.source),
    ensures
        match state.climbing() {
            Ok(next) => on_the_way(t, m, next),
            Err(FsError::InvalidRename) => lies_below(t, m.new_parent, state.source),
            Err(FsError::InvalidPath) => lies_below(t, m.new_parent, state.current) && loops(
                t,
                state.current,
            ) && state.current != ROOT_INO,
            Err(_) => false,
        },
{
    if state.passed.contains(state.current) {
        let from = state.passed.index_of(state.current);
        let steps = done.subrange(from, done.len() as int);
        assert forall|i: int|
            #![trigger steps[i]]
            0 <= i < steps.len() - 1 implies holds(t.dentries, steps[i + 1], steps[i]) by {
            assert(steps[i] == done[from + i]);
            assert(steps[i + 1] == done[from + i + 1]);
        }
        assert(steps[0] == done[from]);
        assert(done[from] == state.passed[from]);
        assert(steps.last() == done.last());
        assert(ascends(t.dentries, steps));
        assert(loops(t, state.current));
    }
    assert(lies_below(t, m.new_parent, state.current));
    if let Ok(next) = state.climbing() {
        if next.asked is AskParents {
            let more = state.passed.push(state.current);
            if more.contains(state.source) {
                let i = more.index_of(state.source);
                if i < state.passed.len() {
                    assert(state.passed[i] == state.source);
                }
            }
        }
    }
}

/// A rename that gets true answers knows the tables, and a refusal has a reason. Nothing is
/// changed before a rename can no longer be refused.
pub proof fn true_answers_make_a_rename_know_the_tables(
    before: Tables,
    t: Tables,
    open: Set<i64>,
    m: Move,
    state: RenameState,
    reply: RenameReply,
    cleared_at: (i64, i64),
    now: (i64, i64),
)
    requires
        knows(before, t, open, m, state, cleared_at),
        state.expects(reply),
        answers(t, open, m, state.asked, reply),
    ensures
        match state.after(reply, m.new_parent) {
            Ok(next) => knows(
                before,
                carried_out(t, state.asked, m, if state.asked is MoveEntry {
                    now
                } else {
                    cleared_at
                }),
                open,
                m,
                next,
                cleared_at,
            ),
            Err(error) => t == before && rightly_refused(before, m, error),
        },
{
    match state.asked {
        RenameAsk::Begin => {
            if state.source_is_dir {
                let low = RenameState { current: m.new_parent, ..state };
                let done = seq![m.new_parent];
                assert(state.passed.push(m.new_parent) =~= done);
                lemma_climb(before, m, low, done);
            }
        },
        RenameAsk::AskParents(ino) => {
            if let RenameReply::Parents(ParentRows::One(parent)) = reply {
                let up = RenameState { current: parent, ..state };
                let done = state.passed.push(parent);
                assert forall|i: int|
                    #![trigger done[i]]
                    0 <= i < done.len() - 1 implies holds(t.dentries, done[i + 1], done[i]) by {
                    assert(done[i] == state.passed[i]);
                    if i < state.passed.len() - 1 {
                        assert(done[i + 1] == state.passed[i + 1]);
                    }
                }
                lemma_climb(before, m, up, done);
            } else {
                assert(lies_below(before, m.new_parent, ino));
                assert(ino != ROOT_INO);
                if reply == RenameReply::Parents(ParentRows::Missing) {
                    assert(dangling(before, m.new_parent, ino));
                }
            }
        },
        _ => {},
    }
}

/// A rename that is finished has renamed: the tables are those after the move, and if a
/// directory was moved, its new place has a way to the root that avoids it.
pub proof fn a_finished_rename_has_renamed(
    before: Tables,
    t: Tables,
    open: Set<i64>,
    m: Move,
    state: RenameState,
    cleared_at: (i64, i64),
    now: (i64, i64),
)
    requires
        knows(before, t, open, m, state, cleared_at),
        state.asked is MoveEntry,
        m.source == state.source,
        m.source_is_dir == state.source_is_dir,
    ensures
        carried_out(t, state.asked, m, now) == renamed(
            before,
            m,
            cleared_at,
            now,
            target_of(before, m) matches Some(ino) && open.contains(ino),
        ),
        state.target == target_of(before, m),
        before.dentries.contains_key((m.parent, m.name@)),
        before.dentries[(m.parent, m.name@)] == m.source,
        m.source_is_dir ==> {
            let way = state.passed.push(ROOT_INO);
            &&& trail(before.dentries, way)
            &&& way[0] == m.new_parent
            &&& !way.contains(m.source)
        },
{
    if m.source_is_dir {
        let way = state.passed.push(ROOT_INO);
        assert(way =~= state.passed.push(state.current));
        if way.contains(m.source) {
            let i = way.index_of(m.source);
            if i < state.passed.len() {
                assert(state.passed[i] == m.source);
            }
        }
    }
}

} // verus!
