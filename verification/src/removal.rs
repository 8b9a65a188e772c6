//! Namespace operations that remove, link and move entries.
use crate::caches::{CacheChange, CacheModel};
use crate::error::FsError;
use crate::namespace::{Plan, too_long};
use crate::stats::{MAX_NAME_LEN, ROOT_INO, S_IFDIR, S_IFMT, mode_is};
use crate::tables::{InodeUpdate, LinkChange, RowChange, Tables};
use crate::text::same_text;
use vstd::prelude::*;

verus! {

broadcast use {
    crate::tables::changed_by_push,
    crate::tables::changed_by_none,
    crate::caches::cache_changed_by_push,
    crate::caches::cache_changed_by_none,
};

impl Tables {
    /// The entry is gone, its directory is touched and the inode has one link less.
    pub open spec fn detached(
        self,
        parent: i64,
        name: Seq<char>,
        ino: i64,
        now: (i64, i64),
    ) -> Tables {
        self.without_entry(parent, name).updated(
            InodeUpdate::touching(parent, LinkChange::Keep, now),
        ).updated(InodeUpdate::stamping(ino, LinkChange::Down, now))
    }

    /// The tables after a file was unlinked. An inode without links goes too unless
    /// it is still open.
    pub open spec fn unlinked(
        self,
        parent: i64,
        name: Seq<char>,
        ino: i64,
        now: (i64, i64),
        still_open: bool,
    ) -> Tables {
        let detached = self.detached(parent, name, ino, now);
        if detached.inodes[ino].nlink == 0 && !still_open {
            detached.reaped(ino)
        } else {
            detached
        }
    }

    /// The entry of a directory is gone; it and its parent have one link less.
    pub open spec fn detached_dir(
        self,
        parent: i64,
        name: Seq<char>,
        ino: i64,
        now: (i64, i64),
    ) -> Tables {
        self.without_entry(parent, name).updated(
            InodeUpdate::relinking(ino, LinkChange::Down),
        ).updated(InodeUpdate::touching(parent, LinkChange::Down, now))
    }

    /// The tables after a directory was removed. Its inode goes only without links.
    pub open spec fn removed_dir(
        self,
        parent: i64,
        name: Seq<char>,
        ino: i64,
        now: (i64, i64),
    ) -> Tables {
        let detached = self.detached_dir(parent, name, ino, now);
        if detached.inodes[ino].nlink == 0 {
            Tables { inodes: detached.inodes.remove(ino), ..detached }
        } else {
            detached
        }
    }

    /// The tables after a further name for an inode.
    pub open spec fn linked(
        self,
        ino: i64,
        parent: i64,
        name: Seq<char>,
        now: (i64, i64),
    ) -> Tables {
        self.with_entry(parent, name, ino).updated(
            InodeUpdate::stamping(ino, LinkChange::Up, now),
        ).updated(InodeUpdate::touching(parent, LinkChange::Keep, now))
    }
}

impl CacheModel {
    /// What is cached after a name was removed.
    pub open spec fn after_removal(self, parent: i64, name: Seq<char>, ino: i64) -> CacheModel {
        self.without_attr(parent).without_attr(ino).with_missing(parent, name)
    }
}

/// What the caches hold after a name was removed.
pub(crate) fn removal_caches(parent: i64, name: &str, ino: i64) -> (caches: Vec<CacheChange>)
    ensures
        forall|c: CacheModel| #[trigger]
            c.changed_by(caches@) == c.after_removal(parent, name@, ino),
{
    let mut caches: Vec<CacheChange> = Vec::new();
    caches.push(CacheChange::ForgetEntry { parent, name: name.to_owned() });
    caches.push(CacheChange::ForgetAttr { ino: parent });
    caches.push(CacheChange::ForgetAttr { ino });
    caches.push(CacheChange::Missing { parent, name: name.to_owned() });
    proof {
        assert forall|c: CacheModel| #[trigger]
            c.changed_by(caches@) == c.after_removal(parent, name@, ino) by {
            assert(c.changed_by(caches@) =~= c.after_removal(parent, name@, ino));
        }
    }
    caches
}

/// Why an unlink is refused, if it is. `child` is what the name leads to and `mode`
/// the mode of that inode.
pub open spec fn unlink_error(name: &str, child: Option<i64>, mode: Option<u32>) -> Option<
    FsError,
> {
    if too_long(name) {
        Some(FsError::NameTooLong)
    } else if child is None || mode is None {
        Some(FsError::NotFound)
    } else if mode_is(mode->0, S_IFDIR) {
        Some(FsError::IsADirectory)
    } else {
        None
    }
}

/// The changes that take a name away from an inode.
pub(crate) fn detach_changes(parent: i64, name: &str, ino: i64, now: (i64, i64)) -> (changes: Vec<
    RowChange,
>)
    ensures
        forall|t: Tables| #[trigger]
            t.changed_by(changes@) == t.detached(parent, name@, ino, now),
{
    let mut changes: Vec<RowChange> = Vec::new();
    changes.push(RowChange::RemoveDentry { parent, name: name.to_owned() });
    changes.push(RowChange::Update(InodeUpdate::touch(parent, LinkChange::Keep, now)));
    changes.push(RowChange::Update(InodeUpdate::stamp(ino, LinkChange::Down, now)));
    changes
}

/// The reaping of an inode that lost a link, when it was the last one and no handle
/// is open. Pending writes of the inode are discarded after the commit.
pub fn reap_after_unlink(ino: i64, link_count: u32, still_open: bool) -> (reap: Option<RowChange>)
    ensures
        reap == if link_count == 0 && !still_open {
            Some(RowChange::Reap { ino })
        } else {
            None
        },
{
    if link_count == 0 && !still_open {
        Some(RowChange::Reap { ino })
    } else {
        None
    }
}

/// Why a removal of a directory is refused, if it is. `entries` is the number of
/// entries of the directory.
pub open spec fn rmdir_error(
    name: &str,
    child: Option<i64>,
    mode: Option<u32>,
    entries: i64,
) -> Option<FsError> {
    if too_long(name) {
        Some(FsError::NameTooLong)
    } else if child is None {
        Some(FsError::NotFound)
    } else if child->0 == ROOT_INO {
        Some(FsError::RootOperation)
    } else if mode is None {
        Some(FsError::NotFound)
    } else if !mode_is(mode->0, S_IFDIR) {
        Some(FsError::NotADirectory)
    } else if entries > 0 {
        Some(FsError::NotEmpty)
    } else {
        None
    }
}

/// The removal of an empty directory. Whether the inode goes too is decided by
/// [`drop_removed_dir`] once the changes are made.
pub fn rmdir_plan(
    parent: i64,
    name: &str,
    child: Option<i64>,
    mode: Option<u32>,
    entries: i64,
    now: (i64, i64),
) -> (result: Result<Plan, FsError>)
    ensures
        match rmdir_error(name, child, mode, entries) {
            Some(error) => result == Err::<Plan, FsError>(error),
            None => result matches Ok(plan) && {
                &&& forall|t: Tables| #[trigger]
                    t.changed_by(plan.changes@) == t.detached_dir(parent, name@, child->0, now)
                &&& forall|c: CacheModel| #[trigger]
                    c.changed_by(plan.caches@) == c.after_removal(parent, name@, child->0)
            },
        },
{
    if name.len() > MAX_NAME_LEN {
        return Err(FsError::NameTooLong);
    }
    let ino: i64 = match child {
        Some(ino) => ino,
        None => {
            return Err(FsError::NotFound);
        },
    };
    if ino == ROOT_INO {
        return Err(FsError::RootOperation);
    }
    match mode {
        Some(mode) => {
            if (mode & S_IFMT) != S_IFDIR {
                return Err(FsError::NotADirectory);
            }
        },
        None => {
            return Err(FsError::NotFound);
        },
    }
    if entries > 0 {
        return Err(FsError::NotEmpty);
    }
    let mut changes: Vec<RowChange> = Vec::new();
    changes.push(RowChange::RemoveDentry { parent, name: name.to_owned() });
    changes.push(RowChange::Update(InodeUpdate::relink(ino, LinkChange::Down)));
    changes.push(RowChange::Update(InodeUpdate::touch(parent, LinkChange::Down, now)));
    Ok(Plan { changes, caches: removal_caches(parent, name, ino) })
}

/// The removal of the row of a directory that has no links left.
pub fn drop_removed_dir(ino: i64, link_count: u32) -> (change: Option<RowChange>)
    ensures
        change == if link_count == 0 {
            Some(RowChange::RemoveInode { ino })
        } else {
            None
        },
{
    if link_count == 0 {
        Some(RowChange::RemoveInode { ino })
    } else {
        None
    }
}

/// Why a link is refused, if it is. `mode` is the mode of the inode to link and
/// `existing` what the new name leads to.
pub open spec fn link_error(name: &str, mode: Option<u32>, existing: Option<i64>) -> Option<
    FsError,
> {
    if too_long(name) {
        Some(FsError::NameTooLong)
    } else if mode is None {
        Some(FsError::NotFound)
    } else if mode_is(mode->0, S_IFDIR) {
        Some(FsError::IsADirectory)
    } else if existing is Some {
        Some(FsError::AlreadyExists)
    } else {
        None
    }
}

/// A further name for an inode that is no directory.
pub fn link_plan(
    ino: i64,
    parent: i64,
    name: &str,
    mode: Option<u32>,
    existing: Option<i64>,
    now: (i64, i64),
) -> (result: Result<Plan, FsError>)
    ensures
        match link_error(name, mode, existing) {
            Some(error) => result == Err::<Plan, FsError>(error),
            None => result matches Ok(plan) && {
                &&& forall|t: Tables| #[trigger]
                    t.changed_by(plan.changes@) == t.linked(ino, parent, name@, now)
                &&& forall|c: CacheModel| #[trigger]
                    c.changed_by(plan.caches@) == c.with_entry(parent, name@, ino).without_attr(
                        parent,
                    ).without_attr(ino)
            },
        },
{
    if name.len() > MAX_NAME_LEN {
        return Err(FsError::NameTooLong);
    }
    match mode {
        Some(mode) => {
            if (mode & S_IFMT) == S_IFDIR {
                return Err(FsError::IsADirectory);
            }
        },
        None => {
            return Err(FsError::NotFound);
        },
    }
    if existing.is_some() {
        return Err(FsError::AlreadyExists);
    }
    let mut changes: Vec<RowChange> = Vec::new();
    changes.push(RowChange::InsertDentry { parent, name: name.to_owned(), ino });
    changes.push(RowChange::Update(InodeUpdate::stamp(ino, LinkChange::Up, now)));
    changes.push(RowChange::Update(InodeUpdate::touch(parent, LinkChange::Keep, now)));
    let mut caches: Vec<CacheChange> = Vec::new();
    caches.push(CacheChange::Entry { parent, name: name.to_owned(), ino });
    caches.push(CacheChange::ForgetAttr { ino: parent });
    caches.push(CacheChange::ForgetAttr { ino });
    Ok(Plan { changes, caches })
}

/// What a query for the parents of a directory returned.
#[derive(Debug, Clone, Copy, PartialEq, Eq, Structural)]
pub enum ParentRows {
    /// No entry leads to the directory.
    Missing,
    /// The parent column holds no integer.
    NotAnInteger,
    /// Exactly one entry.
    One(i64),
    /// More than one entry.
    Many,
}

/// A move of an entry.
pub struct Move<'a> {
    pub source: i64,
    pub source_is_dir: bool,
    pub parent: i64,
    pub name: &'a str,
    pub new_parent: i64,
    pub new_name: &'a str,
}

impl Tables {
    /// The destination entry is gone and its inode has one link less.
    pub open spec fn cleared(
        self,
        parent: i64,
        name: Seq<char>,
        ino: i64,
        now: (i64, i64),
    ) -> Tables {
        self.without_entry(parent, name).updated(
            InodeUpdate::stamping(ino, LinkChange::Down, now),
        )
    }

    /// The tables before the entry moves: a replaced destination is cleared, and reaped
    /// when that was its last link and it is not open.
    pub open spec fn made_way(
        self,
        parent: i64,
        name: Seq<char>,
        target: Option<i64>,
        now: (i64, i64),
        still_open: bool,
    ) -> Tables {
        match target {
            None => self,
            Some(ino) => {
                let cleared = self.cleared(parent, name, ino, now);
                if cleared.inodes[ino].nlink == 0 && !still_open {
                    cleared.reaped(ino)
                } else {
                    cleared
                }
            },
        }
    }

    /// The entry under its new name, if it is there.
    pub open spec fn with_moved_entry(
        self,
        parent: i64,
        name: Seq<char>,
        new_parent: i64,
        new_name: Seq<char>,
    ) -> Tables {
        if self.dentries.contains_key((parent, name)) {
            Tables {
                dentries: self.dentries.remove((parent, name)).insert(
                    (new_parent, new_name),
                    self.dentries[(parent, name)],
                ),
                ..self
            }
        } else {
            self
        }
    }

    /// The tables after the entry moved. A directory takes the link to its parent along.
    pub open spec fn moved(self, m: Move, now: (i64, i64)) -> Tables {
        let placed = self.with_moved_entry(m.parent, m.name@, m.new_parent, m.new_name@);
        let counted = if m.source_is_dir && m.parent != m.new_parent {
            placed.updated(InodeUpdate::relinking(m.parent, LinkChange::Down)).updated(
                InodeUpdate::relinking(m.new_parent, LinkChange::Up),
            )
        } else {
            placed
        };
        let touched = counted.updated(
            InodeUpdate::stamping(m.source, LinkChange::Keep, now),
        ).updated(InodeUpdate::touching(m.parent, LinkChange::Keep, now));
        if m.parent != m.new_parent {
            touched.updated(InodeUpdate::touching(m.new_parent, LinkChange::Keep, now))
        } else {
            touched
        }
    }
}

impl CacheModel {
    /// What is cached after a move.
    pub open spec fn after_move(self, m: Move, target: Option<i64>) -> CacheModel {
        let forgotten = self.without_entry(m.parent, m.name@).without_entry(
            m.new_parent,
            m.new_name@,
        ).without_attr(m.source).without_attr(m.parent).without_attr(m.new_parent);
        let without_target = match target {
            Some(ino) => forgotten.without_attr(ino),
            None => forgotten,
        };
        let left = if m.parent != m.new_parent || m.name@ != m.new_name@ {
            without_target.with_missing(m.parent, m.name@)
        } else {
            without_target
        };
        left.with_entry(m.new_parent, m.new_name@, m.source)
    }
}

/// The changes that clear an existing destination `ino`. Whether its inode goes too is
/// decided by [`reap_after_unlink`].
pub fn clear_target(new_parent: i64, new_name: &str, ino: i64, now: (i64, i64)) -> (changes: Vec<
    RowChange,
>)
    ensures
        forall|t: Tables| #[trigger]
            t.changed_by(changes@) == t.cleared(new_parent, new_name@, ino, now),
{
    let mut changes: Vec<RowChange> = Vec::new();
    changes.push(RowChange::RemoveDentry { parent: new_parent, name: new_name.to_owned() });
    changes.push(RowChange::Update(InodeUpdate::stamp(ino, LinkChange::Down, now)));
    changes
}

/// The move itself, once the destination is clear.
pub fn move_plan(m: &Move, target: Option<i64>, now: (i64, i64)) -> (plan: Plan)
    ensures
        forall|t: Tables| #[trigger] t.changed_by(plan.changes@) == t.moved(*m, now),
        forall|c: CacheModel| #[trigger] c.changed_by(plan.caches@) == c.after_move(*m, target),
{
    let mut changes: Vec<RowChange> = Vec::new();
    changes.push(
        RowChange::MoveDentry {
            parent: m.parent,
            name: m.name.to_owned(),
            new_parent: m.new_parent,
            new_name: m.new_name.to_owned(),
        },
    );
    if m.source_is_dir && m.parent != m.new_parent {
        changes.push(RowChange::Update(InodeUpdate::relink(m.parent, LinkChange::Down)));
        changes.push(RowChange::Update(InodeUpdate::relink(m.new_parent, LinkChange::Up)));
    }
    changes.push(RowChange::Update(InodeUpdate::stamp(m.source, LinkChange::Keep, now)));
    changes.push(RowChange::Update(InodeUpdate::touch(m.parent, LinkChange::Keep, now)));
    if m.parent != m.new_parent {
        changes.push(RowChange::Update(InodeUpdate::touch(m.new_parent, LinkChange::Keep, now)));
    }
    let mut caches: Vec<CacheChange> = Vec::new();
    caches.push(CacheChange::ForgetEntry { parent: m.parent, name: m.name.to_owned() });
    caches.push(CacheChange::ForgetEntry { parent: m.new_parent, name: m.new_name.to_owned() });
    caches.push(CacheChange::ForgetAttr { ino: m.source });
    caches.push(CacheChange::ForgetAttr { ino: m.parent });
    caches.push(CacheChange::ForgetAttr { ino: m.new_parent });
    if let Some(ino) = target {
        caches.push(CacheChange::ForgetAttr { ino });
    }
    if m.parent != m.new_parent || !same_text(m.name, m.new_name) {
        caches.push(CacheChange::Missing { parent: m.parent, name: m.name.to_owned() });
    }
    caches.push(
        CacheChange::Entry {
            parent: m.new_parent,
            name: m.new_name.to_owned(),
            ino: m.source,
        },
    );
    Plan { changes, caches }
}

} // verus!
