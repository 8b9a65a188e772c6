//! Namespace operations: what they refuse, what they change in the tables and what
//! they leave in the caches.
use crate::caches::{CacheChange, CacheModel};
use crate::error::FsError;
use crate::pending::PendingTimeChange;
use crate::sql::{SqlModel, SqlStatement, SqlValue, models};
use crate::stats::{MAX_NAME_LEN, S_IFDIR, S_IFLNK, S_IFREG, Stats};
use crate::tables::{
    InodeRow, InodeUpdate, LinkChange, RowChange, STORAGE_CHUNKED, STORAGE_INLINE, Tables,
};
use vstd::prelude::*;

verus! {

broadcast use {
    crate::tables::changed_by_push,
    crate::tables::changed_by_none,
    crate::caches::cache_changed_by_push,
    crate::caches::cache_changed_by_none,
};

/// Whether a name has more bytes than an entry can hold.
pub open spec fn too_long(name: &str) -> bool {
    name.len() > MAX_NAME_LEN
}

/// Refuses a name that is too long.
pub fn check_name(name: &str) -> (result: Result<(), FsError>)
    ensures
        result == if too_long(name) {
            Err::<(), FsError>(FsError::NameTooLong)
        } else {
            Ok(())
        },
{
    if name.len() > MAX_NAME_LEN {
        Err(FsError::NameTooLong)
    } else {
        Ok(())
    }
}

/// An inode row to insert. All three times are `now`.
#[derive(Debug, Clone, Copy, PartialEq, Eq)]
pub struct NewInode {
    pub mode: u32,
    pub nlink: u32,
    pub uid: u32,
    pub gid: u32,
    pub size: i64,
    pub now: (i64, i64),
    pub rdev: u64,
    /// Whether contents start out in the row itself, empty.
    pub inline: bool,
}

impl NewInode {
    pub open spec fn row(self) -> InodeRow {
        InodeRow {
            mode: self.mode,
            nlink: self.nlink as int,
            uid: self.uid,
            gid: self.gid,
            size: self.size,
            atime: self.now,
            mtime: self.now,
            ctime: self.now,
            rdev: self.rdev,
            data_inline: if self.inline {
                Some(Seq::empty())
            } else {
                None
            },
            storage_kind: if self.inline {
                STORAGE_INLINE
            } else {
                STORAGE_CHUNKED
            },
        }
    }

    /// The row once the inode has `nlink` links.
    pub open spec fn row_with_links(self, nlink: int) -> InodeRow {
        InodeRow { nlink, ..self.row() }
    }

    /// The attributes of the new inode once it has `nlink` links.
    pub fn stats(&self, ino: i64, nlink: u32) -> (stats: Stats)
        ensures
            stats == self.row_with_links(nlink as int).stats(ino),
    {
        Stats {
            ino,
            mode: self.mode,
            nlink,
            uid: self.uid,
            gid: self.gid,
            size: self.size,
            atime: self.now.0,
            mtime: self.now.0,
            ctime: self.now.0,
            atime_nsec: #[verifier::truncate]
            (self.now.1 as u32),
            mtime_nsec: #[verifier::truncate]
            (self.now.1 as u32),
            ctime_nsec: #[verifier::truncate]
            (self.now.1 as u32),
            rdev: self.rdev,
        }
    }

    /// The statement that inserts the row and returns its inode.
    pub fn statement(&self) -> (statement: SqlStatement)
        ensures
            statement.runs(
                "INSERT INTO fs_inode (mode, nlink, uid, gid, size, atime, mtime, ctime, rdev, atime_nsec, mtime_nsec, ctime_nsec, data_inline, storage_kind) VALUES (?, ?, ?, ?, ?, ?, ?, ?, ?, ?, ?, ?, ?, ?) RETURNING ino"@,
                seq![
                    SqlModel::Integer(self.mode as i64),
                    SqlModel::Integer(self.nlink as i64),
                    SqlModel::Integer(self.uid as i64),
                    SqlModel::Integer(self.gid as i64),
                    SqlModel::Integer(self.size),
                    SqlModel::Integer(self.now.0),
                    SqlModel::Integer(self.now.0),
                    SqlModel::Integer(self.now.0),
                    SqlModel::Integer(self.rdev as i64),
                    SqlModel::Integer(self.now.1),
                    SqlModel::Integer(self.now.1),
                    SqlModel::Integer(self.now.1),
                    if self.inline {
                        SqlModel::Blob(Seq::empty())
                    } else {
                        SqlModel::Null
                    },
                    SqlModel::Integer(self.row().storage_kind),
                ],
            ),
    {
        let mut values: Vec<SqlValue> = Vec::new();
        values.push(SqlValue::Integer(self.mode as i64));
        values.push(SqlValue::Integer(self.nlink as i64));
        values.push(SqlValue::Integer(self.uid as i64));
        values.push(SqlValue::Integer(self.gid as i64));
        values.push(SqlValue::Integer(self.size));
        values.push(SqlValue::Integer(self.now.0));
        values.push(SqlValue::Integer(self.now.0));
        values.push(SqlValue::Integer(self.now.0));
        values.push(SqlValue::Integer(#[verifier::truncate] (self.rdev as i64)));
        values.push(SqlValue::Integer(self.now.1));
        values.push(SqlValue::Integer(self.now.1));
        values.push(SqlValue::Integer(self.now.1));
        if self.inline {
            let empty: Vec<u8> = Vec::new();
            assert(empty@ =~= Seq::<u8>::empty());
            values.push(SqlValue::Blob(empty));
            values.push(SqlValue::Integer(STORAGE_INLINE));
        } else {
            values.push(SqlValue::Null);
            values.push(SqlValue::Integer(STORAGE_CHUNKED));
        }
        assert(models(values@) =~= seq![
            SqlModel::Integer(self.mode as i64),
            SqlModel::Integer(self.nlink as i64),
            SqlModel::Integer(self.uid as i64),
            SqlModel::Integer(self.gid as i64),
            SqlModel::Integer(self.size),
            SqlModel::Integer(self.now.0),
            SqlModel::Integer(self.now.0),
            SqlModel::Integer(self.now.0),
            SqlModel::Integer(self.rdev as i64),
            SqlModel::Integer(self.now.1),
            SqlModel::Integer(self.now.1),
            SqlModel::Integer(self.now.1),
            if self.inline {
                SqlModel::Blob(Seq::empty())
            } else {
                SqlModel::Null
            },
            SqlModel::Integer(self.row().storage_kind),
        ]);
        let sql: String =
            "INSERT INTO fs_inode (mode, nlink, uid, gid, size, atime, mtime, ctime, rdev, atime_nsec, mtime_nsec, ctime_nsec, data_inline, storage_kind) VALUES (?, ?, ?, ?, ?, ?, ?, ?, ?, ?, ?, ?, ?, ?) RETURNING ino".to_owned();
        SqlStatement { sql, values }
    }
}

/// Row changes of an operation and what the caches learn once they are committed.
#[derive(Debug)]
pub struct Plan {
    pub changes: Vec<RowChange>,
    pub caches: Vec<CacheChange>,
}

/// The rest of an operation that inserted an inode.
#[derive(Debug)]
pub struct Created {
    pub plan: Plan,
    pub stats: Stats,
    /// Times of the parent that wait in the write batcher.
    pub parent_times: Option<PendingTimeChange>,
}

impl Tables {
    pub open spec fn with_inode(self, ino: i64, row: InodeRow) -> Tables {
        Tables { inodes: self.inodes.insert(ino, row), ..self }
    }

    pub open spec fn with_entry(self, parent: i64, name: Seq<char>, ino: i64) -> Tables {
        Tables { dentries: self.dentries.insert((parent, name), ino), ..self }
    }

    pub open spec fn without_entry(self, parent: i64, name: Seq<char>) -> Tables {
        Tables { dentries: self.dentries.remove((parent, name)), ..self }
    }

    pub open spec fn with_symlink(self, ino: i64, target: Seq<char>) -> Tables {
        Tables { symlinks: self.symlinks.insert(ino, target), ..self }
    }

    /// A new directory `ino` under `name`, which its parent counts as a link.
    pub open spec fn made_dir(
        self,
        parent: i64,
        name: Seq<char>,
        ino: i64,
        row: NewInode,
    ) -> Tables {
        self.with_inode(ino, row.row_with_links(2)).with_entry(parent, name, ino).updated(
            InodeUpdate::touching(parent, LinkChange::Up, row.now),
        )
    }

    /// A new inode `ino` with one link under `name`.
    pub open spec fn made_node(
        self,
        parent: i64,
        name: Seq<char>,
        ino: i64,
        row: NewInode,
    ) -> Tables {
        self.with_inode(ino, row.row_with_links(1)).with_entry(parent, name, ino).updated(
            InodeUpdate::touching(parent, LinkChange::Keep, row.now),
        )
    }
}

impl CacheModel {
    /// What is cached after an inode was made under a name.
    pub open spec fn after_creation(self, parent: i64, name: Seq<char>, stats: Stats) -> CacheModel {
        self.with_entry(parent, name, stats.ino).without_attr(parent).with_attr(stats)
    }
}

fn creation_caches(parent: i64, name: &str, stats: Stats) -> (caches: Vec<CacheChange>)
    ensures
        forall|c: CacheModel| #[trigger]
            c.changed_by(caches@) == c.after_creation(parent, name@, stats),
{
    let mut caches: Vec<CacheChange> = Vec::new();
    caches.push(CacheChange::Entry { parent, name: name.to_owned(), ino: stats.ino });
    caches.push(CacheChange::ForgetAttr { ino: parent });
    caches.push(CacheChange::Attr(stats));
    caches
}

/// Why a creation under `name` is refused, if it is.
pub open spec fn creation_error(name: &str, existing: Option<i64>) -> Option<FsError> {
    if too_long(name) {
        Some(FsError::NameTooLong)
    } else if existing is Some {
        Some(FsError::AlreadyExists)
    } else {
        None
    }
}

/// `row`, unless the creation is refused.
pub open spec fn creation(
    name: &str,
    existing: Option<i64>,
    row: NewInode,
) -> Result<NewInode, FsError> {
    match creation_error(name, existing) {
        Some(error) => Err(error),
        None => Ok(row),
    }
}

/// The row of a directory to make. `existing` is what the name leads to.
pub fn mkdir_row(
    name: &str,
    existing: Option<i64>,
    mode: u32,
    uid: u32,
    gid: u32,
    now: (i64, i64),
) -> (result: Result<NewInode, FsError>)
    ensures
        result == creation(
            name,
            existing,
            NewInode {
                mode: S_IFDIR | (mode & 0o7777),
                nlink: 0,
                uid,
                gid,
                size: 0,
                now,
                rdev: 0,
                inline: false,
            },
        ),
{
    if name.len() > MAX_NAME_LEN {
        return Err(FsError::NameTooLong);
    }
    if existing.is_some() {
        return Err(FsError::AlreadyExists);
    }
    Ok(
        NewInode {
            mode: S_IFDIR | (mode & 0o7777),
            nlink: 0,
            uid,
            gid,
            size: 0,
            now,
            rdev: 0,
            inline: false,
        },
    )
}

/// What follows the insertion of a directory row as inode `ino`.
pub fn mkdir_finish(row: &NewInode, parent: i64, name: &str, ino: i64) -> (created: Created)
    ensures
        created.stats == row.row_with_links(2).stats(ino),
        created.parent_times is None,
        forall|t: Tables| #[trigger]
            t.with_inode(ino, row.row()).changed_by(created.plan.changes@) == t.made_dir(
                parent,
                name@,
                ino,
                *row,
            ),
        forall|c: CacheModel| #[trigger]
            c.changed_by(created.plan.caches@) == c.after_creation(parent, name@, created.stats),
{
    let mut changes: Vec<RowChange> = Vec::new();
    changes.push(RowChange::InsertDentry { parent, name: name.to_owned(), ino });
    changes.push(RowChange::Update(InodeUpdate::relink(ino, LinkChange::To(2))));
    changes.push(RowChange::Update(InodeUpdate::touch(parent, LinkChange::Up, row.now)));
    let stats: Stats = row.stats(ino, 2);
    let caches: Vec<CacheChange> = creation_caches(parent, name, stats);
    proof {
        assert forall|t: Tables| #[trigger]
            t.with_inode(ino, row.row()).changed_by(changes@) == t.made_dir(
                parent,
                name@,
                ino,
                *row,
            ) by {
            assert(t.with_inode(ino, row.row()).changed_by(changes@).inodes
                =~= t.made_dir(parent, name@, ino, *row).inodes);
        }
    }
    Created { plan: Plan { changes, caches }, stats, parent_times: None }
}

/// The row of a regular file to make. A name in use shows when the entry is inserted.
pub fn create_file_row(name: &str, mode: u32, uid: u32, gid: u32, now: (i64, i64)) -> (result: Result<
    NewInode,
    FsError,
>)
    ensures
        result == creation(
            name,
            None,
            NewInode {
                mode: S_IFREG | (mode & 0o7777),
                nlink: 1,
                uid,
                gid,
                size: 0,
                now,
                rdev: 0,
                inline: true,
            },
        ),
{
    if name.len() > MAX_NAME_LEN {
        return Err(FsError::NameTooLong);
    }
    Ok(
        NewInode {
            mode: S_IFREG | (mode & 0o7777),
            nlink: 1,
            uid,
            gid,
            size: 0,
            now,
            rdev: 0,
            inline: true,
        },
    )
}

/// What an insertion of an entry means that violated the uniqueness of names, or did not.
pub fn entry_inserted(violated_unique_name: bool) -> (result: Result<(), FsError>)
    ensures
        result == if violated_unique_name {
            Err::<(), FsError>(FsError::AlreadyExists)
        } else {
            Ok(())
        },
{
    if violated_unique_name {
        Err(FsError::AlreadyExists)
    } else {
        Ok(())
    }
}

/// What follows the insertion of a file row as inode `ino`. The times of the parent
/// wait in the batcher when `stash_parent_times` is set.
pub fn create_file_finish(
    row: &NewInode,
    parent: i64,
    name: &str,
    ino: i64,
    stash_parent_times: bool,
) -> (created: Created)
    requires
        row.nlink == 1,
    ensures
        created.stats == row.row_with_links(1).stats(ino),
        created.parent_times == if stash_parent_times {
            Some(
                PendingTimeChange { atime: None, mtime: Some(row.now), ctime: Some(row.now) },
            )
        } else {
            None
        },
        forall|t: Tables| #[trigger]
            t.with_inode(ino, row.row()).changed_by(created.plan.changes@)
                == if stash_parent_times {
                t.with_inode(ino, row.row()).with_entry(parent, name@, ino)
            } else {
                t.made_node(parent, name@, ino, *row)
            },
        forall|c: CacheModel| #[trigger]
            c.changed_by(created.plan.caches@) == c.after_creation(parent, name@, created.stats),
{
    let mut changes: Vec<RowChange> = Vec::new();
    changes.push(RowChange::InsertDentry { parent, name: name.to_owned(), ino });
    let mut parent_times: Option<PendingTimeChange> = None;
    if stash_parent_times {
        parent_times = Some(
            PendingTimeChange { atime: None, mtime: Some(row.now), ctime: Some(row.now) },
        );
    } else {
        changes.push(RowChange::Update(InodeUpdate::touch(parent, LinkChange::Keep, row.now)));
    }
    let stats: Stats = row.stats(ino, 1);
    let caches: Vec<CacheChange> = creation_caches(parent, name, stats);
    assert(row.row() == row.row_with_links(1));
    Created { plan: Plan { changes, caches }, stats, parent_times }
}

/// The row of a node of any type to make. `existing` is what the name leads to.
pub fn mknod_row(
    name: &str,
    existing: Option<i64>,
    mode: u32,
    rdev: u64,
    uid: u32,
    gid: u32,
    now: (i64, i64),
) -> (result: Result<NewInode, FsError>)
    ensures
        result == creation(
            name,
            existing,
            NewInode { mode, nlink: 0, uid, gid, size: 0, now, rdev, inline: false },
        ),
{
    if name.len() > MAX_NAME_LEN {
        return Err(FsError::NameTooLong);
    }
    if existing.is_some() {
        return Err(FsError::AlreadyExists);
    }
    Ok(NewInode { mode, nlink: 0, uid, gid, size: 0, now, rdev, inline: false })
}

/// What follows the insertion of a node row as inode `ino`.
pub fn mknod_finish(row: &NewInode, parent: i64, name: &str, ino: i64) -> (created: Created)
    requires
        row.nlink == 0,
    ensures
        created.stats == row.row_with_links(1).stats(ino),
        created.parent_times is None,
        forall|t: Tables| #[trigger]
            t.with_inode(ino, row.row()).changed_by(created.plan.changes@) == t.made_node(
                parent,
                name@,
                ino,
                *row,
            ),
        forall|c: CacheModel| #[trigger]
            c.changed_by(created.plan.caches@) == c.after_creation(parent, name@, created.stats),
{
    let mut changes: Vec<RowChange> = Vec::new();
    changes.push(RowChange::InsertDentry { parent, name: name.to_owned(), ino });
    changes.push(RowChange::Update(InodeUpdate::relink(ino, LinkChange::Up)));
    changes.push(RowChange::Update(InodeUpdate::touch(parent, LinkChange::Keep, row.now)));
    let stats: Stats = row.stats(ino, 1);
    let caches: Vec<CacheChange> = creation_caches(parent, name, stats);
    proof {
        assert forall|t: Tables| #[trigger]
            t.with_inode(ino, row.row()).changed_by(changes@) == t.made_node(
                parent,
                name@,
                ino,
                *row,
            ) by {
            assert(t.with_inode(ino, row.row()).changed_by(changes@).inodes
                =~= t.made_node(parent, name@, ino, *row).inodes);
        }
    }
    Created { plan: Plan { changes, caches }, stats, parent_times: None }
}

/// The row of a symbolic link to make. `existing` is what the name leads to.
pub fn symlink_row(
    name: &str,
    existing: Option<i64>,
    target: &str,
    uid: u32,
    gid: u32,
    now: (i64, i64),
) -> (result: Result<NewInode, FsError>)
    ensures
        result == creation(
            name,
            existing,
            NewInode {
                mode: S_IFLNK | 0o777,
                nlink: 0,
                uid,
                gid,
                size: target.len() as i64,
                now,
                rdev: 0,
                inline: false,
            },
        ),
{
    if name.len() > MAX_NAME_LEN {
        return Err(FsError::NameTooLong);
    }
    if existing.is_some() {
        return Err(FsError::AlreadyExists);
    }
    Ok(
        NewInode {
            mode: S_IFLNK | 0o777,
            nlink: 0,
            uid,
            gid,
            size: #[verifier::truncate]
            (target.len() as i64),
            now,
            rdev: 0,
            inline: false,
        },
    )
}

/// What follows the insertion of a symbolic link row as inode `ino`.
pub fn symlink_finish(
    row: &NewInode,
    parent: i64,
    name: &str,
    target: &str,
    ino: i64,
) -> (created: Created)
    requires
        row.nlink == 0,
    ensures
        created.stats == row.row_with_links(1).stats(ino),
        created.parent_times is None,
        forall|t: Tables| #[trigger]
            t.with_inode(ino, row.row()).changed_by(created.plan.changes@) == t.made_node(
                parent,
                name@,
                ino,
                *row,
            ).with_symlink(ino, target@),
        forall|c: CacheModel| #[trigger]
            c.changed_by(created.plan.caches@) == c.after_creation(parent, name@, created.stats),
{
    let mut changes: Vec<RowChange> = Vec::new();
    changes.push(RowChange::InsertSymlink { ino, target: target.to_owned() });
    changes.push(RowChange::InsertDentry { parent, name: name.to_owned(), ino });
    changes.push(RowChange::Update(InodeUpdate::relink(ino, LinkChange::Up)));
    changes.push(RowChange::Update(InodeUpdate::touch(parent, LinkChange::Keep, row.now)));
    let stats: Stats = row.stats(ino, 1);
    let caches: Vec<CacheChange> = creation_caches(parent, name, stats);
    proof {
        assert forall|t: Tables| #[trigger]
            t.with_inode(ino, row.row()).changed_by(changes@) == t.made_node(
                parent,
                name@,
                ino,
                *row,
            ).with_symlink(ino, target@) by {
            assert(t.with_inode(ino, row.row()).changed_by(changes@).inodes
                =~= t.made_node(parent, name@, ino, *row).inodes);
        }
    }
    Created { plan: Plan { changes, caches }, stats, parent_times: None }
}

} // verus!
