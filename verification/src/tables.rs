//! The filesystem tables: what they hold, the changes that operations make to
//! them, and what is true of them between operations.
use crate::pending::{PendingTimeChange, time_fragments, time_values};
use crate::sql::{SqlModel, SqlStatement, SqlValue, models};
use crate::stats::{ROOT_INO, S_IFDIR, S_IFLNK, S_IFREG, Stats, mode_is};
use crate::text::{join, joined, texts};
use vstd::prelude::*;

verus! {

/// Contents kept in `fs_data` chunks.
pub const STORAGE_CHUNKED: i64 = 0;

/// Contents kept in the inode row.
pub const STORAGE_INLINE: i64 = 1;

/// One row of `fs_inode` without its key.
#[verifier::ext_equal]
pub struct InodeRow {
    pub mode: u32,
    pub nlink: int,
    pub uid: u32,
    pub gid: u32,
    pub size: i64,
    pub atime: (i64, i64),
    pub mtime: (i64, i64),
    pub ctime: (i64, i64),
    pub rdev: u64,
    pub data_inline: Option<Seq<u8>>,
    pub storage_kind: i64,
}

/// The tables of the filesystem.
#[verifier::ext_equal]
pub struct Tables {
    pub inodes: Map<i64, InodeRow>,
    /// Target inode of each pair of parent inode and name.
    pub dentries: Map<(i64, Seq<char>), i64>,
    pub symlinks: Map<i64, Seq<char>>,
    pub chunks: Map<(i64, i64), Seq<u8>>,
}

impl InodeRow {
    /// The attributes that this row gives to inode `ino`.
    pub open spec fn stats(self, ino: i64) -> Stats {
        Stats {
            ino,
            mode: self.mode,
            nlink: self.nlink as u32,
            uid: self.uid,
            gid: self.gid,
            size: self.size,
            atime: self.atime.0,
            mtime: self.mtime.0,
            ctime: self.ctime.0,
            atime_nsec: self.atime.1 as u32,
            mtime_nsec: self.mtime.1 as u32,
            ctime_nsec: self.ctime.1 as u32,
            rdev: self.rdev,
        }
    }

    pub open spec fn is_dir(self) -> bool {
        mode_is(self.mode, S_IFDIR)
    }

    /// The row with the times that `times` sets.
    pub open spec fn with_times(self, times: PendingTimeChange) -> InodeRow {
        InodeRow {
            atime: stamp_or(times.atime, self.atime),
            mtime: stamp_or(times.mtime, self.mtime),
            ctime: stamp_or(times.ctime, self.ctime),
            ..self
        }
    }

    /// The row with both change times set to `now`.
    pub open spec fn touched(self, now: (i64, i64)) -> InodeRow {
        InodeRow { mtime: now, ctime: now, ..self }
    }

    /// The row with `delta` more links.
    pub open spec fn linked(self, delta: int) -> InodeRow {
        InodeRow { nlink: self.nlink + delta, ..self }
    }
}

pub open spec fn stamp_or(stamp: Option<(i64, i64)>, old_value: (i64, i64)) -> (i64, i64) {
    match stamp {
        Some(t) => t,
        None => old_value,
    }
}

/// A change of a link count.
#[derive(Debug, Clone, Copy, PartialEq, Eq, Structural)]
pub enum LinkChange {
    Keep,
    To(u32),
    Up,
    Down,
}

/// A change of one inode row.
#[derive(Debug, Clone, Copy)]
pub struct InodeUpdate {
    pub ino: i64,
    pub links: LinkChange,
    pub mode: Option<u32>,
    pub uid: Option<u32>,
    pub gid: Option<u32>,
    pub times: PendingTimeChange,
}

pub open spec fn option_or<T>(change: Option<T>, old_value: T) -> T {
    match change {
        Some(value) => value,
        None => old_value,
    }
}

impl InodeUpdate {
    /// The row after the update.
    pub open spec fn apply_to(self, row: InodeRow) -> InodeRow {
        let links = match self.links {
            LinkChange::Keep => row.nlink,
            LinkChange::To(n) => n as int,
            LinkChange::Up => row.nlink + 1,
            LinkChange::Down => row.nlink - 1,
        };
        InodeRow {
            nlink: links,
            mode: option_or(self.mode, row.mode),
            uid: option_or(self.uid, row.uid),
            gid: option_or(self.gid, row.gid),
            ..row.with_times(self.times)
        }
    }

    /// The update of a change time and a link count.
    pub open spec fn stamping(ino: i64, links: LinkChange, now: (i64, i64)) -> InodeUpdate {
        InodeUpdate {
            ino,
            links,
            mode: None,
            uid: None,
            gid: None,
            times: PendingTimeChange { atime: None, mtime: None, ctime: Some(now) },
        }
    }

    /// The update of a directory whose entries changed.
    pub open spec fn touching(ino: i64, links: LinkChange, now: (i64, i64)) -> InodeUpdate {
        InodeUpdate {
            times: PendingTimeChange { atime: None, mtime: Some(now), ctime: Some(now) },
            ..InodeUpdate::stamping(ino, links, now)
        }
    }

    /// The update of a link count alone.
    pub open spec fn relinking(ino: i64, links: LinkChange) -> InodeUpdate {
        InodeUpdate {
            ino,
            links,
            mode: None,
            uid: None,
            gid: None,
            times: PendingTimeChange::no_change(),
        }
    }

    pub fn stamp(ino: i64, links: LinkChange, now: (i64, i64)) -> (update: InodeUpdate)
        ensures
            update == InodeUpdate::stamping(ino, links, now),
    {
        InodeUpdate {
            ino,
            links,
            mode: None,
            uid: None,
            gid: None,
            times: PendingTimeChange { atime: None, mtime: None, ctime: Some(now) },
        }
    }

    pub fn touch(ino: i64, links: LinkChange, now: (i64, i64)) -> (update: InodeUpdate)
        ensures
            update == InodeUpdate::touching(ino, links, now),
    {
        InodeUpdate {
            ino,
            links,
            mode: None,
            uid: None,
            gid: None,
            times: PendingTimeChange { atime: None, mtime: Some(now), ctime: Some(now) },
        }
    }

    pub fn relink(ino: i64, links: LinkChange) -> (update: InodeUpdate)
        ensures
            update == InodeUpdate::relinking(ino, links),
    {
        InodeUpdate {
            ino,
            links,
            mode: None,
            uid: None,
            gid: None,
            times: PendingTimeChange { atime: None, mtime: None, ctime: None },
        }
    }

    /// SET fragments of the columns other than times.
    pub open spec fn fixed_fragments(self) -> Seq<Seq<char>> {
        (match self.links {
            LinkChange::Keep => Seq::<Seq<char>>::empty(),
            LinkChange::To(_) => seq!["nlink = ?"@],
            LinkChange::Up => seq!["nlink = nlink + 1"@],
            LinkChange::Down => seq!["nlink = nlink - 1"@],
        }) + (if self.mode is Some {
            seq!["mode = ?"@]
        } else {
            Seq::<Seq<char>>::empty()
        }) + (if self.uid is Some {
            seq!["uid = ?"@]
        } else {
            Seq::<Seq<char>>::empty()
        }) + (if self.gid is Some {
            seq!["gid = ?"@]
        } else {
            Seq::<Seq<char>>::empty()
        })
    }

    /// The values bound to [`InodeUpdate::fixed_fragments`].
    pub open spec fn fixed_values(self) -> Seq<i64> {
        (match self.links {
            LinkChange::To(n) => seq![n as i64],
            _ => Seq::<i64>::empty(),
        }) + (match self.mode {
            Some(mode) => seq![mode as i64],
            None => Seq::<i64>::empty(),
        }) + (match self.uid {
            Some(uid) => seq![uid as i64],
            None => Seq::<i64>::empty(),
        }) + (match self.gid {
            Some(gid) => seq![gid as i64],
            None => Seq::<i64>::empty(),
        })
    }

    /// Every SET fragment of the update.
    pub open spec fn fragments(self) -> Seq<Seq<char>> {
        self.fixed_fragments() + time_fragments(self.times)
    }

    /// The values bound to the fragments, then the inode.
    pub open spec fn bound_values(self) -> Seq<SqlModel> {
        (self.fixed_values() + time_values(self.times)).push(self.ino).map_values(
            |n: i64| SqlModel::Integer(n),
        )
    }

    /// The statement that makes this update.
    pub fn statement(&self) -> (statement: SqlStatement)
        ensures
            statement.runs(
                "UPDATE fs_inode SET "@ + joined(self.fragments(), ", "@) + " WHERE ino = ?"@,
                self.bound_values(),
            ),
    {
        let mut sets: Vec<&'static str> = Vec::new();
        let mut numbers: Vec<i64> = Vec::new();
        match self.links {
            LinkChange::Keep => {},
            LinkChange::To(n) => {
                sets.push("nlink = ?");
                numbers.push(n as i64);
            },
            LinkChange::Up => {
                sets.push("nlink = nlink + 1");
            },
            LinkChange::Down => {
                sets.push("nlink = nlink - 1");
            },
        }
        if let Some(mode) = self.mode {
            sets.push("mode = ?");
            numbers.push(mode as i64);
        }
        if let Some(uid) = self.uid {
            sets.push("uid = ?");
            numbers.push(uid as i64);
        }
        if let Some(gid) = self.gid {
            sets.push("gid = ?");
            numbers.push(gid as i64);
        }
        assert(texts(sets@) =~= self.fixed_fragments());
        assert(numbers@ =~= self.fixed_values());
        let mut times = crate::pending::time_sets(&self.times);
        let ghost fixed = sets@;
        let ghost fixed_numbers = numbers@;
        let ghost stamps = times.sets@;
        sets.append(&mut times.sets);
        numbers.append(&mut times.values);
        assert(texts(sets@) =~= texts(fixed) + texts(stamps));
        numbers.push(self.ino);
        let mut sql: String = "UPDATE fs_inode SET ".to_owned();
        sql.append(join(&sets, ", ").as_str());
        sql.append(" WHERE ino = ?");
        let values: Vec<SqlValue> = integers(&numbers);
        assert(models(values@) =~= self.bound_values());
        SqlStatement { sql, values }
    }
}

fn integers(numbers: &Vec<i64>) -> (values: Vec<SqlValue>)
    ensures
        models(values@) == numbers@.map_values(|n: i64| SqlModel::Integer(n)),
{
    let mut values: Vec<SqlValue> = Vec::new();
    let mut i: usize = 0;
    while i < numbers.len()
        invariant
            i <= numbers@.len(),
            values@.len() == i,
            forall|k: int|
                0 <= k < i ==> (#[trigger] values@[k])@ == SqlModel::Integer(numbers@[k]),
        decreases numbers@.len() - i,
    {
        values.push(SqlValue::Integer(numbers[i]));
        i += 1;
    }
    assert(models(values@) =~= numbers@.map_values(|n: i64| SqlModel::Integer(n)));
    values
}

/// A change of the tables.
#[derive(Debug)]
pub enum RowChange {
    InsertDentry { parent: i64, name: String, ino: i64 },
    RemoveDentry { parent: i64, name: String },
    MoveDentry { parent: i64, name: String, new_parent: i64, new_name: String },
    InsertSymlink { ino: i64, target: String },
    Update(InodeUpdate),
    /// Removes the row of an inode that has no contents.
    RemoveInode { ino: i64 },
    /// Removes an inode with its contents.
    Reap { ino: i64 },
}

impl Tables {
    pub open spec fn updated(self, update: InodeUpdate) -> Tables {
        if self.inodes.contains_key(update.ino) {
            Tables {
                inodes: self.inodes.insert(update.ino, update.apply_to(self.inodes[update.ino])),
                ..self
            }
        } else {
            self
        }
    }

    /// The tables after one change.
    pub open spec fn changed(self, change: RowChange) -> Tables {
        match change {
            RowChange::InsertDentry { parent, name, ino } => Tables {
                dentries: self.dentries.insert((parent, name@), ino),
                ..self
            },
            RowChange::RemoveDentry { parent, name } => Tables {
                dentries: self.dentries.remove((parent, name@)),
                ..self
            },
            RowChange::MoveDentry { parent, name, new_parent, new_name } => {
                if self.dentries.contains_key((parent, name@)) {
                    Tables {
                        dentries: self.dentries.remove((parent, name@)).insert(
                            (new_parent, new_name@),
                            self.dentries[(parent, name@)],
                        ),
                        ..self
                    }
                } else {
                    self
                }
            },
            RowChange::InsertSymlink { ino, target } => Tables {
                symlinks: self.symlinks.insert(ino, target@),
                ..self
            },
            RowChange::Update(update) => self.updated(update),
            RowChange::RemoveInode { ino } => Tables { inodes: self.inodes.remove(ino), ..self },
            RowChange::Reap { ino } => self.reaped(ino),
        }
    }

    /// The tables without an inode and what belongs to it.
    pub open spec fn reaped(self, ino: i64) -> Tables {
        Tables {
            inodes: self.inodes.remove(ino),
            symlinks: self.symlinks.remove(ino),
            chunks: Map::new(
                |key: (i64, i64)| self.chunks.contains_key(key) && key.0 != ino,
                |key: (i64, i64)| self.chunks[key],
            ),
            ..self
        }
    }

    /// The tables after changes in order.
    pub open spec fn changed_by(self, changes: Seq<RowChange>) -> Tables
        decreases changes.len(),
    {
        if changes.len() == 0 {
            self
        } else {
            self.changed_by(changes.drop_last()).changed(changes.last())
        }
    }

    /// The entries that point to an inode.
    pub open spec fn names_of(self, ino: i64) -> Set<(i64, Seq<char>)> {
        Set::new(
            |key: (i64, Seq<char>)| self.dentries.contains_key(key) && self.dentries[key] == ino,
        )
    }

    pub open spec fn is_dir(self, ino: i64) -> bool {
        self.inodes.contains_key(ino) && self.inodes[ino].is_dir()
    }

    /// The entries of a directory that point to directories.
    pub open spec fn subdirs(self, dir: i64) -> Set<(i64, Seq<char>)> {
        Set::new(
            |key: (i64, Seq<char>)|
                self.dentries.contains_key(key) && key.0 == dir && self.is_dir(
                    self.dentries[key],
                ),
        )
    }

    /// Whether a directory has an entry.
    pub open spec fn has_entries(self, dir: i64) -> bool {
        exists|name: Seq<char>| self.dentries.contains_key((dir, name))
    }
}

/// One more change applies after those before it.
pub broadcast proof fn changed_by_push(tables: Tables, changes: Seq<RowChange>, change: RowChange)
    ensures
        #[trigger] tables.changed_by(changes.push(change)) == tables.changed_by(changes).changed(
            change,
        ),
{
    assert(changes.push(change).drop_last() =~= changes);
}

/// Nothing changes without a change.
pub broadcast proof fn changed_by_none(tables: Tables)
    ensures
        #[trigger] tables.changed_by(Seq::<RowChange>::empty()) == tables,
{
}

impl RowChange {
    /// The statements that make this change, in order.
    pub fn statements(&self) -> (statements: Vec<SqlStatement>)
        ensures
            match self {
                RowChange::InsertDentry { parent, name, ino } => {
                    &&& statements@.len() == 1
                    &&& statements@[0].runs(
                        "INSERT INTO fs_dentry (name, parent_ino, ino) VALUES (?, ?, ?)"@,
                        seq![
                            SqlModel::Text(name@),
                            SqlModel::Integer(*parent),
                            SqlModel::Integer(*ino),
                        ],
                    )
                },
                RowChange::RemoveDentry { parent, name } => {
                    &&& statements@.len() == 1
                    &&& statements@[0].runs(
                        "DELETE FROM fs_dentry WHERE parent_ino = ? AND name = ?"@,
                        seq![SqlModel::Integer(*parent), SqlModel::Text(name@)],
                    )
                },
                RowChange::MoveDentry { parent, name, new_parent, new_name } => {
                    &&& statements@.len() == 1
                    &&& statements@[0].runs(
                        "UPDATE fs_dentry SET parent_ino = ?, name = ? WHERE parent_ino = ? AND name = ?"@,
                        seq![
                            SqlModel::Integer(*new_parent),
                            SqlModel::Text(new_name@),
                            SqlModel::Integer(*parent),
                            SqlModel::Text(name@),
                        ],
                    )
                },
                RowChange::InsertSymlink { ino, target } => {
                    &&& statements@.len() == 1
                    &&& statements@[0].runs(
                        "INSERT INTO fs_symlink (ino, target) VALUES (?, ?)"@,
                        seq![SqlModel::Integer(*ino), SqlModel::Text(target@)],
                    )
                },
                RowChange::Update(update) => {
                    &&& statements@.len() == 1
                    &&& statements@[0].runs(
                        "UPDATE fs_inode SET "@ + joined(update.fragments(), ", "@)
                            + " WHERE ino = ?"@,
                        update.bound_values(),
                    )
                },
                RowChange::RemoveInode { ino } => {
                    &&& statements@.len() == 1
                    &&& statements@[0].runs(
                        "DELETE FROM fs_inode WHERE ino = ?"@,
                        seq![SqlModel::Integer(*ino)],
                    )
                },
                RowChange::Reap { ino } => {
                    &&& statements@.len() == 3
                    &&& statements@[0].runs(
                        "DELETE FROM fs_data WHERE ino = ?"@,
                        seq![SqlModel::Integer(*ino)],
                    )
                    &&& statements@[1].runs(
                        "DELETE FROM fs_symlink WHERE ino = ?"@,
                        seq![SqlModel::Integer(*ino)],
                    )
                    &&& statements@[2].runs(
                        "DELETE FROM fs_inode WHERE ino = ?"@,
                        seq![SqlModel::Integer(*ino)],
                    )
                },
            },
    {
        let mut statements: Vec<SqlStatement> = Vec::new();
        match self {
            RowChange::InsertDentry { parent, name, ino } => {
                let mut values: Vec<SqlValue> = Vec::new();
                values.push(SqlValue::Text(name.clone()));
                values.push(SqlValue::Integer(*parent));
                values.push(SqlValue::Integer(*ino));
                assert(models(values@) =~= seq![
                    SqlModel::Text(name@),
                    SqlModel::Integer(*parent),
                    SqlModel::Integer(*ino),
                ]);
                let sql: String =
                    "INSERT INTO fs_dentry (name, parent_ino, ino) VALUES (?, ?, ?)".to_owned();
                statements.push(SqlStatement { sql, values });
            },
            RowChange::RemoveDentry { parent, name } => {
                let mut values: Vec<SqlValue> = Vec::new();
                values.push(SqlValue::Integer(*parent));
                values.push(SqlValue::Text(name.clone()));
                assert(models(values@) =~= seq![
                    SqlModel::Integer(*parent),
                    SqlModel::Text(name@),
                ]);
                let sql: String =
                    "DELETE FROM fs_dentry WHERE parent_ino = ? AND name = ?".to_owned();
                statements.push(SqlStatement { sql, values });
            },
            RowChange::MoveDentry { parent, name, new_parent, new_name } => {
                let mut values: Vec<SqlValue> = Vec::new();
                values.push(SqlValue::Integer(*new_parent));
                values.push(SqlValue::Text(new_name.clone()));
                values.push(SqlValue::Integer(*parent));
                values.push(SqlValue::Text(name.clone()));
                assert(models(values@) =~= seq![
                    SqlModel::Integer(*new_parent),
                    SqlModel::Text(new_name@),
                    SqlModel::Integer(*parent),
                    SqlModel::Text(name@),
                ]);
                let sql: String =
                    "UPDATE fs_dentry SET parent_ino = ?, name = ? WHERE parent_ino = ? AND name = ?".to_owned();
                statements.push(SqlStatement { sql, values });
            },
            RowChange::InsertSymlink { ino, target } => {
                let mut values: Vec<SqlValue> = Vec::new();
                values.push(SqlValue::Integer(*ino));
                values.push(SqlValue::Text(target.clone()));
                assert(models(values@) =~= seq![SqlModel::Integer(*ino), SqlModel::Text(target@)]);
                let sql: String = "INSERT INTO fs_symlink (ino, target) VALUES (?, ?)".to_owned();
                statements.push(SqlStatement { sql, values });
            },
            RowChange::Update(update) => {
                statements.push(update.statement());
            },
            RowChange::RemoveInode { ino } => {
                statements.push(by_ino("DELETE FROM fs_inode WHERE ino = ?", *ino));
            },
            RowChange::Reap { ino } => {
                statements.push(by_ino("DELETE FROM fs_data WHERE ino = ?", *ino));
                statements.push(by_ino("DELETE FROM fs_symlink WHERE ino = ?", *ino));
                statements.push(by_ino("DELETE FROM fs_inode WHERE ino = ?", *ino));
            },
        }
        statements
    }
}

fn by_ino(sql: &str, ino: i64) -> (statement: SqlStatement)
    ensures
        statement.runs(sql@, seq![SqlModel::Integer(ino)]),
{
    let mut values: Vec<SqlValue> = Vec::new();
    values.push(SqlValue::Integer(ino));
    assert(models(values@) =~= seq![SqlModel::Integer(ino)]);
    SqlStatement { sql: sql.to_owned(), values }
}

/// A name that a directory entry may have.
pub open spec fn valid_name(name: Seq<char>) -> bool {
    &&& name.len() > 0
    &&& name != seq!['.']
    &&& name != seq!['.', '.']
    &&& !name.contains('/')
}

impl Tables {
    /// The tree hangs together: the root is a directory, every entry has a valid name
    /// in a directory and a target, link counts of files are exact, and a directory
    /// counts at least itself, its own entry and its subdirectories.
    pub open spec fn tree_ok(self) -> bool {
        &&& self.dentries.dom().finite()
        &&& self.is_dir(ROOT_INO)
        &&& forall|key: (i64, Seq<char>)| #[trigger]
            self.dentries.contains_key(key) ==> {
                &&& self.is_dir(key.0)
                &&& self.inodes.contains_key(self.dentries[key])
                &&& valid_name(key.1)
            }
        &&& forall|ino: i64| #[trigger]
            self.inodes.contains_key(ino) ==> {
                if self.inodes[ino].is_dir() {
                    self.dir_ok(ino)
                } else {
                    self.inodes[ino].nlink == self.names_of(ino).len()
                }
            }
    }

    /// A directory has one name, or none if it is the root or left the tree. Outside
    /// the tree it is empty.
    pub open spec fn dir_ok(self, ino: i64) -> bool {
        &&& self.names_of(ino).len() <= if ino == ROOT_INO {
            0int
        } else {
            1int
        }
        &&& if ino == ROOT_INO || self.names_of(ino).len() > 0 {
            self.inodes[ino].nlink >= 2 + self.subdirs(ino).len()
        } else {
            self.inodes[ino].nlink >= 1 && !self.has_entries(ino)
        }
    }

    /// Symbolic links and their targets match one to one.
    pub open spec fn symlinks_ok(self) -> bool {
        &&& forall|ino: i64| #[trigger]
            self.symlinks.contains_key(ino) ==> self.inodes.contains_key(ino) && mode_is(
                self.inodes[ino].mode,
                S_IFLNK,
            )
        &&& forall|ino: i64| #[trigger]
            self.inodes.contains_key(ino) && mode_is(self.inodes[ino].mode, S_IFLNK)
                ==> self.symlinks.contains_key(ino)
    }

    /// Contents are stored one way, and only regular files have any.
    pub open spec fn storage_ok(self, chunk_size: nat) -> bool {
        &&& forall|ino: i64| #[trigger]
            self.inodes.contains_key(ino) ==> {
                let row = self.inodes[ino];
                match row.data_inline {
                    Some(data) => row.storage_kind == STORAGE_INLINE && data.len() == row.size
                        && mode_is(row.mode, S_IFREG),
                    None => row.storage_kind == STORAGE_CHUNKED,
                }
            }
        &&& forall|key: (i64, i64)| #[trigger]
            self.chunks.contains_key(key) ==> {
                &&& self.inodes.contains_key(key.0)
                &&& self.inodes[key.0].storage_kind == STORAGE_CHUNKED
                &&& mode_is(self.inodes[key.0].mode, S_IFREG)
                &&& key.1 >= 0
                &&& self.chunks[key].len() <= chunk_size
            }
    }

    /// Every inode with links, other than the root, has an entry.
    pub open spec fn all_named(self) -> bool {
        forall|ino: i64| #[trigger]
            self.inodes.contains_key(ino) && ino != ROOT_INO && self.inodes[ino].nlink != 0
                ==> self.names_of(ino).len() > 0
    }

    /// What every operation keeps.
    pub open spec fn sound(self, chunk_size: nat) -> bool {
        self.tree_ok() && self.symlinks_ok() && self.storage_ok(chunk_size)
    }
}

} // verus!
