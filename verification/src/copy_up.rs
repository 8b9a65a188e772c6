//! Copying base files into the delta before they are changed.
use crate::error::{Error, FsError};
use crate::flags::{OpenBits, is_truncating_open, is_write_open, truncates, writes};
use crate::partial::PartialOrigin;
use crate::path::{components, slashed, split_components, walk};
use crate::sql::{SqlModel, SqlStatement, SqlValue, models};
use crate::stats::{ROOT_INO, S_IFDIR, S_IFLNK, Stats, mode_is};
use crate::tables::STORAGE_CHUNKED;
use crate::text::{i64_to_text, signed_decimal, strings, u64_to_text};
use vstd::prelude::*;

verus! {

/// The walk that makes the directories above a path exist in the delta.
pub struct ParentDirs {
    /// Components of the whole path.
    pub names: Vec<String>,
    /// Number of components that stand for directories.
    pub count: usize,
    /// Number of directories that exist in the delta by now.
    pub next: usize,
    /// Path of the directory in hand.
    pub path: String,
    /// Delta inode of the last directory.
    pub delta_ino: i64,
    /// Base inode of the last directory that the base has.
    pub base_ino: i64,
    /// Owner of directories that the base does not have.
    pub uid: u32,
    pub gid: u32,
    /// Base inode of the directory in hand, if the base has it.
    pub origin: Option<i64>,
}

/// What to do about one directory.
#[derive(Debug, Clone, Copy, PartialEq, Eq, Structural)]
pub enum ParentAction {
    /// It exists in the delta.
    Descend,
    /// Make it in the delta with this owner.
    Make { uid: u32, gid: u32 },
}

/// Mode of directories made on the way to a copied file.
pub const PARENT_DIR_MODE: u32 = 0o755;

impl ParentDirs {
    pub open spec fn wf(self) -> bool {
        &&& self.next <= self.count <= self.names@.len()
        &&& self.path@ == slashed(strings(self.names@).take(self.next as int))
    }

    /// The walk stands on the directory that it names, in these entries of the delta.
    pub open spec fn placed(self, delta: Map<(i64, Seq<char>), i64>) -> bool {
        walk(delta, ROOT_INO, strings(self.names@).take(self.next as int)) == Some(self.delta_ino)
    }

    pub fn new(path: &str, uid: u32, gid: u32) -> (dirs: ParentDirs)
        ensures
            dirs.wf(),
            strings(dirs.names@) == components(path@),
            dirs.count == if components(path@).len() == 0 {
                0
            } else {
                components(path@).len() - 1
            },
            dirs.next == 0,
            dirs.delta_ino == ROOT_INO,
            dirs.base_ino == ROOT_INO,
            dirs.uid == uid,
            dirs.gid == gid,
            dirs.origin is None,
            forall|delta: Map<(i64, Seq<char>), i64>| #[trigger] dirs.placed(delta),
    {
        let names: Vec<String> = split_components(path);
        let count: usize = if names.len() == 0 {
            0
        } else {
            names.len() - 1
        };
        let empty: String = String::new();
        assert(empty@ =~= slashed(strings(names@).take(0)));
        ParentDirs {
            names,
            count,
            next: 0,
            path: empty,
            delta_ino: ROOT_INO,
            base_ino: ROOT_INO,
            uid,
            gid,
            origin: None,
        }
    }

    pub fn is_done(&self) -> (done: bool)
        requires
            self.wf(),
        ensures
            done == (self.next == self.count),
    {
        self.next >= self.count
    }

    /// The name to look for in both layers.
    pub fn wanted(&self) -> (name: &str)
        requires
            self.wf(),
            self.next < self.count,
        ensures
            name@ == self.names@[self.next as int]@,
    {
        self.names[self.next].as_str()
    }

    /// The path of the directory to look for. It must not stay hidden.
    pub fn wanted_path(&self) -> (path: String)
        requires
            self.wf(),
            self.next < self.count,
        ensures
            path@ == slashed(strings(self.names@).take(self.next + 1)),
    {
        let mut path: String = self.path.clone();
        path.push('/');
        path.append(self.names[self.next].as_str());
        proof {
            let all = strings(self.names@);
            assert(all.take(self.next + 1).drop_last() =~= all.take(self.next as int));
            assert(all.take(self.next + 1).last() == self.names@[self.next as int]@);
        }
        path
    }

    fn advance(&mut self, delta_ino: i64)
        requires
            old(self).wf(),
            old(self).next < old(self).count,
        ensures
            final(self).wf(),
            final(self).next == old(self).next + 1,
            final(self).delta_ino == delta_ino,
            final(self).names == old(self).names,
            final(self).count == old(self).count,
            final(self).base_ino == old(self).base_ino,
            final(self).uid == old(self).uid,
            final(self).gid == old(self).gid,
            final(self).origin == old(self).origin,
            forall|delta: Map<(i64, Seq<char>), i64>|
                #![trigger final(self).placed(delta)]
                old(self).placed(delta) && delta.contains_key(
                    (old(self).delta_ino, old(self).names@[old(self).next as int]@),
                ) && delta[(old(self).delta_ino, old(self).names@[old(self).next as int]@)]
                    == delta_ino ==> final(self).placed(delta),
    {
        let path: String = self.wanted_path();
        proof {
            let all = strings(self.names@);
            assert(all.take(self.next + 1).drop_last() =~= all.take(self.next as int));
            assert(all.take(self.next + 1).last() == self.names@[self.next as int]@);
        }
        self.path = path;
        self.next = self.next + 1;
        self.delta_ino = delta_ino;
    }

    /// Takes what both layers have under the wanted name.
    pub fn found(&mut self, delta: Option<Stats>, base: Option<Stats>) -> (result: Result<
        ParentAction,
        FsError,
    >)
        requires
            old(self).wf(),
            old(self).next < old(self).count,
        ensures
            final(self).wf(),
            final(self).names == old(self).names,
            final(self).count == old(self).count,
            final(self).uid == old(self).uid,
            final(self).gid == old(self).gid,
            result == match delta {
                Some(stats) => if mode_is(stats.mode, S_IFDIR) {
                    Ok::<ParentAction, FsError>(ParentAction::Descend)
                } else {
                    Err(FsError::NotADirectory)
                },
                None => match base {
                    Some(stats) => Ok(ParentAction::Make { uid: stats.uid, gid: stats.gid }),
                    None => Ok(ParentAction::Make { uid: old(self).uid, gid: old(self).gid }),
                },
            },
            result is Ok ==> final(self).base_ino == match base {
                Some(stats) => stats.ino,
                None => old(self).base_ino,
            },
            match delta {
                Some(stats) => {
                    &&& mode_is(stats.mode, S_IFDIR) ==> final(self).next == old(self).next + 1
                        && final(self).delta_ino == stats.ino
                    &&& !mode_is(stats.mode, S_IFDIR) ==> *final(self) == *old(self)
                },
                None => {
                    &&& final(self).next == old(self).next
                    &&& final(self).delta_ino == old(self).delta_ino
                    &&& final(self).path@ == old(self).path@
                    &&& final(self).origin == match base {
                        Some(stats) => Some(stats.ino),
                        None => None,
                    }
                },
            },
            forall|entries: Map<(i64, Seq<char>), i64>|
                #![trigger final(self).placed(entries)]
                old(self).placed(entries) && (delta matches Some(stats) ==> entries.contains_key(
                    (old(self).delta_ino, old(self).names@[old(self).next as int]@),
                ) && entries[(old(self).delta_ino, old(self).names@[old(self).next as int]@)]
                    == stats.ino) ==> final(self).placed(entries),
    {
        match delta {
            Some(stats) => {
                if !stats.is_directory() {
                    return Err(FsError::NotADirectory);
                }
                self.advance(stats.ino);
                let ghost advanced = *self;
                if let Some(base_stats) = base {
                    self.base_ino = base_stats.ino;
                }
                assert forall|entries: Map<(i64, Seq<char>), i64>|
                    #![trigger self.placed(entries)]
                    advanced.placed(entries) implies self.placed(entries) by {}
                Ok(ParentAction::Descend)
            },
            None => match base {
                Some(stats) => {
                    self.base_ino = stats.ino;
                    self.origin = Some(stats.ino);
                    Ok(ParentAction::Make { uid: stats.uid, gid: stats.gid })
                },
                None => {
                    self.origin = None;
                    Ok(ParentAction::Make { uid: self.uid, gid: self.gid })
                },
            },
        }
    }

    /// Takes the inode of the directory that was made. A directory that the base has too
    /// is recorded as made from it: the result is its base inode.
    pub fn made(&mut self, delta_ino: i64) -> (origin: Option<i64>)
        requires
            old(self).wf(),
            old(self).next < old(self).count,
        ensures
            final(self).wf(),
            final(self).next == old(self).next + 1,
            final(self).delta_ino == delta_ino,
            final(self).names == old(self).names,
            final(self).count == old(self).count,
            final(self).base_ino == old(self).base_ino,
            final(self).uid == old(self).uid,
            final(self).gid == old(self).gid,
            origin == old(self).origin,
            forall|delta: Map<(i64, Seq<char>), i64>|
                #![trigger final(self).placed(delta)]
                old(self).placed(delta) && delta.contains_key(
                    (old(self).delta_ino, old(self).names@[old(self).next as int]@),
                ) && delta[(old(self).delta_ino, old(self).names@[old(self).next as int]@)]
                    == delta_ino ==> final(self).placed(delta),
    {
        let origin: Option<i64> = self.origin;
        self.advance(delta_ino);
        origin
    }
}

/// Once the walk is done, the directory above the path exists in the delta.
pub proof fn parents_exist_when_done(dirs: ParentDirs, delta: Map<(i64, Seq<char>), i64>)
    requires
        dirs.wf(),
        dirs.placed(delta),
        dirs.next == dirs.count,
        dirs.names@.len() > 0,
        dirs.count == dirs.names@.len() - 1,
    ensures
        walk(delta, ROOT_INO, strings(dirs.names@).drop_last()) == Some(dirs.delta_ino),
{
    assert(strings(dirs.names@).take(dirs.next as int) =~= strings(dirs.names@).drop_last());
}

/// What to make in the delta for a base inode.
#[derive(Debug, Clone, Copy, PartialEq, Eq, Structural)]
pub enum CopyKind {
    /// A symbolic link with the same target.
    Symlink,
    /// A directory with these permission bits. What is in it stays in the base.
    Directory { mode: u32 },
    /// A file with this mode and all of its contents.
    File { mode: u32, size: u64 },
}

/// What to make in the delta for a base inode with these attributes.
pub open spec fn kind_of(stats: Stats) -> CopyKind {
    if mode_is(stats.mode, S_IFLNK) {
        CopyKind::Symlink
    } else if mode_is(stats.mode, S_IFDIR) {
        CopyKind::Directory { mode: stats.mode & 0o7777 }
    } else {
        CopyKind::File { mode: stats.mode, size: stats.size as u64 }
    }
}

/// What to make in the delta for a base inode with these attributes.
pub fn copy_kind(stats: &Stats) -> (kind: CopyKind)
    ensures
        kind == kind_of(*stats),
{
    if stats.is_symlink() {
        CopyKind::Symlink
    } else if stats.is_directory() {
        CopyKind::Directory { mode: stats.mode & 0o7777 }
    } else {
        CopyKind::File {
            mode: stats.mode,
            size: #[verifier::truncate]
            (stats.size as u64),
        }
    }
}

/// The statement that gives a delta inode the attributes of its base file and no contents
/// of its own.
pub fn partial_inode_statement(delta_ino: i64, base: &Stats) -> (statement: SqlStatement)
    ensures
        statement.runs(
            "UPDATE fs_inode SET mode = ?, uid = ?, gid = ?, size = ?, atime = ?, mtime = ?, ctime = ?, atime_nsec = ?, mtime_nsec = ?, ctime_nsec = ?, data_inline = NULL, storage_kind = ? WHERE ino = ?"@,
            seq![
                SqlModel::Integer(base.mode as i64),
                SqlModel::Integer(base.uid as i64),
                SqlModel::Integer(base.gid as i64),
                SqlModel::Integer(base.size),
                SqlModel::Integer(base.atime),
                SqlModel::Integer(base.mtime),
                SqlModel::Integer(base.ctime),
                SqlModel::Integer(base.atime_nsec as i64),
                SqlModel::Integer(base.mtime_nsec as i64),
                SqlModel::Integer(base.ctime_nsec as i64),
                SqlModel::Integer(STORAGE_CHUNKED),
                SqlModel::Integer(delta_ino),
            ],
        ),
{
    let mut values: Vec<SqlValue> = Vec::new();
    values.push(SqlValue::Integer(base.mode as i64));
    values.push(SqlValue::Integer(base.uid as i64));
    values.push(SqlValue::Integer(base.gid as i64));
    values.push(SqlValue::Integer(base.size));
    values.push(SqlValue::Integer(base.atime));
    values.push(SqlValue::Integer(base.mtime));
    values.push(SqlValue::Integer(base.ctime));
    values.push(SqlValue::Integer(base.atime_nsec as i64));
    values.push(SqlValue::Integer(base.mtime_nsec as i64));
    values.push(SqlValue::Integer(base.ctime_nsec as i64));
    values.push(SqlValue::Integer(STORAGE_CHUNKED));
    values.push(SqlValue::Integer(delta_ino));
    assert(models(values@) =~= seq![
        SqlModel::Integer(base.mode as i64),
        SqlModel::Integer(base.uid as i64),
        SqlModel::Integer(base.gid as i64),
        SqlModel::Integer(base.size),
        SqlModel::Integer(base.atime),
        SqlModel::Integer(base.mtime),
        SqlModel::Integer(base.ctime),
        SqlModel::Integer(base.atime_nsec as i64),
        SqlModel::Integer(base.mtime_nsec as i64),
        SqlModel::Integer(base.ctime_nsec as i64),
        SqlModel::Integer(STORAGE_CHUNKED),
        SqlModel::Integer(delta_ino),
    ]);
    SqlStatement {
        sql:
            "UPDATE fs_inode SET mode = ?, uid = ?, gid = ?, size = ?, atime = ?, mtime = ?, ctime = ?, atime_nsec = ?, mtime_nsec = ?, ctime_nsec = ?, data_inline = NULL, storage_kind = ? WHERE ino = ?".to_owned(),
        values,
    }
}

/// The statement that records which base inode a delta inode was made from.
pub fn origin_statement(delta_ino: i64, base_ino: i64) -> (statement: SqlStatement)
    ensures
        statement.runs(
            "INSERT OR REPLACE INTO fs_origin (delta_ino, base_ino) VALUES (?, ?)"@,
            seq![SqlModel::Integer(delta_ino), SqlModel::Integer(base_ino)],
        ),
{
    let mut values: Vec<SqlValue> = Vec::new();
    values.push(SqlValue::Integer(delta_ino));
    values.push(SqlValue::Integer(base_ino));
    assert(models(values@) =~= seq![SqlModel::Integer(delta_ino), SqlModel::Integer(base_ino)]);
    SqlStatement {
        sql: "INSERT OR REPLACE INTO fs_origin (delta_ino, base_ino) VALUES (?, ?)".to_owned(),
        values,
    }
}

/// The statement that records the base file under a delta file with what identifies its
/// present contents: its size and its times.
pub fn partial_origin_statement(
    delta_ino: i64,
    base_ino: i64,
    base_path: &str,
    base: &Stats,
    now: i64,
) -> (statement: SqlStatement)
    ensures
        statement.runs(
            "INSERT OR REPLACE INTO fs_partial_origin (delta_ino, base_ino, base_path, base_size, base_fingerprint_size, base_mtime, base_mtime_nsec, base_ctime, base_ctime_nsec, created_at) VALUES (?, ?, ?, ?, ?, ?, ?, ?, ?, ?)"@,
            seq![
                SqlModel::Integer(delta_ino),
                SqlModel::Integer(base_ino),
                SqlModel::Text(base_path@),
                SqlModel::Integer(base.size),
                SqlModel::Integer(base.size),
                SqlModel::Integer(base.mtime),
                SqlModel::Integer(base.mtime_nsec as i64),
                SqlModel::Integer(base.ctime),
                SqlModel::Integer(base.ctime_nsec as i64),
                SqlModel::Integer(now),
            ],
        ),
{
    let mut values: Vec<SqlValue> = Vec::new();
    values.push(SqlValue::Integer(delta_ino));
    values.push(SqlValue::Integer(base_ino));
    values.push(SqlValue::Text(base_path.to_owned()));
    values.push(SqlValue::Integer(base.size));
    values.push(SqlValue::Integer(base.size));
    values.push(SqlValue::Integer(base.mtime));
    values.push(SqlValue::Integer(base.mtime_nsec as i64));
    values.push(SqlValue::Integer(base.ctime));
    values.push(SqlValue::Integer(base.ctime_nsec as i64));
    values.push(SqlValue::Integer(now));
    assert(models(values@) =~= seq![
        SqlModel::Integer(delta_ino),
        SqlModel::Integer(base_ino),
        SqlModel::Text(base_path@),
        SqlModel::Integer(base.size),
        SqlModel::Integer(base.size),
        SqlModel::Integer(base.mtime),
        SqlModel::Integer(base.mtime_nsec as i64),
        SqlModel::Integer(base.ctime),
        SqlModel::Integer(base.ctime_nsec as i64),
        SqlModel::Integer(now),
    ]);
    SqlStatement {
        sql:
            "INSERT OR REPLACE INTO fs_partial_origin (delta_ino, base_ino, base_path, base_size, base_fingerprint_size, base_mtime, base_mtime_nsec, base_ctime, base_ctime_nsec, created_at) VALUES (?, ?, ?, ?, ?, ?, ?, ?, ?, ?)".to_owned(),
        values,
    }
}

fn by_delta(sql: &str, delta_ino: i64) -> (statement: SqlStatement)
    ensures
        statement.runs(sql@, seq![SqlModel::Integer(delta_ino)]),
{
    let mut values: Vec<SqlValue> = Vec::new();
    values.push(SqlValue::Integer(delta_ino));
    assert(models(values@) =~= seq![SqlModel::Integer(delta_ino)]);
    SqlStatement { sql: sql.to_owned(), values }
}

/// The statements that drop what the overlay keeps of a delta inode.
pub open spec fn drops_sidecars(statements: Seq<SqlStatement>, delta_ino: i64) -> bool {
    let bound = seq![SqlModel::Integer(delta_ino)];
    &&& statements.len() == 3
    &&& statements[0].runs("DELETE FROM fs_origin WHERE delta_ino = ?"@, bound)
    &&& statements[1].runs("DELETE FROM fs_chunk_override WHERE delta_ino = ?"@, bound)
    &&& statements[2].runs("DELETE FROM fs_partial_origin WHERE delta_ino = ?"@, bound)
}

/// The statements that drop what the overlay keeps of a delta inode.
pub fn sidecar_statements(delta_ino: i64) -> (statements: Vec<SqlStatement>)
    ensures
        drops_sidecars(statements@, delta_ino),
{
    let mut statements: Vec<SqlStatement> = Vec::new();
    statements.push(by_delta("DELETE FROM fs_origin WHERE delta_ino = ?", delta_ino));
    statements.push(by_delta("DELETE FROM fs_chunk_override WHERE delta_ino = ?", delta_ino));
    statements.push(by_delta("DELETE FROM fs_partial_origin WHERE delta_ino = ?", delta_ino));
    statements
}

/// The statements that clean up after a delta inode lost a name: none while it exists.
pub fn cleanup_after_unlink(delta_ino: i64, inode_exists: bool) -> (statements: Vec<SqlStatement>)
    ensures
        inode_exists ==> statements@.len() == 0,
        !inode_exists ==> drops_sidecars(statements@, delta_ino),
{
    if inode_exists {
        Vec::new()
    } else {
        sidecar_statements(delta_ino)
    }
}

/// Whether a delta inode holds no contents of its own: no chunk overrides, no chunks, no
/// inline contents, and the size of the base file. `inode` are its size, or why that
/// could not be read, and its inline contents.
pub fn no_content_overrides(
    any_override: bool,
    any_chunk: bool,
    inode: Option<(Result<i64, String>, SqlValue)>,
    base_size: i64,
) -> (result: Result<bool, Error>)
    ensures
        if any_override || any_chunk || inode is None {
            result matches Ok(yes) && !yes
        } else {
            match (inode->0).0 {
                Err(reason) => result matches Err(Error::Internal(message)) && message@
                    == "fs_inode.size read failed: "@ + reason@,
                Ok(size) => result matches Ok(yes) && yes == (size == base_size
                    && match (inode->0).1@ {
                    SqlModel::Blob(blob) => blob.len() == 0,
                    _ => true,
                }),
            }
        },
{
    if any_override || any_chunk {
        return Ok(false);
    }
    match inode {
        None => Ok(false),
        Some((size, inline)) => match size {
            Err(reason) => {
                let mut message: String = "fs_inode.size read failed: ".to_owned();
                message.append(reason.as_str());
                Err(Error::Internal(message))
            },
            Ok(size) => {
                if size != base_size {
                    return Ok(false);
                }
                match inline {
                    SqlValue::Blob(blob) => Ok(blob.len() == 0),
                    _ => Ok(true),
                }
            },
        },
    }
}

/// How a delta file with a base file underneath is opened.
#[derive(Debug, Clone, Copy, PartialEq, Eq, Structural)]
pub enum PartialOpen {
    /// The base file itself: the delta holds nothing of its own and nobody writes.
    Passthrough,
    /// Both files merged, emptied first if asked for.
    Merged { truncate: bool },
}

/// How a delta file with a base file underneath is opened. A writer never gets the base
/// file.
pub fn partial_open(flags: i32, bits: &OpenBits, unchanged: bool) -> (open: PartialOpen)
    ensures
        open == if !writes(flags, *bits) && unchanged {
            PartialOpen::Passthrough
        } else {
            PartialOpen::Merged { truncate: truncates(flags, *bits) }
        },
        writes(flags, *bits) ==> open is Merged,
{
    if !is_write_open(flags, bits) && unchanged {
        PartialOpen::Passthrough
    } else {
        PartialOpen::Merged { truncate: is_truncating_open(flags, bits) }
    }
}

/// Whether a base file is still the one that was recorded.
pub open spec fn same_base(origin: PartialOrigin, stats: Stats) -> bool {
    &&& stats.size == origin.base_fingerprint_size
    &&& stats.mtime == origin.base_mtime
    &&& stats.mtime_nsec == origin.base_mtime_nsec
    &&& stats.ctime == origin.base_ctime
    &&& stats.ctime_nsec == origin.base_ctime_nsec
}

/// Seconds and nanoseconds with a dot between.
pub open spec fn stamp_text(secs: i64, nsec: u32) -> Seq<char> {
    signed_decimal(secs as int) + "."@ + crate::text::decimal(nsec as nat)
}

fn append_stamp(message: &mut String, secs: i64, nsec: u32)
    ensures
        final(message)@ == old(message)@ + stamp_text(secs, nsec),
{
    let ghost before = message@;
    message.append(i64_to_text(secs).as_str());
    message.append(".");
    message.append(u64_to_text(nsec as u64).as_str());
    assert(message@ =~= before + stamp_text(secs, nsec));
}

/// The message for a base file whose size changed.
pub open spec fn size_changed(origin: PartialOrigin, stats: Stats) -> Seq<char> {
    "partial-origin base changed for "@ + origin.base_path@ + " (stored size="@ + signed_decimal(
        origin.base_fingerprint_size as int,
    ) + ", current size="@ + signed_decimal(stats.size as int) + ")"@
}

/// The message for a base file whose times changed.
pub open spec fn times_changed(origin: PartialOrigin, stats: Stats) -> Seq<char> {
    "partial-origin base changed for "@ + origin.base_path@ + " (stored mtime="@ + stamp_text(
        origin.base_mtime,
        origin.base_mtime_nsec,
    ) + ", current mtime="@ + stamp_text(stats.mtime, stats.mtime_nsec) + ", stored ctime="@
        + stamp_text(origin.base_ctime, origin.base_ctime_nsec) + ", current ctime="@
        + stamp_text(stats.ctime, stats.ctime_nsec) + ")"@
}

/// Refuses a base file that is no longer the one that was recorded.
pub fn validate_partial_origin(origin: &PartialOrigin, stats: &Stats) -> (result: Result<(), Error>)
    ensures
        match result {
            Ok(()) => same_base(*origin, *stats),
            Err(error) => !same_base(*origin, *stats) && crate::error::is_internal(
                error,
                if stats.size != origin.base_fingerprint_size {
                    size_changed(*origin, *stats)
                } else {
                    times_changed(*origin, *stats)
                },
            ),
        },
{
    if stats.size != origin.base_fingerprint_size {
        let mut message: String = "partial-origin base changed for ".to_owned();
        message.append(origin.base_path.as_str());
        message.append(" (stored size=");
        message.append(i64_to_text(origin.base_fingerprint_size).as_str());
        message.append(", current size=");
        message.append(i64_to_text(stats.size).as_str());
        message.append(")");
        return Err(Error::Internal(message));
    }
    if stats.mtime != origin.base_mtime || stats.mtime_nsec != origin.base_mtime_nsec
        || stats.ctime != origin.base_ctime || stats.ctime_nsec != origin.base_ctime_nsec {
        let mut message: String = "partial-origin base changed for ".to_owned();
        message.append(origin.base_path.as_str());
        message.append(" (stored mtime=");
        append_stamp(&mut message, origin.base_mtime, origin.base_mtime_nsec);
        message.append(", current mtime=");
        append_stamp(&mut message, stats.mtime, stats.mtime_nsec);
        message.append(", stored ctime=");
        append_stamp(&mut message, origin.base_ctime, origin.base_ctime_nsec);
        message.append(", current ctime=");
        append_stamp(&mut message, stats.ctime, stats.ctime_nsec);
        message.append(")");
        return Err(Error::Internal(message));
    }
    Ok(())
}

/// Refuses a base file that is gone or no longer the one that was recorded, while its
/// delta file is open.
pub fn validate_current_origin(origin: &PartialOrigin, stats: Option<Stats>) -> (result: Result<
    (),
    Error,
>)
    ensures
        match stats {
            None => result matches Err(Error::Fs(FsError::NotFound)),
            Some(found) => if same_base(*origin, found) {
                result is Ok
            } else {
                result matches Err(error) && crate::error::is_internal(
                    error,
                    "partial-origin base changed for "@ + origin.base_path@,
                )
            },
        },
{
    match stats {
        None => Err(Error::Fs(FsError::NotFound)),
        Some(found) => {
            if found.size != origin.base_fingerprint_size || found.mtime != origin.base_mtime
                || found.mtime_nsec != origin.base_mtime_nsec || found.ctime != origin.base_ctime
                || found.ctime_nsec != origin.base_ctime_nsec {
                let mut message: String = "partial-origin base changed for ".to_owned();
                message.append(origin.base_path.as_str());
                return Err(Error::Internal(message));
            }
            Ok(())
        },
    }
}

} // verus!
