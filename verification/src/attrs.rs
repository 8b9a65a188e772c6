//! Attribute changes and the pending state that attributes are read through.
use crate::batcher::AgentFSWriteBatcher;
use crate::batcher_state::PendingGeneration;
use crate::error::FsError;
use crate::namespace_laws::{lemma_rows_rest, same_contents};
use crate::pending::PendingTimeChange;
use crate::sql::{SqlModel, SqlStatement, SqlValue, models};
use crate::stats::{DEFAULT_DIR_MODE, ROOT_INO, S_IFMT, Stats, TimeChange};
use crate::tables::{InodeRow, InodeUpdate, LinkChange, Tables};
use vstd::prelude::*;

verus! {

/// Permission bits of a mode.
pub const PERMISSION_BITS: u32 = 0o7777;

/// The update that replaces the permission bits of a mode.
pub open spec fn chmod_of(ino: i64, old_mode: u32, mode: u32, now: (i64, i64)) -> InodeUpdate {
    InodeUpdate {
        mode: Some((old_mode & S_IFMT) | (mode & PERMISSION_BITS)),
        ..InodeUpdate::stamping(ino, LinkChange::Keep, now)
    }
}

/// The update of an owner and a group.
pub open spec fn chown_of(
    ino: i64,
    uid: Option<u32>,
    gid: Option<u32>,
    now: (i64, i64),
) -> InodeUpdate {
    InodeUpdate { uid, gid, ..InodeUpdate::stamping(ino, LinkChange::Keep, now) }
}

/// The update of times.
pub open spec fn times_of(ino: i64, times: PendingTimeChange) -> InodeUpdate {
    InodeUpdate { times, ..InodeUpdate::relinking(ino, LinkChange::Keep) }
}

/// The update of a mode: the type bits stay and the permission bits are replaced.
pub fn chmod_update(ino: i64, current: Option<u32>, mode: u32, now: (i64, i64)) -> (result: Result<
    InodeUpdate,
    FsError,
>)
    ensures
        result == match current {
            None => Err::<InodeUpdate, FsError>(FsError::NotFound),
            Some(old_mode) => Ok(chmod_of(ino, old_mode, mode, now)),
        },
{
    match current {
        None => Err(FsError::NotFound),
        Some(old_mode) => {
            let mut update = InodeUpdate::stamp(ino, LinkChange::Keep, now);
            update.mode = Some((old_mode & S_IFMT) | (mode & PERMISSION_BITS));
            Ok(update)
        },
    }
}

/// A change of a mode keeps the type of the inode and sets exactly the permission bits
/// asked for.
pub proof fn chmod_keeps_the_type(old_mode: u32, mode: u32)
    ensures
        ((old_mode & S_IFMT) | (mode & PERMISSION_BITS)) & S_IFMT == old_mode & S_IFMT,
        ((old_mode & S_IFMT) | (mode & PERMISSION_BITS)) & PERMISSION_BITS == mode
            & PERMISSION_BITS,
{
    assert(((old_mode & 0o170000u32) | (mode & 0o7777u32)) & 0o170000u32 == old_mode & 0o170000u32)
        by (bit_vector);
    assert(((old_mode & 0o170000u32) | (mode & 0o7777u32)) & 0o7777u32 == mode & 0o7777u32)
        by (bit_vector);
}

/// The update of the owner and group that are given. Without either there is nothing
/// to do, whether the inode exists or not.
pub fn chown_update(
    ino: i64,
    present: bool,
    uid: Option<u32>,
    gid: Option<u32>,
    now: (i64, i64),
) -> (result: Result<Option<InodeUpdate>, FsError>)
    ensures
        result == if uid is None && gid is None {
            Ok::<Option<InodeUpdate>, FsError>(None)
        } else if !present {
            Err(FsError::NotFound)
        } else {
            Ok(Some(chown_of(ino, uid, gid, now)))
        },
{
    if uid.is_none() && gid.is_none() {
        return Ok(None);
    }
    if !present {
        return Err(FsError::NotFound);
    }
    let mut update = InodeUpdate::stamp(ino, LinkChange::Keep, now);
    update.uid = uid;
    update.gid = gid;
    Ok(Some(update))
}

/// The value of a requested time.
pub open spec fn resolved_time(change: TimeChange, now: (i64, i64)) -> Option<(i64, i64)> {
    match change {
        TimeChange::At(secs, nsec) => Some((secs, nsec as i64)),
        TimeChange::Now => Some(now),
        TimeChange::Omit => None,
    }
}

/// The times of a request: the change time is always the time of the call.
pub open spec fn utimens_times(
    atime: TimeChange,
    mtime: TimeChange,
    now: (i64, i64),
) -> PendingTimeChange {
    PendingTimeChange {
        atime: resolved_time(atime, now),
        mtime: resolved_time(mtime, now),
        ctime: Some(now),
    }
}

fn resolve_time(change: TimeChange, now: (i64, i64)) -> (time: Option<(i64, i64)>)
    ensures
        time == resolved_time(change, now),
{
    match change {
        TimeChange::At(secs, nsec) => Some((secs, nsec as i64)),
        TimeChange::Now => Some(now),
        TimeChange::Omit => None,
    }
}

/// Where a change of times goes.
#[derive(Debug, Clone, Copy, PartialEq, Eq, Structural)]
pub enum TimesRoute {
    /// Nothing was asked for.
    Nothing,
    /// It waits in the batcher for the next group commit.
    Stash,
    /// It is written at once.
    Direct,
}

/// Decides where a change of times goes. It can wait only where reads see what waits.
pub fn utimens_route(
    atime: TimeChange,
    mtime: TimeChange,
    drain_on_setattr: bool,
    overlay_reads: bool,
    has_batcher: bool,
) -> (route: TimesRoute)
    ensures
        route == if atime == TimeChange::Omit && mtime == TimeChange::Omit {
            TimesRoute::Nothing
        } else if !drain_on_setattr && overlay_reads && has_batcher {
            TimesRoute::Stash
        } else {
            TimesRoute::Direct
        },
{
    let no_atime: bool = match atime {
        TimeChange::Omit => true,
        _ => false,
    };
    let no_mtime: bool = match mtime {
        TimeChange::Omit => true,
        _ => false,
    };
    if no_atime && no_mtime {
        TimesRoute::Nothing
    } else if !drain_on_setattr && overlay_reads && has_batcher {
        TimesRoute::Stash
    } else {
        TimesRoute::Direct
    }
}

/// The times to stash or write.
pub fn utimens_change(atime: TimeChange, mtime: TimeChange, now: (i64, i64)) -> (times:
    PendingTimeChange)
    ensures
        times == utimens_times(atime, mtime, now),
{
    PendingTimeChange {
        atime: resolve_time(atime, now),
        mtime: resolve_time(mtime, now),
        ctime: Some(now),
    }
}

/// The update that writes times at once.
pub fn utimens_update(ino: i64, present: bool, times: PendingTimeChange) -> (result: Result<
    InodeUpdate,
    FsError,
>)
    ensures
        result == if present {
            Ok::<InodeUpdate, FsError>(times_of(ino, times))
        } else {
            Err(FsError::NotFound)
        },
{
    if !present {
        return Err(FsError::NotFound);
    }
    let mut update = InodeUpdate::relink(ino, LinkChange::Keep);
    update.times = times;
    Ok(update)
}

/// A change of times that waits reads like one that was written.
pub proof fn stashed_times_read_like_written_ones(row: InodeRow, ino: i64, times: PendingTimeChange)
    ensures
        times.over(row.stats(ino)) == times_of(ino, times).apply_to(row).stats(ino),
{
}

/// An update that keeps the type of its inode and the link count keeps the tables sound.
pub proof fn attribute_updates_keep_the_tables_sound(
    t: Tables,
    chunk_size: nat,
    update: InodeUpdate,
)
    requires
        t.sound(chunk_size),
        update.links == LinkChange::Keep,
        t.inodes.contains_key(update.ino) ==> match update.mode {
            Some(mode) => mode & S_IFMT == t.inodes[update.ino].mode & S_IFMT,
            None => true,
        },
    ensures
        t.updated(update).sound(chunk_size),
        t.all_named() ==> t.updated(update).all_named(),
{
    let u = t.updated(update);
    assert forall|i: i64| #[trigger] u.inodes.contains_key(i) <==> t.inodes.contains_key(i) by {}
    assert forall|i: i64| #[trigger] t.inodes.contains_key(i) implies same_contents(
        t.inodes[i],
        u.inodes[i],
    ) && u.inodes[i].nlink == t.inodes[i].nlink && u.is_dir(i) == t.is_dir(i) by {}
    assert(u.inodes.dom() =~= t.inodes.dom());
    lemma_rows_rest(t, u, chunk_size);
    assert forall|i: i64| #[trigger] u.names_of(i) == t.names_of(i) by {
        assert(u.names_of(i) =~= t.names_of(i));
    }
    assert forall|k: (i64, Seq<char>)| #[trigger] u.dentries.contains_key(k) implies {
        &&& u.is_dir(k.0)
        &&& u.inodes.contains_key(u.dentries[k])
        &&& crate::tables::valid_name(k.1)
    } by {
        assert(t.dentries.contains_key(k));
        assert(t.inodes.contains_key(k.0));
    }
    assert forall|i: i64| #[trigger] u.inodes.contains_key(i) implies (if u.inodes[i].is_dir() {
        u.dir_ok(i)
    } else {
        u.inodes[i].nlink == u.names_of(i).len()
    }) by {
        assert(t.inodes.contains_key(i));
        assert(u.subdirs(i) =~= t.subdirs(i)) by {
            assert forall|k: (i64, Seq<char>)| u.subdirs(i).contains(k) == t.subdirs(i).contains(
                k,
            ) by {
                if t.dentries.contains_key(k) {
                    assert(t.inodes.contains_key(t.dentries[k]));
                }
            }
        }
        assert(u.has_entries(i) == t.has_entries(i));
        assert(u.names_of(i) == t.names_of(i));
    }
    assert(t.inodes.contains_key(ROOT_INO));
    assert forall|i: i64| #[trigger]
        t.all_named() && u.inodes.contains_key(i) && i != ROOT_INO && u.inodes[i].nlink
            != 0 implies u.names_of(i).len() > 0 by {
        assert(t.inodes.contains_key(i));
        assert(u.names_of(i) == t.names_of(i));
    }
}

/// What precedes an attribute change while writes of the inode may be pending.
#[derive(Debug, Clone, Copy, PartialEq, Eq, Structural)]
pub enum AttrPrelude {
    /// Commit the pending writes first.
    Drain,
    /// Mark the pending writes so that their commit keeps the times.
    MarkExplicit,
    /// There is no batcher.
    Nothing,
}

/// Decides what precedes an attribute change. Without a batcher a drain does nothing.
pub fn attr_prelude(drain_on_setattr: bool, overlay_reads: bool, has_batcher: bool) -> (prelude:
    AttrPrelude)
    ensures
        prelude == if drain_on_setattr || !overlay_reads {
            AttrPrelude::Drain
        } else if has_batcher {
            AttrPrelude::MarkExplicit
        } else {
            AttrPrelude::Nothing
        },
{
    if drain_on_setattr || !overlay_reads {
        AttrPrelude::Drain
    } else if has_batcher {
        AttrPrelude::MarkExplicit
    } else {
        AttrPrelude::Nothing
    }
}

/// Lays the pending state of an inode over attributes read from the database. With
/// overlay reads off, or without a batcher, what was read stands.
pub fn merge_pending_view(
    overlay_reads: bool,
    batcher: Option<&AgentFSWriteBatcher>,
    ino: i64,
    stats: &mut Stats,
)
    requires
        batcher matches Some(view) ==> view@.wf(),
    ensures
        *final(stats) == match batcher {
            Some(view) => if overlay_reads {
                view@.stats_over(ino, *old(stats))
            } else {
                *old(stats)
            },
            None => *old(stats),
        },
{
    if !overlay_reads {
        return ;
    }
    if let Some(view) = batcher {
        view.merge_into_stats(ino, stats);
    }
}

/// Whether attributes that were read may be cached: nothing became pending or was
/// committed for the inode since the generation `seen` before the read.
pub fn may_cache_attr(current: Option<PendingGeneration>, seen: Option<PendingGeneration>) -> (yes:
    bool)
    ensures
        yes == match (current, seen) {
            (Some(now), Some(then_seen)) => now == then_seen,
            _ => true,
        },
{
    match (current, seen) {
        (Some(now), Some(then_seen)) => now == then_seen,
        _ => true,
    }
}

/// The statement that sets up the root directory: it is inserted when missing and
/// otherwise handed to the current user.
pub fn root_statement(present: bool, uid: u32, gid: u32, now: (i64, i64)) -> (statement: SqlStatement)
    ensures
        present ==> statement.runs(
            "UPDATE fs_inode SET uid = ?, gid = ? WHERE ino = ?"@,
            seq![
                SqlModel::Integer(uid as i64),
                SqlModel::Integer(gid as i64),
                SqlModel::Integer(ROOT_INO),
            ],
        ),
        !present ==> statement.runs(
            "INSERT INTO fs_inode (ino, mode, nlink, uid, gid, size, atime, mtime, ctime, atime_nsec, mtime_nsec, ctime_nsec) VALUES (?, ?, 2, ?, ?, 0, ?, ?, ?, ?, ?, ?)"@,
            seq![
                SqlModel::Integer(ROOT_INO),
                SqlModel::Integer(DEFAULT_DIR_MODE as i64),
                SqlModel::Integer(uid as i64),
                SqlModel::Integer(gid as i64),
                SqlModel::Integer(now.0),
                SqlModel::Integer(now.0),
                SqlModel::Integer(now.0),
                SqlModel::Integer(now.1),
                SqlModel::Integer(now.1),
                SqlModel::Integer(now.1),
            ],
        ),
{
    let mut values: Vec<SqlValue> = Vec::new();
    if present {
        values.push(SqlValue::Integer(uid as i64));
        values.push(SqlValue::Integer(gid as i64));
        values.push(SqlValue::Integer(ROOT_INO));
        assert(models(values@) =~= seq![
            SqlModel::Integer(uid as i64),
            SqlModel::Integer(gid as i64),
            SqlModel::Integer(ROOT_INO),
        ]);
        SqlStatement {
            sql: "UPDATE fs_inode SET uid = ?, gid = ? WHERE ino = ?".to_owned(),
            values,
        }
    } else {
        values.push(SqlValue::Integer(ROOT_INO));
        values.push(SqlValue::Integer(DEFAULT_DIR_MODE as i64));
        values.push(SqlValue::Integer(uid as i64));
        values.push(SqlValue::Integer(gid as i64));
        values.push(SqlValue::Integer(now.0));
        values.push(SqlValue::Integer(now.0));
        values.push(SqlValue::Integer(now.0));
        values.push(SqlValue::Integer(now.1));
        values.push(SqlValue::Integer(now.1));
        values.push(SqlValue::Integer(now.1));
        assert(models(values@) =~= seq![
            SqlModel::Integer(ROOT_INO),
            SqlModel::Integer(DEFAULT_DIR_MODE as i64),
            SqlModel::Integer(uid as i64),
            SqlModel::Integer(gid as i64),
            SqlModel::Integer(now.0),
            SqlModel::Integer(now.0),
            SqlModel::Integer(now.0),
            SqlModel::Integer(now.1),
            SqlModel::Integer(now.1),
            SqlModel::Integer(now.1),
        ]);
        SqlStatement {
            sql:
                "INSERT INTO fs_inode (ino, mode, nlink, uid, gid, size, atime, mtime, ctime, atime_nsec, mtime_nsec, ctime_nsec) VALUES (?, ?, 2, ?, ?, 0, ?, ?, ?, ?, ?, ?)".to_owned(),
            values,
        }
    }
}

} // verus!
