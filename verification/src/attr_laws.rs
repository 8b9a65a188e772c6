//! What changes of attributes leave, in terms of what was asked for.
use crate::attrs::{
    AttrPrelude, TimesRoute, attr_prelude, chmod_update, chown_update, may_cache_attr,
    root_statement, utimens_change, utimens_route, utimens_update,
};
use crate::batcher_state::PendingGeneration;
use crate::error::FsError;
use crate::pending::PendingTimeChange;
use crate::sql::{SqlModel, SqlStatement, models};
use crate::stats::TimeChange;
use crate::tables::{InodeRow, InodeUpdate, Tables};
use vstd::prelude::*;

verus! {

/// A change of a mode replaces all twelve permission bits by those asked for and keeps the type.
/// The inode was changed just now, and nothing else of it changes. An inode that is missing is
/// reported.
pub proof fn chmod_replaces_the_permission_bits(
    t: Tables,
    ino: i64,
    current: Option<u32>,
    mode: u32,
    now: (i64, i64),
    result: Result<InodeUpdate, FsError>,
)
    requires
        call_ensures(chmod_update, (ino, current, mode, now), result),
    ensures
        current is None ==> result == Err::<InodeUpdate, FsError>(FsError::NotFound),
        current is Some ==> result is Ok,
        result matches Ok(update) ==> {
            &&& update.mode matches Some(left)
            &&& left & 0o170000 == current->0 & 0o170000
            &&& left & 0o7777 == mode & 0o7777
            &&& left <= 0o177777
            &&& t.inodes.contains_key(ino) ==> t.updated(update) == (Tables {
                inodes: t.inodes.insert(
                    ino,
                    InodeRow { mode: left, ctime: now, ..t.inodes[ino] },
                ),
                ..t
            })
        },
{
    if let Some(old_mode) = current {
        assert(((old_mode & 0o170000) | (mode & 0o7777)) & 0o170000 == old_mode & 0o170000)
            by (bit_vector);
        assert(((old_mode & 0o170000) | (mode & 0o7777)) & 0o7777 == mode & 0o7777)
            by (bit_vector);
        assert(((old_mode & 0o170000) | (mode & 0o7777)) <= 0o177777) by (bit_vector);
    }
}

/// A mode that was set stays when it is set again, and setting back the old bits gives back the
/// old mode.
pub proof fn chmod_can_be_undone(
    ino: i64,
    old_mode: u32,
    mode: u32,
    now: (i64, i64),
    there: Result<InodeUpdate, FsError>,
    back: Result<InodeUpdate, FsError>,
)
    requires
        old_mode <= 0o177777,
        call_ensures(chmod_update, (ino, Some(old_mode), mode, now), there),
        call_ensures(chmod_update, (ino, (there->Ok_0).mode, old_mode, now), back),
    ensures
        there is Ok && back is Ok,
        (back->Ok_0).mode == Some(old_mode),
{
    assert((((old_mode & 0o170000) | (mode & 0o7777)) & 0o170000) | (old_mode & 0o7777) == old_mode)
        by (bit_vector)
        requires
            old_mode <= 0o177777u32,
    ;
}

/// A change of an owner sets the owner that is given and the group that is given, and leaves what
/// is not. The inode was changed just now. Without either nothing is done; an inode that is
/// missing is reported otherwise.
pub proof fn chown_sets_what_is_given(
    t: Tables,
    ino: i64,
    present: bool,
    uid: Option<u32>,
    gid: Option<u32>,
    now: (i64, i64),
    result: Result<Option<InodeUpdate>, FsError>,
)
    requires
        call_ensures(chown_update, (ino, present, uid, gid, now), result),
    ensures
        uid is None && gid is None ==> result == Ok::<Option<InodeUpdate>, FsError>(None),
        uid is Some || gid is Some ==> (result is Ok <==> present),
        result is Err ==> result->Err_0 == FsError::NotFound,
        uid is Some || gid is Some ==> (result matches Ok(done) ==> done is Some),
        result matches Ok(Some(update)) ==> {
            t.inodes.contains_key(ino) ==> t.updated(update) == (Tables {
                inodes: t.inodes.insert(
                    ino,
                    InodeRow {
                        uid: match uid {
                            Some(uid) => uid,
                            None => t.inodes[ino].uid,
                        },
                        gid: match gid {
                            Some(gid) => gid,
                            None => t.inodes[ino].gid,
                        },
                        ctime: now,
                        ..t.inodes[ino]
                    },
                ),
                ..t
            })
        },
{
}

/// Each of the two times becomes what was asked for it: a given moment, the present, or nothing.
/// The change time is always the present.
pub proof fn each_time_is_set_by_itself(
    atime: TimeChange,
    mtime: TimeChange,
    now: (i64, i64),
    times: PendingTimeChange,
)
    requires
        call_ensures(utimens_change, (atime, mtime, now), times),
    ensures
        times.ctime == Some(now),
        atime == TimeChange::Omit <==> times.atime is None,
        mtime == TimeChange::Omit <==> times.mtime is None,
        atime == TimeChange::Now ==> times.atime == Some(now),
        mtime == TimeChange::Now ==> times.mtime == Some(now),
        atime matches TimeChange::At(secs, nsec) ==> times.atime matches Some(t) && t.0 == secs
            && t.1 == nsec,
        mtime matches TimeChange::At(secs, nsec) ==> times.mtime matches Some(t) && t.0 == secs
            && t.1 == nsec,
{
}

/// Times that are written at once change the times that are given and nothing else of the inode.
/// An inode that is missing is reported.
pub proof fn written_times_change_nothing_else(
    t: Tables,
    ino: i64,
    present: bool,
    times: PendingTimeChange,
    result: Result<InodeUpdate, FsError>,
)
    requires
        call_ensures(utimens_update, (ino, present, times), result),
    ensures
        !present ==> result == Err::<InodeUpdate, FsError>(FsError::NotFound),
        present ==> result is Ok,
        result matches Ok(update) ==> {
            t.inodes.contains_key(ino) ==> t.updated(update) == (Tables {
                inodes: t.inodes.insert(
                    ino,
                    InodeRow {
                        atime: match times.atime {
                            Some(time) => time,
                            None => t.inodes[ino].atime,
                        },
                        mtime: match times.mtime {
                            Some(time) => time,
                            None => t.inodes[ino].mtime,
                        },
                        ctime: match times.ctime {
                            Some(time) => time,
                            None => t.inodes[ino].ctime,
                        },
                        ..t.inodes[ino]
                    },
                ),
                ..t
            })
        },
{
}

/// A change of times waits only where there is a batcher to keep it, reads look there, and
/// nobody asked for changes to be written at once. Otherwise it is written, unless it asks for
/// nothing.
pub proof fn times_wait_only_where_reads_see_them(
    atime: TimeChange,
    mtime: TimeChange,
    drain: bool,
    overlay_reads: bool,
    has_batcher: bool,
    route: TimesRoute,
)
    requires
        call_ensures(utimens_route, (atime, mtime, drain, overlay_reads, has_batcher), route),
    ensures
        route == TimesRoute::Nothing <==> atime == TimeChange::Omit && mtime == TimeChange::Omit,
        route == TimesRoute::Stash ==> overlay_reads && has_batcher && !drain,
        route == TimesRoute::Direct ==> !overlay_reads || !has_batcher || drain,
{
}

/// Before attributes change, pending writes are committed where that was asked for or where reads
/// do not see them. Otherwise they are marked, if there can be any.
pub proof fn pending_writes_are_minded_before_a_change(
    drain: bool,
    overlay_reads: bool,
    has_batcher: bool,
    prelude: AttrPrelude,
)
    requires
        call_ensures(attr_prelude, (drain, overlay_reads, has_batcher), prelude),
    ensures
        drain ==> prelude == AttrPrelude::Drain,
        !overlay_reads ==> prelude == AttrPrelude::Drain,
        !drain && overlay_reads && has_batcher ==> prelude == AttrPrelude::MarkExplicit,
        !drain && overlay_reads && !has_batcher ==> prelude == AttrPrelude::Nothing,
{
}

/// Attributes are cached only if nothing happened to the inode since before they were read.
pub proof fn stale_attributes_are_not_cached(
    current: Option<PendingGeneration>,
    seen: Option<PendingGeneration>,
    yes: bool,
)
    requires
        call_ensures(may_cache_attr, (current, seen), yes),
    ensures
        current is Some && seen is Some && current != seen ==> !yes,
        current == seen || current is None || seen is None ==> yes,
{
}

/// The root is made as a directory that its owner may change and all may read, with two links
/// and no size, made just now. One that is there gets its owner and group.
pub proof fn the_root_is_a_directory(
    present: bool,
    uid: u32,
    gid: u32,
    now: (i64, i64),
    statement: SqlStatement,
)
    requires
        call_ensures(root_statement, (present, uid, gid, now), statement),
    ensures
        present ==> {
            &&& statement.sql@ == "UPDATE fs_inode SET uid = ?, gid = ? WHERE ino = ?"@
            &&& models(statement.values@) == seq![
                SqlModel::Integer(uid as i64),
                SqlModel::Integer(gid as i64),
                SqlModel::Integer(1),
            ]
        },
        !present ==> {
            &&& statement.sql@
                == "INSERT INTO fs_inode (ino, mode, nlink, uid, gid, size, atime, mtime, ctime, atime_nsec, mtime_nsec, ctime_nsec) VALUES (?, ?, 2, ?, ?, 0, ?, ?, ?, ?, ?, ?)"@
            &&& models(statement.values@) == seq![
                SqlModel::Integer(1),
                SqlModel::Integer(0o040755),
                SqlModel::Integer(uid as i64),
                SqlModel::Integer(gid as i64),
                SqlModel::Integer(now.0),
                SqlModel::Integer(now.0),
                SqlModel::Integer(now.0),
                SqlModel::Integer(now.1),
                SqlModel::Integer(now.1),
                SqlModel::Integer(now.1),
            ]
        },
{
}

} // verus!
