//! What a copy of a base inode keeps of it.
use crate::copy_steps::{CopyAsk, CopyReply, CopyUp};
use crate::copy_up::{
    CopyKind, ParentAction, ParentDirs, PartialOpen, cleanup_after_unlink, copy_kind,
    no_content_overrides, origin_statement, partial_inode_statement, partial_open,
    partial_origin_statement, validate_current_origin, validate_partial_origin,
};
use crate::error::{Error, FsError};
use crate::flags::{OpenBits, is_truncating_open, is_write_open};
use crate::partial::PartialOrigin;
use crate::sql::{SqlModel, SqlStatement, SqlValue, models};
use crate::stats::Stats;
use vstd::prelude::*;

verus! {

/// What is made for a base inode is of its type. A file has the mode of the base file, all bits
/// of it, and its size; a directory has all permission bits of the base directory.
pub proof fn a_whole_copy_keeps_mode_and_size(stats: Stats, kind: CopyKind)
    requires
        call_ensures(copy_kind, (&stats,), kind),
    ensures
        stats.mode & 0o170000 == 0o120000 <==> kind is Symlink,
        stats.mode & 0o170000 == 0o040000 <==> kind is Directory,
        kind matches CopyKind::Directory { mode } ==> mode & 0o7777 == stats.mode & 0o7777 && mode
            <= 0o7777,
        kind matches CopyKind::File { mode, size } ==> mode == stats.mode && (stats.size >= 0
            ==> size == stats.size),
{
    let mode = stats.mode;
    assert((mode & 0o7777) & 0o7777 == mode & 0o7777) by (bit_vector);
    assert((mode & 0o7777) <= 0o7777) by (bit_vector);
}

/// Whatever answer leads a copy to make the name, it is made with the owner and the group of the
/// base inode. Whole copies keep the type of the base inode, the mode of a file with its size, and
/// the permission bits of a directory. A copy in parts begins as an empty file with the mode of
/// the base file.
pub proof fn what_is_made_is_like_the_base(
    copy: &mut CopyUp,
    reply: CopyReply,
    result: Result<(), FsError>,
    base: Stats,
)
    requires
        old(copy).wf(),
        old(copy)@.expects(reply),
        call_ensures(CopyUp::step, (copy, reply), result),
        result is Ok,
        final(copy).asked is Make,
        final(copy).base == Some(base),
    ensures
        final(copy).asked matches CopyAsk::Make { dir, kind, uid, gid } && {
            &&& uid == base.uid
            &&& gid == base.gid
            &&& final(copy).partial ==> kind == (CopyKind::File { mode: base.mode, size: 0 })
            &&& !final(copy).partial && base.mode & 0o170000 == 0o120000 ==> kind is Symlink
            &&& !final(copy).partial && base.mode & 0o170000 == 0o040000 ==> {
                &&& kind matches CopyKind::Directory { mode }
                &&& mode & 0o7777 == base.mode & 0o7777
            }
            &&& !final(copy).partial && base.mode & 0o170000 != 0o120000 && base.mode & 0o170000
                != 0o040000 ==> {
                &&& kind matches CopyKind::File { mode, size }
                &&& mode == base.mode
                &&& base.size >= 0 ==> size == base.size
            }
        },
{
    let mode = base.mode;
    assert((mode & 0o7777) & 0o7777 == mode & 0o7777) by (bit_vector);
}

/// The base inode of a copy is the one that the base answered with, and stays so. Only a regular
/// file is copied in parts.
pub proof fn a_copy_goes_by_the_attributes_of_the_base(
    copy: &mut CopyUp,
    reply: CopyReply,
    result: Result<(), FsError>,
)
    requires
        old(copy).wf(),
        old(copy)@.expects(reply),
        call_ensures(CopyUp::step, (copy, reply), result),
        result is Ok,
    ensures
        final(copy).base_ino == old(copy).base_ino,
        old(copy).asked is BaseAtPath || old(copy).asked is StatBase ==> {
            reply matches CopyReply::Found(Some(stats)) ==> {
                &&& final(copy).base == Some(stats)
                &&& final(copy).partial <==> old(copy).partial && stats.mode & 0o170000 == 0o100000
                &&& final(copy).asked is MakeParents ==> final(copy).asked == (
                CopyAsk::MakeParents { uid: stats.uid, gid: stats.gid })
            }
        },
        !(old(copy).asked is BaseAtPath || old(copy).asked is StatBase) ==> final(copy).base
            == old(copy).base && final(copy).partial == old(copy).partial,
{
}

/// What was made is what is recorded: a whole copy goes on with its origin, a copy in parts gets
/// its attributes first and has its base file recorded last. The copy ends with that inode.
pub proof fn what_was_made_is_what_is_recorded(
    copy: &mut CopyUp,
    reply: CopyReply,
    result: Result<(), FsError>,
    ino: i64,
)
    requires
        old(copy).wf(),
        old(copy)@.expects(reply),
        call_ensures(CopyUp::step, (copy, reply), result),
    ensures
        old(copy).asked is Make && reply == CopyReply::Inode(ino) ==> {
            &&& result is Ok
            &&& final(copy).asked == if old(copy).partial {
                CopyAsk::SetInode(ino)
            } else {
                CopyAsk::RecordOrigin(ino)
            }
        },
        old(copy).asked == CopyAsk::SetInode(ino) ==> result is Ok && final(copy).asked
            == CopyAsk::RecordOrigin(ino),
        old(copy).asked == CopyAsk::RecordOrigin(ino) ==> {
            &&& result is Ok
            &&& final(copy).asked == if old(copy).partial {
                CopyAsk::RecordPartial(ino)
            } else {
                CopyAsk::Finish(ino)
            }
        },
        old(copy).asked == CopyAsk::RecordPartial(ino) ==> result is Ok && final(copy).asked
            == CopyAsk::Finish(ino),
        result is Err ==> {
            &&& result == Err::<(), FsError>(FsError::NotFound)
            &&& old(copy).asked is StatBase || old(copy).asked is Walk
            &&& reply == CopyReply::Found(None)
        },
{
}

/// The root is not copied, and any other path is.
pub proof fn only_the_root_is_not_copied(
    path: &str,
    base_ino: i64,
    partial: bool,
    result: Result<CopyUp, FsError>,
)
    requires
        call_ensures(CopyUp::start, (path, base_ino, partial), result),
    ensures
        crate::path::components(path@).len() == 0 <==> result is Err,
        result matches Err(error) ==> error is RootOperation,
        result matches Ok(copy) ==> copy.base_ino == base_ino && copy.partial == partial
            && copy.base is None,
{
}

/// A delta file that shows its base file has its mode, owner, group, size and times, no contents
/// of its own, and its storage in chunks.
pub proof fn a_copy_in_parts_looks_like_the_base_file(
    ino: i64,
    base: Stats,
    statement: SqlStatement,
)
    requires
        call_ensures(partial_inode_statement, (ino, &base), statement),
    ensures
        ({
            let values = models(statement.values@);
            &&& statement.sql@
                == "UPDATE fs_inode SET mode = ?, uid = ?, gid = ?, size = ?, atime = ?, mtime = ?, ctime = ?, atime_nsec = ?, mtime_nsec = ?, ctime_nsec = ?, data_inline = NULL, storage_kind = ? WHERE ino = ?"@
            &&& values.len() == 12
            &&& values[0] == SqlModel::Integer(base.mode as i64)
            &&& values[1] == SqlModel::Integer(base.uid as i64)
            &&& values[2] == SqlModel::Integer(base.gid as i64)
            &&& values[3] == SqlModel::Integer(base.size)
            &&& values[4] == SqlModel::Integer(base.atime)
            &&& values[5] == SqlModel::Integer(base.mtime)
            &&& values[6] == SqlModel::Integer(base.ctime)
            &&& values[7] == SqlModel::Integer(base.atime_nsec as i64)
            &&& values[8] == SqlModel::Integer(base.mtime_nsec as i64)
            &&& values[9] == SqlModel::Integer(base.ctime_nsec as i64)
            &&& values[10] == SqlModel::Integer(0)
            &&& values[11] == SqlModel::Integer(ino)
        }),
{
}

/// What is recorded of a base file is what it is known by again: with the recorded row, the same
/// attributes are accepted, and any other size or time is refused. How it is reported depends on
/// whether the delta file is open.
pub proof fn a_changed_base_file_is_refused(
    origin: PartialOrigin,
    stats: Stats,
    checked: Result<(), Error>,
    current: Result<(), Error>,
    gone: Result<(), Error>,
)
    requires
        call_ensures(validate_partial_origin, (&origin, &stats), checked),
        call_ensures(validate_current_origin, (&origin, Some(stats)), current),
        call_ensures(validate_current_origin, (&origin, None), gone),
    ensures
        checked is Ok <==> {
            &&& stats.size == origin.base_fingerprint_size
            &&& stats.mtime == origin.base_mtime
            &&& stats.mtime_nsec == origin.base_mtime_nsec
            &&& stats.ctime == origin.base_ctime
            &&& stats.ctime_nsec == origin.base_ctime_nsec
        },
        current is Ok <==> checked is Ok,
        checked is Err ==> checked->Err_0 is Internal,
        current is Err ==> current->Err_0 is Internal,
        gone == Err::<(), Error>(Error::Fs(FsError::NotFound)),
{
}

/// The base file of a delta file is recorded with its inode, its path, its size and both of its
/// times, and the delta inode with the base inode.
pub proof fn what_identifies_a_base_file_is_recorded(
    delta_ino: i64,
    base_ino: i64,
    path: &str,
    base: Stats,
    now: i64,
    partial: SqlStatement,
    origin: SqlStatement,
)
    requires
        call_ensures(partial_origin_statement, (delta_ino, base_ino, path, &base, now), partial),
        call_ensures(origin_statement, (delta_ino, base_ino), origin),
    ensures
        ({
            let values = models(partial.values@);
            &&& partial.sql@
                == "INSERT OR REPLACE INTO fs_partial_origin (delta_ino, base_ino, base_path, base_size, base_fingerprint_size, base_mtime, base_mtime_nsec, base_ctime, base_ctime_nsec, created_at) VALUES (?, ?, ?, ?, ?, ?, ?, ?, ?, ?)"@
            &&& values.len() == 10
            &&& values[0] == SqlModel::Integer(delta_ino)
            &&& values[1] == SqlModel::Integer(base_ino)
            &&& values[2] == SqlModel::Text(path@)
            &&& values[3] == SqlModel::Integer(base.size)
            &&& values[4] == SqlModel::Integer(base.size)
            &&& values[5] == SqlModel::Integer(base.mtime)
            &&& values[6] == SqlModel::Integer(base.mtime_nsec as i64)
            &&& values[7] == SqlModel::Integer(base.ctime)
            &&& values[8] == SqlModel::Integer(base.ctime_nsec as i64)
            &&& values[9] == SqlModel::Integer(now)
        }),
        origin.sql@ == "INSERT OR REPLACE INTO fs_origin (delta_ino, base_ino) VALUES (?, ?)"@,
        models(origin.values@) == seq![SqlModel::Integer(delta_ino), SqlModel::Integer(base_ino)],
{
}

/// A delta inode holds nothing of its own exactly if it is there, has no chunk, no override and no
/// byte in its row, and is as long as the base file.
pub proof fn a_delta_inode_without_contents_shows_the_base(
    any_override: bool,
    any_chunk: bool,
    size: i64,
    inline: SqlValue,
    base_size: i64,
    result: Result<bool, Error>,
    missing: Result<bool, Error>,
)
    requires
        call_ensures(
            no_content_overrides,
            (any_override, any_chunk, Some((Ok::<i64, String>(size), inline)), base_size),
            result,
        ),
        call_ensures(no_content_overrides, (any_override, any_chunk, None, base_size), missing),
    ensures
        result matches Ok(none) && (none <==> {
            &&& !any_override
            &&& !any_chunk
            &&& size == base_size
            &&& inline matches SqlValue::Blob(bytes) ==> bytes@.len() == 0
        }),
        missing matches Ok(none) && !none,
{
}

/// The base file itself is opened only by who reads it alone, and only if the delta holds nothing
/// of its own. Both files are merged otherwise, and emptied exactly if that was asked for.
pub proof fn a_writer_never_gets_the_base_file(
    flags: i32,
    bits: OpenBits,
    unchanged: bool,
    open: PartialOpen,
    write: bool,
    truncate: bool,
)
    requires
        call_ensures(partial_open, (flags, &bits, unchanged), open),
        call_ensures(is_write_open, (flags, &bits), write),
        call_ensures(is_truncating_open, (flags, &bits), truncate),
    ensures
        open == PartialOpen::Passthrough <==> !write && unchanged,
        write || !unchanged ==> open == (PartialOpen::Merged { truncate }),
{
}

/// An open can change a file exactly if its access mode is not that of a reader or it empties the
/// file, and it empties the file exactly if the flag for that is set.
pub proof fn an_open_writes_unless_it_only_reads(
    flags: i32,
    bits: OpenBits,
    write: bool,
    truncate: bool,
)
    requires
        call_ensures(is_write_open, (flags, &bits), write),
        call_ensures(is_truncating_open, (flags, &bits), truncate),
    ensures
        truncate <==> flags & bits.truncate != 0,
        truncate ==> write,
        !truncate ==> (write <==> flags & bits.access_mode != bits.read_only),
{
}

/// What the overlay keeps of a delta inode goes with the inode, all of it, and not before.
pub proof fn what_is_kept_of_an_inode_goes_with_it(
    ino: i64,
    exists_still: bool,
    statements: Vec<SqlStatement>,
    i: int,
)
    requires
        call_ensures(cleanup_after_unlink, (ino, exists_still), statements),
    ensures
        exists_still ==> statements@.len() == 0,
        !exists_still ==> {
            &&& statements@.len() == 3
            &&& statements@[0].sql@ == "DELETE FROM fs_origin WHERE delta_ino = ?"@
            &&& statements@[1].sql@ == "DELETE FROM fs_chunk_override WHERE delta_ino = ?"@
            &&& statements@[2].sql@ == "DELETE FROM fs_partial_origin WHERE delta_ino = ?"@
            &&& 0 <= i < 3 ==> models(statements@[i].values@) == seq![SqlModel::Integer(ino)]
        },
{
}

/// A directory above a copied path that the delta has is gone into; one that it lacks is made with
/// the owner of the base directory, or of the copied file if the base lacks it too. Anything but
/// a directory in the way is refused.
pub proof fn missing_directories_belong_to_who_owns_them_in_the_base(
    dirs: &mut ParentDirs,
    delta: Option<Stats>,
    base: Option<Stats>,
    result: Result<ParentAction, FsError>,
)
    requires
        old(dirs).wf(),
        old(dirs).next < old(dirs).count,
        call_ensures(ParentDirs::found, (dirs, delta, base), result),
    ensures
        delta matches Some(stats) ==> {
            &&& stats.mode & 0o170000 != 0o040000 ==> result == Err::<ParentAction, FsError>(
                FsError::NotADirectory,
            )
            &&& stats.mode & 0o170000 == 0o040000 ==> {
                &&& result == Ok::<ParentAction, FsError>(ParentAction::Descend)
                &&& final(dirs).next == old(dirs).next + 1
                &&& final(dirs).delta_ino == stats.ino
            }
        },
        delta is None ==> result is Ok && final(dirs).next == old(dirs).next,
        delta is None ==> (base matches Some(stats) ==> {
            &&& result == Ok::<ParentAction, FsError>(
                ParentAction::Make { uid: stats.uid, gid: stats.gid },
            )
            &&& final(dirs).origin == Some(stats.ino)
        }),
        delta is None && base is None ==> {
            &&& result == Ok::<ParentAction, FsError>(
                ParentAction::Make { uid: old(dirs).uid, gid: old(dirs).gid },
            )
            &&& final(dirs).origin is None
        },
{
}

} // verus!
