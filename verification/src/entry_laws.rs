//! What the unlink and the rename of a name ask for, and when they are refused.
use crate::error::FsError;
use crate::rename::{Rename, RenameAsk, RenameReply};
use crate::tables::{InodeRow, RowChange, Tables};
use crate::unlink::{Unlink, UnlinkAsk, UnlinkReply};
use vstd::prelude::*;

verus! {

/// Names of more than 255 bytes are refused, and any other unlink and rename begins by knowing
/// nothing.
pub proof fn a_long_name_is_refused(
    parent: i64,
    name: &str,
    unlink: Result<Unlink<'_>, FsError>,
    new_parent: i64,
    new_name: &str,
    rename: Result<Rename<'_>, FsError>,
    bytes: usize,
    new_bytes: usize,
)
    requires
        call_ensures(str::len, (name,), bytes),
        call_ensures(str::len, (new_name,), new_bytes),
        call_ensures(Unlink::start, (parent, name), unlink),
        call_ensures(Rename::start, (parent, name, new_parent, new_name), rename),
    ensures
        unlink is Err <==> bytes > 255,
        unlink is Err ==> unlink->Err_0 is NameTooLong,
        rename is Err <==> new_bytes > 255,
        rename is Err ==> rename->Err_0 is NameTooLong,
        unlink matches Ok(u) ==> u.asked is Begin && !u.reaped && u.refused is None && !u.failed
            && u.parent == parent && u.name == name,
        rename matches Ok(r) ==> r.asked is FindSource && r.target is None && !r.reaped
            && r.parent == parent && r.name == name && r.new_parent == new_parent && r.new_name
            == new_name,
{
}

/// A name that leads nowhere and a directory are not unlinked. Whatever fails after the
/// transaction began rolls it back.
pub proof fn only_files_are_unlinked(unlink: &mut Unlink<'_>, reply: UnlinkReply)
    requires
        old(unlink)@.expects(reply),
        call_ensures(Unlink::step, (unlink, reply), ()),
    ensures
        ({
            let asked = old(unlink).asked;
            let next = final(unlink).asked;
            let refused = final(unlink).refused;
            &&& reply is Failed ==> final(unlink).failed
            &&& reply is Failed && asked is Begin ==> next is Finished
            &&& reply is Failed && asked !is Begin ==> next is Rollback
            &&& reply !is Failed ==> final(unlink).failed == old(unlink).failed
            &&& asked is Begin && reply is Done ==> next is Find
            &&& asked is Find && reply is Child ==> match reply->Child_0 {
                Some(ino) => next == UnlinkAsk::Stat(ino) && final(unlink).ino == ino,
                None => next is Rollback && refused == Some(FsError::NotFound),
            }
            &&& (asked is Stat && reply is Mode) ==> match reply->Mode_0 {
                Some(mode) => if mode & 0o170000 == 0o040000 {
                    next is Rollback && refused == Some(FsError::IsADirectory)
                } else {
                    next == UnlinkAsk::Detach(asked->Stat_0) && refused == old(unlink).refused
                },
                None => next is Rollback && refused == Some(FsError::NotFound),
            }
            &&& asked !is Find && asked !is Stat ==> refused == old(unlink).refused
            &&& final(unlink).name == old(unlink).name
            &&& final(unlink).parent == old(unlink).parent
        }),
{
}

/// A file goes with its last link unless it is open. Its waiting writes are discarded once
/// that is committed, and only then.
pub proof fn a_file_goes_with_its_last_link(
    unlink: &mut Unlink<'_>,
    reply: UnlinkReply,
    discarded: Option<i64>,
)
    requires
        old(unlink)@.expects(reply),
        call_ensures(Unlink::step, (unlink, reply), ()),
        call_ensures(Unlink::discarded, (old(unlink),), discarded),
        reply !is Failed,
    ensures
        ({
            let asked = old(unlink).asked;
            let next = final(unlink).asked;
            &&& asked matches UnlinkAsk::Detach(ino) ==> next == UnlinkAsk::AskLinks(ino)
            &&& asked matches UnlinkAsk::AskLinks(ino) ==> (reply matches UnlinkReply::Links {
                count,
                still_open,
            } ==> next == if count == 0 && !still_open {
                UnlinkAsk::Reap(ino)
            } else {
                UnlinkAsk::Commit
            })
            &&& asked matches UnlinkAsk::Reap(ino) ==> next == UnlinkAsk::TellHooks(ino)
            &&& asked is TellHooks ==> next is Commit && final(unlink).reaped
            &&& asked !is TellHooks ==> final(unlink).reaped == old(unlink).reaped
            &&& asked is Commit ==> next == if old(unlink).reaped {
                UnlinkAsk::Discard(old(unlink).ino)
            } else {
                UnlinkAsk::Finished
            }
            &&& asked is Rollback || asked is Discard ==> next is Finished
            &&& discarded is Some <==> asked is Discard
            &&& discarded is Some ==> asked == UnlinkAsk::Discard(discarded->0)
            &&& asked !is Find ==> final(unlink).ino == old(unlink).ino
        }),
{
}

/// Only where the name is taken away and where the inode goes does an unlink change the
/// tables: the name, one link and the times in the one case, the inode with its target and its
/// contents in the other.
pub proof fn an_unlink_changes_its_name_and_its_inode(
    unlink: Unlink<'_>,
    now: (i64, i64),
    changes: Vec<RowChange>,
    t: Tables,
)
    requires
        call_ensures(Unlink::changes, (&unlink, now), changes),
    ensures
        ({
            let u = t.changed_by(changes@);
            &&& unlink.asked !is Detach && unlink.asked !is Reap ==> u == t
            &&& unlink.asked matches UnlinkAsk::Detach(ino) ==> {
                &&& u.dentries == t.dentries.remove((unlink.parent, unlink.name@))
                &&& t.inodes.contains_key(ino) && t.inodes.contains_key(unlink.parent) && ino
                    != unlink.parent ==> {
                    &&& u.inodes[ino] == (InodeRow {
                        nlink: t.inodes[ino].nlink - 1,
                        ctime: now,
                        ..t.inodes[ino]
                    })
                    &&& u.inodes[unlink.parent] == (InodeRow {
                        mtime: now,
                        ctime: now,
                        ..t.inodes[unlink.parent]
                    })
                }
            }
            &&& unlink.asked matches UnlinkAsk::Reap(ino) ==> {
                &&& u.inodes == t.inodes.remove(ino)
                &&& u.symlinks == t.symlinks.remove(ino)
                &&& u.dentries == t.dentries
            }
        }),
{
}

/// A source that is not there and the root are not renamed, and a directory is not moved
/// below itself.
pub proof fn a_directory_is_not_moved_below_itself(
    rename: &mut Rename<'_>,
    reply: RenameReply,
    result: Result<(), FsError>,
)
    requires
        old(rename)@.expects(reply),
        call_ensures(Rename::step, (rename, reply), result),
    ensures
        ({
            let asked = old(rename).asked;
            let next = final(rename).asked;
            let came_to = if asked is Begin {
                old(rename).new_parent
            } else {
                reply->Parents_0->One_0
            };
            let climbs = asked is Begin && old(rename).source_is_dir || asked is AskParents
                && reply->Parents_0 is One;
            &&& asked is FindSource ==> match reply->Child_0 {
                None => result == Err::<(), FsError>(FsError::NotFound),
                Some(ino) => if ino == 1 {
                    result == Err::<(), FsError>(FsError::RootOperation)
                } else {
                    result is Ok && final(rename).source == ino && next == RenameAsk::StatSource(
                        ino,
                    )
                },
            }
            &&& asked is StatSource ==> match reply->Mode_0 {
                None => result == Err::<(), FsError>(FsError::NotFound),
                Some(mode) => result is Ok && next is Begin && (final(rename).source_is_dir
                    <==> mode & 0o170000 == 0o040000),
            }
            &&& asked is Begin && !old(rename).source_is_dir ==> result is Ok && next is FindTarget
            &&& climbs && came_to == 1 ==> result is Ok && next is FindTarget
            &&& climbs && came_to != 1 && came_to == old(rename).source ==> result == Err::<
                (),
                FsError,
            >(FsError::InvalidRename)
            &&& climbs && came_to != 1 && came_to != old(rename).source
                && old(rename).passed@.contains(came_to) ==> result == Err::<(), FsError>(
                FsError::InvalidPath,
            )
            &&& climbs && came_to != 1 && came_to != old(rename).source
                && !old(rename).passed@.contains(came_to) ==> result is Ok && next
                == RenameAsk::AskParents(came_to) && final(rename).passed@
                == old(rename).passed@.push(came_to)
            &&& asked is AskParents && reply->Parents_0 is Missing ==> result == Err::<(), FsError>(
                FsError::NotFound,
            )
            &&& asked is AskParents && (reply->Parents_0 is Many || reply->Parents_0
                is NotAnInteger) ==> result == Err::<(), FsError>(FsError::InvalidPath)
        }),
{
}

/// A file replaces a file, and a directory an empty directory, and nothing else is replaced.
/// What was replaced goes with its last link unless it is open, and then its writes are
/// discarded.
pub proof fn a_name_is_replaced_by_its_like(
    rename: &mut Rename<'_>,
    reply: RenameReply,
    result: Result<(), FsError>,
    discarded: Option<i64>,
)
    requires
        old(rename)@.expects(reply),
        call_ensures(Rename::step, (rename, reply), result),
        call_ensures(Rename::discarded, (old(rename),), discarded),
    ensures
        ({
            let asked = old(rename).asked;
            let next = final(rename).asked;
            let moves_dir = old(rename).source_is_dir;
            &&& asked is FindTarget ==> result is Ok && match reply->Child_0 {
                None => next is MoveEntry && final(rename).target is None,
                Some(ino) => next == RenameAsk::StatTarget(ino) && final(rename).target == Some(
                    ino,
                ),
            }
            &&& asked matches RenameAsk::StatTarget(ino) ==> match reply->Mode_0 {
                None => result == Err::<(), FsError>(FsError::NotFound),
                Some(mode) => {
                    let is_dir = mode & 0o170000 == 0o040000;
                    &&& is_dir && !moves_dir ==> result == Err::<(), FsError>(
                        FsError::IsADirectory,
                    )
                    &&& !is_dir && moves_dir ==> result == Err::<(), FsError>(
                        FsError::NotADirectory,
                    )
                    &&& is_dir && moves_dir ==> result is Ok && next == RenameAsk::CountTarget(ino)
                    &&& !is_dir && !moves_dir ==> result is Ok && next == RenameAsk::ClearTarget(
                        ino,
                    )
                },
            }
            &&& asked matches RenameAsk::CountTarget(ino) ==> if reply->Count_0 > 0 {
                result == Err::<(), FsError>(FsError::NotEmpty)
            } else {
                result is Ok && next == RenameAsk::ClearTarget(ino)
            }
            &&& asked matches RenameAsk::ClearTarget(ino) ==> next == RenameAsk::AskLinks(ino)
            &&& asked matches RenameAsk::AskLinks(ino) ==> (reply matches RenameReply::Links {
                count,
                still_open,
            } ==> if count == 0 && !still_open {
                next == RenameAsk::ReapTarget(ino) && final(rename).reaped
            } else {
                next is MoveEntry && final(rename).reaped == old(rename).reaped
            })
            &&& asked is ReapTarget ==> next is MoveEntry
            &&& asked is MoveEntry ==> next is Finish
            &&& discarded is Some ==> old(rename).reaped && discarded == old(rename).target
            &&& discarded is None ==> !old(rename).reaped || old(rename).target is None
        }),
{
}

} // verus!
