//! What changes of the overlay ask for, and when they are refused.
use crate::error::FsError;
use crate::overlay_create::{MakeAsk, MakeReply, NewEntry, OverlayCreate};
use crate::overlay_maps::{Layer, OverlayMaps};
use crate::overlay_remove::{OverlayRemove, RemoveAsk, RemoveReply};
use crate::overlay_rename::{MoveAsk, MoveReply, OverlayRename};
use vstd::prelude::*;

verus! {

/// A directory is made only under a name that nothing has. Whatever else is made, the path is
/// shown first. A link to a file that only the base has is made to its copy.
pub proof fn what_is_made_depends_on_what_is_there(
    maps: OverlayMaps,
    parent: i64,
    name: &str,
    entry: NewEntry,
    uid: u32,
    gid: u32,
    result: Result<OverlayCreate, FsError>,
)
    requires
        call_ensures(OverlayCreate::start, (&maps, parent, name, entry, uid, gid), result),
    ensures
        result is Err ==> result->Err_0 is NotFound,
        result is Ok <==> maps@.inode.contains_key(parent) && (entry matches NewEntry::Link(ino)
            ==> maps@.inode.contains_key(ino)),
        result matches Ok(making) ==> {
            &&& making.path@ == if maps@.inode[parent].path == seq!['/'] {
                seq!['/'] + name@
            } else {
                maps@.inode[parent].path + seq!['/'] + name@
            }
            &&& entry is Directory <==> making.state.asked is FindExisting
            &&& entry !is Link ==> making.state.uid == uid && making.state.gid == gid
                && making.state.linked is None
            &&& entry is Link ==> making.state.uid == 0 && making.state.gid == 0
            &&& entry is Other ==> making.state.asked is Unhide
            &&& entry matches NewEntry::Link(ino) ==> {
                let info = maps@.inode[ino];
                &&& info.layer == Layer::Delta ==> making.state.asked is Unhide
                    && making.state.linked == Some(info.underlying_ino)
                &&& info.layer == Layer::Base ==> making.state.asked == MakeAsk::CopySource(
                    info.underlying_ino,
                ) && making.state.linked is None
            }
        },
{
    if let Ok(making) = result {
        let dir = maps@.inode[parent].path;
        assert(dir == seq!['/'] ==> making.path@ =~= seq!['/'] + name@);
        assert(dir != seq!['/'] ==> making.path@ =~= dir + seq!['/'] + name@);
    }
}

/// A name is made behind its directories: the path is shown, the directories above it are
/// made for the owner, and then the name where the delta has its directory. Only a directory
/// whose name is taken, and a parent that the delta lacks, end it.
pub proof fn a_name_is_made_behind_its_directories(
    making: &mut OverlayCreate,
    reply: MakeReply,
    result: Result<(), FsError>,
)
    requires
        old(making).state.expects(reply),
        call_ensures(OverlayCreate::step, (making, reply), result),
    ensures
        final(making).path@ == old(making).path@,
        ({
            let before = old(making).state;
            let after = final(making).state;
            &&& after.uid == before.uid && after.gid == before.gid
            &&& result is Err <==> (before.asked is FindExisting && reply->Found_0 is Some) || (
            before.asked is DeltaParent && reply->Dir_0 is None)
            &&& before.asked is FindExisting && result is Err ==> result->Err_0 is AlreadyExists
            &&& before.asked is DeltaParent && result is Err ==> result->Err_0 is NotFound
            &&& before.asked is FindExisting && result is Ok ==> after.asked is Unhide
            &&& before.asked is CopySource ==> after.asked is Unhide && after.linked == Some(
                reply->Inode_0,
            )
            &&& before.asked is Unhide ==> after.asked == MakeAsk::MakeParents {
                uid: before.uid,
                gid: before.gid,
            }
            &&& before.asked is MakeParents ==> after.asked is DeltaParent
            &&& before.asked is DeltaParent && result is Ok ==> after.asked == MakeAsk::Make(
                reply->Dir_0->0,
            )
            &&& before.asked is Make ==> after.asked is Finish
            &&& before.asked !is CopySource ==> after.linked == before.linked
        }),
{
}

/// A removal starts with what the overlay shows under the name.
pub proof fn a_removal_starts_with_what_is_shown(
    maps: OverlayMaps,
    parent: i64,
    name: &str,
    directory: bool,
    result: Result<OverlayRemove, FsError>,
)
    requires
        call_ensures(OverlayRemove::start, (&maps, parent, name, directory), result),
    ensures
        result is Ok <==> maps@.inode.contains_key(parent),
        result is Err ==> result->Err_0 is NotFound,
        result matches Ok(removal) ==> {
            &&& removal.asked is Find
            &&& removal.directory == directory
            &&& removal.removed is None
            &&& removal.path@ == if maps@.inode[parent].path == seq!['/'] {
                seq!['/'] + name@
            } else {
                maps@.inode[parent].path + seq!['/'] + name@
            }
        },
{
    if let Ok(removal) = result {
        let dir = maps@.inode[parent].path;
        assert(dir == seq!['/'] ==> removal.path@ =~= seq!['/'] + name@);
        assert(dir != seq!['/'] ==> removal.path@ =~= dir + seq!['/'] + name@);
    }
}

/// A name that shows nothing, a directory that is unlinked, a file that is removed as a
/// directory, and a directory that is not empty are refused before anything changes.
pub proof fn only_what_may_go_is_removed(
    removal: &mut OverlayRemove,
    reply: RemoveReply,
    result: Result<(), FsError>,
)
    requires
        old(removal)@.expects(reply),
        call_ensures(OverlayRemove::step, (removal, reply), result),
    ensures
        ({
            let asked = old(removal).asked;
            let next = final(removal).asked;
            &&& asked is Find ==> {
                let found = reply->Found_0;
                let is_dir = found is Some && found->0.mode & 0o170000 == 0o040000;
                &&& result is Ok <==> found is Some && is_dir == old(removal).directory
                &&& found is None ==> result->Err_0 is NotFound
                &&& found is Some && is_dir && !old(removal).directory
                    ==> result->Err_0 is IsADirectory
                &&& found is Some && !is_dir && old(removal).directory
                    ==> result->Err_0 is NotADirectory
                &&& result is Ok && is_dir ==> next == RemoveAsk::CountEntries(found->0)
                &&& result is Ok && !is_dir ==> next is DeltaParent
            }
            &&& asked is CountEntries ==> {
                &&& result is Ok <==> reply->Entries_0 == 0
                &&& result is Err ==> result->Err_0 is NotEmpty
                &&& result is Ok ==> next is DeltaParent
            }
            &&& result is Err ==> final(removal)@ == old(removal)@
            &&& final(removal).path@ == old(removal).path@
            &&& final(removal).directory == old(removal).directory
        }),
{
}

/// What the delta has under a name is removed there, and what was recorded of it goes with
/// it. What still shows after that is hidden.
pub proof fn a_removed_name_is_hidden_where_it_still_shows(
    removal: &mut OverlayRemove,
    reply: RemoveReply,
    result: Result<(), FsError>,
)
    requires
        old(removal)@.expects(reply),
        call_ensures(OverlayRemove::step, (removal, reply), result),
    ensures
        ({
            let asked = old(removal).asked;
            let next = final(removal).asked;
            &&& asked is DeltaParent && reply->Dir_0 is None ==> next is LookAgain
            &&& asked is DeltaParent && reply->Dir_0 is Some && old(removal).directory ==> next
                == RemoveAsk::RemoveInDelta(reply->Dir_0->0)
            &&& asked is DeltaParent && reply->Dir_0 is Some && !old(removal).directory ==> next
                == RemoveAsk::FindInDelta(reply->Dir_0->0)
            &&& asked matches RemoveAsk::FindInDelta(dir) ==> {
                &&& next == RemoveAsk::RemoveInDelta(dir)
                &&& final(removal).removed is Some <==> reply->Found_0 is Some
                &&& reply->Found_0 is Some ==> final(removal).removed->0 == reply->Found_0->0.ino
            }
            &&& asked !is FindInDelta ==> final(removal).removed == old(removal).removed
            &&& asked is RemoveInDelta ==> {
                let outcome = reply->Removed_0;
                &&& result is Ok <==> outcome is Ok || outcome->Err_0 is NotFound
                &&& result is Err ==> result->Err_0 == outcome->Err_0
                &&& result is Ok && old(removal).removed is Some ==> next == RemoveAsk::CleanUp(
                    old(removal).removed->0,
                )
                &&& result is Ok && old(removal).removed is None ==> next is LookAgain
            }
            &&& asked is CleanUp ==> next is LookAgain
            &&& asked is LookAgain && reply->Found_0 is Some ==> next is Hide
            &&& asked is LookAgain && reply->Found_0 is None ==> next is Finish
            &&& asked is Hide ==> next is Finish
        }),
{
}

/// A rename is of the two paths that its names lead to.
pub proof fn a_rename_is_of_two_paths(
    maps: OverlayMaps,
    old_parent: i64,
    old_name: &str,
    new_parent: i64,
    new_name: &str,
    result: Result<OverlayRename, FsError>,
)
    requires
        call_ensures(
            OverlayRename::start,
            (&maps, old_parent, old_name, new_parent, new_name),
            result,
        ),
    ensures
        result is Ok <==> maps@.inode.contains_key(old_parent) && maps@.inode.contains_key(
            new_parent,
        ),
        result is Err ==> result->Err_0 is NotFound,
        result matches Ok(rename) ==> {
            let from = maps@.inode[old_parent].path;
            let to = maps@.inode[new_parent].path;
            &&& rename.state.asked is FindSource
            &&& rename.old_path@ == if from == seq!['/'] {
                seq!['/'] + old_name@
            } else {
                from + seq!['/'] + old_name@
            }
            &&& rename.new_path@ == if to == seq!['/'] {
                seq!['/'] + new_name@
            } else {
                to + seq!['/'] + new_name@
            }
        },
{
    if let Ok(rename) = result {
        let from = maps@.inode[old_parent].path;
        let to = maps@.inode[new_parent].path;
        assert(from == seq!['/'] ==> rename.old_path@ =~= seq!['/'] + old_name@);
        assert(from != seq!['/'] ==> rename.old_path@ =~= from + seq!['/'] + old_name@);
        assert(to == seq!['/'] ==> rename.new_path@ =~= seq!['/'] + new_name@);
        assert(to != seq!['/'] ==> rename.new_path@ =~= to + seq!['/'] + new_name@);
    }
}

/// A source that is not shown, a directory that the base still shows, and a parent that the
/// delta lacks end a rename, and nothing else does.
pub proof fn a_rename_needs_its_source_and_its_parents(
    rename: &mut OverlayRename,
    reply: MoveReply,
    result: Result<(), FsError>,
)
    requires
        old(rename).state.expects(reply),
        call_ensures(OverlayRename::step, (rename, reply), result),
    ensures
        ({
            let asked = old(rename).state.asked;
            &&& asked is FindSource ==> (result is Err <==> reply->Found_0 is None)
            &&& asked is PlaceOf ==> (result is Err <==> reply->Place_0 is None)
            &&& asked matches MoveAsk::BaseShows(stats) ==> (result is Err <==> reply->Shows_0
                && stats.mode & 0o170000 == 0o040000)
            &&& asked is OldParent || asked is NewParent ==> (result is Err <==> reply->Dir_0
                is None)
            &&& asked is FindTarget || asked is Unhide || asked is CopySource || asked
                is MakeParents || asked is MoveEntry || asked is Refresh || asked is LookAgain
                || asked is Hide ==> result is Ok
            &&& result is Err && asked is BaseShows ==> result->Err_0 is CrossDevice
            &&& result is Err && asked !is BaseShows ==> result->Err_0 is NotFound
            &&& result is Err ==> final(rename).state == old(rename).state
            &&& final(rename).old_path@ == old(rename).old_path@
            &&& final(rename).new_path@ == old(rename).new_path@
        }),
{
}

/// A rename remembers the inode that it moves, the one that it replaces and the two
/// directories, moves the entry from the one directory to the other, and lets the number of
/// the source stand for what was moved.
pub proof fn a_rename_moves_its_source(
    rename: &mut OverlayRename,
    reply: MoveReply,
    result: Result<(), FsError>,
)
    requires
        old(rename).state.expects(reply),
        call_ensures(OverlayRename::step, (rename, reply), result),
        result is Ok,
    ensures
        ({
            let before = old(rename).state;
            let after = final(rename).state;
            let asked = before.asked;
            &&& asked is FindSource ==> after.source == reply->Found_0->0.ino && after.asked
                == MoveAsk::PlaceOf(reply->Found_0->0)
            &&& asked !is FindSource ==> after.source == before.source
            &&& asked matches MoveAsk::PlaceOf(stats) ==> {
                &&& reply->Place_0 == Some((after.layer, after.underlying))
                &&& after.asked == if stats.mode & 0o170000 == 0o040000 {
                    MoveAsk::BaseShows(stats)
                } else {
                    MoveAsk::FindTarget
                }
            }
            &&& asked is BaseShows ==> after.asked is FindTarget
            &&& asked is FindTarget ==> {
                &&& after.asked is Unhide
                &&& after.replaced is Some <==> reply->Found_0 is Some
                &&& reply->Found_0 is Some ==> after.replaced->0 == reply->Found_0->0.ino
            }
            &&& asked !is FindTarget ==> after.replaced == before.replaced
            &&& asked is Unhide && before.layer == Layer::Base ==> after.asked
                == MoveAsk::CopySource(before.underlying)
            &&& asked is Unhide && before.layer == Layer::Delta ==> after.asked is MakeParents
            &&& asked is CopySource ==> after.underlying == reply->Inode_0 && after.asked
                is MakeParents
            &&& asked !is PlaceOf && asked !is CopySource ==> after.underlying
                == before.underlying
            &&& asked is MakeParents ==> after.asked is OldParent
            &&& asked is OldParent ==> after.from == reply->Dir_0->0 && after.asked is NewParent
            &&& asked is NewParent ==> after.asked == MoveAsk::MoveEntry {
                from: before.from,
                to: reply->Dir_0->0,
            }
            &&& asked is MoveEntry ==> after.asked == MoveAsk::Refresh {
                ino: before.source,
                delta_ino: before.underlying,
            }
            &&& asked is Refresh ==> after.asked is LookAgain
            &&& asked is LookAgain && reply->Found_0 is Some ==> after.asked is Hide
            &&& asked is LookAgain && reply->Found_0 is None ==> after.asked is Finish
            &&& asked is Hide ==> after.asked is Finish
        }),
{
}

} // verus!
