//! What updates do to a row, and what attributes say of it.
use crate::attrs::merge_pending_view;
use crate::batcher::AgentFSWriteBatcher;
use crate::file::AgentFSFile;
use crate::namespace::NewInode;
use crate::pending::PendingTimeChange;
use crate::stats::Stats;
use crate::tables::{InodeRow, InodeUpdate, LinkChange};
use crate::write_laws::waiting;
use vstd::prelude::*;

verus! {

/// How many links a row has after a change of them.
pub open spec fn links_after(links: LinkChange, nlink: int) -> int {
    match links {
        LinkChange::Keep => nlink,
        LinkChange::To(n) => n as int,
        LinkChange::Up => nlink + 1,
        LinkChange::Down => nlink - 1,
    }
}

/// A stamp sets the time of the last change, a touch that of the last modification as well,
/// and a new count of links no time. Each counts links as it is told, and leaves the rest of
/// the row alone.
pub proof fn an_update_changes_what_it_names(
    ino: i64,
    links: LinkChange,
    now: (i64, i64),
    stamp: InodeUpdate,
    touch: InodeUpdate,
    relink: InodeUpdate,
    row: InodeRow,
)
    requires
        call_ensures(InodeUpdate::stamp, (ino, links, now), stamp),
        call_ensures(InodeUpdate::touch, (ino, links, now), touch),
        call_ensures(InodeUpdate::relink, (ino, links), relink),
    ensures
        stamp.ino == ino && touch.ino == ino && relink.ino == ino,
        stamp.apply_to(row) == (InodeRow {
            nlink: links_after(links, row.nlink),
            ctime: now,
            ..row
        }),
        touch.apply_to(row) == (InodeRow {
            nlink: links_after(links, row.nlink),
            mtime: now,
            ctime: now,
            ..row
        }),
        relink.apply_to(row) == (InodeRow { nlink: links_after(links, row.nlink), ..row }),
{
}

/// The attributes of a new inode are those that its row is made with.
pub proof fn a_new_inode_looks_as_it_is_made(new: NewInode, ino: i64, nlink: u32, stats: Stats)
    requires
        call_ensures(NewInode::stats, (&new, ino, nlink), stats),
    ensures
        stats.ino == ino,
        stats.mode == new.mode,
        stats.nlink == nlink,
        stats.uid == new.uid,
        stats.gid == new.gid,
        stats.size == new.size,
        stats.rdev == new.rdev,
        stats.atime == new.now.0 && stats.mtime == new.now.0 && stats.ctime == new.now.0,
        0 <= new.now.1 <= u32::MAX ==> stats.atime_nsec == new.now.1 && stats.mtime_nsec
            == new.now.1 && stats.ctime_nsec == new.now.1,
{
}

/// The type of a file is in the upper bits of its mode, and it has one type at most.
pub proof fn a_file_has_one_type(stats: Stats, file: bool, directory: bool, link: bool)
    requires
        call_ensures(Stats::is_file, (&stats,), file),
        call_ensures(Stats::is_directory, (&stats,), directory),
        call_ensures(Stats::is_symlink, (&stats,), link),
    ensures
        file <==> stats.mode & 0o170000 == 0o100000,
        directory <==> stats.mode & 0o170000 == 0o040000,
        link <==> stats.mode & 0o170000 == 0o120000,
        !(file && directory) && !(file && link) && !(directory && link),
{
}

/// A change that names no time is empty.
pub proof fn a_change_without_times_is_empty(change: PendingTimeChange, empty: bool)
    requires
        call_ensures(PendingTimeChange::is_empty, (&change,), empty),
    ensures
        empty <==> change.atime is None && change.mtime is None && change.ctime is None,
{
}

/// Attributes show what waits only where reads do, and a file ends behind what waits only
/// there.
pub proof fn only_readers_of_waiting_writes_see_them(
    batcher: AgentFSWriteBatcher,
    ino: i64,
    plain: &mut Stats,
    shown: &mut Stats,
    merged: &mut Stats,
    file: AgentFSFile,
    end: Option<u64>,
)
    requires
        batcher.wf(),
        call_ensures(merge_pending_view, (false, Some(&batcher), ino, plain), ()),
        call_ensures(merge_pending_view, (true, Some(&batcher), ino, shown), ()),
        call_ensures(AgentFSWriteBatcher::merge_into_stats, (&batcher, ino, merged), ()),
        *old(shown) == *old(merged),
        call_ensures(AgentFSFile::pending_end, (&file, Some(&batcher)), end),
    ensures
        *final(plain) == *old(plain),
        *final(shown) == *final(merged),
        !file.overlay_reads ==> end is None,
        file.overlay_reads ==> (end is Some <==> waiting(batcher, file.ino).len() > 0),
{
    let all = waiting(batcher, file.ino);
    assert(all == batcher@.ranges_of(file.ino));
    if all.len() > 0 {
        assert(crate::ranges::max_end(all) is Some);
    }
}

} // verus!
