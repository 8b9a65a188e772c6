//! What the operations on names leave in the tables, row by row.
use crate::error::FsError;
use crate::namespace::{
    Created, NewInode, Plan, check_name, create_file_finish, create_file_row, entry_inserted,
    mkdir_finish, mkdir_row, mknod_finish, mknod_row, symlink_finish, symlink_row,
};
use crate::pending::PendingTimeChange;
use crate::removal::{
    Move, clear_target, drop_removed_dir, link_plan, move_plan, reap_after_unlink, rmdir_plan,
};
use crate::stats::Stats;
use crate::tables::{InodeRow, RowChange, Tables};
use vstd::prelude::*;

verus! {

broadcast use {crate::tables::changed_by_push, crate::tables::changed_by_none};

/// Whether the rows of all inodes but two are the same.
pub open spec fn other_rows_stay(t: Tables, u: Tables, one: i64, two: i64) -> bool {
    forall|other: i64|
        #![trigger u.inodes.contains_key(other)]
        #![trigger u.inodes[other]]
        other != one && other != two ==> u.inodes.contains_key(other) == t.inodes.contains_key(
            other,
        ) && u.inodes[other] == t.inodes[other]
}

/// A name of up to 255 bytes is accepted, and a longer one refused.
pub proof fn names_have_up_to_255_bytes(name: &str, result: Result<(), FsError>)
    requires
        call_ensures(check_name, (name,), result),
    ensures
        name.len() <= 255 <==> result is Ok,
        name.len() > 255 ==> result == Err::<(), FsError>(FsError::NameTooLong),
{
}

/// A new directory has the type of a directory and the permission bits that were asked for. It is
/// refused exactly if the name is too long or taken.
pub proof fn a_new_directory_is_a_directory(
    name: &str,
    existing: Option<i64>,
    mode: u32,
    uid: u32,
    gid: u32,
    now: (i64, i64),
    result: Result<NewInode, FsError>,
)
    requires
        call_ensures(mkdir_row, (name, existing, mode, uid, gid, now), result),
    ensures
        name.len() > 255 ==> result == Err::<NewInode, FsError>(FsError::NameTooLong),
        name.len() <= 255 && existing is Some ==> result == Err::<NewInode, FsError>(
            FsError::AlreadyExists,
        ),
        name.len() <= 255 && existing is None ==> result is Ok,
        result matches Ok(row) ==> {
            &&& row.mode & 0o170000 == 0o040000
            &&& row.mode & 0o7777 == mode & 0o7777
            &&& row.mode <= 0o177777
            &&& row.uid == uid && row.gid == gid
            &&& row.size == 0 && row.rdev == 0 && !row.inline
            &&& row.now == now
        },
{
    assert((0o040000u32 | (mode & 0o7777)) & 0o170000 == 0o040000) by (bit_vector);
    assert((0o040000u32 | (mode & 0o7777)) & 0o7777 == mode & 0o7777) by (bit_vector);
    assert((0o040000u32 | (mode & 0o7777)) <= 0o177777) by (bit_vector);
}

/// A new file has the type of a regular file and the permission bits that were asked for, one
/// link, and no contents, kept in its row. It is refused here exactly if the name is too long.
pub proof fn a_new_file_is_a_regular_file(
    name: &str,
    mode: u32,
    uid: u32,
    gid: u32,
    now: (i64, i64),
    result: Result<NewInode, FsError>,
)
    requires
        call_ensures(create_file_row, (name, mode, uid, gid, now), result),
    ensures
        name.len() > 255 ==> result == Err::<NewInode, FsError>(FsError::NameTooLong),
        name.len() <= 255 ==> result is Ok,
        result matches Ok(row) ==> {
            &&& row.mode & 0o170000 == 0o100000
            &&& row.mode & 0o7777 == mode & 0o7777
            &&& row.mode <= 0o177777
            &&& row.nlink == 1
            &&& row.uid == uid && row.gid == gid
            &&& row.size == 0 && row.rdev == 0 && row.inline
            &&& row.now == now
        },
{
    assert((0o100000u32 | (mode & 0o7777)) & 0o170000 == 0o100000) by (bit_vector);
    assert((0o100000u32 | (mode & 0o7777)) & 0o7777 == mode & 0o7777) by (bit_vector);
    assert((0o100000u32 | (mode & 0o7777)) <= 0o177777) by (bit_vector);
}

/// A name that is taken shows when its entry is inserted.
pub proof fn a_taken_name_is_refused(violated: bool, result: Result<(), FsError>)
    requires
        call_ensures(entry_inserted, (violated,), result),
    ensures
        violated ==> result == Err::<(), FsError>(FsError::AlreadyExists),
        !violated ==> result is Ok,
{
}

/// A new node has the mode and the device number that were asked for, all bits of them. It is
/// refused exactly if the name is too long or taken.
pub proof fn a_new_node_is_what_was_asked_for(
    name: &str,
    existing: Option<i64>,
    mode: u32,
    rdev: u64,
    uid: u32,
    gid: u32,
    now: (i64, i64),
    result: Result<NewInode, FsError>,
)
    requires
        call_ensures(mknod_row, (name, existing, mode, rdev, uid, gid, now), result),
    ensures
        name.len() > 255 ==> result == Err::<NewInode, FsError>(FsError::NameTooLong),
        name.len() <= 255 && existing is Some ==> result == Err::<NewInode, FsError>(
            FsError::AlreadyExists,
        ),
        name.len() <= 255 && existing is None ==> result is Ok,
        result matches Ok(row) ==> {
            &&& row.mode == mode
            &&& row.rdev == rdev
            &&& row.nlink == 0
            &&& row.uid == uid && row.gid == gid
            &&& row.size == 0 && !row.inline
            &&& row.now == now
        },
{
}

/// A new symbolic link has the type of one, lets everybody do everything, and is as long as its
/// target. It is refused exactly if the name is too long or taken.
pub proof fn a_new_symlink_is_as_long_as_its_target(
    name: &str,
    existing: Option<i64>,
    target: &str,
    uid: u32,
    gid: u32,
    now: (i64, i64),
    result: Result<NewInode, FsError>,
)
    requires
        call_ensures(symlink_row, (name, existing, target, uid, gid, now), result),
    ensures
        name.len() > 255 ==> result == Err::<NewInode, FsError>(FsError::NameTooLong),
        name.len() <= 255 && existing is Some ==> result == Err::<NewInode, FsError>(
            FsError::AlreadyExists,
        ),
        name.len() <= 255 && existing is None ==> result is Ok,
        result matches Ok(row) ==> {
            &&& row.mode == 0o120777
            &&& target.len() <= i64::MAX ==> row.size == target.len()
            &&& row.nlink == 0
            &&& row.uid == uid && row.gid == gid
            &&& row.rdev == 0 && !row.inline
            &&& row.now == now
        },
{
    assert(0o120000u32 | 0o777 == 0o120777) by (bit_vector);
}

/// The attributes that a creation reports are those of the new row.
pub open spec fn reports(stats: Stats, ino: i64, new: NewInode, nlink: u32) -> bool {
    &&& stats.ino == ino
    &&& stats.mode == new.mode
    &&& stats.nlink == nlink
    &&& stats.uid == new.uid && stats.gid == new.gid
    &&& stats.size == new.size && stats.rdev == new.rdev
    &&& stats.atime == new.now.0 && stats.mtime == new.now.0 && stats.ctime == new.now.0
    &&& 0 <= new.now.1 <= u32::MAX ==> stats.atime_nsec == new.now.1 && stats.mtime_nsec
        == new.now.1 && stats.ctime_nsec == new.now.1
}

/// A directory that was made has its name, two links, and is a link more of its parent, which
/// was modified just now. Nothing else changes.
pub proof fn a_made_directory_links_its_parent(
    t: Tables,
    new: NewInode,
    parent: i64,
    name: &str,
    ino: i64,
    created: Created,
)
    requires
        call_ensures(mkdir_finish, (&new, parent, name, ino), created),
        t.inodes.contains_key(parent),
        ino != parent,
    ensures
        ({
            let u = t.with_inode(ino, new.row()).changed_by(created.plan.changes@);
            let row = t.inodes[parent];
            &&& u.dentries == t.dentries.insert((parent, name@), ino)
            &&& u.symlinks == t.symlinks && u.chunks == t.chunks
            &&& u.inodes.contains_key(ino)
            &&& u.inodes[ino].nlink == 2
            &&& u.inodes[ino] == (InodeRow { nlink: 2, ..new.row() })
            &&& u.inodes.contains_key(parent)
            &&& u.inodes[parent] == (InodeRow {
                nlink: row.nlink + 1,
                mtime: new.now,
                ctime: new.now,
                ..row
            })
            &&& other_rows_stay(t, u, ino, parent)
        }),
        reports(created.stats, ino, new, 2),
        created.parent_times is None,
{
}

/// A file that was made has its name and one link, and its parent was modified just now. The new
/// times of the parent are written, or handed back to wait, but not both. Nothing else changes.
pub proof fn a_made_file_has_one_link(
    t: Tables,
    new: NewInode,
    parent: i64,
    name: &str,
    ino: i64,
    stash: bool,
    created: Created,
)
    requires
        call_ensures(create_file_finish, (&new, parent, name, ino, stash), created),
        t.inodes.contains_key(parent),
        ino != parent,
        new.nlink == 1,
    ensures
        ({
            let u = t.with_inode(ino, new.row()).changed_by(created.plan.changes@);
            let row = t.inodes[parent];
            &&& u.dentries == t.dentries.insert((parent, name@), ino)
            &&& u.symlinks == t.symlinks && u.chunks == t.chunks
            &&& u.inodes.contains_key(ino)
            &&& u.inodes[ino].nlink == 1
            &&& u.inodes[ino] == (InodeRow { nlink: 1, ..new.row() })
            &&& u.inodes.contains_key(parent)
            &&& u.inodes[parent] == if stash {
                row
            } else {
                InodeRow { mtime: new.now, ctime: new.now, ..row }
            }
            &&& other_rows_stay(t, u, ino, parent)
        }),
        created.parent_times == if stash {
            Some(
                PendingTimeChange { atime: None, mtime: Some(new.now), ctime: Some(new.now) },
            )
        } else {
            None
        },
        reports(created.stats, ino, new, 1),
{
}

/// A node that was made has its name and one link, and its parent was modified just now. Nothing
/// else changes.
pub proof fn a_made_node_has_one_link(
    t: Tables,
    new: NewInode,
    parent: i64,
    name: &str,
    ino: i64,
    created: Created,
)
    requires
        call_ensures(mknod_finish, (&new, parent, name, ino), created),
        t.inodes.contains_key(parent),
        ino != parent,
        new.nlink == 0,
    ensures
        ({
            let u = t.with_inode(ino, new.row()).changed_by(created.plan.changes@);
            let row = t.inodes[parent];
            &&& u.dentries == t.dentries.insert((parent, name@), ino)
            &&& u.symlinks == t.symlinks && u.chunks == t.chunks
            &&& u.inodes.contains_key(ino)
            &&& u.inodes[ino].nlink == 1
            &&& u.inodes[ino] == (InodeRow { nlink: 1, ..new.row() })
            &&& u.inodes.contains_key(parent)
            &&& u.inodes[parent] == (InodeRow { mtime: new.now, ctime: new.now, ..row })
            &&& other_rows_stay(t, u, ino, parent)
        }),
        created.parent_times is None,
        reports(created.stats, ino, new, 1),
{
}

/// A symbolic link that was made has its name, its target and one link, and its parent was
/// modified just now. Nothing else changes.
pub proof fn a_made_symlink_has_its_target(
    t: Tables,
    new: NewInode,
    parent: i64,
    name: &str,
    target: &str,
    ino: i64,
    created: Created,
)
    requires
        call_ensures(symlink_finish, (&new, parent, name, target, ino), created),
        t.inodes.contains_key(parent),
        ino != parent,
        new.nlink == 0,
    ensures
        ({
            let u = t.with_inode(ino, new.row()).changed_by(created.plan.changes@);
            let row = t.inodes[parent];
            &&& u.dentries == t.dentries.insert((parent, name@), ino)
            &&& u.symlinks == t.symlinks.insert(ino, target@)
            &&& u.chunks == t.chunks
            &&& u.inodes.contains_key(ino)
            &&& u.inodes[ino].nlink == 1
            &&& u.inodes[ino] == (InodeRow { nlink: 1, ..new.row() })
            &&& u.inodes.contains_key(parent)
            &&& u.inodes[parent] == (InodeRow { mtime: new.now, ctime: new.now, ..row })
            &&& other_rows_stay(t, u, ino, parent)
        }),
        created.parent_times is None,
        reports(created.stats, ino, new, 1),
{
}

/// A name that is unlinked is gone, and no other. Its inode has one link less and was changed
/// just now, and its directory was modified just now. No other row changes.
pub proof fn an_unlinked_name_takes_one_link(
    t: Tables,
    parent: i64,
    name: Seq<char>,
    ino: i64,
    now: (i64, i64),
)
    requires
        t.inodes.contains_key(parent),
        t.inodes.contains_key(ino),
        ino != parent,
    ensures
        ({
            let u = t.detached(parent, name, ino, now);
            &&& u.dentries == t.dentries.remove((parent, name))
            &&& u.symlinks == t.symlinks && u.chunks == t.chunks
            &&& u.inodes.contains_key(ino)
            &&& u.inodes[ino] == (InodeRow {
                nlink: t.inodes[ino].nlink - 1,
                ctime: now,
                ..t.inodes[ino]
            })
            &&& u.inodes.contains_key(parent)
            &&& u.inodes[parent] == (InodeRow { mtime: now, ctime: now, ..t.inodes[parent] })
            &&& other_rows_stay(t, u, ino, parent)
        }),
{
}

/// The inode of an unlinked name goes with its last link, unless it is open, and with it its
/// target and its contents, and nobody else's. With a link left, or open, it stays.
pub proof fn the_last_link_takes_the_inode(
    t: Tables,
    parent: i64,
    name: Seq<char>,
    ino: i64,
    now: (i64, i64),
    open: bool,
)
    requires
        t.inodes.contains_key(parent),
        t.inodes.contains_key(ino),
        ino != parent,
    ensures
        ({
            let u = t.unlinked(parent, name, ino, now, open);
            let last = t.inodes[ino].nlink == 1;
            &&& u.dentries == t.dentries.remove((parent, name))
            &&& u.inodes.contains_key(ino) <==> !last || open
            &&& u.inodes.contains_key(ino) ==> u.inodes[ino].nlink == t.inodes[ino].nlink - 1
                && u.symlinks == t.symlinks && u.chunks == t.chunks
            &&& last && !open ==> {
                &&& u.symlinks == t.symlinks.remove(ino)
                &&& forall|key: (i64, i64)| #[trigger]
                    u.chunks.contains_key(key) <==> t.chunks.contains_key(key) && key.0 != ino
                &&& forall|key: (i64, i64)| #[trigger]
                    u.chunks.contains_key(key) ==> u.chunks[key] == t.chunks[key]
            }
            &&& other_rows_stay(t, u, ino, parent)
        }),
{
}

/// An inode is reaped exactly when no link and no handle is left of it.
pub proof fn only_what_nobody_holds_is_reaped(
    ino: i64,
    links: u32,
    open: bool,
    reap: Option<RowChange>,
)
    requires
        call_ensures(reap_after_unlink, (ino, links, open), reap),
    ensures
        reap is Some <==> links == 0 && !open,
        reap matches Some(change) ==> change == (RowChange::Reap { ino }),
{
}

/// A directory is removed only if it is there, is a directory, is not the root and is empty. Its
/// name is gone, it has one link less, and its parent has one link less and was modified just
/// now. No other row changes.
pub proof fn only_empty_directories_are_removed(
    t: Tables,
    parent: i64,
    name: &str,
    child: Option<i64>,
    mode: Option<u32>,
    entries: i64,
    now: (i64, i64),
    result: Result<Plan, FsError>,
)
    requires
        call_ensures(rmdir_plan, (parent, name, child, mode, entries, now), result),
    ensures
        result is Ok <==> {
            &&& name.len() <= 255
            &&& child matches Some(ino) && ino != 1
            &&& mode matches Some(mode) && mode & 0o170000 == 0o040000
            &&& entries <= 0
        },
        name.len() > 255 ==> result == Err::<Plan, FsError>(FsError::NameTooLong),
        name.len() <= 255 && child is None ==> result == Err::<Plan, FsError>(FsError::NotFound),
        name.len() <= 255 && child == Some(1i64) ==> result == Err::<Plan, FsError>(
            FsError::RootOperation,
        ),
        name.len() <= 255 && child is Some && child->0 != 1 && mode is None ==> result == Err::<
            Plan,
            FsError,
        >(FsError::NotFound),
        name.len() <= 255 && child is Some && child->0 != 1 && mode is Some && mode->0 & 0o170000
            != 0o040000 ==> result == Err::<Plan, FsError>(FsError::NotADirectory),
        name.len() <= 255 && child is Some && child->0 != 1 && mode is Some && mode->0 & 0o170000
            == 0o040000 && entries > 0 ==> result == Err::<Plan, FsError>(FsError::NotEmpty),
        result matches Ok(plan) ==> {
            let ino = child->0;
            let u = t.changed_by(plan.changes@);
            t.inodes.contains_key(ino) && t.inodes.contains_key(parent) && ino != parent ==> {
                &&& u.dentries == t.dentries.remove((parent, name@))
                &&& u.symlinks == t.symlinks && u.chunks == t.chunks
                &&& u.inodes.contains_key(ino) && u.inodes.contains_key(parent)
                &&& u.inodes[ino] == (InodeRow {
                    nlink: t.inodes[ino].nlink - 1,
                    ..t.inodes[ino]
                })
                &&& u.inodes[parent] == (InodeRow {
                    nlink: t.inodes[parent].nlink - 1,
                    mtime: now,
                    ctime: now,
                    ..t.inodes[parent]
                })
                &&& other_rows_stay(t, u, ino, parent)
            }
        },
{
}

/// The row of a removed directory goes once it has no link.
pub proof fn a_directory_without_links_goes(ino: i64, links: u32, change: Option<RowChange>)
    requires
        call_ensures(drop_removed_dir, (ino, links), change),
    ensures
        change is Some <==> links == 0,
        change matches Some(found) ==> found == (RowChange::RemoveInode { ino }),
{
}

/// A further name is given to what is there and is no directory, if the name is free. It leads to
/// the same inode, which has one link more and was changed just now, and its directory was
/// modified just now. No other row changes.
pub proof fn a_further_name_adds_one_link(
    t: Tables,
    ino: i64,
    parent: i64,
    name: &str,
    mode: Option<u32>,
    existing: Option<i64>,
    now: (i64, i64),
    result: Result<Plan, FsError>,
)
    requires
        call_ensures(link_plan, (ino, parent, name, mode, existing, now), result),
    ensures
        result is Ok <==> {
            &&& name.len() <= 255
            &&& mode matches Some(mode) && mode & 0o170000 != 0o040000
            &&& existing is None
        },
        name.len() > 255 ==> result == Err::<Plan, FsError>(FsError::NameTooLong),
        name.len() <= 255 && mode is None ==> result == Err::<Plan, FsError>(FsError::NotFound),
        name.len() <= 255 && mode is Some && mode->0 & 0o170000 == 0o040000 ==> result == Err::<
            Plan,
            FsError,
        >(FsError::IsADirectory),
        name.len() <= 255 && mode is Some && mode->0 & 0o170000 != 0o040000 && existing is Some
            ==> result == Err::<Plan, FsError>(FsError::AlreadyExists),
        result matches Ok(plan) ==> {
            let u = t.changed_by(plan.changes@);
            t.inodes.contains_key(ino) && t.inodes.contains_key(parent) && ino != parent ==> {
                &&& u.dentries == t.dentries.insert((parent, name@), ino)
                &&& u.symlinks == t.symlinks && u.chunks == t.chunks
                &&& u.inodes.contains_key(ino) && u.inodes.contains_key(parent)
                &&& u.inodes[ino] == (InodeRow {
                    nlink: t.inodes[ino].nlink + 1,
                    ctime: now,
                    ..t.inodes[ino]
                })
                &&& u.inodes[parent] == (InodeRow { mtime: now, ctime: now, ..t.inodes[parent] })
                &&& other_rows_stay(t, u, ino, parent)
            }
        },
{
}

/// What a rename replaces loses its name and one link, and was changed just now. Nothing else
/// changes.
pub proof fn a_replaced_name_takes_one_link(
    t: Tables,
    parent: i64,
    name: &str,
    ino: i64,
    now: (i64, i64),
    changes: Vec<RowChange>,
)
    requires
        call_ensures(clear_target, (parent, name, ino, now), changes),
        t.inodes.contains_key(ino),
    ensures
        ({
            let u = t.changed_by(changes@);
            &&& u.dentries == t.dentries.remove((parent, name@))
            &&& u.symlinks == t.symlinks && u.chunks == t.chunks
            &&& u.inodes.contains_key(ino)
            &&& u.inodes[ino] == (InodeRow {
                nlink: t.inodes[ino].nlink - 1,
                ctime: now,
                ..t.inodes[ino]
            })
            &&& other_rows_stay(t, u, ino, ino)
        }),
{
}

/// A rename within a directory gives the entry its new name. The inode was changed and the
/// directory modified just now; no link count changes, and no other row.
pub proof fn a_rename_in_place_changes_the_name(
    t: Tables,
    m: Move,
    target: Option<i64>,
    now: (i64, i64),
    plan: Plan,
)
    requires
        call_ensures(move_plan, (&m, target, now), plan),
        m.parent == m.new_parent,
        t.dentries.contains_key((m.parent, m.name@)),
        t.inodes.contains_key(m.source),
        t.inodes.contains_key(m.parent),
        m.source != m.parent,
    ensures
        ({
            let u = t.changed_by(plan.changes@);
            let led = t.dentries[(m.parent, m.name@)];
            &&& u.dentries == t.dentries.remove((m.parent, m.name@)).insert(
                (m.parent, m.new_name@),
                led,
            )
            &&& u.symlinks == t.symlinks && u.chunks == t.chunks
            &&& u.inodes.contains_key(m.source) && u.inodes.contains_key(m.parent)
            &&& u.inodes[m.source] == (InodeRow { ctime: now, ..t.inodes[m.source] })
            &&& u.inodes[m.parent] == (InodeRow { mtime: now, ctime: now, ..t.inodes[m.parent] })
            &&& other_rows_stay(t, u, m.source, m.parent)
        }),
{
}

/// A rename to another directory takes the entry there. The inode was changed and both
/// directories modified just now. A directory takes its link to the parent along: the old parent
/// has one link less and the new one has one more. No other link count changes, and no other row.
pub proof fn a_rename_across_directories_takes_the_link_along(
    t: Tables,
    m: Move,
    target: Option<i64>,
    now: (i64, i64),
    plan: Plan,
)
    requires
        call_ensures(move_plan, (&m, target, now), plan),
        m.parent != m.new_parent,
        t.dentries.contains_key((m.parent, m.name@)),
        t.inodes.contains_key(m.source),
        t.inodes.contains_key(m.parent),
        t.inodes.contains_key(m.new_parent),
        m.source != m.parent,
        m.source != m.new_parent,
    ensures
        ({
            let u = t.changed_by(plan.changes@);
            let led = t.dentries[(m.parent, m.name@)];
            let moved: int = if m.source_is_dir {
                1
            } else {
                0
            };
            &&& u.dentries == t.dentries.remove((m.parent, m.name@)).insert(
                (m.new_parent, m.new_name@),
                led,
            )
            &&& u.symlinks == t.symlinks && u.chunks == t.chunks
            &&& u.inodes.contains_key(m.source)
            &&& u.inodes.contains_key(m.parent) && u.inodes.contains_key(m.new_parent)
            &&& u.inodes[m.source] == (InodeRow { ctime: now, ..t.inodes[m.source] })
            &&& u.inodes[m.parent] == (InodeRow {
                nlink: t.inodes[m.parent].nlink - moved,
                mtime: now,
                ctime: now,
                ..t.inodes[m.parent]
            })
            &&& u.inodes[m.new_parent] == (InodeRow {
                nlink: t.inodes[m.new_parent].nlink + moved,
                mtime: now,
                ctime: now,
                ..t.inodes[m.new_parent]
            })
            &&& forall|other: i64|
                #![trigger u.inodes.contains_key(other)]
                #![trigger u.inodes[other]]
                other != m.source && other != m.parent && other != m.new_parent
                    ==> u.inodes.contains_key(other) == t.inodes.contains_key(other)
                    && u.inodes[other] == t.inodes[other]
        }),
{
}

} // verus!
