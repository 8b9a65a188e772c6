//! What the access rules grant, in terms of the bits of a mode and of who asks.
use crate::error::FsError;
use crate::semantics::access::{
    AttrChange, Credentials, TimeUpdate, group_ids, is_in_group, is_owner, is_owner_or_root,
    is_root, killpriv_mask, may_modify_directory, may_read, may_search, may_write,
    normalize_setattr_mode, setattr_allowed, sticky_delete_ok, sticky_rename_from_ok,
    without_killpriv,
};
use crate::stats::Stats;
use vstd::prelude::*;

verus! {

/// The tests of who asks say what they are named for: root is user 0, an owner has the user of
/// the inode, and a group counts whether it is the primary one or an auxiliary one.
pub proof fn callers_are_told_apart(
    stats: Stats,
    creds: Credentials,
    gid: u32,
    root: bool,
    owner: bool,
    either: bool,
    member: bool,
)
    requires
        call_ensures(is_root, (&creds,), root),
        call_ensures(is_owner, (&stats, &creds), owner),
        call_ensures(is_owner_or_root, (&stats, &creds), either),
        call_ensures(is_in_group, (&creds, gid), member),
    ensures
        root <==> creds.uid == 0,
        owner <==> creds.uid == stats.uid,
        either <==> creds.uid == 0 || creds.uid == stats.uid,
        member <==> creds.gid == gid || exists|i: int|
            0 <= i < group_ids(creds.groups).len() && group_ids(creds.groups)[i] == gid,
{
}

/// The owner is granted what the three owner bits grant, and nothing else, whatever the bits of
/// the group and of others are.
pub proof fn owner_bits_decide_for_the_owner(
    stats: Stats,
    creds: Credentials,
    read: bool,
    write: bool,
    search: bool,
)
    requires
        call_ensures(may_read, (&stats, &creds), read),
        call_ensures(may_write, (&stats, &creds), write),
        call_ensures(may_search, (&stats, &creds), search),
        creds.uid != 0,
        creds.uid == stats.uid,
    ensures
        read <==> stats.mode & 0o400 != 0,
        write <==> stats.mode & 0o200 != 0,
        search <==> stats.mode & 0o100 != 0,
{
}

/// A caller in the group, by the primary or an auxiliary one, who is not the owner is granted
/// what the three group bits grant.
pub proof fn group_bits_decide_for_the_group(
    stats: Stats,
    creds: Credentials,
    read: bool,
    write: bool,
    search: bool,
)
    requires
        call_ensures(may_read, (&stats, &creds), read),
        call_ensures(may_write, (&stats, &creds), write),
        call_ensures(may_search, (&stats, &creds), search),
        creds.uid != 0,
        creds.uid != stats.uid,
        creds.gid == stats.gid || group_ids(creds.groups).contains(stats.gid),
    ensures
        read <==> stats.mode & 0o040 != 0,
        write <==> stats.mode & 0o020 != 0,
        search <==> stats.mode & 0o010 != 0,
{
}

/// Whoever neither owns an inode nor is in its group is granted what the three bits of others
/// grant.
pub proof fn other_bits_decide_for_strangers(
    stats: Stats,
    creds: Credentials,
    read: bool,
    write: bool,
    search: bool,
)
    requires
        call_ensures(may_read, (&stats, &creds), read),
        call_ensures(may_write, (&stats, &creds), write),
        call_ensures(may_search, (&stats, &creds), search),
        creds.uid != 0,
        creds.uid != stats.uid,
        creds.gid != stats.gid,
        !group_ids(creds.groups).contains(stats.gid),
    ensures
        read <==> stats.mode & 0o004 != 0,
        write <==> stats.mode & 0o002 != 0,
        search <==> stats.mode & 0o001 != 0,
{
}

/// Root reads and writes everything and searches every directory, but executes a file only if
/// one of the three execute bits is set.
pub proof fn root_executes_what_somebody_may(
    stats: Stats,
    creds: Credentials,
    read: bool,
    write: bool,
    search: bool,
)
    requires
        call_ensures(may_read, (&stats, &creds), read),
        call_ensures(may_write, (&stats, &creds), write),
        call_ensures(may_search, (&stats, &creds), search),
        creds.uid == 0,
    ensures
        read,
        write,
        stats.mode & 0o170000 == 0o040000 ==> search,
        stats.mode & 0o170000 != 0o040000 ==> (search <==> stats.mode & 0o100 != 0 || stats.mode
            & 0o010 != 0 || stats.mode & 0o001 != 0),
{
    let mode = stats.mode;
    assert(mode & 0o111 != 0 <==> mode & 0o100 != 0 || mode & 0o010 != 0 || mode & 0o001 != 0)
        by (bit_vector);
}

/// Entries of a directory are changed by who may both write and search it.
pub proof fn a_directory_is_changed_by_who_writes_and_searches_it(
    parent: Stats,
    creds: Credentials,
    write: bool,
    search: bool,
    modify: bool,
)
    requires
        call_ensures(may_write, (&parent, &creds), write),
        call_ensures(may_search, (&parent, &creds), search),
        call_ensures(may_modify_directory, (&parent, &creds), modify),
    ensures
        modify <==> write && search,
{
}

/// An entry is removed by who may change the directory; where the directory has the sticky bit,
/// only by root and by the owners of the directory and of the entry among them.
pub proof fn the_sticky_bit_protects_entries(
    parent: Stats,
    victim: Stats,
    creds: Credentials,
    modify: bool,
    remove: bool,
)
    requires
        call_ensures(may_modify_directory, (&parent, &creds), modify),
        call_ensures(sticky_delete_ok, (&parent, &victim, &creds), remove),
    ensures
        parent.mode & 0o1000 == 0 ==> remove == modify,
        parent.mode & 0o1000 != 0 ==> (remove <==> modify && (creds.uid == 0 || creds.uid
            == parent.uid || creds.uid == victim.uid)),
{
}

/// An entry is renamed away by who may remove it; a directory goes to another parent only by
/// root and by its own owner among them.
pub proof fn a_directory_changes_parents_by_its_owner(
    parent: Stats,
    victim: Stats,
    creds: Credentials,
    crosses_parent: bool,
    remove: bool,
    rename: bool,
)
    requires
        call_ensures(sticky_delete_ok, (&parent, &victim, &creds), remove),
        call_ensures(sticky_rename_from_ok, (&parent, &victim, &creds, crosses_parent), rename),
    ensures
        !crosses_parent ==> rename == remove,
        victim.mode & 0o170000 != 0o040000 ==> rename == remove,
        crosses_parent && victim.mode & 0o170000 == 0o040000 ==> (rename <==> remove && (creds.uid
            == 0 || creds.uid == victim.uid)),
{
}

/// A new size comes from who may write. The mode, the owner, the group and given times are left
/// to the owner, who stays the owner and chooses among the own groups, and to root, who is held
/// to none of this. Times are set to the present by the owner and by who may write. Whatever
/// keeps to that is allowed, and whatever does not is refused with the error of its kind.
pub proof fn attributes_change_by_right(
    stats: Stats,
    creds: Credentials,
    change: AttrChange,
    write: bool,
    result: Result<(), FsError>,
)
    requires
        call_ensures(may_write, (&stats, &creds), write),
        call_ensures(setattr_allowed, (&stats, &creds, &change), result),
    ensures
        ({
            let owner = creds.uid == 0 || creds.uid == stats.uid;
            let resizes = change.size && !write;
            let chmods = change.mode is Some && !owner;
            let chowns = creds.uid != 0 && (change.uid matches Some(uid) && uid != stats.uid);
            let chgrps = creds.uid != 0 && (change.gid matches Some(gid) && (creds.uid != stats.uid
                || (creds.gid != gid && !group_ids(creds.groups).contains(gid))));
            let given = change.atime == TimeUpdate::Explicit || change.mtime
                == TimeUpdate::Explicit;
            let present = change.atime == TimeUpdate::Now || change.mtime == TimeUpdate::Now;
            let refused = chmods || chowns || chgrps || (given && !owner);
            let denied = present && !owner && !write;
            &&& resizes ==> result == Err::<(), FsError>(FsError::PermissionDenied)
            &&& !resizes && refused ==> result == Err::<(), FsError>(FsError::OperationNotPermitted)
            &&& !resizes && !refused && denied ==> result == Err::<(), FsError>(
                FsError::PermissionDenied,
            )
            &&& !resizes && !refused && !denied ==> result is Ok
        }),
{
}

/// What is cleared when a file changes is its set-user and set-group bits, and nothing else of
/// its mode. Nothing is cleared of what is not a regular file.
pub proof fn a_changed_file_loses_its_set_id_bits(
    stats: Stats,
    creds: Credentials,
    mode: u32,
    mask: u32,
    left: u32,
)
    requires
        call_ensures(killpriv_mask, (&stats, &creds), mask),
        call_ensures(without_killpriv, (&stats, &creds, mode), left),
    ensures
        stats.mode & 0o170000 == 0o100000 ==> {
            &&& mask == stats.mode & 0o6000
            &&& left & 0o6000 == mode & 0o6000 & !stats.mode
            &&& left & !0o6000 == mode & !0o6000
        },
        stats.mode & 0o170000 != 0o100000 ==> mask == 0 && left == mode,
{
    let old_mode = stats.mode;
    assert((mode & !(old_mode & 0o6000)) & 0o6000 == mode & 0o6000 & !old_mode) by (bit_vector);
    assert((mode & !(old_mode & 0o6000)) & !0o6000 == mode & !0o6000) by (bit_vector);
    assert(mode & !0u32 == mode) by (bit_vector);
}

/// A change of a mode asks for permission bits alone. All of them are granted but the set-group
/// bit, which is left out for who is neither root nor in the group that the file will have.
pub proof fn the_set_group_bit_needs_the_group(
    stats: Stats,
    creds: Credentials,
    change: AttrChange,
    mode: Option<u32>,
)
    requires
        call_ensures(normalize_setattr_mode, (&stats, &creds, &change), mode),
    ensures
        mode is Some <==> change.mode is Some,
        mode matches Some(granted) ==> {
            let asked = change.mode->Some_0;
            let gid = match change.gid {
                Some(gid) => gid,
                None => stats.gid,
            };
            let member = creds.uid == 0 || creds.gid == gid || group_ids(creds.groups).contains(
                gid,
            );
            &&& granted & 0o5777 == asked & 0o5777
            &&& granted & !0o7777 == 0
            &&& granted & 0o2000 == if member {
                asked & 0o2000
            } else {
                0
            }
        },
{
    if let Some(asked) = change.mode {
        assert((asked & 0o7777) & 0o5777 == asked & 0o5777) by (bit_vector);
        assert((asked & 0o7777) & !0o7777 == 0) by (bit_vector);
        assert((asked & 0o7777) & 0o2000 == asked & 0o2000) by (bit_vector);
        assert(((asked & 0o7777) & !0o2000) & 0o5777 == asked & 0o5777) by (bit_vector);
        assert(((asked & 0o7777) & !0o2000) & !0o7777 == 0) by (bit_vector);
        assert(((asked & 0o7777) & !0o2000) & 0o2000 == 0) by (bit_vector);
    }
}

} // verus!
