//! POSIX access rules: owner, group and other, the sticky bit, changes of attributes and the
//! bits that grant privileges.
use crate::attrs::PERMISSION_BITS;
use crate::error::FsError;
use crate::stats::{S_IFDIR, S_IFREG, Stats, mode_is};
use vstd::prelude::*;

verus! {

pub const S_IRUSR: u32 = 0o400;

pub const S_IWUSR: u32 = 0o200;

pub const S_IXUSR: u32 = 0o100;

pub const S_IRGRP: u32 = 0o040;

pub const S_IWGRP: u32 = 0o020;

pub const S_IXGRP: u32 = 0o010;

pub const S_IROTH: u32 = 0o004;

pub const S_IWOTH: u32 = 0o002;

pub const S_IXOTH: u32 = 0o001;

pub const S_ISUID: u32 = 0o4000;

pub const S_ISGID: u32 = 0o2000;

pub const S_ISVTX: u32 = 0o1000;

/// Execute bits of all three classes.
pub const S_IXUGO: u32 = 0o111;

/// Bits that run a program with other rights than the caller's.
pub const KILLPRIV_BITS: u32 = 0o6000;

/// The auxiliary groups of a caller, in a `smallvec::SmallVec` that keeps a few in place.
#[derive(Debug)]
#[verifier::external_body]
pub struct GroupList {
    ids: smallvec::SmallVec<[u32; 16]>,
}

/// The items of a list of groups, in order.
pub uninterp spec fn group_ids(groups: GroupList) -> Seq<u32>;

/// `SmallVec::from_slice`: a vector of the items of the slice, in order.
#[verifier::external_body]
fn list_groups(ids: &[u32]) -> (groups: GroupList)
    ensures
        group_ids(groups) == ids@,
{
    GroupList { ids: smallvec::SmallVec::from_slice(ids) }
}

/// `SmallVec::as_slice`: the items of the vector, in order.
#[verifier::external_body]
fn groups_of(groups: &GroupList) -> (ids: &[u32])
    ensures
        ids@ == group_ids(*groups),
{
    groups.ids.as_slice()
}

/// Who asks for access.
#[derive(Debug)]
pub struct Credentials {
    pub uid: u32,
    pub gid: u32,
    pub groups: GroupList,
}

impl Credentials {
    /// Credentials with these auxiliary groups.
    pub fn new(uid: u32, gid: u32, groups: &[u32]) -> (creds: Credentials)
        ensures
            creds.uid == uid,
            creds.gid == gid,
            group_ids(creds.groups) == groups@,
    {
        Credentials { uid, gid, groups: list_groups(groups) }
    }

    pub open spec fn root(self) -> bool {
        self.uid == 0
    }

    pub open spec fn owns(self, stats: Stats) -> bool {
        self.uid == stats.uid
    }

    /// Whether the caller is a member of a group, by the primary or an auxiliary one.
    pub open spec fn member(self, gid: u32) -> bool {
        self.gid == gid || group_ids(self.groups).contains(gid)
    }
}

impl Clone for Credentials {
    fn clone(&self) -> (copy: Credentials)
        ensures
            copy.uid == self.uid,
            copy.gid == self.gid,
            group_ids(copy.groups) == group_ids(self.groups),
    {
        Credentials::new(self.uid, self.gid, groups_of(&self.groups))
    }
}

impl PartialEq for Credentials {
    fn eq(&self, other: &Credentials) -> (same: bool) {
        if self.uid != other.uid || self.gid != other.gid {
            return false;
        }
        let left: &[u32] = groups_of(&self.groups);
        let right: &[u32] = groups_of(&other.groups);
        if left.len() != right.len() {
            return false;
        }
        let mut i: usize = 0;
        while i < left.len()
            invariant
                i <= left@.len(),
                left@.len() == right@.len(),
                left@ == group_ids(self.groups),
                right@ == group_ids(other.groups),
                forall|k: int| 0 <= k < i ==> left@[k] == right@[k],
            decreases left@.len() - i,
        {
            if left[i] != right[i] {
                assert(left@[i as int] != right@[i as int]);
                return false;
            }
            i += 1;
        }
        assert(left@ =~= right@);
        true
    }
}

impl Eq for Credentials {

}

impl vstd::std_specs::cmp::PartialEqSpecImpl for Credentials {
    open spec fn obeys_eq_spec() -> bool {
        true
    }

    open spec fn eq_spec(&self, other: &Credentials) -> bool {
        &&& self.uid == other.uid
        &&& self.gid == other.gid
        &&& group_ids(self.groups) == group_ids(other.groups)
    }
}

/// A requested change of a timestamp.
#[derive(Clone, Copy, Debug, PartialEq, Eq, Structural)]
pub enum TimeUpdate {
    Omit,
    Now,
    Explicit,
}

impl Default for TimeUpdate {
    fn default() -> (update: TimeUpdate)
        ensures
            update == TimeUpdate::Omit,
    {
        TimeUpdate::Omit
    }
}

/// Changes of attributes that need permission.
#[derive(Clone, Copy, Debug, PartialEq, Eq, Structural)]
pub struct AttrChange {
    pub size: bool,
    pub mode: Option<u32>,
    pub uid: Option<u32>,
    pub gid: Option<u32>,
    pub atime: TimeUpdate,
    pub mtime: TimeUpdate,
}

impl Default for AttrChange {
    fn default() -> (change: AttrChange)
        ensures
            change == (AttrChange {
                size: false,
                mode: None,
                uid: None,
                gid: None,
                atime: TimeUpdate::Omit,
                mtime: TimeUpdate::Omit,
            }),
    {
        AttrChange {
            size: false,
            mode: None,
            uid: None,
            gid: None,
            atime: TimeUpdate::Omit,
            mtime: TimeUpdate::Omit,
        }
    }
}

/// The class of permission bits that applies to a caller.
pub enum Class {
    Owner,
    Group,
    Other,
}

/// The first class that a caller falls into. The classes after it do not matter.
pub open spec fn class_of(stats: Stats, creds: Credentials) -> Class {
    if creds.owns(stats) {
        Class::Owner
    } else if creds.member(stats.gid) {
        Class::Group
    } else {
        Class::Other
    }
}

/// The read, write and execute bits of a class.
pub open spec fn class_bits(class: Class) -> (u32, u32, u32) {
    match class {
        Class::Owner => (S_IRUSR, S_IWUSR, S_IXUSR),
        Class::Group => (S_IRGRP, S_IWGRP, S_IXGRP),
        Class::Other => (S_IROTH, S_IWOTH, S_IXOTH),
    }
}

pub open spec fn readable(stats: Stats, creds: Credentials) -> bool {
    creds.root() || (stats.mode & class_bits(class_of(stats, creds)).0) != 0
}

pub open spec fn writable(stats: Stats, creds: Credentials) -> bool {
    creds.root() || (stats.mode & class_bits(class_of(stats, creds)).1) != 0
}

/// Root may search any directory but executes a file only if some class may.
pub open spec fn searchable(stats: Stats, creds: Credentials) -> bool {
    if creds.root() {
        mode_is(stats.mode, S_IFDIR) || (stats.mode & S_IXUGO) != 0
    } else {
        (stats.mode & class_bits(class_of(stats, creds)).2) != 0
    }
}

/// Whether entries of a directory may be made, removed or renamed.
pub open spec fn modifiable(parent: Stats, creds: Credentials) -> bool {
    writable(parent, creds) && searchable(parent, creds)
}

/// Whether an entry may be removed. In a sticky directory only root and the owners of the
/// directory and of the entry may.
pub open spec fn deletable(parent: Stats, victim: Stats, creds: Credentials) -> bool {
    &&& modifiable(parent, creds)
    &&& (parent.mode & S_ISVTX) == 0 || creds.root() || creds.owns(parent) || creds.owns(victim)
}

/// Whether an entry may be renamed away. Moving a directory to another parent changes the
/// directory itself, so only root and its owner may.
pub open spec fn movable(
    parent: Stats,
    victim: Stats,
    creds: Credentials,
    crosses_parent: bool,
) -> bool {
    &&& deletable(parent, victim, creds)
    &&& crosses_parent && mode_is(victim.mode, S_IFDIR) ==> creds.root() || creds.owns(victim)
}

/// Whether the caller is root.
pub fn is_root(creds: &Credentials) -> (yes: bool)
    ensures
        yes == creds.root(),
{
    creds.uid == 0
}

/// Whether the caller owns the inode.
pub fn is_owner(stats: &Stats, creds: &Credentials) -> (yes: bool)
    ensures
        yes == creds.owns(*stats),
{
    creds.uid == stats.uid
}

/// Whether the caller is root or owns the inode.
pub fn is_owner_or_root(stats: &Stats, creds: &Credentials) -> (yes: bool)
    ensures
        yes == (creds.root() || creds.owns(*stats)),
{
    is_root(creds) || is_owner(stats, creds)
}

/// Whether the caller is a member of a group.
pub fn is_in_group(creds: &Credentials, gid: u32) -> (yes: bool)
    ensures
        yes == creds.member(gid),
{
    if creds.gid == gid {
        return true;
    }
    let ids: &[u32] = groups_of(&creds.groups);
    let mut i: usize = 0;
    while i < ids.len()
        invariant
            i <= ids@.len(),
            ids@ == group_ids(creds.groups),
            forall|k: int| 0 <= k < i ==> ids@[k] != gid,
        decreases ids@.len() - i,
    {
        if ids[i] == gid {
            assert(ids@[i as int] == gid);
            return true;
        }
        i += 1;
    }
    false
}

/// The rights that one class of bits gives.
#[derive(Clone, Copy)]
struct Rwx {
    read: bool,
    write: bool,
    execute: bool,
}

fn selected_bits(stats: &Stats, creds: &Credentials) -> (rights: Rwx)
    ensures
        rights.read == ((stats.mode & class_bits(class_of(*stats, *creds)).0) != 0),
        rights.write == ((stats.mode & class_bits(class_of(*stats, *creds)).1) != 0),
        rights.execute == ((stats.mode & class_bits(class_of(*stats, *creds)).2) != 0),
{
    let (read, write, execute): (u32, u32, u32) = if creds.uid == stats.uid {
        (S_IRUSR, S_IWUSR, S_IXUSR)
    } else if is_in_group(creds, stats.gid) {
        (S_IRGRP, S_IWGRP, S_IXGRP)
    } else {
        (S_IROTH, S_IWOTH, S_IXOTH)
    };
    Rwx {
        read: (stats.mode & read) != 0,
        write: (stats.mode & write) != 0,
        execute: (stats.mode & execute) != 0,
    }
}

/// Whether the caller may read.
pub fn may_read(stats: &Stats, creds: &Credentials) -> (yes: bool)
    ensures
        yes == readable(*stats, *creds),
{
    is_root(creds) || selected_bits(stats, creds).read
}

/// Whether the caller may write.
pub fn may_write(stats: &Stats, creds: &Credentials) -> (yes: bool)
    ensures
        yes == writable(*stats, *creds),
{
    is_root(creds) || selected_bits(stats, creds).write
}

/// Whether the caller may search a directory or execute a file.
pub fn may_search(stats: &Stats, creds: &Credentials) -> (yes: bool)
    ensures
        yes == searchable(*stats, *creds),
{
    if is_root(creds) {
        return stats.is_directory() || (stats.mode & S_IXUGO) != 0;
    }
    selected_bits(stats, creds).execute
}

/// Whether the caller may make, remove or rename entries of a directory.
pub fn may_modify_directory(parent: &Stats, creds: &Credentials) -> (yes: bool)
    ensures
        yes == modifiable(*parent, *creds),
{
    may_write(parent, creds) && may_search(parent, creds)
}

/// Whether the caller may remove `victim` from `parent`.
pub fn sticky_delete_ok(parent: &Stats, victim: &Stats, creds: &Credentials) -> (yes: bool)
    ensures
        yes == deletable(*parent, *victim, *creds),
{
    if !may_modify_directory(parent, creds) {
        return false;
    }
    if (parent.mode & S_ISVTX) == 0 {
        return true;
    }
    is_root(creds) || creds.uid == parent.uid || creds.uid == victim.uid
}

/// Whether the caller may rename `victim` out of `parent`.
pub fn sticky_rename_from_ok(
    parent: &Stats,
    victim: &Stats,
    creds: &Credentials,
    crosses_parent: bool,
) -> (yes: bool)
    ensures
        yes == movable(*parent, *victim, *creds, crosses_parent),
{
    if !sticky_delete_ok(parent, victim, creds) {
        return false;
    }
    if crosses_parent && victim.is_directory() && !is_root(creds) && !is_owner(victim, creds) {
        return false;
    }
    true
}

/// A change of size by a caller who may not write.
pub open spec fn resizes_unwritable(stats: Stats, creds: Credentials, change: AttrChange) -> bool {
    change.size && !writable(stats, creds)
}

/// A change that is the owner's, or root's: of the mode, to another owner, to a group that
/// the owner is not in, to explicit times.
pub open spec fn oversteps(stats: Stats, creds: Credentials, change: AttrChange) -> bool {
    !creds.root() && {
        ||| change.mode is Some && !creds.owns(stats)
        ||| change.uid matches Some(uid) && uid != stats.uid
        ||| change.gid matches Some(gid) && !(creds.owns(stats) && creds.member(gid))
        ||| (change.atime is Explicit || change.mtime is Explicit) && !creds.owns(stats)
    }
}

/// A change to the present time by a caller who neither owns the inode nor may write it.
pub open spec fn touches_unwritable(stats: Stats, creds: Credentials, change: AttrChange) -> bool {
    (change.atime is Now || change.mtime is Now) && !creds.root() && !creds.owns(stats)
        && !writable(stats, creds)
}

/// Refuses a change of attributes that the caller may not make.
pub fn setattr_allowed(stats: &Stats, creds: &Credentials, change: &AttrChange) -> (result: Result<
    (),
    FsError,
>)
    ensures
        if resizes_unwritable(*stats, *creds, *change) {
            result matches Err(FsError::PermissionDenied)
        } else if oversteps(*stats, *creds, *change) {
            result matches Err(FsError::OperationNotPermitted)
        } else if touches_unwritable(*stats, *creds, *change) {
            result matches Err(FsError::PermissionDenied)
        } else {
            result is Ok
        },
{
    if change.size && !may_write(stats, creds) {
        return Err(FsError::PermissionDenied);
    }
    if change.mode.is_some() && !is_owner_or_root(stats, creds) {
        return Err(FsError::OperationNotPermitted);
    }
    if let Some(uid) = change.uid {
        if !is_root(creds) && uid != stats.uid {
            return Err(FsError::OperationNotPermitted);
        }
    }
    if let Some(gid) = change.gid {
        if !is_root(creds) && (!is_owner(stats, creds) || !is_in_group(creds, gid)) {
            return Err(FsError::OperationNotPermitted);
        }
    }
    if (change.atime == TimeUpdate::Explicit || change.mtime == TimeUpdate::Explicit)
        && !is_owner_or_root(stats, creds) {
        return Err(FsError::OperationNotPermitted);
    }
    if (change.atime == TimeUpdate::Now || change.mtime == TimeUpdate::Now) && !is_owner_or_root(
        stats,
        creds,
    ) && !may_write(stats, creds) {
        return Err(FsError::PermissionDenied);
    }
    Ok(())
}

/// The privilege bits of a regular file.
pub open spec fn privileges(stats: Stats) -> u32 {
    if mode_is(stats.mode, S_IFREG) {
        stats.mode & KILLPRIV_BITS
    } else {
        0
    }
}

/// The mode bits to clear when the contents, the size or the owner of a file change,
/// whoever changes them.
pub fn killpriv_mask(stats: &Stats, _creds: &Credentials) -> (mask: u32)
    ensures
        mask == privileges(*stats),
{
    if !stats.is_file() {
        return 0;
    }
    stats.mode & KILLPRIV_BITS
}

/// A mode without the privilege bits that the file has.
pub fn without_killpriv(stats: &Stats, creds: &Credentials, mode: u32) -> (left: u32)
    ensures
        left == mode & !privileges(*stats),
{
    mode & !killpriv_mask(stats, creds)
}

/// The group that a file will have.
pub open spec fn group_after(stats: Stats, change: AttrChange) -> u32 {
    match change.gid {
        Some(gid) => gid,
        None => stats.gid,
    }
}

/// The mode that a change sets: its permission bits, without the set-group bit if the
/// caller is neither root nor in the group that the file will have.
pub fn normalize_setattr_mode(stats: &Stats, creds: &Credentials, change: &AttrChange) -> (mode:
    Option<u32>)
    ensures
        mode == match change.mode {
            None => None,
            Some(asked) => Some(
                if creds.root() || creds.member(group_after(*stats, *change)) {
                    asked & PERMISSION_BITS
                } else {
                    (asked & PERMISSION_BITS) & !S_ISGID
                },
            ),
        },
{
    match change.mode {
        None => None,
        Some(asked) => {
            let mut mode: u32 = asked & PERMISSION_BITS;
            if !is_root(creds) && (mode & S_ISGID) != 0 {
                let effective_gid: u32 = match change.gid {
                    Some(gid) => gid,
                    None => stats.gid,
                };
                if !is_in_group(creds, effective_gid) {
                    mode = mode & !S_ISGID;
                }
            } else {
                assert(mode & S_ISGID == 0 ==> mode & !S_ISGID == mode) by (bit_vector);
            }
            Some(mode)
        },
    }
}

/// Root may make every change of attributes.
pub proof fn root_may_change_attributes(stats: Stats, creds: Credentials, change: AttrChange)
    requires
        creds.root(),
    ensures
        !resizes_unwritable(stats, creds, change),
        !oversteps(stats, creds, change),
        !touches_unwritable(stats, creds, change),
{
}

/// The first class that a caller falls into decides: an owner whose bits deny is denied,
/// whatever the bits of the group and of others grant.
pub proof fn an_owner_is_held_to_the_owner_bits(stats: Stats, creds: Credentials)
    requires
        creds.owns(stats),
        !creds.root(),
    ensures
        readable(stats, creds) == ((stats.mode & S_IRUSR) != 0),
        writable(stats, creds) == ((stats.mode & S_IWUSR) != 0),
        searchable(stats, creds) == ((stats.mode & S_IXUSR) != 0),
{
}

/// Who may rename an entry away may also remove it.
pub proof fn moving_needs_the_right_to_delete(
    parent: Stats,
    victim: Stats,
    creds: Credentials,
    crosses_parent: bool,
)
    requires
        movable(parent, victim, creds, crosses_parent),
    ensures
        deletable(parent, victim, creds),
        modifiable(parent, creds),
{
}

/// In a sticky directory, an entry is safe from all but root and the two owners.
pub proof fn sticky_entries_are_safe_from_strangers(
    parent: Stats,
    victim: Stats,
    creds: Credentials,
)
    requires
        (parent.mode & S_ISVTX) != 0,
        !creds.root(),
        !creds.owns(parent),
        !creds.owns(victim),
    ensures
        !deletable(parent, victim, creds),
{
}

/// A changed regular file keeps no privilege bit and all its other bits.
pub proof fn a_changed_file_has_no_privileges(stats: Stats)
    requires
        mode_is(stats.mode, S_IFREG),
    ensures
        (stats.mode & !privileges(stats)) & KILLPRIV_BITS == 0,
        (stats.mode & !privileges(stats)) & !KILLPRIV_BITS == stats.mode & !KILLPRIV_BITS,
        mode_is(stats.mode & !privileges(stats), S_IFREG),
{
    let mode = stats.mode;
    assert((mode & !(mode & KILLPRIV_BITS)) & KILLPRIV_BITS == 0) by (bit_vector);
    assert((mode & !(mode & KILLPRIV_BITS)) & !KILLPRIV_BITS == mode & !KILLPRIV_BITS)
        by (bit_vector);
    assert((mode & !(mode & KILLPRIV_BITS)) & 0o170000u32 == mode & 0o170000u32) by (bit_vector);
}

} // verus!
