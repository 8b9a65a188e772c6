//! Reading the namespace: cached answers, rows of entries, listings and links.
use crate::error::FsError;
use crate::namespace::too_long;
use crate::numbers::{parse_usize, unsigned_number};
use crate::sql::{SqlModel, SqlValue, models};
use crate::stats::{MAX_NAME_LEN, ROOT_INO, S_IFDIR, S_IFLNK, S_IFMT, Stats, mode_is};
use crate::text::{i64_to_text, same_text, signed_decimal, strings};
use vstd::prelude::*;

verus! {

/// What the caches say of a lookup.
#[derive(Debug, Clone, Copy, PartialEq, Eq, Structural)]
pub enum CachedLookup {
    /// The name is known to be missing.
    Missing,
    /// The name leads to an inode with these attributes.
    Found(Stats),
    /// The database has to be asked.
    Ask,
    /// The database has to be asked for the parent of the directory.
    AskParent,
}

/// Answers a lookup from the caches: whether the name is cached as missing, the inode
/// that is cached for it and the attributes that are cached for that inode. The parent
/// entry is never cached.
pub fn cached_lookup(name: &str, missing: bool, child_attrs: Option<Stats>) -> (result: Result<
    CachedLookup,
    FsError,
>)
    ensures
        result == if too_long(name) {
            Err::<CachedLookup, FsError>(FsError::NameTooLong)
        } else if name@ == ".."@ {
            Ok(CachedLookup::AskParent)
        } else if missing {
            Ok(CachedLookup::Missing)
        } else if child_attrs is Some {
            Ok(CachedLookup::Found(child_attrs->0))
        } else {
            Ok(CachedLookup::Ask)
        },
{
    if name.len() > MAX_NAME_LEN {
        return Err(FsError::NameTooLong);
    }
    if same_text(name, "..") {
        return Ok(CachedLookup::AskParent);
    }
    if missing {
        return Ok(CachedLookup::Missing);
    }
    match child_attrs {
        Some(stats) => Ok(CachedLookup::Found(stats)),
        None => Ok(CachedLookup::Ask),
    }
}

/// The parent of a directory, from the parent column of the first entry that leads to
/// it. The root is its own parent, and that of a directory without an entry.
pub fn parent_of(dir: i64, row: Option<SqlValue>) -> (parent: i64)
    ensures
        parent == if dir == ROOT_INO {
            ROOT_INO
        } else {
            match row {
                Some(value) => match value@ {
                    SqlModel::Integer(ino) => ino,
                    _ => ROOT_INO,
                },
                None => ROOT_INO,
            }
        },
{
    if dir == ROOT_INO {
        return ROOT_INO;
    }
    match row {
        Some(value) => match value.as_integer() {
            Some(ino) => ino,
            None => ROOT_INO,
        },
        None => ROOT_INO,
    }
}

/// Whether a value is not an integer.
pub open spec fn not_integer(value: SqlModel) -> bool {
    !(value is Integer)
}

/// The message for an entry whose inode column holds no integer.
pub open spec fn bad_entry_message(parent: i64, name: Seq<char>) -> Seq<char> {
    "invalid ino for dentry "@ + signed_decimal(parent as int) + "/"@ + name
        + ": expected integer"@
}

/// The inode that the rows found for one name of a directory give. A row without an
/// integer is corrupt; more than one row is no valid path.
pub fn entry_of(parent: i64, name: &str, rows: &Vec<SqlValue>) -> (result: Result<
    Option<i64>,
    FsError,
>)
    ensures
        ({
            let values = models(rows@);
            if exists|i: int| 0 <= i < values.len() && not_integer(#[trigger] values[i]) {
                result matches Err(FsError::Corrupt(message)) && message@ == bad_entry_message(
                    parent,
                    name@,
                )
            } else if values.len() > 1 {
                result == Err::<Option<i64>, FsError>(FsError::InvalidPath)
            } else if values.len() == 1 {
                result == Ok::<Option<i64>, FsError>(Some(values[0]->Integer_0))
            } else {
                result == Ok::<Option<i64>, FsError>(None)
            }
        }),
{
    let ghost values = models(rows@);
    let mut found: Option<i64> = None;
    let mut i: usize = 0;
    while i < rows.len()
        invariant
            i <= rows@.len(),
            values == models(rows@),
            forall|k: int| 0 <= k < i ==> !not_integer(#[trigger] values[k]),
            i == 0 ==> found is None,
            i > 0 ==> found == Some(values[i - 1]->Integer_0),
        decreases rows@.len() - i,
    {
        assert(values[i as int] == rows@[i as int]@);
        match rows[i].as_integer() {
            Some(ino) => {
                found = Some(ino);
            },
            None => {
                assert(not_integer(values[i as int]));
                let mut message: String = "invalid ino for dentry ".to_owned();
                message.append(i64_to_text(parent).as_str());
                message.append("/");
                message.append(name);
                message.append(": expected integer");
                return Err(FsError::Corrupt(message));
            },
        }
        i += 1;
    }
    if rows.len() > 1 {
        return Err(FsError::InvalidPath);
    }
    Ok(found)
}

/// The inode that the rows found for one component of a path give. More than one row is
/// no valid path; a row without an integer is corrupt.
pub fn component_of(rows: &Vec<SqlValue>) -> (result: Result<Option<i64>, FsError>)
    ensures
        ({
            let values = models(rows@);
            if values.len() > 1 {
                result == Err::<Option<i64>, FsError>(FsError::InvalidPath)
            } else if values.len() == 0 {
                result == Ok::<Option<i64>, FsError>(None)
            } else if values[0] is Integer {
                result == Ok::<Option<i64>, FsError>(Some(values[0]->Integer_0))
            } else {
                result matches Err(FsError::Corrupt(message)) && message@
                    == "invalid ino: expected integer"@
            }
        }),
{
    if rows.len() > 1 {
        return Err(FsError::InvalidPath);
    }
    if rows.len() == 0 {
        return Ok(None);
    }
    assert(models(rows@)[0] == rows@[0]@);
    match rows[0].as_integer() {
        Some(ino) => Ok(Some(ino)),
        None => Err(FsError::Corrupt("invalid ino: expected integer".to_owned())),
    }
}

/// Refuses to list what is no directory. `false` says that there is no inode.
pub fn check_listable(mode: Option<u32>) -> (result: Result<bool, FsError>)
    ensures
        result == match mode {
            None => Ok::<bool, FsError>(false),
            Some(mode) => if mode_is(mode, S_IFDIR) {
                Ok(true)
            } else {
                Err(FsError::NotADirectory)
            },
        },
{
    match mode {
        None => Ok(false),
        Some(mode) => if (mode & S_IFMT) == S_IFDIR {
            Ok(true)
        } else {
            Err(FsError::NotADirectory)
        },
    }
}

/// The names among the values of a name column: texts that are not empty.
pub open spec fn names_in(values: Seq<SqlModel>) -> Seq<Seq<char>>
    decreases values.len(),
{
    if values.len() == 0 {
        Seq::empty()
    } else {
        let before = names_in(values.drop_last());
        match values.last() {
            SqlModel::Text(name) => if name.len() > 0 {
                before.push(name)
            } else {
                before
            },
            _ => before,
        }
    }
}

/// The names of a directory, from the values of the name column in order.
pub fn dir_names(rows: &Vec<SqlValue>) -> (names: Vec<String>)
    ensures
        strings(names@) == names_in(models(rows@)),
{
    let ghost values = models(rows@);
    let mut names: Vec<String> = Vec::new();
    let mut i: usize = 0;
    assert(strings(names@) =~= names_in(values.take(0)));
    while i < rows.len()
        invariant
            i <= rows@.len(),
            values == models(rows@),
            strings(names@) == names_in(values.take(i as int)),
        decreases rows@.len() - i,
    {
        proof {
            assert(values.take(i + 1).drop_last() =~= values.take(i as int));
            assert(values.take(i + 1).last() == rows@[i as int]@);
        }
        if let Some(name) = rows[i].as_text() {
            if !same_text(name.as_str(), "") {
                proof {
                    reveal_strlit("");
                    assert(""@ =~= Seq::<char>::empty());
                    if name@.len() == 0 {
                        assert(name@ =~= ""@);
                    }
                }
                assert(strings(names@.push(name)) =~= strings(names@).push(name@));
                names.push(name);
            } else {
                proof {
                    reveal_strlit("");
                }
            }
        }
        i += 1;
    }
    assert(values.take(i as int) =~= values);
    names
}

/// One entry of a directory with its attributes.
#[derive(Debug)]
pub struct DirEntry {
    pub name: String,
    pub stats: Stats,
}

/// Entries of a directory and whether they are the last ones.
#[derive(Debug)]
pub struct DirEntryPage {
    pub entries: Vec<DirEntry>,
    pub end: bool,
}

/// Where a page of a directory begins.
#[derive(Debug)]
pub enum PageStart {
    Beginning,
    /// After this name.
    After(String),
    /// The inode to go on after is no entry any more: there is nothing left.
    Over,
}

/// Where a page begins that goes on after inode `start_after`, from the name found for
/// that inode.
pub fn page_start(start_after: i64, row: Option<SqlValue>) -> (start: PageStart)
    ensures
        if start_after <= 0 {
            start is Beginning
        } else {
            match row {
                None => start is Over,
                Some(value) => start matches PageStart::After(name) && name@ == match value@ {
                    SqlModel::Text(text) => text,
                    _ => Seq::<char>::empty(),
                },
            }
        },
{
    if start_after <= 0 {
        return PageStart::Beginning;
    }
    match row {
        None => PageStart::Over,
        Some(value) => match value.as_text() {
            Some(name) => PageStart::After(name),
            None => {
                let name: String = String::new();
                assert(name@ =~= Seq::<char>::empty());
                PageStart::After(name)
            },
        },
    }
}

/// How many rows to ask for to fill a page and see whether more follow.
pub open spec fn rows_to_fetch(max_entries: usize) -> int {
    if max_entries + 1 > usize::MAX || max_entries + 1 > i64::MAX {
        if usize::MAX < i64::MAX {
            usize::MAX as int
        } else {
            i64::MAX as int
        }
    } else {
        max_entries + 1
    }
}

pub fn fetch_limit(max_entries: usize) -> (limit: i64)
    ensures
        limit == rows_to_fetch(max_entries),
{
    let wanted: usize = max_entries.saturating_add(1);
    if wanted as u64 > i64::MAX as u64 {
        i64::MAX
    } else {
        wanted as i64
    }
}

/// What is left of a listing after the entry of an inode: all of it for no inode, and nothing
/// where the inode is no entry any more.
pub open spec fn left_after(entries: Seq<DirEntry>, start_after: i64) -> Seq<DirEntry>
    decreases entries.len(),
{
    if start_after <= 0 || entries.len() == 0 {
        entries
    } else if entries[0].stats.ino == start_after {
        entries.drop_first()
    } else {
        left_after(entries.drop_first(), start_after)
    }
}

/// The entries of a listing that follow the first one of an inode.
pub fn entries_after(entries: Vec<DirEntry>, start_after: i64) -> (left: Vec<DirEntry>)
    ensures
        left@ == left_after(entries@, start_after),
{
    if start_after <= 0 {
        return entries;
    }
    let len: usize = entries.len();
    let mut at: usize = 0;
    assert(entries@.skip(0) =~= entries@);
    while at < len && entries[at].stats.ino != start_after
        invariant
            start_after > 0,
            len == entries@.len(),
            at <= len,
            left_after(entries@.skip(at as int), start_after) == left_after(entries@, start_after),
        decreases len - at,
    {
        proof {
            assert(entries@.skip(at as int)[0] == entries@[at as int]);
            assert(entries@.skip(at as int).drop_first() =~= entries@.skip(at + 1));
        }
        at += 1;
    }
    let from: usize = if at < len {
        at + 1
    } else {
        len
    };
    proof {
        let rest = entries@.skip(at as int);
        if at < len {
            assert(rest[0] == entries@[at as int]);
            assert(rest.drop_first() =~= entries@.skip(at + 1));
        } else {
            assert(rest =~= entries@.skip(len as int));
        }
    }
    let ghost all = entries@;
    let mut entries = entries;
    let left: Vec<DirEntry> = entries.split_off(from);
    assert(left@ =~= all.skip(from as int));
    left
}

/// A page from the entries fetched for it.
pub fn page(entries: Vec<DirEntry>, max_entries: usize) -> (page: DirEntryPage)
    ensures
        page.end == (entries@.len() <= max_entries),
        page.entries@ == if entries@.len() <= max_entries {
            entries@
        } else {
            entries@.take(max_entries as int)
        },
{
    let end: bool = entries.len() <= max_entries;
    let mut entries = entries;
    entries.truncate(max_entries);
    DirEntryPage { entries, end }
}

/// A page made from as many rows as [`rows_to_fetch`] asks for holds the first entries
/// that are left, and says that it is the last one exactly when nothing is left after it.
pub proof fn a_page_shows_whether_more_follows(
    left: Seq<DirEntry>,
    max_entries: usize,
    page_made: DirEntryPage,
)
    requires
        max_entries < usize::MAX,
        max_entries < i64::MAX,
        ({
            let fetched = if left.len() <= rows_to_fetch(max_entries) {
                left
            } else {
                left.take(rows_to_fetch(max_entries))
            };
            &&& page_made.end == (fetched.len() <= max_entries)
            &&& page_made.entries@ == if fetched.len() <= max_entries {
                fetched
            } else {
                fetched.take(max_entries as int)
            }
        }),
    ensures
        page_made.end == (left.len() <= max_entries),
        page_made.entries@ == if left.len() <= max_entries {
            left
        } else {
            left.take(max_entries as int)
        },
{
    if left.len() > max_entries {
        let limit = rows_to_fetch(max_entries);
        if left.len() > limit {
            assert(left.take(limit).take(max_entries as int) =~= left.take(max_entries as int));
        }
    }
}

/// Refuses to read what is no symbolic link. `false` says that there is no inode.
pub fn check_readable_link(mode: Option<u32>) -> (result: Result<bool, FsError>)
    ensures
        result == match mode {
            None => Ok::<bool, FsError>(false),
            Some(mode) => if mode_is(mode, S_IFLNK) {
                Ok(true)
            } else {
                Err(FsError::NotASymlink)
            },
        },
{
    match mode {
        None => Ok(false),
        Some(mode) => if (mode & S_IFMT) == S_IFLNK {
            Ok(true)
        } else {
            Err(FsError::NotASymlink)
        },
    }
}

/// The target of a symbolic link, from its row.
pub fn link_target(row: Option<SqlValue>) -> (result: Result<Option<String>, FsError>)
    ensures
        match row {
            None => result matches Ok(target) && target is None,
            Some(value) => match value@ {
                SqlModel::Text(text) => result matches Ok(Some(target)) && target@ == text,
                _ => result == Err::<Option<String>, FsError>(FsError::InvalidPath),
            },
        },
{
    match row {
        None => Ok(None),
        Some(value) => match value.as_text() {
            Some(target) => Ok(Some(target)),
            None => Err(FsError::InvalidPath),
        },
    }
}

/// A size from the configuration table: a text that reads as a number or an integer;
/// the default otherwise.
pub open spec fn configured_size(row: Option<SqlModel>, default: usize) -> usize {
    match row {
        Some(SqlModel::Text(text)) => match unsigned_number(text) {
            Some(n) => if n <= usize::MAX {
                n as usize
            } else {
                default
            },
            None => default,
        },
        Some(SqlModel::Integer(n)) => n as usize,
        _ => default,
    }
}

/// The value of an optional cell.
pub open spec fn cell(row: Option<SqlValue>) -> Option<SqlModel> {
    match row {
        Some(value) => Some(value@),
        None => None,
    }
}

pub fn config_size(row: Option<SqlValue>, default: usize) -> (size: usize)
    ensures
        size == configured_size(cell(row), default),
{
    match row {
        Some(SqlValue::Text(text)) => match parse_usize(text.as_str()) {
            Some(n) => n,
            None => default,
        },
        Some(SqlValue::Integer(n)) => #[verifier::truncate]
        (n as usize),
        _ => default,
    }
}

/// A count from the first row of a query: an integer, zero otherwise.
pub fn count_of(row: Option<SqlValue>) -> (count: u64)
    ensures
        count == match cell(row) {
            Some(SqlModel::Integer(n)) => n as u64,
            _ => 0,
        },
{
    match row {
        Some(SqlValue::Integer(n)) => #[verifier::truncate]
        (n as u64),
        _ => 0,
    }
}

/// Number of inodes and bytes of contents.
#[derive(Debug, Clone, Copy, PartialEq, Eq, Structural)]
pub struct FilesystemStats {
    pub inodes: u64,
    pub bytes_used: u64,
}

/// Filesystem statistics from the count of inodes and the sum of their sizes.
pub fn filesystem_stats(inodes: Option<SqlValue>, bytes: Option<SqlValue>) -> (stats:
    FilesystemStats)
    ensures
        stats.inodes == match cell(inodes) {
            Some(SqlModel::Integer(n)) => n as u64,
            _ => 0,
        },
        stats.bytes_used == match cell(bytes) {
            Some(SqlModel::Integer(n)) => n as u64,
            _ => 0,
        },
{
    FilesystemStats { inodes: count_of(inodes), bytes_used: count_of(bytes) }
}

/// Number of entries of a directory, from the first row of a count: zero if it holds no
/// integer.
pub fn entry_count(row: Option<SqlValue>) -> (count: i64)
    ensures
        count == match cell(row) {
            Some(SqlModel::Integer(n)) => n,
            _ => 0,
        },
{
    match row {
        Some(SqlValue::Integer(n)) => n,
        _ => 0,
    }
}

} // verus!
