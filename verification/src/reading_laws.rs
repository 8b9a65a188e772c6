//! What is read of names, listings and links, in terms of the rows that were found.
use crate::error::{Error, FsError};
use crate::lookup::{
    CachedLookup, DirEntry, DirEntryPage, FilesystemStats, PageStart, cached_lookup,
    check_listable, check_readable_link, component_of, config_size, count_of, dir_names,
    entries_after, entry_count, entry_of, fetch_limit, filesystem_stats, link_target, page,
    page_start, parent_of,
};
use crate::partial::{
    ChunkSource, PartialOrigin, base_size_after_truncate, chunk_source, partial_origin_from_row,
    prune_statement, required_size, seed_source,
};
use crate::sql::{SqlModel, SqlStatement, SqlValue, models};
use crate::stats::Stats;
use crate::text::strings;
use vstd::prelude::*;

verus! {

/// A lookup is answered from the caches only where they know: a name that is known to be missing is
/// missing, and one with cached attributes has them. The parent is always asked for, and a name
/// that is too long is refused.
pub proof fn caches_answer_what_they_know(
    name: &str,
    missing: bool,
    attrs: Option<Stats>,
    result: Result<CachedLookup, FsError>,
)
    requires
        call_ensures(cached_lookup, (name, missing, attrs), result),
    ensures
        name.len() > 255 <==> result is Err,
        result matches Err(error) ==> error is NameTooLong,
        result == Ok::<CachedLookup, FsError>(CachedLookup::AskParent) <==> name.len() <= 255
            && name@ == ".."@,
        result == Ok::<CachedLookup, FsError>(CachedLookup::Missing) ==> missing,
        result matches Ok(CachedLookup::Found(stats)) ==> attrs == Some(stats) && !missing,
        result == Ok::<CachedLookup, FsError>(CachedLookup::Ask) ==> !missing && attrs is None,
{
}

/// The root is its own parent. Any other directory has the parent that its entry gives, and the
/// root where it gives none.
pub proof fn the_root_is_its_own_parent(dir: i64, row: Option<SqlValue>, parent: i64)
    requires
        call_ensures(parent_of, (dir, row), parent),
    ensures
        dir == 1 ==> parent == 1,
        dir != 1 ==> (row matches Some(SqlValue::Integer(ino)) ==> parent == ino),
        dir != 1 && row is None ==> parent == 1,
        dir != 1 && row is Some && !(row->0 is Integer) ==> parent == 1,
{
}

/// One row gives the inode of a name, none gives none, and more than one is no valid path. A row
/// without a number is corrupt.
pub proof fn one_row_gives_the_inode(
    parent: i64,
    name: &str,
    rows: Vec<SqlValue>,
    entry: Result<Option<i64>, FsError>,
    component: Result<Option<i64>, FsError>,
)
    requires
        call_ensures(entry_of, (parent, name, &rows), entry),
        call_ensures(component_of, (&rows,), component),
    ensures
        rows@.len() == 0 ==> entry == Ok::<Option<i64>, FsError>(None) && component == Ok::<
            Option<i64>,
            FsError,
        >(None),
        rows@.len() == 1 && rows@[0]@ is Integer ==> {
            let ino = rows@[0]@->Integer_0;
            &&& entry == Ok::<Option<i64>, FsError>(Some(ino))
            &&& component == Ok::<Option<i64>, FsError>(Some(ino))
        },
        rows@.len() == 1 && !(rows@[0]@ is Integer) ==> {
            &&& entry is Err && entry->Err_0 is Corrupt
            &&& component is Err && component->Err_0 is Corrupt
        },
        rows@.len() > 1 ==> component == Err::<Option<i64>, FsError>(FsError::InvalidPath),
        rows@.len() > 1 ==> entry is Err,
{
    let values = models(rows@);
    assert(values.len() == rows@.len());
    if rows@.len() > 0 {
        assert(values[0] == rows@[0]@);
    }
}

/// Only directories are listed and only symbolic links are read as such. What is missing is no
/// error.
pub proof fn only_directories_are_listed(
    mode: Option<u32>,
    listable: Result<bool, FsError>,
    readable: Result<bool, FsError>,
)
    requires
        call_ensures(check_listable, (mode,), listable),
        call_ensures(check_readable_link, (mode,), readable),
    ensures
        mode is None ==> listable == Ok::<bool, FsError>(false) && readable == Ok::<bool, FsError>(
            false,
        ),
        mode matches Some(mode) ==> {
            &&& mode & 0o170000 == 0o040000 ==> listable == Ok::<bool, FsError>(true)
            &&& mode & 0o170000 != 0o040000 ==> listable == Err::<bool, FsError>(
                FsError::NotADirectory,
            )
            &&& mode & 0o170000 == 0o120000 ==> readable == Ok::<bool, FsError>(true)
            &&& mode & 0o170000 != 0o120000 ==> readable == Err::<bool, FsError>(
                FsError::NotASymlink,
            )
        },
{
}

/// A listing has the names of the rows in their order: one more row adds its text at the end,
/// unless it is empty or no text.
pub proof fn a_row_adds_its_name(
    rows: Vec<SqlValue>,
    more: Vec<SqlValue>,
    names: Vec<String>,
    longer: Vec<String>,
)
    requires
        call_ensures(dir_names, (&rows,), names),
        call_ensures(dir_names, (&more,), longer),
        more@.len() == rows@.len() + 1,
        rows@ == more@.drop_last(),
    ensures
        rows@.len() == 0 ==> names@.len() == 0,
        more@.last()@ matches SqlModel::Text(name) ==> {
            &&& name.len() > 0 ==> strings(longer@) == strings(names@).push(name)
            &&& name.len() == 0 ==> strings(longer@) == strings(names@)
        },
        !(more@.last()@ is Text) ==> strings(longer@) == strings(names@),
{
    assert(models(more@).drop_last() =~= models(rows@));
    assert(models(more@).last() == more@.last()@);
    assert(strings(names@).len() == names@.len());
}

/// A page goes on after the entry that it is told, from the beginning without one, and not at all
/// if that entry is gone.
pub proof fn a_page_goes_on_after_an_entry(
    start_after: i64,
    row: Option<SqlValue>,
    start: PageStart,
)
    requires
        call_ensures(page_start, (start_after, row), start),
    ensures
        start_after <= 0 <==> start is Beginning,
        start_after > 0 && row is None ==> start is Over,
        start_after > 0 ==> (row matches Some(value) ==> (value@ matches SqlModel::Text(text)
            ==> start matches PageStart::After(name) && name@ == text)),
{
}

/// One row more is asked for than a page holds, so that it shows whether more follow.
pub proof fn one_row_more_is_fetched(max: usize, limit: i64)
    requires
        call_ensures(fetch_limit, (max,), limit),
    ensures
        max < i64::MAX && max < usize::MAX ==> limit == max + 1,
        limit > 0,
{
}

/// What is left after an inode is what comes behind its first entry, all of it without one, and
/// nothing if it is no entry.
pub proof fn what_is_left_comes_behind_the_entry(
    entries: Vec<DirEntry>,
    start_after: i64,
    left: Vec<DirEntry>,
    at: int,
)
    requires
        call_ensures(entries_after, (entries, start_after), left),
    ensures
        start_after <= 0 ==> left@ == entries@,
        start_after > 0 && 0 <= at < entries@.len() && entries@[at].stats.ino == start_after && (
        forall|k: int| 0 <= k < at ==> (#[trigger] entries@[k]).stats.ino != start_after)
            ==> left@ == entries@.skip(at + 1),
        start_after > 0 && (forall|k: int|
            0 <= k < entries@.len() ==> (#[trigger] entries@[k]).stats.ino != start_after)
            ==> left@.len() == 0,
{
    if start_after > 0 {
        lemma_left_after(entries@, start_after, at);
    }
}

proof fn lemma_left_after(entries: Seq<DirEntry>, start_after: i64, at: int)
    requires
        start_after > 0,
    ensures
        0 <= at < entries.len() && entries[at].stats.ino == start_after && (forall|k: int|
            0 <= k < at ==> (#[trigger] entries[k]).stats.ino != start_after)
            ==> crate::lookup::left_after(entries, start_after) == entries.skip(at + 1),
        (forall|k: int|
            0 <= k < entries.len() ==> (#[trigger] entries[k]).stats.ino != start_after)
            ==> crate::lookup::left_after(entries, start_after).len() == 0,
    decreases entries.len(),
{
    if entries.len() > 0 {
        let rest = entries.drop_first();
        lemma_left_after(rest, start_after, at - 1);
        assert(forall|k: int|
            0 <= k < rest.len() ==> (#[trigger] rest[k]) == entries[k + 1]);
        if at > 0 && at < entries.len() {
            assert(rest[at - 1] == entries[at]);
            assert(rest.skip(at) =~= entries.skip(at + 1));
        } else if at == 0 {
            assert(entries.skip(1) =~= entries.drop_first());
        }
    }
}

/// A page holds the first entries, as many as it may, and is the last one exactly if it holds all.
pub proof fn a_page_is_the_last_if_it_holds_all(
    entries: Vec<DirEntry>,
    max: usize,
    made: DirEntryPage,
    i: int,
)
    requires
        call_ensures(page, (entries, max), made),
    ensures
        made.end <==> made.entries@.len() == entries@.len(),
        made.entries@.len() <= max,
        made.entries@.len() < max ==> made.end,
        0 <= i < made.entries@.len() ==> made.entries@[i] == entries@[i],
{
}

/// The target of a link is the text of its row.
pub proof fn a_link_has_the_target_of_its_row(
    row: Option<SqlValue>,
    result: Result<Option<String>, FsError>,
)
    requires
        call_ensures(link_target, (row,), result),
    ensures
        row is None ==> result is Ok && result->Ok_0 is None,
        row matches Some(value) ==> {
            &&& value@ matches SqlModel::Text(text) ==> (result matches Ok(Some(target))
                && target@ == text)
            &&& !(value@ is Text) ==> result is Err && result->Err_0 is InvalidPath
        },
{
}

/// A count is the number in the row, and zero where there is none. So are the statistics of a
/// filesystem, the inodes from the first and the bytes from the second.
pub proof fn counts_are_the_numbers_of_their_rows(
    inodes: Option<SqlValue>,
    bytes: Option<SqlValue>,
    stats: FilesystemStats,
    count: u64,
    entries: i64,
    default: usize,
    size: usize,
)
    requires
        call_ensures(filesystem_stats, (inodes, bytes), stats),
        call_ensures(count_of, (inodes,), count),
        call_ensures(entry_count, (inodes,), entries),
        call_ensures(config_size, (inodes, default), size),
    ensures
        inodes matches Some(value) ==> (value@ matches SqlModel::Integer(n) ==> entries == n && (n
            >= 0 ==> stats.inodes == n && count == n)),
        inodes matches Some(value) ==> (value@ matches SqlModel::Integer(n) ==> (0 <= n
            <= usize::MAX ==> size == n)),
        bytes matches Some(value) ==> (value@ matches SqlModel::Integer(n) ==> (n >= 0
            ==> stats.bytes_used == n)),
        inodes is None ==> stats.inodes == 0 && count == 0 && entries == 0 && size == default,
        bytes is None ==> stats.bytes_used == 0,
{
}

/// A chunk of a file that shows its base comes from the delta if it was written there, else from
/// the base as far as that reaches, and is empty behind it. It begins where its number says.
pub proof fn a_chunk_begins_where_its_number_says(
    index: u64,
    overridden: bool,
    chunk_size: usize,
    base_size: u64,
    result: Result<ChunkSource, Error>,
    start: int,
)
    requires
        call_ensures(chunk_source, (index, overridden, chunk_size, base_size), result),
        start == index * chunk_size,
    ensures
        start > u64::MAX <==> result is Err,
        result matches Ok(source) ==> {
            &&& overridden <==> source is Delta
            &&& !overridden && start < base_size <==> source is Base
            &&& source matches ChunkSource::Delta { start: from } ==> from == start
            &&& source matches ChunkSource::Base { start: from, len } ==> {
                &&& from == start
                &&& from + len <= base_size && len <= chunk_size
                &&& from + len == base_size || len == chunk_size
            }
        },
{
}

/// A chunk that is written for the first time starts with what the base shows of it.
pub proof fn a_written_chunk_starts_with_the_base(
    index: i64,
    chunk_size: usize,
    base_size: u64,
    result: Result<Option<(u64, u64)>, Error>,
    start: int,
)
    requires
        call_ensures(seed_source, (index, chunk_size, base_size), result),
        start == index * chunk_size,
    ensures
        index < 0 ==> result is Err,
        index >= 0 ==> (start > u64::MAX <==> result is Err),
        index >= 0 ==> (result matches Ok(seed) ==> {
            &&& seed is Some <==> start < base_size
            &&& seed matches Some(part) ==> {
                &&& part.0 == start
                &&& part.0 + part.1 <= base_size && part.1 <= chunk_size
                &&& part.0 + part.1 == base_size || part.1 == chunk_size
            }
        }),
{
}

/// A cut never lets more of the base show, and lets no more show than the new size.
pub proof fn a_cut_hides_the_base_behind_it(size: u64, base_size: u64, shown: Option<u64>)
    requires
        call_ensures(base_size_after_truncate, (size, base_size), shown),
    ensures
        size < base_size <==> shown is Some,
        shown matches Some(left) ==> left == size,
{
}

/// A cut drops the chunks of the file that begin at or behind the new end and keeps the others.
pub proof fn a_cut_drops_the_chunks_behind_it(
    ino: i64,
    size: u64,
    chunk_size: usize,
    statement: SqlStatement,
    last: i64,
)
    requires
        chunk_size > 0,
        size <= i64::MAX,
        call_ensures(prune_statement, (ino, size, chunk_size), statement),
    ensures
        size == 0 ==> {
            &&& statement.sql@ == "DELETE FROM fs_chunk_override WHERE delta_ino = ?"@
            &&& models(statement.values@) == seq![SqlModel::Integer(ino)]
        },
        size > 0 && last * chunk_size < size <= (last + 1) * chunk_size ==> {
            &&& statement.sql@
                == "DELETE FROM fs_chunk_override WHERE delta_ino = ? AND chunk_index > ?"@
            &&& models(statement.values@) == seq![SqlModel::Integer(ino), SqlModel::Integer(last)]
        },
{
    if size > 0 && last * chunk_size < size <= (last + 1) * chunk_size {
        let c = chunk_size as int;
        let n = last as int;
        let s = size as int;
        assert((s - 1) / c == n) by (nonlinear_arith)
            requires
                c > 0,
                n * c < s,
                s <= (n + 1) * c,
        ;
        assert(0 <= n) by (nonlinear_arith)
            requires
                c > 0,
                s > 0,
                s <= (n + 1) * c,
        ;
    }
}

/// What was recorded of a base file reads back: its path, its size and both of its times.
pub proof fn a_recorded_base_file_reads_back(
    row: Vec<SqlValue>,
    path: Seq<char>,
    base: Stats,
    result: Result<PartialOrigin, Error>,
)
    requires
        base.size >= 0,
        row@.len() == 7,
        models(row@) == seq![
            SqlModel::Text(path),
            SqlModel::Integer(base.size),
            SqlModel::Integer(base.size),
            SqlModel::Integer(base.mtime),
            SqlModel::Integer(base.mtime_nsec as i64),
            SqlModel::Integer(base.ctime),
            SqlModel::Integer(base.ctime_nsec as i64),
        ],
        call_ensures(partial_origin_from_row, (&row,), result),
    ensures
        result matches Ok(origin) && {
            &&& origin.base_path@ == path
            &&& origin.base_fingerprint_size == base.size
            &&& origin.base_mtime == base.mtime && origin.base_mtime_nsec == base.mtime_nsec
            &&& origin.base_ctime == base.ctime && origin.base_ctime_nsec == base.ctime_nsec
        },
{
}

/// A size that has to be there is the number of its row.
pub proof fn a_size_is_the_number_of_its_row(row: Option<SqlValue>, result: Result<u64, FsError>)
    requires
        call_ensures(required_size, (row,), result),
    ensures
        row is None ==> result == Err::<u64, FsError>(FsError::NotFound),
        row matches Some(value) ==> (value@ matches SqlModel::Integer(n) ==> (n >= 0
            ==> result is Ok && result->Ok_0 == n)),
{
}

} // verus!
