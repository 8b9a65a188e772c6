//! Read-only integrity checks: which queries they run and what their results mean.
use crate::error::{Error, is_internal};
use crate::numbers::{parse_i64, signed_number};
use crate::path::{components, split_components};
use crate::schema::AGENTFS_SCHEMA_VERSION;
use crate::schema::columns::{debug_text, quoted};
use crate::sql::{SqlModel, SqlValue};
use crate::text::{decimal, i64_to_text, same_text, signed_decimal, strings, texts, u64_to_text};
use vstd::prelude::*;

verus! {

/// Counts what violates `storage.kind_valid`.
pub const STORAGE_KIND_VALID_SQL: &'static str =
    "SELECT COUNT(*) FROM fs_inode WHERE storage_kind NOT IN (0, 1)";

/// Counts what violates `storage.inline_has_no_chunks`.
pub const STORAGE_INLINE_HAS_NO_CHUNKS_SQL: &'static str =
    "SELECT COUNT(*) FROM fs_inode i WHERE i.storage_kind = 1 AND EXISTS (SELECT 1 FROM fs_data d WHERE d.ino = i.ino)";

/// Counts what violates `storage.chunked_has_no_inline_data`.
pub const STORAGE_CHUNKED_HAS_NO_INLINE_DATA_SQL: &'static str =
    "SELECT COUNT(*) FROM fs_inode WHERE storage_kind = 0 AND data_inline IS NOT NULL";

/// Counts what violates `storage.inline_size_matches_blob`.
pub const STORAGE_INLINE_SIZE_MATCHES_BLOB_SQL: &'static str =
    "SELECT COUNT(*) FROM fs_inode WHERE storage_kind = 1 AND (data_inline IS NULL OR COALESCE(length(data_inline), 0) != size)";

/// Counts what violates `storage.inline_only_regular_files`.
pub const STORAGE_INLINE_ONLY_REGULAR_FILES_SQL: &'static str =
    "SELECT COUNT(*) FROM fs_inode WHERE storage_kind = 1 AND (mode & 61440) != 32768";

/// Counts what violates `storage.non_regular_has_no_inline_data`.
pub const STORAGE_NON_REGULAR_HAS_NO_INLINE_DATA_SQL: &'static str =
    "SELECT COUNT(*) FROM fs_inode WHERE (mode & 61440) != 32768 AND data_inline IS NOT NULL";

/// Counts what violates `storage.chunks_reference_inodes`.
pub const STORAGE_CHUNKS_REFERENCE_INODES_SQL: &'static str =
    "SELECT COUNT(*) FROM fs_data d LEFT JOIN fs_inode i ON i.ino = d.ino WHERE i.ino IS NULL";

/// Counts what violates `storage.chunks_nonnegative_index`.
pub const STORAGE_CHUNKS_NONNEGATIVE_INDEX_SQL: &'static str =
    "SELECT COUNT(*) FROM fs_data WHERE chunk_index < 0";

/// Counts what violates `storage.chunks_only_regular_files`.
pub const STORAGE_CHUNKS_ONLY_REGULAR_FILES_SQL: &'static str =
    "SELECT COUNT(*) FROM fs_data d JOIN fs_inode i ON i.ino = d.ino WHERE (i.mode & 61440) != 32768";

/// Counts what `namespace.root_inode` looks for.
pub const NAMESPACE_ROOT_INODE_SQL: &'static str =
    "SELECT COUNT(*) FROM fs_inode WHERE ino = 1 AND (mode & 61440) = 16384";

/// Counts what violates `namespace.dentry_parent_exists`.
pub const NAMESPACE_DENTRY_PARENT_EXISTS_SQL: &'static str =
    "SELECT COUNT(*) FROM fs_dentry d LEFT JOIN fs_inode p ON p.ino = d.parent_ino WHERE p.ino IS NULL";

/// Counts what violates `namespace.dentry_parent_is_directory`.
pub const NAMESPACE_DENTRY_PARENT_IS_DIRECTORY_SQL: &'static str =
    "SELECT COUNT(*) FROM fs_dentry d JOIN fs_inode p ON p.ino = d.parent_ino WHERE (p.mode & 61440) != 16384";

/// Counts what violates `namespace.dentry_target_exists`.
pub const NAMESPACE_DENTRY_TARGET_EXISTS_SQL: &'static str =
    "SELECT COUNT(*) FROM fs_dentry d LEFT JOIN fs_inode i ON i.ino = d.ino WHERE i.ino IS NULL";

/// Counts what violates `namespace.non_root_inode_has_dentry`.
pub const NAMESPACE_NON_ROOT_INODE_HAS_DENTRY_SQL: &'static str =
    "SELECT COUNT(*) FROM fs_inode i WHERE i.ino != 1 AND i.nlink != 0 AND NOT EXISTS (SELECT 1 FROM fs_dentry d WHERE d.ino = i.ino)";

/// Counts what violates `namespace.dentry_names_valid`.
pub const NAMESPACE_DENTRY_NAMES_VALID_SQL: &'static str =
    "SELECT COUNT(*) FROM fs_dentry WHERE name = '' OR name = '.' OR name = '..' OR instr(name, '/') > 0";

/// Counts what violates `namespace.non_directory_nlink_matches_dentries`.
pub const NAMESPACE_NON_DIRECTORY_NLINK_MATCHES_DENTRIES_SQL: &'static str =
    "SELECT COUNT(*) FROM fs_inode i WHERE (i.mode & 61440) != 16384 AND i.nlink != (SELECT COUNT(*) FROM fs_dentry d WHERE d.ino = i.ino)";

/// Counts what violates `namespace.directory_nlink_positive`.
pub const NAMESPACE_DIRECTORY_NLINK_POSITIVE_SQL: &'static str =
    "SELECT COUNT(*) FROM fs_inode WHERE (mode & 61440) = 16384 AND nlink < 1";

/// Counts what violates `symlink.rows_reference_symlink_inodes`.
pub const SYMLINK_ROWS_REFERENCE_SYMLINK_INODES_SQL: &'static str =
    "SELECT COUNT(*) FROM fs_symlink s LEFT JOIN fs_inode i ON i.ino = s.ino WHERE i.ino IS NULL OR (i.mode & 61440) != 40960";

/// Counts what violates `symlink.inodes_have_rows`.
pub const SYMLINK_INODES_HAVE_ROWS_SQL: &'static str =
    "SELECT COUNT(*) FROM fs_inode i WHERE (i.mode & 61440) = 40960 AND NOT EXISTS (SELECT 1 FROM fs_symlink s WHERE s.ino = i.ino)";

/// Counts what violates `overlay.origin_delta_inode_exists`.
pub const OVERLAY_ORIGIN_DELTA_INODE_EXISTS_SQL: &'static str =
    "SELECT COUNT(*) FROM fs_origin o LEFT JOIN fs_inode i ON i.ino = o.delta_ino WHERE i.ino IS NULL";

/// Counts what violates `overlay.partial_origin_delta_inode_exists`.
pub const OVERLAY_PARTIAL_ORIGIN_DELTA_INODE_EXISTS_SQL: &'static str =
    "SELECT COUNT(*) FROM fs_partial_origin p LEFT JOIN fs_inode i ON i.ino = p.delta_ino WHERE i.ino IS NULL";

/// Counts what violates `overlay.partial_origin_delta_inode_regular`.
pub const OVERLAY_PARTIAL_ORIGIN_DELTA_INODE_REGULAR_SQL: &'static str =
    "SELECT COUNT(*) FROM fs_partial_origin p LEFT JOIN fs_inode i ON i.ino = p.delta_ino WHERE i.ino IS NULL OR (i.mode & 61440) != 32768";

/// Counts what violates `overlay.partial_origin_sizes_valid`.
pub const OVERLAY_PARTIAL_ORIGIN_SIZES_VALID_SQL: &'static str =
    "SELECT COUNT(*) FROM fs_partial_origin WHERE base_size < 0 OR base_fingerprint_size < -1";

/// Counts what violates `overlay.partial_origin_paths_absolute`.
pub const OVERLAY_PARTIAL_ORIGIN_PATHS_ABSOLUTE_SQL: &'static str =
    "SELECT COUNT(*) FROM fs_partial_origin WHERE base_path = '' OR base_path NOT LIKE '/%' OR instr(base_path, '/../') > 0 OR base_path LIKE '%/..'";

/// Counts what violates `overlay.chunk_override_delta_inode_exists`.
pub const OVERLAY_CHUNK_OVERRIDE_DELTA_INODE_EXISTS_SQL: &'static str =
    "SELECT COUNT(*) FROM fs_chunk_override c LEFT JOIN fs_inode i ON i.ino = c.delta_ino WHERE i.ino IS NULL";

/// Counts what violates `overlay.chunk_override_nonnegative_index`.
pub const OVERLAY_CHUNK_OVERRIDE_NONNEGATIVE_INDEX_SQL: &'static str =
    "SELECT COUNT(*) FROM fs_chunk_override WHERE chunk_index < 0";

/// Counts what violates `overlay.chunk_override_references_partial_origin`.
pub const OVERLAY_CHUNK_OVERRIDE_REFERENCES_PARTIAL_ORIGIN_SQL: &'static str =
    "SELECT COUNT(*) FROM fs_chunk_override c LEFT JOIN fs_partial_origin p ON p.delta_ino = c.delta_ino WHERE p.delta_ino IS NULL";

/// Counts what violates `overlay.chunk_override_requires_partial_origin_table`.
pub const OVERLAY_CHUNK_OVERRIDE_REQUIRES_PARTIAL_ORIGIN_TABLE_SQL: &'static str =
    "SELECT COUNT(*) FROM fs_chunk_override";

/// Counts what violates `overlay.chunk_override_unique`.
pub const OVERLAY_CHUNK_OVERRIDE_UNIQUE_SQL: &'static str =
    "SELECT COUNT(*) FROM (SELECT delta_ino, chunk_index, COUNT(*) AS n FROM fs_chunk_override GROUP BY delta_ino, chunk_index HAVING n > 1)";

/// Counts what violates `overlay.whiteout_paths_absolute`.
pub const OVERLAY_WHITEOUT_PATHS_ABSOLUTE_SQL: &'static str =
    "SELECT COUNT(*) FROM fs_whiteout WHERE path NOT LIKE '/%' OR parent_path NOT LIKE '/%'";

/// A query that counts rows and the count it should find.
#[derive(Debug)]
pub struct CountCheck {
    pub name: &'static str,
    pub sql: String,
    /// The exact count to find; without one, any row is a violation.
    pub expected: Option<i64>,
}

/// A check as a mathematical value.
#[verifier::ext_equal]
pub struct CheckModel {
    pub name: Seq<char>,
    pub sql: Seq<char>,
    pub expected: Option<i64>,
}

impl View for CountCheck {
    type V = CheckModel;

    open spec fn view(&self) -> CheckModel {
        CheckModel { name: self.name@, sql: self.sql@, expected: self.expected }
    }
}

pub open spec fn plan(checks: Seq<CountCheck>) -> Seq<CheckModel> {
    checks.map_values(|check: CountCheck| check@)
}

/// A check that no row violates.
pub open spec fn zero_check(name: Seq<char>, sql: Seq<char>) -> CheckModel {
    CheckModel { name, sql, expected: None }
}

fn push_zero(checks: &mut Vec<CountCheck>, name: &'static str, sql: &str)
    ensures
        plan(final(checks)@) == plan(old(checks)@).push(zero_check(name@, sql@)),
{
    let ghost start = plan(checks@);
    checks.push(CountCheck { name, sql: sql.to_owned(), expected: None });
    assert(plan(checks@) =~= start.push(zero_check(name@, sql@)));
}

/// The check that a positive chunk size bounds chunks by.
pub open spec fn chunk_bound(
    name: Seq<char>,
    before: Seq<char>,
    chunk_size: Option<i64>,
    after: Seq<char>,
) -> Seq<CheckModel> {
    match chunk_size {
        Some(size) => if size > 0 {
            seq![zero_check(name, before + signed_decimal(size as int) + after)]
        } else {
            Seq::empty()
        },
        None => Seq::empty(),
    }
}

fn push_chunk_bound(
    checks: &mut Vec<CountCheck>,
    name: &'static str,
    before: &str,
    chunk_size: Option<i64>,
    after: &str,
)
    ensures
        plan(final(checks)@) == plan(old(checks)@) + chunk_bound(
            name@,
            before@,
            chunk_size,
            after@,
        ),
{
    let ghost start = plan(checks@);
    if let Some(size) = chunk_size {
        if size > 0 {
            let mut sql: String = before.to_owned();
            sql.append(i64_to_text(size).as_str());
            sql.append(after);
            checks.push(CountCheck { name, sql, expected: None });
        }
    }
    assert(plan(checks@) =~= start + chunk_bound(name@, before@, chunk_size, after@));
}

/// The checks of how contents are stored.
pub open spec fn storage_plan(chunk_size: Option<i64>) -> Seq<CheckModel> {
    seq![
        zero_check("storage.kind_valid"@, STORAGE_KIND_VALID_SQL@),
        zero_check("storage.inline_has_no_chunks"@, STORAGE_INLINE_HAS_NO_CHUNKS_SQL@),
        zero_check("storage.chunked_has_no_inline_data"@, STORAGE_CHUNKED_HAS_NO_INLINE_DATA_SQL@),
        zero_check("storage.inline_size_matches_blob"@, STORAGE_INLINE_SIZE_MATCHES_BLOB_SQL@),
        zero_check("storage.inline_only_regular_files"@, STORAGE_INLINE_ONLY_REGULAR_FILES_SQL@),
        zero_check("storage.non_regular_has_no_inline_data"@, STORAGE_NON_REGULAR_HAS_NO_INLINE_DATA_SQL@),
        zero_check("storage.chunks_reference_inodes"@, STORAGE_CHUNKS_REFERENCE_INODES_SQL@),
        zero_check("storage.chunks_nonnegative_index"@, STORAGE_CHUNKS_NONNEGATIVE_INDEX_SQL@),
    ] + chunk_bound(
        "storage.chunk_length_within_chunk_size"@,
        "SELECT COUNT(*) FROM fs_data WHERE length(data) > "@,
        chunk_size,
        ""@,
    ) + seq![
        zero_check("storage.chunks_only_regular_files"@, STORAGE_CHUNKS_ONLY_REGULAR_FILES_SQL@),
    ]
}

/// The checks of how contents are stored. The length of chunks is checked only against a
/// positive chunk size.
pub fn storage_checks(chunk_size: Option<i64>) -> (checks: Vec<CountCheck>)
    ensures
        plan(checks@) == storage_plan(chunk_size),
{
    let mut checks: Vec<CountCheck> = Vec::new();
    push_zero(&mut checks, "storage.kind_valid", STORAGE_KIND_VALID_SQL);
    push_zero(&mut checks, "storage.inline_has_no_chunks", STORAGE_INLINE_HAS_NO_CHUNKS_SQL);
    push_zero(&mut checks, "storage.chunked_has_no_inline_data", STORAGE_CHUNKED_HAS_NO_INLINE_DATA_SQL);
    push_zero(&mut checks, "storage.inline_size_matches_blob", STORAGE_INLINE_SIZE_MATCHES_BLOB_SQL);
    push_zero(&mut checks, "storage.inline_only_regular_files", STORAGE_INLINE_ONLY_REGULAR_FILES_SQL);
    push_zero(&mut checks, "storage.non_regular_has_no_inline_data", STORAGE_NON_REGULAR_HAS_NO_INLINE_DATA_SQL);
    push_zero(&mut checks, "storage.chunks_reference_inodes", STORAGE_CHUNKS_REFERENCE_INODES_SQL);
    push_zero(&mut checks, "storage.chunks_nonnegative_index", STORAGE_CHUNKS_NONNEGATIVE_INDEX_SQL);
    push_chunk_bound(
        &mut checks,
        "storage.chunk_length_within_chunk_size",
        "SELECT COUNT(*) FROM fs_data WHERE length(data) > ",
        chunk_size,
        "",
    );
    push_zero(&mut checks, "storage.chunks_only_regular_files", STORAGE_CHUNKS_ONLY_REGULAR_FILES_SQL);
    assert(plan(checks@) =~= storage_plan(chunk_size));
    checks
}

/// The checks of the directory tree.
pub open spec fn namespace_plan() -> Seq<CheckModel> {
    seq![
        (CheckModel {
            name: "namespace.root_inode"@,
            sql: NAMESPACE_ROOT_INODE_SQL@,
            expected: Some(1),
        }),
        zero_check("namespace.dentry_parent_exists"@, NAMESPACE_DENTRY_PARENT_EXISTS_SQL@),
        zero_check("namespace.dentry_parent_is_directory"@, NAMESPACE_DENTRY_PARENT_IS_DIRECTORY_SQL@),
        zero_check("namespace.dentry_target_exists"@, NAMESPACE_DENTRY_TARGET_EXISTS_SQL@),
        zero_check("namespace.non_root_inode_has_dentry"@, NAMESPACE_NON_ROOT_INODE_HAS_DENTRY_SQL@),
        zero_check("namespace.dentry_names_valid"@, NAMESPACE_DENTRY_NAMES_VALID_SQL@),
        zero_check("namespace.non_directory_nlink_matches_dentries"@, NAMESPACE_NON_DIRECTORY_NLINK_MATCHES_DENTRIES_SQL@),
        zero_check("namespace.directory_nlink_positive"@, NAMESPACE_DIRECTORY_NLINK_POSITIVE_SQL@),
    ]
}

/// The checks of the directory tree.
pub fn namespace_checks() -> (checks: Vec<CountCheck>)
    ensures
        plan(checks@) == namespace_plan(),
{
    let mut checks: Vec<CountCheck> = Vec::new();
    checks.push(
        CountCheck {
            name: "namespace.root_inode",
            sql: NAMESPACE_ROOT_INODE_SQL.to_owned(),
            expected: Some(1),
        },
    );
    push_zero(&mut checks, "namespace.dentry_parent_exists", NAMESPACE_DENTRY_PARENT_EXISTS_SQL);
    push_zero(&mut checks, "namespace.dentry_parent_is_directory", NAMESPACE_DENTRY_PARENT_IS_DIRECTORY_SQL);
    push_zero(&mut checks, "namespace.dentry_target_exists", NAMESPACE_DENTRY_TARGET_EXISTS_SQL);
    push_zero(&mut checks, "namespace.non_root_inode_has_dentry", NAMESPACE_NON_ROOT_INODE_HAS_DENTRY_SQL);
    push_zero(&mut checks, "namespace.dentry_names_valid", NAMESPACE_DENTRY_NAMES_VALID_SQL);
    push_zero(&mut checks, "namespace.non_directory_nlink_matches_dentries", NAMESPACE_NON_DIRECTORY_NLINK_MATCHES_DENTRIES_SQL);
    push_zero(&mut checks, "namespace.directory_nlink_positive", NAMESPACE_DIRECTORY_NLINK_POSITIVE_SQL);
    assert(plan(checks@) =~= namespace_plan());
    checks
}

/// The checks of symbolic links.
pub open spec fn symlink_plan() -> Seq<CheckModel> {
    seq![
        zero_check("symlink.rows_reference_symlink_inodes"@, SYMLINK_ROWS_REFERENCE_SYMLINK_INODES_SQL@),
        zero_check("symlink.inodes_have_rows"@, SYMLINK_INODES_HAVE_ROWS_SQL@),
    ]
}

/// The checks of symbolic links.
pub fn symlink_checks() -> (checks: Vec<CountCheck>)
    ensures
        plan(checks@) == symlink_plan(),
{
    let mut checks: Vec<CountCheck> = Vec::new();
    push_zero(&mut checks, "symlink.rows_reference_symlink_inodes", SYMLINK_ROWS_REFERENCE_SYMLINK_INODES_SQL);
    push_zero(&mut checks, "symlink.inodes_have_rows", SYMLINK_INODES_HAVE_ROWS_SQL);
    assert(plan(checks@) =~= symlink_plan());
    checks
}

/// Which tables of the overlay a database has.
#[derive(Debug, Clone, Copy, PartialEq, Eq, Structural)]
pub struct OverlayTables {
    pub origin: bool,
    pub partial_origin: bool,
    pub chunk_override: bool,
    pub whiteout: bool,
}

/// The checks before base files are looked at.
pub open spec fn origin_plan(tables: OverlayTables) -> Seq<CheckModel> {
    (if tables.origin {
        seq![
            zero_check(
                "overlay.origin_delta_inode_exists"@,
                OVERLAY_ORIGIN_DELTA_INODE_EXISTS_SQL@,
            ),
        ]
    } else {
        Seq::<CheckModel>::empty()
    }) + (if tables.partial_origin {
        seq![
            zero_check("overlay.partial_origin_delta_inode_exists"@, OVERLAY_PARTIAL_ORIGIN_DELTA_INODE_EXISTS_SQL@),
            zero_check("overlay.partial_origin_delta_inode_regular"@, OVERLAY_PARTIAL_ORIGIN_DELTA_INODE_REGULAR_SQL@),
            zero_check("overlay.partial_origin_sizes_valid"@, OVERLAY_PARTIAL_ORIGIN_SIZES_VALID_SQL@),
            zero_check("overlay.partial_origin_paths_absolute"@, OVERLAY_PARTIAL_ORIGIN_PATHS_ABSOLUTE_SQL@),
        ]
    } else {
        Seq::<CheckModel>::empty()
    })
}

/// The checks of origins, before base files are looked at.
pub fn origin_checks(tables: OverlayTables) -> (checks: Vec<CountCheck>)
    ensures
        plan(checks@) == origin_plan(tables),
{
    let mut checks: Vec<CountCheck> = Vec::new();
    if tables.origin {
        push_zero(&mut checks, "overlay.origin_delta_inode_exists", OVERLAY_ORIGIN_DELTA_INODE_EXISTS_SQL);
    }
    if tables.partial_origin {
        push_zero(&mut checks, "overlay.partial_origin_delta_inode_exists", OVERLAY_PARTIAL_ORIGIN_DELTA_INODE_EXISTS_SQL);
        push_zero(&mut checks, "overlay.partial_origin_delta_inode_regular", OVERLAY_PARTIAL_ORIGIN_DELTA_INODE_REGULAR_SQL);
        push_zero(&mut checks, "overlay.partial_origin_sizes_valid", OVERLAY_PARTIAL_ORIGIN_SIZES_VALID_SQL);
        push_zero(&mut checks, "overlay.partial_origin_paths_absolute", OVERLAY_PARTIAL_ORIGIN_PATHS_ABSOLUTE_SQL);
    }
    assert(plan(checks@) =~= origin_plan(tables));
    checks
}

/// The checks of chunk overrides and hidden paths.
pub open spec fn override_plan(tables: OverlayTables, chunk_size: Option<i64>) -> Seq<CheckModel> {
    (if tables.chunk_override {
        seq![
            zero_check(
                "overlay.chunk_override_delta_inode_exists"@,
                OVERLAY_CHUNK_OVERRIDE_DELTA_INODE_EXISTS_SQL@,
            ),
            zero_check(
                "overlay.chunk_override_nonnegative_index"@,
                OVERLAY_CHUNK_OVERRIDE_NONNEGATIVE_INDEX_SQL@,
            ),
            if tables.partial_origin {
                zero_check(
                    "overlay.chunk_override_references_partial_origin"@,
                    OVERLAY_CHUNK_OVERRIDE_REFERENCES_PARTIAL_ORIGIN_SQL@,
                )
            } else {
                zero_check(
                    "overlay.chunk_override_requires_partial_origin_table"@,
                    OVERLAY_CHUNK_OVERRIDE_REQUIRES_PARTIAL_ORIGIN_TABLE_SQL@,
                )
            },
            zero_check("overlay.chunk_override_unique"@, OVERLAY_CHUNK_OVERRIDE_UNIQUE_SQL@),
        ] + chunk_bound(
            "overlay.chunk_override_index_in_range"@,
            "SELECT COUNT(*) FROM fs_chunk_override c JOIN fs_inode i ON i.ino = c.delta_ino WHERE c.chunk_index * "@,
            chunk_size,
            " >= i.size"@,
        )
    } else {
        Seq::<CheckModel>::empty()
    }) + (if tables.whiteout {
        seq![
            zero_check("overlay.whiteout_paths_absolute"@, OVERLAY_WHITEOUT_PATHS_ABSOLUTE_SQL@),
        ]
    } else {
        Seq::<CheckModel>::empty()
    })
}

/// The checks of chunk overrides and hidden paths.
pub fn override_checks(tables: OverlayTables, chunk_size: Option<i64>) -> (checks: Vec<CountCheck>)
    ensures
        plan(checks@) == override_plan(tables, chunk_size),
{
    let mut checks: Vec<CountCheck> = Vec::new();
    if tables.chunk_override {
        push_zero(&mut checks, "overlay.chunk_override_delta_inode_exists", OVERLAY_CHUNK_OVERRIDE_DELTA_INODE_EXISTS_SQL);
        push_zero(&mut checks, "overlay.chunk_override_nonnegative_index", OVERLAY_CHUNK_OVERRIDE_NONNEGATIVE_INDEX_SQL);
        if tables.partial_origin {
            push_zero(&mut checks, "overlay.chunk_override_references_partial_origin", OVERLAY_CHUNK_OVERRIDE_REFERENCES_PARTIAL_ORIGIN_SQL);
        } else {
            push_zero(&mut checks, "overlay.chunk_override_requires_partial_origin_table", OVERLAY_CHUNK_OVERRIDE_REQUIRES_PARTIAL_ORIGIN_TABLE_SQL);
        }
        push_zero(&mut checks, "overlay.chunk_override_unique", OVERLAY_CHUNK_OVERRIDE_UNIQUE_SQL);
        push_chunk_bound(
            &mut checks,
            "overlay.chunk_override_index_in_range",
            "SELECT COUNT(*) FROM fs_chunk_override c JOIN fs_inode i ON i.ino = c.delta_ino WHERE c.chunk_index * ",
            chunk_size,
            " >= i.size",
        );
    }
    if tables.whiteout {
        push_zero(&mut checks, "overlay.whiteout_paths_absolute", OVERLAY_WHITEOUT_PATHS_ABSOLUTE_SQL);
    }
    assert(plan(checks@) =~= override_plan(tables, chunk_size));
    checks
}

/// Options of an integrity run.
#[derive(Debug, Clone)]
pub struct CheckOpts {
    pub database: String,
    pub require_portable: bool,
    pub check_base: bool,
}

impl CheckOpts {
    pub fn new(database: &str) -> (opts: CheckOpts)
        ensures
            opts.database@ == database@,
            !opts.require_portable,
            !opts.check_base,
    {
        CheckOpts { database: database.to_owned(), require_portable: false, check_base: false }
    }

    /// Whether a database that depends on base files fails the run.
    pub fn require_portable(self, require_portable: bool) -> (opts: CheckOpts)
        ensures
            opts.database == self.database,
            opts.require_portable == require_portable,
            opts.check_base == self.check_base,
    {
        let mut opts = self;
        opts.require_portable = require_portable;
        opts
    }

    /// Whether base files are looked at too.
    pub fn check_base(self, check_base: bool) -> (opts: CheckOpts)
        ensures
            opts.database == self.database,
            opts.require_portable == self.require_portable,
            opts.check_base == check_base,
    {
        let mut opts = self;
        opts.check_base = check_base;
        opts
    }
}

/// The outcome of one check.
#[derive(Debug)]
pub struct Check {
    pub name: String,
    pub ok: bool,
    pub detail: String,
    pub violating_rows: Option<i64>,
}

/// The outcome of a check as a mathematical value.
#[verifier::ext_equal]
pub struct OutcomeModel {
    pub name: Seq<char>,
    pub ok: bool,
    pub detail: Seq<char>,
    pub violating_rows: Option<i64>,
}

impl View for Check {
    type V = OutcomeModel;

    open spec fn view(&self) -> OutcomeModel {
        OutcomeModel {
            name: self.name@,
            ok: self.ok,
            detail: self.detail@,
            violating_rows: self.violating_rows,
        }
    }
}

pub open spec fn outcomes(checks: Seq<Check>) -> Seq<OutcomeModel> {
    checks.map_values(|check: Check| check@)
}

/// The report of an integrity run.
#[derive(Debug)]
pub struct Report {
    pub database: String,
    pub ok: bool,
    pub portable: bool,
    pub origin_backed: bool,
    pub partial_origin_rows: i64,
    pub checks: Vec<Check>,
}

/// Whether every check passed.
pub open spec fn all_ok(checks: Seq<OutcomeModel>) -> bool {
    forall|i: int| 0 <= i < checks.len() ==> (#[trigger] checks[i]).ok
}

impl Report {
    /// The report is good exactly when every check in it passed.
    pub open spec fn wf(self) -> bool {
        self.ok == all_ok(outcomes(self.checks@))
    }

    /// What else the report says stays.
    pub open spec fn same_but_checks(self, other: Report) -> bool {
        &&& self.database == other.database
        &&& self.portable == other.portable
        &&& self.origin_backed == other.origin_backed
        &&& self.partial_origin_rows == other.partial_origin_rows
    }

    /// A report without checks.
    pub fn new(database: &str) -> (report: Report)
        ensures
            report.wf(),
            report.database@ == database@,
            report.ok,
            report.portable,
            !report.origin_backed,
            report.partial_origin_rows == 0,
            report.checks@.len() == 0,
    {
        Report {
            database: database.to_owned(),
            ok: true,
            portable: true,
            origin_backed: false,
            partial_origin_rows: 0,
            checks: Vec::new(),
        }
    }

    /// Adds the outcome of a check.
    pub fn push_check(
        &mut self,
        name: &str,
        ok: bool,
        detail: String,
        violating_rows: Option<i64>,
    )
        requires
            old(self).wf(),
        ensures
            final(self).wf(),
            final(self).ok == (old(self).ok && ok),
            final(self).same_but_checks(*old(self)),
            outcomes(final(self).checks@) == outcomes(old(self).checks@).push(
                (OutcomeModel { name: name@, ok, detail: detail@, violating_rows }),
            ),
    {
        let ghost before = outcomes(self.checks@);
        let ghost added = OutcomeModel { name: name@, ok, detail: detail@, violating_rows };
        self.ok = self.ok && ok;
        self.checks.push(Check { name: name.to_owned(), ok, detail, violating_rows });
        proof {
            let after = outcomes(self.checks@);
            assert(after =~= before.push(added));
            if all_ok(after) {
                assert(after[before.len() as int].ok);
                assert forall|i: int| 0 <= i < before.len() implies (#[trigger] before[i]).ok by {
                    assert(after[i] == before[i]);
                }
            }
            if all_ok(before) && ok {
                assert forall|i: int| 0 <= i < after.len() implies (#[trigger] after[i]).ok by {
                    if i < before.len() {
                        assert(after[i] == before[i]);
                    }
                }
            }
        }
    }
}

/// What a count found by a check means.
pub open spec fn count_outcome(check: CheckModel, count: i64) -> OutcomeModel {
    match check.expected {
        None => OutcomeModel {
            name: check.name,
            ok: count == 0,
            detail: if count == 0 {
                "0 violating rows"@
            } else {
                signed_decimal(count as int) + " violating rows"@
            },
            violating_rows: Some(count),
        },
        Some(expected) => OutcomeModel {
            name: check.name,
            ok: count == expected,
            detail: "found "@ + signed_decimal(count as int) + ", expected "@ + signed_decimal(
                expected as int,
            ),
            violating_rows: Some(
                if count >= expected {
                    (count - expected) as i64
                } else {
                    (expected - count) as i64
                },
            ),
        },
    }
}

/// Adds the outcome of a counting check.
pub fn push_count(report: &mut Report, check: &CountCheck, count: i64)
    requires
        old(report).wf(),
        check.expected matches Some(expected) ==> -i64::MAX <= count - expected <= i64::MAX,
    ensures
        final(report).wf(),
        final(report).same_but_checks(*old(report)),
        outcomes(final(report).checks@) == outcomes(old(report).checks@).push(
            count_outcome(check@, count),
        ),
{
    match check.expected {
        None => {
            let detail: String = if count == 0 {
                "0 violating rows".to_owned()
            } else {
                let mut text: String = i64_to_text(count);
                text.append(" violating rows");
                text
            };
            report.push_check(check.name, count == 0, detail, Some(count));
        },
        Some(expected) => {
            let mut detail: String = "found ".to_owned();
            detail.append(i64_to_text(count).as_str());
            detail.append(", expected ");
            detail.append(i64_to_text(expected).as_str());
            let distance: i64 = if count >= expected {
                count - expected
            } else {
                expected - count
            };
            report.push_check(check.name, count == expected, detail, Some(distance));
        },
    }
}

/// What the database says of its own integrity: one row that reads `ok`.
pub open spec fn pragma_ok(rows: Seq<Seq<char>>) -> bool {
    rows == seq!["ok"@]
}

/// Strings in debug output, with a comma between neighbours.
pub open spec fn debug_items(rows: Seq<Seq<char>>) -> Seq<char>
    decreases rows.len(),
{
    if rows.len() == 0 {
        Seq::empty()
    } else if rows.len() == 1 {
        debug_text(rows[0])
    } else {
        debug_items(rows.drop_last()) + ", "@ + debug_text(rows.last())
    }
}

fn debug_list(rows: &Vec<String>) -> (text: String)
    ensures
        text@ == "["@ + debug_items(strings(rows@)) + "]"@,
{
    let ghost all = strings(rows@);
    let mut text: String = "[".to_owned();
    let mut i: usize = 0;
    assert(text@ =~= "["@ + debug_items(all.take(0)));
    while i < rows.len()
        invariant
            i <= rows@.len(),
            all == strings(rows@),
            text@ == "["@ + debug_items(all.take(i as int)),
        decreases rows@.len() - i,
    {
        let ghost before = text@;
        if i > 0 {
            text.append(", ");
        }
        text.append(quoted(rows[i].as_str()).as_str());
        proof {
            assert(all.take(i + 1).drop_last() =~= all.take(i as int));
            assert(all.take(i + 1).last() == rows@[i as int]@);
            if i == 0 {
                assert(all.take(0) =~= Seq::<Seq<char>>::empty());
                assert(all.take(1)[0] == rows@[0]@);
                assert(text@ =~= "["@ + debug_items(all.take(1)));
            } else {
                assert(text@ =~= "["@ + debug_items(all.take(i + 1)));
            }
        }
        i += 1;
    }
    text.append("]");
    assert(all.take(i as int) =~= all);
    text
}

/// Adds the outcome of the check that the database runs on itself.
pub fn push_pragma(report: &mut Report, rows: &Vec<String>)
    requires
        old(report).wf(),
    ensures
        final(report).wf(),
        final(report).same_but_checks(*old(report)),
        outcomes(final(report).checks@) == outcomes(old(report).checks@).push(
            (OutcomeModel {
                name: "pragma.integrity_check"@,
                ok: pragma_ok(strings(rows@)),
                detail: if pragma_ok(strings(rows@)) {
                    "ok"@
                } else {
                    "["@ + debug_items(strings(rows@)) + "]"@
                },
                violating_rows: None,
            }),
        ),
{
    let good: bool = rows.len() == 1 && same_text(rows[0].as_str(), "ok");
    proof {
        if good {
            assert(strings(rows@) =~= seq!["ok"@]);
        } else if pragma_ok(strings(rows@)) {
            assert(strings(rows@).len() == 1 && strings(rows@)[0] == "ok"@);
            assert(rows@[0]@ == "ok"@);
        }
    }
    let detail: String = if good {
        "ok".to_owned()
    } else {
        debug_list(rows)
    };
    report.push_check("pragma.integrity_check", good, detail, None);
}

/// The tables that a database has to have.
pub fn required_tables() -> (tables: Vec<&'static str>)
    ensures
        texts(tables@) == seq![
            "fs_config"@,
            "fs_inode"@,
            "fs_dentry"@,
            "fs_data"@,
            "fs_symlink"@,
            "kv_store"@,
            "tool_calls"@,
        ],
{
    let mut tables: Vec<&'static str> = Vec::new();
    tables.push("fs_config");
    tables.push("fs_inode");
    tables.push("fs_dentry");
    tables.push("fs_data");
    tables.push("fs_symlink");
    tables.push("kv_store");
    tables.push("tool_calls");
    assert(texts(tables@) =~= seq![
        "fs_config"@,
        "fs_inode"@,
        "fs_dentry"@,
        "fs_data"@,
        "fs_symlink"@,
        "kv_store"@,
        "tool_calls"@,
    ]);
    tables
}

/// Adds whether a required table is there.
pub fn push_table(report: &mut Report, table: &str, present: bool)
    requires
        old(report).wf(),
    ensures
        final(report).wf(),
        final(report).same_but_checks(*old(report)),
        outcomes(final(report).checks@) == outcomes(old(report).checks@).push(
            (OutcomeModel {
                name: "schema.table."@ + table@,
                ok: present,
                detail: if present {
                    "present"@
                } else {
                    "missing"@
                },
                violating_rows: Some(
                    if present {
                        0
                    } else {
                        1
                    },
                ),
            }),
        ),
{
    let mut name: String = "schema.table.".to_owned();
    name.append(table);
    if present {
        report.push_check(name.as_str(), true, "present".to_owned(), Some(0));
    } else {
        report.push_check(name.as_str(), false, "missing".to_owned(), Some(1));
    }
}

/// A group of checks.
#[derive(Debug, Clone, Copy, PartialEq, Eq, Structural)]
pub enum CheckGroup {
    Config,
    Storage,
    Namespace,
    Symlinks,
    Portability,
    Overlay,
}

/// Which of the tables that groups of checks need a database has.
#[derive(Debug, Clone, Copy, PartialEq, Eq, Structural)]
pub struct CoreTables {
    pub config: bool,
    pub inode: bool,
    pub dentry: bool,
    pub data: bool,
    pub symlink: bool,
}

/// A group if its condition holds.
pub open spec fn group_if(condition: bool, group: CheckGroup) -> Seq<CheckGroup> {
    if condition {
        seq![group]
    } else {
        Seq::empty()
    }
}

/// The groups of checks that a database can be put through, in order.
pub fn check_groups(tables: CoreTables) -> (groups: Vec<CheckGroup>)
    ensures
        groups@ == group_if(tables.config, CheckGroup::Config) + group_if(
            tables.inode && tables.data,
            CheckGroup::Storage,
        ) + group_if(tables.inode && tables.dentry, CheckGroup::Namespace) + group_if(
            tables.inode && tables.symlink,
            CheckGroup::Symlinks,
        ) + seq![CheckGroup::Portability, CheckGroup::Overlay],
{
    let mut groups: Vec<CheckGroup> = Vec::new();
    if tables.config {
        groups.push(CheckGroup::Config);
    }
    if tables.inode && tables.data {
        groups.push(CheckGroup::Storage);
    }
    if tables.inode && tables.dentry {
        groups.push(CheckGroup::Namespace);
    }
    if tables.inode && tables.symlink {
        groups.push(CheckGroup::Symlinks);
    }
    groups.push(CheckGroup::Portability);
    groups.push(CheckGroup::Overlay);
    assert(groups@ =~= group_if(tables.config, CheckGroup::Config) + group_if(
        tables.inode && tables.data,
        CheckGroup::Storage,
    ) + group_if(tables.inode && tables.dentry, CheckGroup::Namespace) + group_if(
        tables.inode && tables.symlink,
        CheckGroup::Symlinks,
    ) + seq![CheckGroup::Portability, CheckGroup::Overlay]);
    groups
}

/// An integer from the configuration table: the text has to read as one.
pub open spec fn config_number(value: Option<Seq<char>>) -> Option<i64> {
    match value {
        Some(text) => match signed_number(text) {
            Some(n) => if i64::MIN <= n <= i64::MAX {
                Some(n as i64)
            } else {
                None
            },
            None => None,
        },
        None => None,
    }
}

pub open spec fn optional_view(value: Option<String>) -> Option<Seq<char>> {
    match value {
        Some(text) => Some(text@),
        None => None,
    }
}

/// An integer from the configuration table.
pub fn config_i64(value: &Option<String>) -> (n: Option<i64>)
    ensures
        n == config_number(optional_view(*value)),
{
    match value {
        Some(text) => parse_i64(text.as_str()),
        None => None,
    }
}

pub open spec fn violations(ok: bool) -> Option<i64> {
    if ok {
        Some(0)
    } else {
        Some(1)
    }
}

/// The outcomes of the checks of the configuration.
pub open spec fn config_outcomes(
    version: Option<Seq<char>>,
    chunk_size: Option<i64>,
    inline_threshold: Option<i64>,
) -> Seq<OutcomeModel> {
    let version_ok = version == Some(AGENTFS_SCHEMA_VERSION@);
    let chunk_ok = chunk_size matches Some(size) && size > 0;
    let inline_ok = match (inline_threshold, chunk_size) {
        (Some(inline), Some(chunk)) => 0 <= inline <= chunk,
        _ => false,
    };
    seq![
        (OutcomeModel {
            name: "config.schema_version"@,
            ok: version_ok,
            detail: match version {
                Some(found) => "found "@ + found,
                None => "missing"@,
            },
            violating_rows: violations(version_ok),
        }),
        (OutcomeModel {
            name: "config.chunk_size"@,
            ok: chunk_ok,
            detail: found_number(chunk_size),
            violating_rows: violations(chunk_ok),
        }),
        (OutcomeModel {
            name: "config.inline_threshold"@,
            ok: inline_ok,
            detail: found_number(inline_threshold),
            violating_rows: violations(inline_ok),
        }),
    ]
}

pub open spec fn found_number(n: Option<i64>) -> Seq<char> {
    match n {
        Some(value) => "found "@ + signed_decimal(value as int),
        None => "missing or invalid"@,
    }
}

fn number_detail(n: Option<i64>) -> (text: String)
    ensures
        text@ == found_number(n),
{
    match n {
        Some(value) => {
            let mut text: String = "found ".to_owned();
            text.append(i64_to_text(value).as_str());
            text
        },
        None => "missing or invalid".to_owned(),
    }
}

fn violation_rows(ok: bool) -> (rows: Option<i64>)
    ensures
        rows == violations(ok),
{
    if ok {
        Some(0)
    } else {
        Some(1)
    }
}

/// Adds the checks of the configuration, from the values of its three keys.
pub fn check_config(
    report: &mut Report,
    version: &Option<String>,
    chunk_size: &Option<String>,
    inline_threshold: &Option<String>,
)
    requires
        old(report).wf(),
    ensures
        final(report).wf(),
        final(report).same_but_checks(*old(report)),
        outcomes(final(report).checks@) == outcomes(old(report).checks@) + config_outcomes(
            optional_view(*version),
            config_number(optional_view(*chunk_size)),
            config_number(optional_view(*inline_threshold)),
        ),
{
    let ghost before = outcomes(report.checks@);
    let (version_ok, version_detail) = match version {
        Some(found) => {
            let mut text: String = "found ".to_owned();
            text.append(found.as_str());
            (same_text(found.as_str(), AGENTFS_SCHEMA_VERSION), text)
        },
        None => (false, "missing".to_owned()),
    };
    report.push_check(
        "config.schema_version",
        version_ok,
        version_detail,
        violation_rows(version_ok),
    );
    let chunk: Option<i64> = config_i64(chunk_size);
    let chunk_ok: bool = match chunk {
        Some(size) => size > 0,
        None => false,
    };
    report.push_check("config.chunk_size", chunk_ok, number_detail(chunk), violation_rows(chunk_ok));
    let inline: Option<i64> = config_i64(inline_threshold);
    let inline_ok: bool = match (inline, chunk) {
        (Some(threshold), Some(size)) => threshold >= 0 && threshold <= size,
        _ => false,
    };
    report.push_check(
        "config.inline_threshold",
        inline_ok,
        number_detail(inline),
        violation_rows(inline_ok),
    );
    assert(outcomes(report.checks@) =~= before + config_outcomes(
        optional_view(*version),
        config_number(optional_view(*chunk_size)),
        config_number(optional_view(*inline_threshold)),
    ));
}

/// The outcomes of the checks of portability.
pub open spec fn portability_outcomes(rows: i64, required: bool) -> Seq<OutcomeModel> {
    let portable = rows == 0;
    seq![
        (OutcomeModel {
            name: "overlay.portability_status"@,
            ok: true,
            detail: if portable {
                "portable: no partial-origin rows"@
            } else {
                "origin-backed: "@ + signed_decimal(rows as int) + " partial-origin row(s)"@
            },
            violating_rows: Some(rows),
        }),
    ] + if required {
        seq![
            (OutcomeModel {
                name: "overlay.require_portable"@,
                ok: portable,
                detail: if portable {
                    "portable requirement satisfied"@
                } else {
                    "portable requirement failed: "@ + signed_decimal(rows as int)
                        + " partial-origin row(s)"@
                },
                violating_rows: Some(rows),
            }),
        ]
    } else {
        Seq::<OutcomeModel>::empty()
    }
}

/// Adds whether the database depends on base files: it does when it has rows of partial
/// origins, which fails the run only if a portable database is required.
pub fn check_portability_status(report: &mut Report, rows: i64, required: bool)
    requires
        old(report).wf(),
    ensures
        final(report).wf(),
        final(report).database == old(report).database,
        final(report).partial_origin_rows == rows,
        final(report).origin_backed == (rows > 0),
        final(report).portable == (rows == 0),
        outcomes(final(report).checks@) == outcomes(old(report).checks@) + portability_outcomes(
            rows,
            required,
        ),
{
    let ghost before = outcomes(report.checks@);
    report.partial_origin_rows = rows;
    report.origin_backed = rows > 0;
    report.portable = rows == 0;
    let portable: bool = rows == 0;
    let detail: String = if portable {
        "portable: no partial-origin rows".to_owned()
    } else {
        let mut text: String = "origin-backed: ".to_owned();
        text.append(i64_to_text(rows).as_str());
        text.append(" partial-origin row(s)");
        text
    };
    report.push_check("overlay.portability_status", true, detail, Some(rows));
    if required {
        let detail: String = if portable {
            "portable requirement satisfied".to_owned()
        } else {
            let mut text: String = "portable requirement failed: ".to_owned();
            text.append(i64_to_text(rows).as_str());
            text.append(" partial-origin row(s)");
            text
        };
        report.push_check("overlay.require_portable", portable, detail, Some(rows));
    }
    assert(outcomes(report.checks@) =~= before + portability_outcomes(rows, required));
}

/// A recorded base file with what identified its contents.
#[derive(Debug, Clone)]
pub struct PartialOriginRow {
    pub base_path: String,
    pub base_fingerprint_size: i64,
    pub base_mtime: i64,
    pub base_mtime_nsec: i64,
    pub base_ctime: i64,
    pub base_ctime_nsec: i64,
}

/// What identifies the present contents of a file.
#[derive(Debug, Clone, Copy, PartialEq, Eq, Structural)]
pub struct FileFingerprint {
    pub size: i64,
    pub mtime: i64,
    pub mtime_nsec: i64,
    pub ctime: i64,
    pub ctime_nsec: i64,
}

/// A row of partial origins. A fingerprint size below zero is the size of the base file.
pub fn partial_row(
    base_path: String,
    base_size: i64,
    raw_fingerprint_size: i64,
    mtime: (i64, i64),
    ctime: (i64, i64),
) -> (row: PartialOriginRow)
    ensures
        row.base_path@ == base_path@,
        row.base_fingerprint_size == if raw_fingerprint_size < 0 {
            base_size
        } else {
            raw_fingerprint_size
        },
        row.base_mtime == mtime.0,
        row.base_mtime_nsec == mtime.1,
        row.base_ctime == ctime.0,
        row.base_ctime_nsec == ctime.1,
{
    PartialOriginRow {
        base_path,
        base_fingerprint_size: if raw_fingerprint_size < 0 {
            base_size
        } else {
            raw_fingerprint_size
        },
        base_mtime: mtime.0,
        base_mtime_nsec: mtime.1,
        base_ctime: ctime.0,
        base_ctime_nsec: ctime.1,
    }
}

/// Whether a file is still the one that was recorded.
pub open spec fn fingerprint_matches(row: PartialOriginRow, found: FileFingerprint) -> bool {
    &&& found.size == row.base_fingerprint_size
    &&& found.mtime == row.base_mtime
    &&& found.mtime_nsec == row.base_mtime_nsec
    &&& found.ctime == row.base_ctime
    &&& found.ctime_nsec == row.base_ctime_nsec
}

/// Refuses a base file that is no longer the one that was recorded.
pub fn validate_base_fingerprint(row: &PartialOriginRow, found: FileFingerprint, path: &str) -> (result:
    Result<(), Error>)
    ensures
        match result {
            Ok(()) => fingerprint_matches(*row, found),
            Err(error) => !fingerprint_matches(*row, found) && is_internal(
                error,
                "partial-origin base changed for "@ + row.base_path@ + " (stored size="@
                    + signed_decimal(row.base_fingerprint_size as int) + ", current size="@
                    + signed_decimal(found.size as int) + ", path="@ + path@ + ")"@,
            ),
        },
{
    if found.size != row.base_fingerprint_size || found.mtime != row.base_mtime
        || found.mtime_nsec != row.base_mtime_nsec || found.ctime != row.base_ctime
        || found.ctime_nsec != row.base_ctime_nsec {
        let mut message: String = "partial-origin base changed for ".to_owned();
        message.append(row.base_path.as_str());
        message.append(" (stored size=");
        message.append(i64_to_text(row.base_fingerprint_size).as_str());
        message.append(", current size=");
        message.append(i64_to_text(found.size).as_str());
        message.append(", path=");
        message.append(path);
        message.append(")");
        return Err(Error::Internal(message));
    }
    Ok(())
}

/// The components of a recorded path below the base directory, without those that stand
/// for the directory itself.
pub open spec fn below_base(parts: Seq<Seq<char>>) -> Seq<Seq<char>> {
    parts.filter(|part: Seq<char>| part != "."@)
}

/// The components to follow below the base directory. A path that goes up is refused.
pub fn recorded_components(recorded: &str) -> (result: Result<Vec<String>, Error>)
    ensures
        if components(recorded@).contains(".."@) {
            result matches Err(error) && is_internal(
                error,
                "partial-origin base path escapes base root: "@ + recorded@,
            )
        } else {
            result matches Ok(parts) && strings(parts@) == below_base(components(recorded@))
        },
{
    let parts: Vec<String> = split_components(recorded);
    let ghost all = components(recorded@);
    let ghost keep = |part: Seq<char>| part != "."@;
    let mut kept: Vec<String> = Vec::new();
    let mut i: usize = 0;
    assert(all.take(0) =~= Seq::<Seq<char>>::empty());
    proof {
        reveal_with_fuel(Seq::filter, 2);
        assert(strings(kept@) =~= all.take(0).filter(keep));
    }
    while i < parts.len()
        invariant
            i <= parts@.len(),
            strings(parts@) == all,
            all == components(recorded@),
            keep == (|part: Seq<char>| part != "."@),
            strings(kept@) == all.take(i as int).filter(keep),
            forall|k: int| 0 <= k < i ==> all[k] != ".."@,
        decreases parts@.len() - i,
    {
        let part: &String = &parts[i];
        assert(all[i as int] == part@);
        proof {
            assert(all.take(i + 1).drop_last() =~= all.take(i as int));
            assert(all.take(i + 1).last() == part@);
            reveal_with_fuel(Seq::filter, 2);
        }
        if same_text(part.as_str(), "..") {
            assert(all.contains(".."@));
            let mut message: String =
                "partial-origin base path escapes base root: ".to_owned();
            message.append(recorded);
            return Err(Error::Internal(message));
        }
        if !same_text(part.as_str(), ".") {
            let copy: String = part.clone();
            assert(strings(kept@.push(copy)) =~= strings(kept@).push(copy@));
            kept.push(copy);
        }
        i += 1;
    }
    assert(all.take(i as int) =~= all);
    assert(!all.contains(".."@)) by {
        if all.contains(".."@) {
            let k = choose|k: int| 0 <= k < all.len() && all[k] == ".."@;
            assert(all[k] != ".."@);
        }
    }
    Ok(kept)
}

/// Whether a canonical path lies at or below a canonical directory.
pub open spec fn lies_below(path: Seq<char>, dir: Seq<char>) -> bool {
    components(dir).is_prefix_of(components(path))
}

/// Refuses a canonical path that does not lie below the base directory, both absolute.
pub fn check_below_base(canonical: &str, base_root: &str) -> (result: Result<(), Error>)
    ensures
        match result {
            Ok(()) => lies_below(canonical@, base_root@),
            Err(error) => !lies_below(canonical@, base_root@) && is_internal(
                error,
                "partial-origin base path escapes base root: "@ + canonical@,
            ),
        },
{
    let path: Vec<String> = split_components(canonical);
    let dir: Vec<String> = split_components(base_root);
    let ghost p = components(canonical@);
    let ghost d = components(base_root@);
    let mut inside: bool = dir.len() <= path.len();
    let mut i: usize = 0;
    while inside && i < dir.len()
        invariant
            i <= dir@.len(),
            strings(path@) == p,
            strings(dir@) == d,
            inside ==> d.len() <= p.len() && forall|k: int| 0 <= k < i ==> d[k] == p[k],
            !inside ==> !d.is_prefix_of(p),
        decreases dir@.len() - i,
    {
        assert(d[i as int] == dir@[i as int]@);
        assert(p[i as int] == path@[i as int]@);
        if !same_text(dir[i].as_str(), path[i].as_str()) {
            inside = false;
            assert(p.take(d.len() as int)[i as int] != d[i as int]);
        }
        i += 1;
    }
    if inside {
        assert(d =~= p.take(d.len() as int));
        return Ok(());
    }
    let mut message: String = "partial-origin base path escapes base root: ".to_owned();
    message.append(canonical);
    Err(Error::Internal(message))
}

/// The outcome of the check of base files: how many rows there are, and what is wrong with
/// those that are not as recorded.
pub open spec fn fingerprint_outcome(total: nat, problems: Seq<Seq<char>>) -> OutcomeModel {
    OutcomeModel {
        name: "overlay.partial_origin_base_fingerprints"@,
        ok: problems.len() == 0,
        detail: if total == 0 {
            "no partial-origin rows"@
        } else if problems.len() == 0 {
            decimal(total) + " base fingerprint(s) valid"@
        } else {
            decimal(problems.len()) + " base fingerprint violation(s); first: "@ + problems[0]
        },
        violating_rows: Some(problems.len() as i64),
    }
}

/// Adds the outcome of the check of base files. `problems` says what is wrong with each
/// row that is not as recorded, in order.
pub fn push_fingerprints(report: &mut Report, total: usize, problems: &Vec<String>)
    requires
        old(report).wf(),
        problems@.len() <= total,
        total <= i64::MAX,
    ensures
        final(report).wf(),
        final(report).same_but_checks(*old(report)),
        outcomes(final(report).checks@) == outcomes(old(report).checks@).push(
            fingerprint_outcome(total as nat, strings(problems@)),
        ),
{
    let name: &str = "overlay.partial_origin_base_fingerprints";
    if total == 0 {
        report.push_check(name, true, "no partial-origin rows".to_owned(), Some(0));
        return ;
    }
    if problems.len() == 0 {
        let mut detail: String = u64_to_text(total as u64);
        detail.append(" base fingerprint(s) valid");
        report.push_check(name, true, detail, Some(0));
        return ;
    }
    let count: usize = problems.len();
    let mut detail: String = u64_to_text(count as u64);
    detail.append(" base fingerprint violation(s); first: ");
    detail.append(problems[0].as_str());
    assert(strings(problems@)[0] == problems@[0]@);
    report.push_check(name, false, detail, Some(count as i64));
}

/// Adds that the base directory could not be found, which fails every row.
pub fn push_base_missing(report: &mut Report, total: usize, reason: String)
    requires
        old(report).wf(),
        total <= i64::MAX,
    ensures
        final(report).wf(),
        final(report).same_but_checks(*old(report)),
        outcomes(final(report).checks@) == outcomes(old(report).checks@).push(
            (OutcomeModel {
                name: "overlay.partial_origin_base_fingerprints"@,
                ok: false,
                detail: reason@,
                violating_rows: Some(total as i64),
            }),
        ),
{
    report.push_check(
        "overlay.partial_origin_base_fingerprints",
        false,
        reason,
        Some(total as i64),
    );
}

/// An integer from a cell that has to hold one.
pub fn value_i64(value: &SqlValue) -> (result: Result<i64, Error>)
    ensures
        match value@ {
            SqlModel::Integer(n) => result matches Ok(found) && found == n,
            _ => result matches Err(error) && is_internal(error, "Expected integer result"@),
        },
{
    match value.as_integer() {
        Some(n) => Ok(n),
        None => Err(Error::Internal("Expected integer result".to_owned())),
    }
}

/// The integer that a query of one row and one column returned.
pub fn scalar_i64(sql: &str, row: Option<SqlValue>) -> (result: Result<i64, Error>)
    ensures
        match row {
            None => result matches Err(error) && is_internal(
                error,
                "query returned no rows: "@ + sql@,
            ),
            Some(value) => match value@ {
                SqlModel::Integer(n) => result matches Ok(found) && found == n,
                _ => result matches Err(error) && is_internal(error, "Expected integer result"@),
            },
        },
{
    match row {
        None => {
            let mut message: String = "query returned no rows: ".to_owned();
            message.append(sql);
            Err(Error::Internal(message))
        },
        Some(value) => value_i64(&value),
    }
}

/// The base directory that a database records, from whether the table is there and the
/// value in it.
pub fn overlay_base_root(has_table: bool, value: Option<String>) -> (result: Result<String, Error>)
    ensures
        if !has_table {
            result matches Err(error) && is_internal(
                error,
                "partial-origin database is missing fs_overlay_config"@,
            )
        } else {
            match value {
                None => result matches Err(error) && is_internal(
                    error,
                    "partial-origin database is missing fs_overlay_config.base_path"@,
                ),
                Some(path) => result matches Ok(root) && root@ == path@,
            }
        },
{
    if !has_table {
        return Err(
            Error::Internal("partial-origin database is missing fs_overlay_config".to_owned()),
        );
    }
    match value {
        None => Err(
            Error::Internal(
                "partial-origin database is missing fs_overlay_config.base_path".to_owned(),
            ),
        ),
        Some(path) => Ok(path),
    }
}

} // verus!
