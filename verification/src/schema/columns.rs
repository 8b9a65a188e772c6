//! Columns of the tables: what they have to be, and repairs of old ones.
use crate::error::{Error, is_internal};
use crate::schema::{
    CONFIG_CHUNK_SIZE_KEY, CONFIG_INLINE_THRESHOLD_KEY, CONFIG_SCHEMA_VERSION_KEY, CURRENT,
    ColumnInfo, ColumnSpec, SchemaVersion, column_exists, has_column,
};
use crate::sql::{SqlModel, SqlStatement, SqlValue, models};
use crate::text::{
    chars_of, decimal, i64_to_text, same_text, signed_decimal, strings, texts, u64_to_text,
};
use crate::whiteouts::{dir_part, directory_of};
use vstd::prelude::*;

verus! {

/// The text that the standard library writes for a string in debug output: in quotes,
/// with special characters escaped.
pub uninterp spec fn debug_text(text: Seq<char>) -> Seq<char>;

/// `format!` with the `Debug` form of a string. The contract names its result; which
/// characters are escaped, and how, is left unsaid.
#[verifier::external_body]
pub(crate) fn quoted(text: &str) -> (out: String)
    ensures
        out@ == debug_text(text@),
{
    format!("{text:?}")
}

/// The lower-case form of an ASCII letter; other characters stay.
pub open spec fn ascii_lower(c: char) -> char {
    if 'A' <= c <= 'Z' {
        ((c as u32) + 32) as char
    } else {
        c
    }
}

pub open spec fn lowered(s: Seq<char>) -> Seq<char> {
    s.map_values(|c: char| ascii_lower(c))
}

/// The characters of a text with ASCII letters in lower case.
pub fn lower_chars(s: &str) -> (out: Vec<char>)
    ensures
        out@ == lowered(s@),
{
    let chars: Vec<char> = chars_of(s);
    let mut out: Vec<char> = Vec::new();
    let mut i: usize = 0;
    while i < chars.len()
        invariant
            i <= chars@.len(),
            chars@ == s@,
            out@.len() == i,
            forall|k: int| 0 <= k < i ==> #[trigger] out@[k] == ascii_lower(s@[k]),
        decreases chars@.len() - i,
    {
        let c: char = chars[i];
        if c >= 'A' && c <= 'Z' {
            let low: u8 = c as u8 + 32;
            out.push(low as char);
        } else {
            out.push(c);
        }
        i += 1;
    }
    assert(out@ =~= lowered(s@));
    out
}

/// Whether two texts are equal but for the case of ASCII letters.
pub fn same_but_for_case(a: &str, b: &str) -> (same: bool)
    ensures
        same == (lowered(a@) == lowered(b@)),
{
    let x: Vec<char> = lower_chars(a);
    let y: Vec<char> = lower_chars(b);
    if x.len() != y.len() {
        return false;
    }
    let mut i: usize = 0;
    while i < x.len()
        invariant
            i <= x@.len() == y@.len(),
            x@ == lowered(a@),
            y@ == lowered(b@),
            forall|k: int| 0 <= k < i ==> x@[k] == y@[k],
        decreases x@.len() - i,
    {
        if x[i] != y[i] {
            return false;
        }
        i += 1;
    }
    assert(x@ =~= y@);
    true
}

/// Whether a text contains another from some place on.
pub open spec fn contains_at(s: Seq<char>, part: Seq<char>, at: int) -> bool {
    0 <= at && at + part.len() <= s.len() && s.subrange(at, at + part.len()) == part
}

fn matches_at(s: &Vec<char>, part: &Vec<char>, at: usize) -> (yes: bool)
    requires
        at <= s@.len(),
    ensures
        yes == contains_at(s@, part@, at as int),
{
    let len: usize = s.len();
    if part.len() > len - at {
        return false;
    }
    let mut i: usize = 0;
    while i < part.len()
        invariant
            i <= part@.len(),
            at + part@.len() <= s@.len() == len,
            forall|k: int| 0 <= k < i ==> s@[at + k] == part@[k],
        decreases part@.len() - i,
    {
        if s[at + i] != part[i] {
            assert(s@.subrange(at as int, at + part@.len())[i as int] != part@[i as int]);
            return false;
        }
        i += 1;
    }
    assert(s@.subrange(at as int, at + part@.len()) =~= part@);
    true
}

/// Whether the message of a failed statement says that a column is already there.
pub open spec fn says_duplicate_column(message: Seq<char>) -> bool {
    exists|at: int| #[trigger] contains_at(lowered(message), "duplicate column"@, at)
}

/// Whether the message of a failed statement says that a column is already there.
pub fn is_duplicate_column_error(message: &str) -> (yes: bool)
    ensures
        yes == says_duplicate_column(message@),
{
    let s: Vec<char> = lower_chars(message);
    let part: Vec<char> = chars_of("duplicate column");
    let mut at: usize = 0;
    while at < s.len()
        invariant
            at <= s@.len(),
            s@ == lowered(message@),
            part@ == "duplicate column"@,
            forall|k: int| 0 <= k < at ==> !#[trigger] contains_at(s@, part@, k),
        decreases s@.len() - at,
    {
        if matches_at(&s, &part, at) {
            return true;
        }
        at += 1;
    }
    proof {
        reveal_strlit("duplicate column");
        assert forall|k: int| !#[trigger] contains_at(s@, part@, k) by {
            if contains_at(s@, part@, k) {
                assert(k < s@.len());
            }
        }
    }
    false
}

/// The first column of a name.
pub open spec fn find_column(columns: Seq<ColumnInfo>, name: Seq<char>) -> Option<ColumnInfo>
    decreases columns.len(),
{
    if columns.len() == 0 {
        None
    } else if columns[0].name@ == name {
        Some(columns[0])
    } else {
        find_column(columns.skip(1), name)
    }
}

pub open spec fn optional_text(text: Option<String>) -> Option<Seq<char>> {
    match text {
        Some(t) => Some(t@),
        None => None,
    }
}

pub open spec fn optional_str(text: Option<&'static str>) -> Option<Seq<char>> {
    match text {
        Some(t) => Some(t@),
        None => None,
    }
}

/// Whether a column is what the schema wants.
pub open spec fn column_fits(column: ColumnInfo, wanted: ColumnSpec) -> bool {
    &&& lowered(column.kind@) == lowered(wanted.kind@)
    &&& column.not_null == wanted.not_null
    &&& optional_text(column.default_value) == optional_str(wanted.default_value)
}

pub open spec fn bool_text(b: bool) -> Seq<char> {
    if b {
        "true"@
    } else {
        "false"@
    }
}

pub open spec fn debug_option(text: Option<Seq<char>>) -> Seq<char> {
    match text {
        Some(t) => "Some("@ + debug_text(t) + ")"@,
        None => "None"@,
    }
}

/// The message for a column that is there with another definition.
pub open spec fn misfit_message(column: ColumnInfo, wanted: ColumnSpec) -> Seq<char> {
    "schema column "@ + wanted.table_name@ + "."@ + wanted.column_name@
        + " already exists with incompatible definition: expected type="@ + wanted.kind@
        + " not_null="@ + bool_text(wanted.not_null) + " default="@ + debug_option(
        optional_str(wanted.default_value),
    ) + "; found type="@ + column.kind@ + " not_null="@ + bool_text(column.not_null)
        + " default="@ + debug_option(optional_text(column.default_value))
}

/// The message for a column that is not there.
pub open spec fn missing_message(wanted: ColumnSpec) -> Seq<char> {
    "schema column "@ + wanted.table_name@ + "."@ + wanted.column_name@ + " is missing"@
}

/// What is wrong with a column, if anything.
pub open spec fn column_problem(columns: Seq<ColumnInfo>, wanted: ColumnSpec) -> Option<Seq<char>> {
    match find_column(columns, wanted.column_name@) {
        None => Some(missing_message(wanted)),
        Some(column) => if column_fits(column, wanted) {
            None
        } else {
            Some(misfit_message(column, wanted))
        },
    }
}

/// Whether a result is success, or fails with this internal message.
pub open spec fn fails_with(result: Result<(), Error>, problem: Option<Seq<char>>) -> bool {
    match problem {
        None => result is Ok,
        Some(message) => result matches Err(error) && is_internal(error, message),
    }
}

fn bool_str(b: bool) -> (text: &'static str)
    ensures
        text@ == bool_text(b),
{
    if b {
        "true"
    } else {
        "false"
    }
}

fn append_option(message: &mut String, text: Option<&str>)
    ensures
        final(message)@ == old(message)@ + debug_option(
            match text {
                Some(t) => Some(t@),
                None => None,
            },
        ),
{
    let ghost before = message@;
    match text {
        Some(t) => {
            message.append("Some(");
            message.append(quoted(t).as_str());
            message.append(")");
            assert(message@ =~= before + ("Some("@ + debug_text(t@) + ")"@));
        },
        None => {
            message.append("None");
        },
    }
}

fn column_is_fitting(column: &ColumnInfo, wanted: &ColumnSpec) -> (yes: bool)
    ensures
        yes == column_fits(*column, *wanted),
{
    let default_matches: bool = match (&column.default_value, wanted.default_value) {
        (Some(found), Some(expected)) => same_text(found.as_str(), expected),
        (None, None) => true,
        _ => false,
    };
    same_but_for_case(column.kind.as_str(), wanted.kind) && column.not_null == wanted.not_null
        && default_matches
}

/// Refuses a table whose column is missing or not what the schema wants.
pub fn ensure_column_matches(columns: &Vec<ColumnInfo>, wanted: &ColumnSpec) -> (result: Result<
    (),
    Error,
>)
    ensures
        fails_with(result, column_problem(columns@, *wanted)),
{
    let mut i: usize = 0;
    assert(columns@.skip(0) =~= columns@);
    while i < columns.len()
        invariant
            i <= columns@.len(),
            find_column(columns@.skip(i as int), wanted.column_name@) == find_column(
                columns@,
                wanted.column_name@,
            ),
        decreases columns@.len() - i,
    {
        let column: &ColumnInfo = &columns[i];
        assert(columns@.skip(i as int).skip(1) =~= columns@.skip(i + 1));
        if !same_text(column.name.as_str(), wanted.column_name) {
            i += 1;
            continue;
        }
        if column_is_fitting(column, wanted) {
            return Ok(());
        }
        let mut message: String = "schema column ".to_owned();
        message.append(wanted.table_name);
        message.append(".");
        message.append(wanted.column_name);
        message.append(" already exists with incompatible definition: expected type=");
        message.append(wanted.kind);
        message.append(" not_null=");
        message.append(bool_str(wanted.not_null));
        message.append(" default=");
        append_option(&mut message, wanted.default_value);
        message.append("; found type=");
        message.append(column.kind.as_str());
        message.append(" not_null=");
        message.append(bool_str(column.not_null));
        message.append(" default=");
        match &column.default_value {
            Some(found) => {
                append_option(&mut message, Some(found.as_str()));
            },
            None => {
                append_option(&mut message, None);
            },
        }
        return Err(Error::Internal(message));
    }
    let mut message: String = "schema column ".to_owned();
    message.append(wanted.table_name);
    message.append(".");
    message.append(wanted.column_name);
    message.append(" is missing");
    Err(Error::Internal(message))
}

/// How a statement that adds a column ended.
#[derive(Debug)]
pub enum AddOutcome {
    Added,
    /// It failed with this message.
    Failed(String),
}

/// What follows a statement that adds a column: a column that was already there has to be
/// the one wanted, and any other failure stays one. `true` asks for the check.
pub fn after_add_column(outcome: AddOutcome, wanted: &ColumnSpec) -> (result: Result<bool, Error>)
    ensures
        match outcome {
            AddOutcome::Added => result matches Ok(check) && !check,
            AddOutcome::Failed(reason) => if says_duplicate_column(reason@) {
                result matches Ok(check) && check
            } else {
                result matches Err(error) && is_internal(
                    error,
                    "schema ALTER failed while adding "@ + wanted.table_name@ + "."@
                        + wanted.column_name@ + ": "@ + reason@,
                )
            },
        },
{
    match outcome {
        AddOutcome::Added => Ok(false),
        AddOutcome::Failed(reason) => {
            if is_duplicate_column_error(reason.as_str()) {
                return Ok(true);
            }
            let mut message: String = "schema ALTER failed while adding ".to_owned();
            message.append(wanted.table_name);
            message.append(".");
            message.append(wanted.column_name);
            message.append(": ");
            message.append(reason.as_str());
            Err(Error::Internal(message))
        },
    }
}

/// A column of the inode table that is an integer and zero by default.
pub open spec fn integer_spec(name: Seq<char>, column: ColumnSpec) -> bool {
    &&& column.table_name@ == "fs_inode"@
    &&& column.column_name@ == name
    &&& column.kind@ == "INTEGER"@
    &&& column.not_null
    &&& column.default_value matches Some(value) && value@ == "0"@
}

fn integer_column_spec(name: &'static str) -> (column: ColumnSpec)
    ensures
        integer_spec(name@, column),
{
    ColumnSpec {
        table_name: "fs_inode",
        column_name: name,
        kind: "INTEGER",
        not_null: true,
        default_value: Some("0"),
    }
}

/// The columns that came with later versions, as the current schema has them.
pub open spec fn are_current_columns(columns: Seq<ColumnSpec>) -> bool {
    &&& columns.len() == 7
    &&& integer_spec("nlink"@, columns[0])
    &&& integer_spec("atime_nsec"@, columns[1])
    &&& integer_spec("mtime_nsec"@, columns[2])
    &&& integer_spec("ctime_nsec"@, columns[3])
    &&& integer_spec("rdev"@, columns[4])
    &&& {
        &&& columns[5].table_name@ == "fs_inode"@
        &&& columns[5].column_name@ == "data_inline"@
        &&& columns[5].kind@ == "BLOB"@
        &&& !columns[5].not_null
        &&& columns[5].default_value is None
    }
    &&& integer_spec("storage_kind"@, columns[6])
}

/// The columns that came with later versions, as the current schema has them.
pub fn current_column_specs() -> (columns: Vec<ColumnSpec>)
    ensures
        are_current_columns(columns@),
{
    let mut columns: Vec<ColumnSpec> = Vec::new();
    columns.push(integer_column_spec("nlink"));
    columns.push(integer_column_spec("atime_nsec"));
    columns.push(integer_column_spec("mtime_nsec"));
    columns.push(integer_column_spec("ctime_nsec"));
    columns.push(integer_column_spec("rdev"));
    columns.push(
        ColumnSpec {
            table_name: "fs_inode",
            column_name: "data_inline",
            kind: "BLOB",
            not_null: false,
            default_value: None,
        },
    );
    columns.push(integer_column_spec("storage_kind"));
    columns
}

/// The tables that the current schema needs.
pub open spec fn required_names() -> Seq<Seq<char>> {
    seq![
        "fs_config"@,
        "fs_inode"@,
        "fs_dentry"@,
        "fs_data"@,
        "fs_symlink"@,
        "fs_whiteout"@,
        "fs_overlay_config"@,
        "fs_origin"@,
        "fs_partial_origin"@,
        "fs_chunk_override"@,
        "kv_store"@,
        "tool_calls"@,
    ]
}

/// The tables that the current schema needs.
pub fn required_current_tables() -> (tables: Vec<&'static str>)
    ensures
        texts(tables@) == required_names(),
{
    let mut tables: Vec<&'static str> = Vec::new();
    tables.push("fs_config");
    tables.push("fs_inode");
    tables.push("fs_dentry");
    tables.push("fs_data");
    tables.push("fs_symlink");
    tables.push("fs_whiteout");
    tables.push("fs_overlay_config");
    tables.push("fs_origin");
    tables.push("fs_partial_origin");
    tables.push("fs_chunk_override");
    tables.push("kv_store");
    tables.push("tool_calls");
    assert(texts(tables@) =~= required_names());
    tables
}

/// The first of `wanted` that is not among `present`.
pub open spec fn first_missing(wanted: Seq<Seq<char>>, present: Seq<Seq<char>>) -> Option<Seq<char>>
    decreases wanted.len(),
{
    if wanted.len() == 0 {
        None
    } else if !present.contains(wanted[0]) {
        Some(wanted[0])
    } else {
        first_missing(wanted.skip(1), present)
    }
}

/// What is wrong with the first column that does not fit.
pub open spec fn first_problem(
    columns: Seq<ColumnInfo>,
    wanted: Seq<ColumnSpec>,
) -> Option<Seq<char>>
    decreases wanted.len(),
{
    if wanted.len() == 0 {
        None
    } else {
        match column_problem(columns, wanted[0]) {
            Some(message) => Some(message),
            None => first_problem(columns, wanted.skip(1)),
        }
    }
}

fn is_present(present: &Vec<String>, name: &str) -> (yes: bool)
    ensures
        yes == strings(present@).contains(name@),
{
    let mut i: usize = 0;
    while i < present.len()
        invariant
            i <= present@.len(),
            forall|k: int| 0 <= k < i ==> (#[trigger] present@[k])@ != name@,
        decreases present@.len() - i,
    {
        if same_text(present[i].as_str(), name) {
            assert(strings(present@)[i as int] == name@);
            return true;
        }
        i += 1;
    }
    proof {
        if strings(present@).contains(name@) {
            let k = choose|k: int|
                0 <= k < strings(present@).len() && strings(present@)[k] == name@;
            assert(present@[k]@ == name@);
        }
    }
    false
}

/// What is wrong with a database that should have the current schema: the first table
/// that is missing, else the first column that does not fit.
pub open spec fn schema_problem(
    tables: Seq<Seq<char>>,
    inode_columns: Seq<ColumnInfo>,
    wanted: Seq<ColumnSpec>,
) -> Option<Seq<char>> {
    match first_missing(required_names(), tables) {
        Some(name) => Some("current schema is missing required table "@ + name),
        None => first_problem(inode_columns, wanted),
    }
}

/// Refuses a database whose tables or columns are not those of the current schema, from
/// the names of its tables and the columns of its inode table.
pub fn validate_current_schema(tables: &Vec<String>, inode_columns: &Vec<ColumnInfo>) -> (result:
    Result<(), Error>)
    ensures
        exists|wanted: Seq<ColumnSpec>|
            are_current_columns(wanted) && fails_with(
                result,
                #[trigger] schema_problem(strings(tables@), inode_columns@, wanted),
            ),
{
    let columns: Vec<ColumnSpec> = current_column_specs();
    let required: Vec<&'static str> = required_current_tables();
    let ghost present = strings(tables@);
    let ghost names = texts(required@);
    let ghost problem = schema_problem(present, inode_columns@, columns@);
    let mut i: usize = 0;
    assert(names.skip(0) =~= names);
    while i < required.len()
        invariant
            i <= required@.len(),
            names == texts(required@),
            names == required_names(),
            present == strings(tables@),
            first_missing(names.skip(i as int), present) == first_missing(names, present),
            problem == schema_problem(present, inode_columns@, columns@),
            are_current_columns(columns@),
        decreases required@.len() - i,
    {
        assert(names.skip(i as int)[0] == required@[i as int]@);
        assert(names.skip(i as int).skip(1) =~= names.skip(i + 1));
        if !is_present(tables, required[i]) {
            let mut message: String = "current schema is missing required table ".to_owned();
            message.append(required[i]);
            let result: Result<(), Error> = Err(Error::Internal(message));
            assert(fails_with(result, problem));
            return result;
        }
        i += 1;
    }
    let mut j: usize = 0;
    assert(columns@.skip(0) =~= columns@);
    while j < columns.len()
        invariant
            j <= columns@.len(),
            first_problem(inode_columns@, columns@.skip(j as int)) == first_problem(
                inode_columns@,
                columns@,
            ),
            problem == first_problem(inode_columns@, columns@),
            problem == schema_problem(strings(tables@), inode_columns@, columns@),
            are_current_columns(columns@),
        decreases columns@.len() - j,
    {
        assert(columns@.skip(j as int).skip(1) =~= columns@.skip(j + 1));
        match ensure_column_matches(inode_columns, &columns[j]) {
            Ok(()) => {},
            Err(error) => {
                let result: Result<(), Error> = Err(error);
                assert(fails_with(result, problem));
                return result;
            },
        }
        j += 1;
    }
    let result: Result<(), Error> = Ok(());
    assert(fails_with(result, problem));
    result
}

/// A database without a problem has every table that the schema needs.
pub proof fn valid_databases_have_every_table(tables: Seq<Seq<char>>, name: Seq<char>)
    requires
        first_missing(required_names(), tables) is None,
        required_names().contains(name),
    ensures
        tables.contains(name),
{
    lemma_nothing_missing(required_names(), tables, name);
}

proof fn lemma_nothing_missing(wanted: Seq<Seq<char>>, present: Seq<Seq<char>>, name: Seq<char>)
    requires
        first_missing(wanted, present) is None,
        wanted.contains(name),
    ensures
        present.contains(name),
    decreases wanted.len(),
{
    if wanted[0] != name {
        let i = choose|i: int| 0 <= i < wanted.len() && wanted[i] == name;
        assert(wanted.skip(1)[i - 1] == name);
        lemma_nothing_missing(wanted.skip(1), present, name);
    }
}

/// Statements that add the columns which old tables of the overlay lack.
pub struct OverlayRepairs {
    pub statements: Vec<&'static str>,
    /// Whether the parents of hidden paths have to be filled in.
    pub fill_parents: bool,
}

/// The statement that adds a column unless it is there.
pub open spec fn unless_there(
    columns: Seq<ColumnInfo>,
    name: Seq<char>,
    sql: Seq<char>,
) -> Seq<Seq<char>> {
    if has_column(columns, name) {
        Seq::empty()
    } else {
        seq![sql]
    }
}

/// The statements that repair a table of partial origins.
pub open spec fn origin_repairs(columns: Seq<ColumnInfo>) -> Seq<Seq<char>> {
    unless_there(
        columns,
        "base_fingerprint_size"@,
        "ALTER TABLE fs_partial_origin ADD COLUMN base_fingerprint_size INTEGER NOT NULL DEFAULT -1"@,
    ) + unless_there(
        columns,
        "base_mtime"@,
        "ALTER TABLE fs_partial_origin ADD COLUMN base_mtime INTEGER NOT NULL DEFAULT 0"@,
    ) + unless_there(
        columns,
        "base_mtime_nsec"@,
        "ALTER TABLE fs_partial_origin ADD COLUMN base_mtime_nsec INTEGER NOT NULL DEFAULT 0"@,
    ) + unless_there(
        columns,
        "base_ctime"@,
        "ALTER TABLE fs_partial_origin ADD COLUMN base_ctime INTEGER NOT NULL DEFAULT 0"@,
    ) + unless_there(
        columns,
        "base_ctime_nsec"@,
        "ALTER TABLE fs_partial_origin ADD COLUMN base_ctime_nsec INTEGER NOT NULL DEFAULT 0"@,
    )
}

/// The statement that repairs a table of hidden paths.
pub open spec fn whiteout_repairs(columns: Seq<ColumnInfo>) -> Seq<Seq<char>> {
    unless_there(
        columns,
        "parent_path"@,
        "ALTER TABLE fs_whiteout ADD COLUMN parent_path TEXT NOT NULL DEFAULT '/'"@,
    )
}

/// The repairs of old tables of the overlay, from the columns of those that exist.
pub fn overlay_repairs(
    partial_origin: Option<&Vec<ColumnInfo>>,
    whiteout: Option<&Vec<ColumnInfo>>,
) -> (repairs: OverlayRepairs)
    ensures
        texts(repairs.statements@) == (match partial_origin {
            Some(columns) => origin_repairs(columns@),
            None => Seq::<Seq<char>>::empty(),
        }) + (match whiteout {
            Some(columns) => whiteout_repairs(columns@),
            None => Seq::<Seq<char>>::empty(),
        }),
        repairs.fill_parents == (whiteout matches Some(columns) && !has_column(
            columns@,
            "parent_path"@,
        )),
{
    let mut statements: Vec<&'static str> = Vec::new();
    let mut fill_parents: bool = false;
    if let Some(columns) = partial_origin {
        if !column_exists(columns, "base_fingerprint_size") {
            statements.push(
                "ALTER TABLE fs_partial_origin ADD COLUMN base_fingerprint_size INTEGER NOT NULL DEFAULT -1",
            );
        }
        if !column_exists(columns, "base_mtime") {
            statements.push(
                "ALTER TABLE fs_partial_origin ADD COLUMN base_mtime INTEGER NOT NULL DEFAULT 0",
            );
        }
        if !column_exists(columns, "base_mtime_nsec") {
            statements.push(
                "ALTER TABLE fs_partial_origin ADD COLUMN base_mtime_nsec INTEGER NOT NULL DEFAULT 0",
            );
        }
        if !column_exists(columns, "base_ctime") {
            statements.push(
                "ALTER TABLE fs_partial_origin ADD COLUMN base_ctime INTEGER NOT NULL DEFAULT 0",
            );
        }
        if !column_exists(columns, "base_ctime_nsec") {
            statements.push(
                "ALTER TABLE fs_partial_origin ADD COLUMN base_ctime_nsec INTEGER NOT NULL DEFAULT 0",
            );
        }
        assert(texts(statements@) =~= origin_repairs(columns@));
    }
    let ghost first = texts(statements@);
    if let Some(columns) = whiteout {
        if !column_exists(columns, "parent_path") {
            statements.push(
                "ALTER TABLE fs_whiteout ADD COLUMN parent_path TEXT NOT NULL DEFAULT '/'",
            );
            fill_parents = true;
        }
        assert(texts(statements@) =~= first + whiteout_repairs(columns@));
    }
    assert(first =~= match partial_origin {
        Some(columns) => origin_repairs(columns@),
        None => Seq::<Seq<char>>::empty(),
    });
    OverlayRepairs { statements, fill_parents }
}

/// Fills in the parent of a hidden path.
pub const FILL_PARENT_SQL: &'static str = "UPDATE fs_whiteout SET parent_path = ? WHERE path = ?";

/// Sets a value of the configuration.
pub const SET_CONFIG_SQL: &'static str =
    "INSERT OR REPLACE INTO fs_config (key, value) VALUES (?, ?)";

/// Sets a value of the configuration where there is none.
pub const INSERT_CONFIG_SQL: &'static str =
    "INSERT OR IGNORE INTO fs_config (key, value) VALUES (?, ?)";

/// The statement that fills in the parent of a hidden path.
pub fn fill_parent_statement(path: &str) -> (statement: SqlStatement)
    ensures
        statement.runs(
            FILL_PARENT_SQL@,
            seq![SqlModel::Text(dir_part(path@)), SqlModel::Text(path@)],
        ),
{
    let mut values: Vec<SqlValue> = Vec::new();
    values.push(SqlValue::Text(directory_of(path)));
    values.push(SqlValue::Text(path.to_owned()));
    assert(models(values@) =~= seq![SqlModel::Text(dir_part(path@)), SqlModel::Text(path@)]);
    SqlStatement {
        sql: FILL_PARENT_SQL.to_owned(),
        values,
    }
}

fn config_statement(sql: &str, key: &str, value: String) -> (statement: SqlStatement)
    ensures
        statement.runs(sql@, seq![SqlModel::Text(key@), SqlModel::Text(value@)]),
{
    let mut values: Vec<SqlValue> = Vec::new();
    values.push(SqlValue::Text(key.to_owned()));
    let ghost text = value@;
    values.push(SqlValue::Text(value));
    assert(models(values@) =~= seq![SqlModel::Text(key@), SqlModel::Text(text)]);
    SqlStatement { sql: sql.to_owned(), values }
}

/// The statements that write the configuration: the version always, sizes only where none
/// are set.
pub fn config_defaults(chunk_size: u64, inline_threshold: u64) -> (statements: Vec<SqlStatement>)
    ensures
        statements@.len() == 3,
        statements@[0].runs(
            SET_CONFIG_SQL@,
            seq![SqlModel::Text(CONFIG_SCHEMA_VERSION_KEY@), SqlModel::Text(CURRENT.text())],
        ),
        statements@[1].runs(
            INSERT_CONFIG_SQL@,
            seq![
                SqlModel::Text(CONFIG_CHUNK_SIZE_KEY@),
                SqlModel::Text(decimal(chunk_size as nat)),
            ],
        ),
        statements@[2].runs(
            INSERT_CONFIG_SQL@,
            seq![
                SqlModel::Text(CONFIG_INLINE_THRESHOLD_KEY@),
                SqlModel::Text(decimal(inline_threshold as nat)),
            ],
        ),
{
    let mut statements: Vec<SqlStatement> = Vec::new();
    statements.push(
        config_statement(
            SET_CONFIG_SQL,
            CONFIG_SCHEMA_VERSION_KEY,
            CURRENT.as_str().to_owned(),
        ),
    );
    statements.push(
        config_statement(
            INSERT_CONFIG_SQL,
            CONFIG_CHUNK_SIZE_KEY,
            u64_to_text(chunk_size),
        ),
    );
    statements.push(
        config_statement(
            INSERT_CONFIG_SQL,
            CONFIG_INLINE_THRESHOLD_KEY,
            u64_to_text(inline_threshold),
        ),
    );
    statements
}

/// The statement that stamps a database with a version.
pub fn stamp_statement(version: SchemaVersion) -> (sql: String)
    ensures
        sql@ == "PRAGMA user_version = "@ + signed_decimal(version.number() as int),
{
    let mut sql: String = "PRAGMA user_version = ".to_owned();
    sql.append(i64_to_text(version.user_version()).as_str());
    sql
}

/// A column from a row of the table description: name, type, whether it must not be null,
/// and its default. A default of another type than text or integer is kept in its debug
/// form, which the caller gives.
pub fn column_from_row(
    name: String,
    kind: String,
    not_null: i64,
    default: &SqlValue,
    default_debug: String,
) -> (column: ColumnInfo)
    ensures
        column.name@ == name@,
        column.kind@ == kind@,
        column.not_null == (not_null != 0),
        optional_text(column.default_value) == match default@ {
            SqlModel::Text(text) => Some(text),
            SqlModel::Integer(n) => Some(signed_decimal(n as int)),
            SqlModel::Null => None,
            _ => Some(default_debug@),
        },
{
    let default_value: Option<String> = match default {
        SqlValue::Text(text) => Some(text.clone()),
        SqlValue::Integer(n) => Some(i64_to_text(*n)),
        SqlValue::Null => None,
        _ => Some(default_debug),
    };
    ColumnInfo { name, kind, not_null: not_null != 0, default_value }
}

/// Records the directory that the filesystem lies over.
pub const SET_BASE_PATH_SQL: &'static str =
    "INSERT OR REPLACE INTO fs_overlay_config (key, value) VALUES ('base_path', ?1)";

/// The statement that records the directory that the filesystem lies over.
pub fn base_path_statement(base_path: &str) -> (statement: SqlStatement)
    ensures
        statement.runs(SET_BASE_PATH_SQL@, seq![SqlModel::Text(base_path@)]),
{
    let mut values: Vec<SqlValue> = Vec::new();
    values.push(SqlValue::Text(base_path.to_owned()));
    assert(models(values@) =~= seq![SqlModel::Text(base_path@)]);
    SqlStatement { sql: SET_BASE_PATH_SQL.to_owned(), values }
}

} // verus!
