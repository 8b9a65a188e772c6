//! What the schema's operations have to do with each other.
use crate::error::Error;
use crate::schema::columns::{
    AddOutcome, OverlayRepairs, after_add_column, column_fits, column_from_row, column_problem,
    config_defaults, current_column_specs, ensure_column_matches, find_column, first_missing,
    first_problem, overlay_repairs, required_current_tables, required_names, stamp_statement,
    validate_current_schema,
};
use crate::schema::{
    ColumnInfo, ColumnSpec, Migration, MigrationPlan, SchemaStep, SchemaVersion,
    check_schema_version, described, detect_schema_version, ensure_current_steps, has_column,
    history, history_from, migration_plan, pending_migrations, upgrade,
};
use crate::sql::{SqlModel, SqlStatement, SqlValue, models};
use crate::text::{decimal, signed_decimal, strings, texts};
use vstd::prelude::*;

verus! {

/// A version is named by the digits of its stamp.
pub proof fn a_version_is_named_by_its_stamp(
    version: SchemaVersion,
    text: &'static str,
    number: i64,
    back: Option<SchemaVersion>,
)
    requires
        call_ensures(SchemaVersion::as_str, (version,), text),
        call_ensures(SchemaVersion::user_version, (version,), number),
        call_ensures(SchemaVersion::from_user_version, (number,), back),
    ensures
        back == Some(version),
        text@.len() == 3,
        text@[0] == '0',
        text@[1] == '.',
        text@[2] as int == '0' as int + number,
        version == SchemaVersion::V0_0 <==> number == 0,
        version == SchemaVersion::V0_2 <==> number == 2,
        version == SchemaVersion::V0_4 <==> number == 4,
        version == SchemaVersion::V0_5 <==> number == 5,
{
    reveal_strlit("0.0");
    reveal_strlit("0.2");
    reveal_strlit("0.4");
    reveal_strlit("0.5");
}

/// Whether the columns that a plan adds are all there.
pub open spec fn holds_added(columns: Seq<ColumnInfo>, plan: MigrationPlan) -> bool {
    forall|i: int|
        0 <= i < plan.columns@.len() ==> has_column(
            columns,
            (#[trigger] plan.columns@[i]).spec.column_name@,
        )
}

/// A database without a stamp is taken for the latest version whose migration's columns
/// it has, and one with a stamp for the version of the stamp, whatever its columns.
pub proof fn a_migrated_database_is_detected_as_its_target(
    user_version: i64,
    columns: Vec<ColumnInfo>,
    to_v2: MigrationPlan,
    to_v4: MigrationPlan,
    to_v5: MigrationPlan,
    m2: Migration,
    m4: Migration,
    m5: Migration,
    result: Result<Option<SchemaVersion>, Error>,
)
    requires
        m2.from == SchemaVersion::V0_0 && m2.to == SchemaVersion::V0_2,
        m4.from == SchemaVersion::V0_2 && m4.to == SchemaVersion::V0_4,
        m5.from == SchemaVersion::V0_4 && m5.to == SchemaVersion::V0_5,
        call_ensures(migration_plan, (&m2,), Ok::<MigrationPlan, Error>(to_v2)),
        call_ensures(migration_plan, (&m4,), Ok::<MigrationPlan, Error>(to_v4)),
        call_ensures(migration_plan, (&m5,), Ok::<MigrationPlan, Error>(to_v5)),
        call_ensures(detect_schema_version, (user_version, Some(&columns)), result),
    ensures
        user_version <= 0 && holds_added(columns@, to_v5) ==> result == Ok::<
            Option<SchemaVersion>,
            Error,
        >(Some(SchemaVersion::V0_5)),
        user_version <= 0 && holds_added(columns@, to_v4) && !holds_added(columns@, to_v5)
            ==> result == Ok::<Option<SchemaVersion>, Error>(Some(SchemaVersion::V0_4)),
        user_version <= 0 && holds_added(columns@, to_v2) && !holds_added(columns@, to_v4)
            && !holds_added(columns@, to_v5) ==> result == Ok::<Option<SchemaVersion>, Error>(
            Some(SchemaVersion::V0_2),
        ),
        user_version <= 0 && !holds_added(columns@, to_v2) && !holds_added(columns@, to_v4)
            && !holds_added(columns@, to_v5) ==> result == Ok::<Option<SchemaVersion>, Error>(
            Some(SchemaVersion::V0_0),
        ),
        user_version == 2 ==> result == Ok::<Option<SchemaVersion>, Error>(
            Some(SchemaVersion::V0_2),
        ),
        user_version == 4 ==> result == Ok::<Option<SchemaVersion>, Error>(
            Some(SchemaVersion::V0_4),
        ),
        user_version == 5 ==> result == Ok::<Option<SchemaVersion>, Error>(
            Some(SchemaVersion::V0_5),
        ),
        user_version > 0 && user_version != 2 && user_version != 4 && user_version != 5 ==> {
            &&& result matches Err(error)
            &&& error matches Error::SchemaVersionMismatch { found, expected }
            &&& found@ == "user_version "@ + signed_decimal(user_version as int)
            &&& expected@ == "0.5"@
        },
{
    assert(to_v2.columns@[0].spec.column_name@ == "nlink"@);
    assert(to_v4.columns@[0].spec.column_name@ == "atime_nsec"@);
    assert(to_v4.columns@[1].spec.column_name@ == "mtime_nsec"@);
    assert(to_v4.columns@[2].spec.column_name@ == "ctime_nsec"@);
    assert(to_v4.columns@[3].spec.column_name@ == "rdev"@);
    assert(to_v5.columns@[0].spec.column_name@ == "data_inline"@);
    assert(to_v5.columns@[1].spec.column_name@ == "storage_kind"@);
}

/// A database without tables has no version, and is opened without a look at its columns.
pub proof fn an_empty_database_has_no_version(
    user_version: i64,
    found: Result<Option<SchemaVersion>, Error>,
    detected: Option<SchemaVersion>,
    checked: Result<bool, Error>,
)
    requires
        call_ensures(detect_schema_version, (user_version, None::<&Vec<ColumnInfo>>), found),
        call_ensures(check_schema_version, (detected,), checked),
    ensures
        user_version <= 0 ==> found == Ok::<Option<SchemaVersion>, Error>(None),
        detected is None <==> checked == Ok::<bool, Error>(false),
        detected == Some(SchemaVersion::V0_5) <==> checked == Ok::<bool, Error>(true),
        detected == Some(SchemaVersion::V0_0) || detected == Some(SchemaVersion::V0_2) || detected
            == Some(SchemaVersion::V0_4) ==> {
            &&& checked matches Err(error)
            &&& error matches Error::SchemaVersionMismatch { found: text, expected }
            &&& expected@ == "0.5"@
            &&& detected == Some(SchemaVersion::V0_0) ==> text@ == "0.0"@
            &&& detected == Some(SchemaVersion::V0_2) ==> text@ == "0.2"@
            &&& detected == Some(SchemaVersion::V0_4) ==> text@ == "0.4"@
        },
{
}

/// The columns that the migrations add, taken together, are those that a current
/// database is held to: the names, the types, whether a value is needed, and the default.
pub proof fn migrations_add_what_the_current_schema_wants(
    m2: Migration,
    m4: Migration,
    m5: Migration,
    to_v2: MigrationPlan,
    to_v4: MigrationPlan,
    to_v5: MigrationPlan,
    wanted: Vec<ColumnSpec>,
)
    requires
        m2.from == SchemaVersion::V0_0 && m2.to == SchemaVersion::V0_2,
        m4.from == SchemaVersion::V0_2 && m4.to == SchemaVersion::V0_4,
        m5.from == SchemaVersion::V0_4 && m5.to == SchemaVersion::V0_5,
        call_ensures(migration_plan, (&m2,), Ok::<MigrationPlan, Error>(to_v2)),
        call_ensures(migration_plan, (&m4,), Ok::<MigrationPlan, Error>(to_v4)),
        call_ensures(migration_plan, (&m5,), Ok::<MigrationPlan, Error>(to_v5)),
        call_ensures(current_column_specs, (), wanted),
    ensures
        ({
            let added = to_v2.columns@ + to_v4.columns@ + to_v5.columns@;
            &&& added.len() == wanted@.len() == 7
            &&& forall|i: int|
                0 <= i < 7 ==> is_same_column(#[trigger] added[i].spec, wanted@[i])
        }),
        to_v2.columns@.len() == 1,
        to_v4.columns@.len() == 4,
        to_v5.columns@.len() == 2,
        to_v2.fill is Some && to_v4.fill is None && to_v5.fill is None,
{
    let added = to_v2.columns@ + to_v4.columns@ + to_v5.columns@;
    assert(added[0] == to_v2.columns@[0]);
    assert(added[1] == to_v4.columns@[0]);
    assert(added[2] == to_v4.columns@[1]);
    assert(added[3] == to_v4.columns@[2]);
    assert(added[4] == to_v4.columns@[3]);
    assert(added[5] == to_v5.columns@[0]);
    assert(added[6] == to_v5.columns@[1]);
    assert forall|i: int| 0 <= i < 7 implies is_same_column(
        #[trigger] added[i].spec,
        wanted@[i],
    ) by {
        assert(i == 0 || i == 1 || i == 2 || i == 3 || i == 4 || i == 5 || i == 6);
    }
}

/// Whether two wanted columns are the same.
pub open spec fn is_same_column(one: ColumnSpec, other: ColumnSpec) -> bool {
    &&& one.table_name@ == "fs_inode"@
    &&& other.table_name@ == "fs_inode"@
    &&& one.column_name@ == other.column_name@
    &&& one.kind@ == other.kind@
    &&& one.not_null == other.not_null
    &&& one.default_value is Some <==> other.default_value is Some
    &&& one.default_value is Some ==> one.default_value->0@ == other.default_value->0@
}

/// A column's statement names the table, the column, its type, and the default where a
/// value is needed.
pub proof fn a_column_is_added_as_it_is_described(
    migration: Migration,
    plan: MigrationPlan,
    i: int,
)
    requires
        call_ensures(migration_plan, (&migration,), Ok::<MigrationPlan, Error>(plan)),
        0 <= i < plan.columns@.len(),
    ensures
        ({
            let column = plan.columns@[i];
            &&& column.spec.not_null <==> column.spec.default_value is Some
            &&& column.spec.not_null ==> column.sql@ == "ALTER TABLE "@ + column.spec.table_name@
                + " ADD COLUMN "@ + column.spec.column_name@ + " "@ + column.spec.kind@
                + " NOT NULL DEFAULT "@ + column.spec.default_value->0@
            &&& !column.spec.not_null ==> column.sql@ == "ALTER TABLE "@ + column.spec.table_name@
                + " ADD COLUMN "@ + column.spec.column_name@ + " "@ + column.spec.kind@
        }),
{
    let column = plan.columns@[i];
    reveal_strlit("ALTER TABLE fs_inode ADD COLUMN ");
    reveal_strlit("ALTER TABLE ");
    reveal_strlit("fs_inode");
    reveal_strlit(" ADD COLUMN ");
    assert("ALTER TABLE fs_inode ADD COLUMN "@ =~= "ALTER TABLE "@ + "fs_inode"@
        + " ADD COLUMN "@);
    if column.spec.not_null {
        assert(column.sql@ =~= "ALTER TABLE "@ + column.spec.table_name@ + " ADD COLUMN "@
            + column.spec.column_name@ + " "@ + column.spec.kind@ + " NOT NULL DEFAULT "@
            + column.spec.default_value->0@);
    } else {
        assert(column.sql@ =~= "ALTER TABLE "@ + column.spec.table_name@ + " ADD COLUMN "@
            + column.spec.column_name@ + " "@ + column.spec.kind@);
    }
}

/// The migrations from a version begin there, end at the current version, each where the
/// last one ended.
pub proof fn migrations_lead_to_the_current_version(
    from: SchemaVersion,
    steps: Vec<Migration>,
    i: int,
)
    requires
        call_ensures(pending_migrations, (from,), steps),
        0 <= i < steps@.len(),
    ensures
        from == SchemaVersion::V0_4 <==> steps@.len() == 1,
        from == SchemaVersion::V0_2 <==> steps@.len() == 2,
        from == SchemaVersion::V0_0 <==> steps@.len() == 3,
        steps@[0].from == from,
        steps@.last().to == SchemaVersion::V0_5,
        i + 1 < steps@.len() ==> steps@[i].to == steps@[i + 1].from,
{
    lemma_pending(from, steps@, 0);
    lemma_pending(from, steps@, i);
    lemma_pending(from, steps@, steps@.len() - 1);
    if i + 1 < steps@.len() {
        lemma_pending(from, steps@, i + 1);
    }
}

/// Each of the migrations from a version can be planned, and the current version has none.
pub proof fn every_pending_migration_has_a_plan(
    from: SchemaVersion,
    steps: Vec<Migration>,
    i: int,
    result: Result<MigrationPlan, Error>,
)
    requires
        call_ensures(pending_migrations, (from,), steps),
        0 <= i < steps@.len(),
        call_ensures(migration_plan, (&steps@[i],), result),
    ensures
        from != SchemaVersion::V0_5,
        result is Ok,
{
    lemma_pending(from, steps@, i);
}

proof fn lemma_pending(from: SchemaVersion, steps: Seq<Migration>, i: int)
    requires
        described(steps) == history_from(from),
        0 <= i < steps.len(),
    ensures
        steps.len() == history_from(from).len(),
        steps[i]@ == history_from(from)[i],
        steps[i].from == history_from(from)[i].0,
        steps[i].to == history_from(from)[i].1,
{
    assert(described(steps).len() == steps.len());
    assert(described(steps)[i] == steps[i]@);
}

/// A database with the current stamp is left alone. Any other is repaired, gets the tables
/// that it lacks and the migrations that it lacks, each stamped when it is done, and at
/// the end its settings and the current stamp.
pub proof fn an_upgrade_ends_with_the_current_stamp(
    user_version: i64,
    detected: Option<SchemaVersion>,
    steps: Vec<SchemaStep>,
)
    requires
        call_ensures(ensure_current_steps, (user_version, detected), steps),
    ensures
        user_version == 5 ==> steps@.len() == 0,
        user_version != 5 ==> {
            let missing = match detected {
                Some(SchemaVersion::V0_0) => 3int,
                Some(SchemaVersion::V0_2) => 2int,
                Some(SchemaVersion::V0_4) => 1int,
                _ => 0int,
            };
            &&& steps@.len() == 2 * missing + 4
            &&& steps@[0] is RepairOverlay
            &&& steps@[1] is CreateTables
            &&& missing == 3 ==> applies(
                steps@[2],
                steps@[3],
                SchemaVersion::V0_0,
                SchemaVersion::V0_2,
            )
            &&& missing >= 2 ==> applies(
                steps@[2 * missing - 2],
                steps@[2 * missing - 1],
                SchemaVersion::V0_2,
                SchemaVersion::V0_4,
            )
            &&& missing >= 1 ==> applies(
                steps@[2 * missing],
                steps@[2 * missing + 1],
                SchemaVersion::V0_4,
                SchemaVersion::V0_5,
            )
            &&& steps@[2 * missing + 2] is ConfigDefaults
            &&& steps@[2 * missing + 3] == SchemaStep::Stamp(SchemaVersion::V0_5)
        },
{
    if user_version != 5 {
        let pending = choose|pending: Seq<Migration>|
            {
                &&& steps@ == #[trigger] upgrade(pending)
                &&& match detected {
                    Some(version) => described(pending) == history_from(version),
                    None => pending.len() == 0,
                }
            };
        crate::schema::an_upgrade_takes_every_missing_step_once(pending);
        assert(described(pending).len() == pending.len());
        assert(history().len() == 3);
        if detected is Some {
            let from = detected->0;
            assert forall|i: int| 0 <= i < pending.len() implies (#[trigger] pending[i])@
                == history_from(from)[i] by {
                assert(described(pending)[i] == pending[i]@);
            }
            if pending.len() >= 1 {
                let p = pending[0];
                assert(p@ == history_from(from)[0]);
            }
            if pending.len() >= 2 {
                let p = pending[1];
                assert(p@ == history_from(from)[1]);
            }
            if pending.len() >= 3 {
                let p = pending[2];
                assert(p@ == history_from(from)[2]);
            }
        }
    }
}

/// Whether a step migrates from one version to another and the next one stamps the second.
pub open spec fn applies(
    step: SchemaStep,
    stamp: SchemaStep,
    from: SchemaVersion,
    to: SchemaVersion,
) -> bool {
    &&& step matches SchemaStep::Apply(migration)
    &&& migration.from == from
    &&& migration.to == to
    &&& stamp == SchemaStep::Stamp(to)
}

proof fn lemma_find_column(columns: Seq<ColumnInfo>, name: Seq<char>, at: int)
    requires
        0 <= at < columns.len(),
        columns[at].name@ == name,
        forall|k: int| 0 <= k < at ==> (#[trigger] columns[k]).name@ != name,
    ensures
        find_column(columns, name) == Some(columns[at]),
    decreases columns.len(),
{
    if at > 0 {
        assert(columns[0].name@ != name);
        lemma_find_column(columns.skip(1), name, at - 1);
    }
}

proof fn lemma_find_none(columns: Seq<ColumnInfo>, name: Seq<char>)
    requires
        forall|k: int| 0 <= k < columns.len() ==> (#[trigger] columns[k]).name@ != name,
    ensures
        find_column(columns, name) is None,
    decreases columns.len(),
{
    if columns.len() > 0 {
        assert(columns[0].name@ != name);
        lemma_find_none(columns.skip(1), name);
    }
}

/// A wanted column is accepted only where the first column of its name has the same type
/// but for the case of letters, asks for a value where it is wanted, and has the same
/// default.
pub proof fn a_column_has_to_be_as_wanted(
    columns: Vec<ColumnInfo>,
    wanted: ColumnSpec,
    at: int,
    result: Result<(), Error>,
)
    requires
        call_ensures(ensure_column_matches, (&columns, &wanted), result),
        0 <= at < columns@.len(),
        columns@[at].name@ == wanted.column_name@,
        forall|k: int| 0 <= k < at ==> (#[trigger] columns@[k]).name@ != wanted.column_name@,
    ensures
        columns@[at].kind@ == wanted.kind@ && columns@[at].not_null == wanted.not_null && (
        columns@[at].default_value is Some <==> wanted.default_value is Some) && (
        wanted.default_value is Some ==> columns@[at].default_value->0@
            == wanted.default_value->0@) ==> result is Ok,
        result is Ok ==> columns@[at].not_null == wanted.not_null,
        result is Ok ==> (columns@[at].default_value is Some <==> wanted.default_value is Some),
        result is Ok && wanted.default_value is Some ==> columns@[at].default_value->0@
            == wanted.default_value->0@,
        result is Ok ==> columns@[at].kind@.len() == wanted.kind@.len(),
        result is Ok ==> forall|k: int|
            0 <= k < wanted.kind@.len() && !('A' <= #[trigger] wanted.kind@[k] <= 'Z') && !('A'
                <= columns@[at].kind@[k] <= 'Z') ==> columns@[at].kind@[k] == wanted.kind@[k],
{
    lemma_find_column(columns@, wanted.column_name@, at);
    let column = columns@[at];
    if result is Ok {
        assert(column_fits(column, wanted));
        let a = crate::schema::columns::lowered(column.kind@);
        let b = crate::schema::columns::lowered(wanted.kind@);
        assert(a == b);
        assert(a.len() == column.kind@.len() && b.len() == wanted.kind@.len());
        assert forall|k: int|
            0 <= k < wanted.kind@.len() && !('A' <= #[trigger] wanted.kind@[k] <= 'Z') && !('A'
                <= column.kind@[k] <= 'Z') implies column.kind@[k] == wanted.kind@[k] by {
            assert(a[k] == b[k]);
        }
    }
}

/// A column that is not there is missed by name.
pub proof fn a_missing_column_is_named(
    columns: Vec<ColumnInfo>,
    wanted: ColumnSpec,
    result: Result<(), Error>,
)
    requires
        call_ensures(ensure_column_matches, (&columns, &wanted), result),
        !has_column(columns@, wanted.column_name@),
    ensures
        result matches Err(Error::Internal(message)) && message@ == "schema column "@
            + wanted.table_name@ + "."@ + wanted.column_name@ + " is missing"@,
{
    lemma_find_none(columns@, wanted.column_name@);
}

proof fn lemma_first_missing(wanted: Seq<Seq<char>>, present: Seq<Seq<char>>)
    ensures
        first_missing(wanted, present) is None <==> forall|i: int|
            0 <= i < wanted.len() ==> present.contains(#[trigger] wanted[i]),
    decreases wanted.len(),
{
    if wanted.len() > 0 {
        let rest = wanted.skip(1);
        lemma_first_missing(rest, present);
        if first_missing(wanted, present) is None {
            assert forall|i: int| 0 <= i < wanted.len() implies present.contains(
                #[trigger] wanted[i],
            ) by {
                if i > 0 {
                    assert(wanted[i] == rest[i - 1]);
                }
            }
        } else if forall|i: int| 0 <= i < wanted.len() ==> present.contains(#[trigger] wanted[i]) {
            assert(present.contains(wanted[0]));
            assert forall|i: int| 0 <= i < rest.len() implies present.contains(
                #[trigger] rest[i],
            ) by {
                assert(rest[i] == wanted[i + 1]);
            }
        }
    }
}

proof fn lemma_first_problem(columns: Seq<ColumnInfo>, wanted: Seq<ColumnSpec>, at: int)
    requires
        0 <= at < wanted.len(),
        column_problem(columns, wanted[at]) is Some,
    ensures
        first_problem(columns, wanted) is Some,
    decreases wanted.len(),
{
    if at > 0 {
        lemma_first_problem(columns, wanted.skip(1), at - 1);
    }
}

/// A database passes for current only where it has each of the tables and each of the
/// columns that came with later versions.
pub proof fn a_current_database_has_every_table_and_column(
    tables: Vec<String>,
    columns: Vec<ColumnInfo>,
    required: Vec<&'static str>,
    result: Result<(), Error>,
    i: int,
)
    requires
        call_ensures(validate_current_schema, (&tables, &columns), result),
        call_ensures(required_current_tables, (), required),
        result is Ok,
    ensures
        0 <= i < required@.len() ==> strings(tables@).contains(required@[i]@),
        strings(tables@).contains("fs_config"@),
        strings(tables@).contains("fs_inode"@),
        strings(tables@).contains("fs_dentry"@),
        strings(tables@).contains("fs_data"@),
        strings(tables@).contains("fs_symlink"@),
        strings(tables@).contains("fs_whiteout"@),
        strings(tables@).contains("fs_overlay_config"@),
        strings(tables@).contains("fs_origin"@),
        strings(tables@).contains("fs_partial_origin"@),
        strings(tables@).contains("fs_chunk_override"@),
        strings(tables@).contains("kv_store"@),
        strings(tables@).contains("tool_calls"@),
        has_column(columns@, "nlink"@),
        has_column(columns@, "atime_nsec"@),
        has_column(columns@, "mtime_nsec"@),
        has_column(columns@, "ctime_nsec"@),
        has_column(columns@, "rdev"@),
        has_column(columns@, "data_inline"@),
        has_column(columns@, "storage_kind"@),
{
    let wanted = choose|wanted: Seq<ColumnSpec>|
        crate::schema::columns::are_current_columns(wanted)
            && crate::schema::columns::fails_with(
            result,
            #[trigger] crate::schema::columns::schema_problem(
                strings(tables@),
                columns@,
                wanted,
            ),
        );
    let present = strings(tables@);
    lemma_first_missing(required_names(), present);
    assert(required_names()[0] == "fs_config"@);
    assert(required_names()[1] == "fs_inode"@);
    assert(required_names()[2] == "fs_dentry"@);
    assert(required_names()[3] == "fs_data"@);
    assert(required_names()[4] == "fs_symlink"@);
    assert(required_names()[5] == "fs_whiteout"@);
    assert(required_names()[6] == "fs_overlay_config"@);
    assert(required_names()[7] == "fs_origin"@);
    assert(required_names()[8] == "fs_partial_origin"@);
    assert(required_names()[9] == "fs_chunk_override"@);
    assert(required_names()[10] == "kv_store"@);
    assert(required_names()[11] == "tool_calls"@);
    if 0 <= i < required@.len() {
        assert(texts(required@)[i] == required@[i]@);
    }
    assert forall|k: int| 0 <= k < 7 implies has_column(
        columns@,
        (#[trigger] wanted[k]).column_name@,
    ) by {
        if !has_column(columns@, wanted[k].column_name@) {
            lemma_find_none(columns@, wanted[k].column_name@);
            lemma_first_problem(columns@, wanted, k);
        }
    }
    assert(wanted[0].column_name@ == "nlink"@);
    assert(wanted[1].column_name@ == "atime_nsec"@);
    assert(wanted[2].column_name@ == "mtime_nsec"@);
    assert(wanted[3].column_name@ == "ctime_nsec"@);
    assert(wanted[4].column_name@ == "rdev"@);
    assert(wanted[5].column_name@ == "data_inline"@);
    assert(wanted[6].column_name@ == "storage_kind"@);
}

/// A stamp is written with the number of its version.
pub proof fn a_stamp_is_written_with_its_number(
    version: SchemaVersion,
    number: i64,
    sql: String,
)
    requires
        call_ensures(SchemaVersion::user_version, (version,), number),
        call_ensures(stamp_statement, (version,), sql),
    ensures
        sql@ == "PRAGMA user_version = "@ + signed_decimal(number as int),
{
}

/// A column that was already there is checked, one that was added is not, and any other
/// failure is handed on.
pub proof fn only_a_column_that_was_there_is_checked(
    outcome: AddOutcome,
    wanted: ColumnSpec,
    result: Result<bool, Error>,
)
    requires
        call_ensures(after_add_column, (outcome, &wanted), result),
    ensures
        outcome is Added ==> result == Ok::<bool, Error>(false),
        result == Ok::<bool, Error>(true) ==> outcome is Failed,
        outcome is Added || result is Err || result == Ok::<bool, Error>(true),
{
}

/// One for a column that is not there, none for one that is.
pub open spec fn missing(columns: Seq<ColumnInfo>, name: Seq<char>) -> int {
    if has_column(columns, name) {
        0
    } else {
        1
    }
}

/// The columns that old overlay tables lack are added, each by one statement, and none that
/// they have. Where the directories of hidden paths were not recorded, they are filled in.
pub proof fn old_overlay_tables_get_what_they_lack(
    origins: Vec<ColumnInfo>,
    whiteouts: Vec<ColumnInfo>,
    repairs: OverlayRepairs,
    nothing: OverlayRepairs,
)
    requires
        call_ensures(overlay_repairs, (Some(&origins), Some(&whiteouts)), repairs),
        call_ensures(
            overlay_repairs,
            (None::<&Vec<ColumnInfo>>, None::<&Vec<ColumnInfo>>),
            nothing,
        ),
    ensures
        nothing.statements@.len() == 0 && !nothing.fill_parents,
        repairs.fill_parents <==> !has_column(whiteouts@, "parent_path"@),
        repairs.statements@.len() == missing(origins@, "base_fingerprint_size"@) + missing(
            origins@,
            "base_mtime"@,
        ) + missing(origins@, "base_mtime_nsec"@) + missing(origins@, "base_ctime"@) + missing(
            origins@,
            "base_ctime_nsec"@,
        ) + missing(whiteouts@, "parent_path"@),
        !has_column(origins@, "base_fingerprint_size"@) ==> texts(repairs.statements@).contains(
            "ALTER TABLE fs_partial_origin ADD COLUMN base_fingerprint_size INTEGER NOT NULL DEFAULT -1"@,
        ),
        !has_column(origins@, "base_mtime"@) ==> texts(repairs.statements@).contains(
            "ALTER TABLE fs_partial_origin ADD COLUMN base_mtime INTEGER NOT NULL DEFAULT 0"@,
        ),
        !has_column(origins@, "base_mtime_nsec"@) ==> texts(repairs.statements@).contains(
            "ALTER TABLE fs_partial_origin ADD COLUMN base_mtime_nsec INTEGER NOT NULL DEFAULT 0"@,
        ),
        !has_column(origins@, "base_ctime"@) ==> texts(repairs.statements@).contains(
            "ALTER TABLE fs_partial_origin ADD COLUMN base_ctime INTEGER NOT NULL DEFAULT 0"@,
        ),
        !has_column(origins@, "base_ctime_nsec"@) ==> texts(repairs.statements@).contains(
            "ALTER TABLE fs_partial_origin ADD COLUMN base_ctime_nsec INTEGER NOT NULL DEFAULT 0"@,
        ),
        !has_column(whiteouts@, "parent_path"@) ==> texts(repairs.statements@).contains(
            "ALTER TABLE fs_whiteout ADD COLUMN parent_path TEXT NOT NULL DEFAULT '/'"@,
        ),
{
    let all = texts(repairs.statements@);
    assert(all.len() == repairs.statements@.len());
    assert(texts(nothing.statements@).len() == nothing.statements@.len());
    let a = missing(origins@, "base_fingerprint_size"@);
    let b = a + missing(origins@, "base_mtime"@);
    let c = b + missing(origins@, "base_mtime_nsec"@);
    let d = c + missing(origins@, "base_ctime"@);
    let e = d + missing(origins@, "base_ctime_nsec"@);
    if !has_column(origins@, "base_fingerprint_size"@) {
        assert(all[0]
            == "ALTER TABLE fs_partial_origin ADD COLUMN base_fingerprint_size INTEGER NOT NULL DEFAULT -1"@);
    }
    if !has_column(origins@, "base_mtime"@) {
        assert(all[a]
            == "ALTER TABLE fs_partial_origin ADD COLUMN base_mtime INTEGER NOT NULL DEFAULT 0"@);
    }
    if !has_column(origins@, "base_mtime_nsec"@) {
        assert(all[b]
            == "ALTER TABLE fs_partial_origin ADD COLUMN base_mtime_nsec INTEGER NOT NULL DEFAULT 0"@);
    }
    if !has_column(origins@, "base_ctime"@) {
        assert(all[c]
            == "ALTER TABLE fs_partial_origin ADD COLUMN base_ctime INTEGER NOT NULL DEFAULT 0"@);
    }
    if !has_column(origins@, "base_ctime_nsec"@) {
        assert(all[d]
            == "ALTER TABLE fs_partial_origin ADD COLUMN base_ctime_nsec INTEGER NOT NULL DEFAULT 0"@);
    }
    if !has_column(whiteouts@, "parent_path"@) {
        assert(all[e]
            == "ALTER TABLE fs_whiteout ADD COLUMN parent_path TEXT NOT NULL DEFAULT '/'"@);
    }
}

/// The settings of a database are its version, which is always written, and the sizes that it
/// was made with, which are written only where there are none.
pub proof fn settings_are_written_once(
    chunk_size: u64,
    inline_threshold: u64,
    statements: Vec<SqlStatement>,
    version: &'static str,
)
    requires
        call_ensures(config_defaults, (chunk_size, inline_threshold), statements),
        call_ensures(SchemaVersion::as_str, (SchemaVersion::V0_5,), version),
    ensures
        statements@.len() == 3,
        statements@[0].sql@ == "INSERT OR REPLACE INTO fs_config (key, value) VALUES (?, ?)"@,
        statements@[1].sql@ == "INSERT OR IGNORE INTO fs_config (key, value) VALUES (?, ?)"@,
        statements@[2].sql@ == "INSERT OR IGNORE INTO fs_config (key, value) VALUES (?, ?)"@,
        models(statements@[0].values@) == seq![
            SqlModel::Text("schema_version"@),
            SqlModel::Text(version@),
        ],
        models(statements@[1].values@) == seq![
            SqlModel::Text("chunk_size"@),
            SqlModel::Text(decimal(chunk_size as nat)),
        ],
        models(statements@[2].values@) == seq![
            SqlModel::Text("inline_threshold"@),
            SqlModel::Text(decimal(inline_threshold as nat)),
        ],
{
}

/// A column is read as its row describes it.
pub proof fn a_column_is_read_from_its_row(
    name: String,
    kind: String,
    not_null: i64,
    default: SqlValue,
    debug: String,
    column: ColumnInfo,
)
    requires
        call_ensures(column_from_row, (name, kind, not_null, &default, debug), column),
    ensures
        column.name@ == name@,
        column.kind@ == kind@,
        column.not_null <==> not_null != 0,
        column.default_value is None <==> default@ is Null,
        default@ is Text ==> column.default_value->0@ == default@->Text_0,
        default@ is Integer ==> column.default_value->0@ == signed_decimal(
            default@->Integer_0 as int,
        ),
{
}

} // verus!
