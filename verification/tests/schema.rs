use agentfs_core::error::Error;
use agentfs_core::schema::columns::{
    after_add_column, base_path_statement, column_from_row, config_defaults, current_column_specs,
    ensure_column_matches, fill_parent_statement, is_duplicate_column_error, overlay_repairs,
    required_current_tables, stamp_statement, validate_current_schema, AddOutcome,
};
use agentfs_core::schema::ddl::create_all;
use agentfs_core::schema::integrity::{
    check_below_base, check_config, check_groups, check_portability_status, config_i64,
    namespace_checks, origin_checks, overlay_base_root, override_checks, partial_row, push_base_missing,
    push_count, push_fingerprints, push_pragma, push_table, recorded_components, required_tables,
    scalar_i64, storage_checks, symlink_checks, validate_base_fingerprint, CheckGroup, CheckOpts,
    CoreTables, FileFingerprint, OverlayTables, Report,
};
use agentfs_core::schema::{
    check_schema_version, column_exists, detect_schema_version, ensure_current_plan,
    ensure_current_steps,
    migration_plan, migrations, pending_migrations, ColumnInfo, SchemaStep, SchemaVersion, CURRENT,
};
use agentfs_core::sql::SqlValue;

fn column(name: &str, kind: &str, not_null: bool, default: Option<&str>) -> ColumnInfo {
    ColumnInfo {
        name: name.to_string(),
        kind: kind.to_string(),
        not_null,
        default_value: default.map(str::to_string),
    }
}

fn current_inode_columns() -> Vec<ColumnInfo> {
    current_column_specs()
        .iter()
        .map(|spec| column(spec.column_name, spec.kind, spec.not_null, spec.default_value))
        .collect()
}

#[test]
fn versions_have_texts_and_numbers() {
    assert_eq!(CURRENT.as_str(), "0.5");
    assert!(CURRENT.is_current());
    for version in
        [SchemaVersion::V0_0, SchemaVersion::V0_2, SchemaVersion::V0_4, SchemaVersion::V0_5]
    {
        if version.user_version() > 0 {
            assert_eq!(SchemaVersion::from_user_version(version.user_version()), Some(version));
        }
    }
    assert_eq!(SchemaVersion::from_user_version(99), None);
}

#[test]
fn migrations_lead_to_the_current_version() {
    let all = migrations();
    assert_eq!(all.len(), 3);
    for pair in all.windows(2) {
        assert_eq!(pair[0].to, pair[1].from);
    }
    assert_eq!(all[2].to, CURRENT);
    assert_eq!(pending_migrations(SchemaVersion::V0_4).len(), 1);
    assert!(pending_migrations(CURRENT).is_empty());
    for migration in &all {
        assert!(!migration_plan(migration).unwrap().columns.is_empty());
    }
}

#[test]
fn the_version_is_read_from_the_columns() {
    let detect = |columns: Vec<ColumnInfo>| detect_schema_version(0, Some(&columns)).unwrap();
    assert_eq!(detect_schema_version(0, None).unwrap(), None);
    assert_eq!(detect(vec![]), Some(SchemaVersion::V0_0));
    let nlink = column("nlink", "INTEGER", true, Some("1"));
    assert_eq!(detect(vec![nlink]), Some(SchemaVersion::V0_2));
    assert_eq!(detect(current_inode_columns()), Some(SchemaVersion::V0_5));
    assert!(matches!(
        detect_schema_version(99, None),
        Err(Error::SchemaVersionMismatch { found, expected })
            if found == "user_version 99" && expected == "0.5"
    ));
    assert!(column_exists(&current_inode_columns(), "data_inline"));
}

#[test]
fn other_versions_are_refused() {
    assert!(!check_schema_version(None).unwrap());
    assert!(check_schema_version(Some(CURRENT)).unwrap());
    assert!(matches!(
        check_schema_version(Some(SchemaVersion::V0_2)),
        Err(Error::SchemaVersionMismatch { found, .. }) if found == "0.2"
    ));
}

#[test]
fn upgrades_end_with_the_current_stamp() {
    assert!(ensure_current_steps(CURRENT.user_version(), Some(CURRENT)).is_empty());
    let fresh = ensure_current_steps(0, None);
    assert_eq!(fresh.len(), 4);
    let old = ensure_current_steps(0, Some(SchemaVersion::V0_0));
    assert_eq!(old.len(), 10);
    for steps in [fresh, old] {
        assert!(matches!(steps.last(), Some(SchemaStep::Stamp(version)) if *version == CURRENT));
    }
    assert_eq!(stamp_statement(CURRENT), format!("PRAGMA user_version = {}", CURRENT.user_version()));
}

#[test]
fn every_upgrade_is_validated() {
    let current = ensure_current_plan(CURRENT.user_version(), Some(CURRENT));
    assert!(current.validate && current.steps.is_empty());
    for detected in [None, Some(SchemaVersion::V0_0), Some(SchemaVersion::V0_4), Some(CURRENT)] {
        let plan = ensure_current_plan(0, detected);
        assert!(plan.validate);
        assert_eq!(plan.steps.len(), ensure_current_steps(0, detected).len());
    }
}

#[test]
fn upgrades_leave_the_rows_alone() {
    let kept = ["kv_store", "tool_calls", "fs_data"];
    for sql in create_all(CURRENT) {
        assert!(
            sql.starts_with("CREATE TABLE IF NOT EXISTS ")
                || sql.starts_with("CREATE INDEX IF NOT EXISTS "),
            "{sql}"
        );
    }
    let mut changes: Vec<String> =
        overlay_repairs(Some(&vec![]), Some(&vec![])).statements.iter().map(|s| s.to_string()).collect();
    for migration in &migrations() {
        let plan = migration_plan(migration).unwrap();
        changes.extend(plan.columns.iter().map(|column| column.sql.to_string()));
    }
    for sql in changes {
        assert!(sql.starts_with("ALTER TABLE ") || sql.starts_with("CREATE INDEX "), "{sql}");
        assert!(!kept.iter().any(|table| sql.contains(table)), "{sql}");
    }
}

#[test]
fn columns_are_compared() {
    let specs = current_column_specs();
    let columns = current_inode_columns();
    assert!(ensure_column_matches(&columns, &specs[0]).is_ok());
    assert!(matches!(
        ensure_column_matches(&vec![], &specs[0]),
        Err(Error::Internal(message))
            if message == format!(
                "schema column {}.{} is missing",
                specs[0].table_name, specs[0].column_name
            )
    ));
    let wrong = vec![column(specs[0].column_name, "TEXT", false, Some("x"))];
    match ensure_column_matches(&wrong, &specs[0]) {
        Err(Error::Internal(message)) => {
            assert!(message.contains("incompatible definition"), "{message}");
            assert!(message.ends_with("found type=TEXT not_null=false default=Some(\"x\")"), "{message}");
        }
        other => panic!("{other:?}"),
    }
}

#[test]
fn a_column_that_is_there_already_is_checked() {
    let spec = &current_column_specs()[0];
    assert!(!after_add_column(AddOutcome::Added, spec).unwrap());
    assert!(is_duplicate_column_error("Error: Duplicate Column name: nlink"));
    let failed = |reason: &str| after_add_column(AddOutcome::Failed(reason.to_string()), spec);
    assert!(failed("duplicate column name").unwrap());
    assert!(matches!(failed("disk full"), Err(Error::Internal(message)) if message.ends_with(": disk full")));
}

#[test]
fn a_current_database_has_every_table() {
    let tables: Vec<String> = required_current_tables().iter().map(|t| t.to_string()).collect();
    assert!(validate_current_schema(&tables, &current_inode_columns()).is_ok());
    let missing = tables[1..].to_vec();
    assert!(matches!(
        validate_current_schema(&missing, &current_inode_columns()),
        Err(Error::Internal(message))
            if message == format!("current schema is missing required table {}", tables[0])
    ));
    let created = create_all(CURRENT);
    for table in &tables {
        assert!(created.iter().any(|sql| sql.contains(table.as_str())), "{table}");
    }
}

#[test]
fn old_overlay_tables_are_repaired() {
    let none = overlay_repairs(None, None);
    assert!(none.statements.is_empty() && !none.fill_parents);
    let old = overlay_repairs(Some(&vec![]), Some(&vec![]));
    assert_eq!(old.statements.len(), 6);
    assert!(old.fill_parents);
    let fill = fill_parent_statement("/a/b");
    assert!(matches!(&fill.values[0], SqlValue::Text(text) if text == "/a"));
}

#[test]
fn configuration_and_base_are_written() {
    let defaults = config_defaults(4096, 512);
    let bound: Vec<String> =
        defaults.iter().map(|statement| format!("{:?}", statement.values)).collect();
    assert!(bound.iter().any(|values| values.contains("4096")), "{bound:?}");
    assert!(bound.iter().any(|values| values.contains("512")), "{bound:?}");
    let base = base_path_statement("/base");
    assert!(base.sql.contains("fs_overlay_config"));
    assert!(matches!(&base.values[0], SqlValue::Text(text) if text == "/base"));
    let read = column_from_row(
        "c".to_string(),
        "INTEGER".to_string(),
        1,
        &SqlValue::Integer(-3),
        "unused".to_string(),
    );
    assert_eq!((read.not_null, read.default_value.as_deref()), (true, Some("-3")));
}

#[test]
fn a_report_is_good_while_every_check_is() {
    let opts = CheckOpts::new("a.db").require_portable(true).check_base(true);
    assert_eq!(opts.database, "a.db");
    assert!(opts.require_portable && opts.check_base);
    let mut report = Report::new("a.db");
    assert!(report.ok && report.portable && !report.origin_backed);
    report.push_check("one", true, "fine".to_string(), Some(0));
    assert!(report.ok);
    report.push_check("two", false, "bad".to_string(), Some(3));
    report.push_check("three", true, "fine".to_string(), None);
    assert!(!report.ok);
    assert_eq!(report.checks.len(), 3);
}

fn details(report: &Report) -> Vec<(String, bool, String, Option<i64>)> {
    report
        .checks
        .iter()
        .map(|check| {
            (check.name.clone(), check.ok, check.detail.clone(), check.violating_rows)
        })
        .collect()
}

#[test]
fn counts_are_judged() {
    let mut report = Report::new("a.db");
    let namespace = namespace_checks();
    push_count(&mut report, &namespace[0], 1);
    push_count(&mut report, &namespace[0], 3);
    push_count(&mut report, &namespace[1], 0);
    push_count(&mut report, &namespace[1], 2);
    let found = details(&report);
    assert_eq!(found[0], ("namespace.root_inode".to_string(), true, "found 1, expected 1".to_string(), Some(0)));
    assert_eq!((found[1].1, found[1].2.as_str(), found[1].3), (false, "found 3, expected 1", Some(2)));
    assert_eq!((found[2].1, found[2].2.as_str(), found[2].3), (true, "0 violating rows", Some(0)));
    assert_eq!((found[3].1, found[3].2.as_str(), found[3].3), (false, "2 violating rows", Some(2)));
}

#[test]
fn checks_follow_the_tables() {
    assert_eq!(storage_checks(None).len() + 1, storage_checks(Some(4096)).len());
    assert_eq!(storage_checks(None).len(), storage_checks(Some(0)).len());
    assert!(storage_checks(Some(4096)).iter().any(|check| check.sql.contains("4096")));
    assert!(!symlink_checks().is_empty());
    let none = OverlayTables {
        origin: false,
        partial_origin: false,
        chunk_override: false,
        whiteout: false,
    };
    assert!(origin_checks(none).is_empty() && override_checks(none, Some(4)).is_empty());
    let all = OverlayTables {
        origin: true,
        partial_origin: true,
        chunk_override: true,
        whiteout: true,
    };
    assert_eq!(origin_checks(all).len(), 5);
    assert_eq!(override_checks(all, Some(4)).len(), 6);
    assert_eq!(override_checks(all, None).len(), 5);
    let lone = OverlayTables { partial_origin: false, ..all };
    assert_eq!(
        override_checks(lone, None)[2].name,
        "overlay.chunk_override_requires_partial_origin_table"
    );
    let tables = CoreTables { config: true, inode: true, dentry: false, data: true, symlink: false };
    assert_eq!(
        check_groups(tables),
        vec![
            CheckGroup::Config,
            CheckGroup::Storage,
            CheckGroup::Portability,
            CheckGroup::Overlay,
        ]
    );
    assert_eq!(required_tables().len(), 7);
}

#[test]
fn the_database_checks_itself() {
    let mut report = Report::new("a.db");
    push_pragma(&mut report, &vec!["ok".to_string()]);
    assert!(report.ok);
    push_pragma(&mut report, &vec!["row 1 \"missing\"".to_string(), "ok".to_string()]);
    push_table(&mut report, "fs_inode", true);
    push_table(&mut report, "fs_data", false);
    let found = details(&report);
    assert_eq!(found[0].2, "ok");
    assert_eq!(found[1].2, format!("{:?}", vec!["row 1 \"missing\"", "ok"]));
    assert_eq!(found[1].3, None);
    assert_eq!(found[2], ("schema.table.fs_inode".to_string(), true, "present".to_string(), Some(0)));
    assert_eq!(found[3], ("schema.table.fs_data".to_string(), false, "missing".to_string(), Some(1)));
}

#[test]
fn the_configuration_is_checked() {
    let text = |value: &str| Some(value.to_string());
    let mut report = Report::new("a.db");
    check_config(&mut report, &text("0.5"), &text("4096"), &text("512"));
    assert!(report.ok);
    check_config(&mut report, &text("0.4"), &text("zero"), &text("512"));
    let found = details(&report);
    assert_eq!(found[0].2, "found 0.5");
    assert_eq!(found[1].2, "found 4096");
    assert_eq!((found[3].1, found[3].2.as_str(), found[3].3), (false, "found 0.4", Some(1)));
    assert_eq!((found[4].1, found[4].2.as_str()), (false, "missing or invalid"));
    assert!(!found[5].1);
    assert_eq!(config_i64(&text("-12")), Some(-12));
    assert_eq!(config_i64(&None), None);
}

#[test]
fn origin_backed_databases_are_not_portable() {
    let mut report = Report::new("a.db");
    check_portability_status(&mut report, 0, true);
    assert!(report.ok && report.portable);
    check_portability_status(&mut report, 2, false);
    assert!(report.ok && !report.portable && report.origin_backed);
    check_portability_status(&mut report, 2, true);
    assert!(!report.ok);
    assert_eq!(report.partial_origin_rows, 2);
    let found = details(&report);
    assert_eq!(found[0].2, "portable: no partial-origin rows");
    assert_eq!(found[1].2, "portable requirement satisfied");
    assert_eq!(found[2].2, "origin-backed: 2 partial-origin row(s)");
    assert_eq!(found[4].2, "portable requirement failed: 2 partial-origin row(s)");
}

#[test]
fn base_files_are_checked() {
    let row = partial_row("/f".to_string(), 10, -1, (1, 2), (3, 4));
    assert_eq!(row.base_fingerprint_size, 10);
    let same = FileFingerprint { size: 10, mtime: 1, mtime_nsec: 2, ctime: 3, ctime_nsec: 4 };
    assert!(validate_base_fingerprint(&row, same, "/base/f").is_ok());
    assert!(matches!(
        validate_base_fingerprint(&row, FileFingerprint { size: 11, ..same }, "/base/f"),
        Err(Error::Internal(message))
            if message
                == "partial-origin base changed for /f (stored size=10, current size=11, path=/base/f)"
    ));
    let mut report = Report::new("a.db");
    push_fingerprints(&mut report, 0, &vec![]);
    push_fingerprints(&mut report, 2, &vec![]);
    push_fingerprints(&mut report, 3, &vec!["first".to_string(), "second".to_string()]);
    push_base_missing(&mut report, 3, "no base".to_string());
    let found = details(&report);
    assert_eq!((found[0].1, found[0].2.as_str()), (true, "no partial-origin rows"));
    assert_eq!((found[1].1, found[1].2.as_str()), (true, "2 base fingerprint(s) valid"));
    assert_eq!(
        (found[2].1, found[2].2.as_str(), found[2].3),
        (false, "2 base fingerprint violation(s); first: first", Some(2))
    );
    assert_eq!((found[3].1, found[3].2.as_str(), found[3].3), (false, "no base", Some(3)));
}

#[test]
fn recorded_paths_stay_below_the_base() {
    assert_eq!(recorded_components("/a/./b//c").unwrap(), vec!["a", "b", "c"]);
    assert!(matches!(
        recorded_components("/a/../b"),
        Err(Error::Internal(message))
            if message == "partial-origin base path escapes base root: /a/../b"
    ));
    assert!(check_below_base("/base/x", "/base").is_ok());
    assert!(matches!(
        check_below_base("/based/x", "/base"),
        Err(Error::Internal(message))
            if message == "partial-origin base path escapes base root: /based/x"
    ));
    assert_eq!(overlay_base_root(true, Some("/b".to_string())).unwrap(), "/b");
    assert!(overlay_base_root(false, None).is_err());
    assert!(overlay_base_root(true, None).is_err());
    assert_eq!(scalar_i64("SELECT 1", Some(SqlValue::Integer(1))).unwrap(), 1);
    assert!(matches!(
        scalar_i64("SELECT 1", None),
        Err(Error::Internal(message)) if message == "query returned no rows: SELECT 1"
    ));
    assert!(matches!(
        scalar_i64("SELECT 1", Some(SqlValue::Null)),
        Err(Error::Internal(message)) if message == "Expected integer result"
    ));
}

#[test]
fn versions_are_ordered_by_their_stamps() {
    let versions =
        [SchemaVersion::V0_0, SchemaVersion::V0_2, SchemaVersion::V0_4, SchemaVersion::V0_5];
    for one in versions {
        assert_eq!(SchemaVersion::from_user_version(one.user_version()), Some(one));
        for other in versions {
            assert_eq!(one < other, one.user_version() < other.user_version());
            assert_eq!(one.cmp(&other), one.user_version().cmp(&other.user_version()));
        }
    }
    let known: Vec<i64> =
        (-3..9).filter(|n| SchemaVersion::from_user_version(*n).is_some()).collect();
    assert_eq!(known, vec![0, 2, 4, 5]);
}

#[test]
fn pending_migrations_are_the_tail_of_all() {
    let all = migrations();
    let starts =
        [SchemaVersion::V0_0, SchemaVersion::V0_2, SchemaVersion::V0_4, SchemaVersion::V0_5];
    for (at, from) in starts.into_iter().enumerate() {
        assert_eq!(pending_migrations(from), all[at..].to_vec());
    }
    assert_eq!(all[0].description, "add fs_inode.nlink");
}

#[test]
fn an_upgraded_database_takes_no_further_step() {
    for detected in [None, Some(SchemaVersion::V0_0), Some(SchemaVersion::V0_4), Some(CURRENT)] {
        let steps = ensure_current_steps(0, detected);
        let stamp = steps.iter().rev().find_map(|step| match step {
            SchemaStep::Stamp(version) => Some(version.user_version()),
            _ => None,
        });
        assert_eq!(stamp, Some(5));
        assert_eq!(detect_schema_version(5, None).unwrap(), Some(CURRENT));
        assert!(ensure_current_steps(5, Some(CURRENT)).is_empty());
    }
}
