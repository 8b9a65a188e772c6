//! What a passed check says.
use crate::error::Error;
use crate::path::components;
use crate::schema::integrity::{
    CheckGroup, CoreTables, CountCheck, FileFingerprint, OutcomeModel, OverlayTables,
    PartialOriginRow, Report, all_ok, check_below_base, check_config, check_groups,
    check_portability_status, config_i64, namespace_checks, origin_checks, outcomes,
    override_checks, plan, push_count, push_fingerprints, push_pragma, push_table,
    recorded_components, scalar_i64, storage_checks, symlink_checks, validate_base_fingerprint,
};
use crate::sql::{SqlModel, SqlValue};
use crate::text::{signed_decimal, strings};
use vstd::prelude::*;

verus! {

proof fn lemma_pushed(before: Report, after: Report, added: OutcomeModel)
    requires
        before.wf(),
        after.wf(),
        outcomes(after.checks@) == outcomes(before.checks@).push(added),
    ensures
        after.checks@.len() == before.checks@.len() + 1,
        after.checks@.last()@ == added,
        after.ok == (before.ok && added.ok),
{
    let all = outcomes(after.checks@);
    let had = outcomes(before.checks@);
    assert(all.len() == after.checks@.len() && had.len() == before.checks@.len());
    assert(all.last() == added);
    assert(all.last() == after.checks@.last()@);
    assert forall|i: int| 0 <= i < had.len() implies #[trigger] had[i] == all[i] by {}
    if all_ok(all) {
        assert(all[had.len() as int].ok);
        assert forall|i: int| 0 <= i < had.len() implies (#[trigger] had[i]).ok by {
            assert(all[i].ok);
        }
    }
    if all_ok(had) && added.ok {
        assert forall|i: int| 0 <= i < all.len() implies (#[trigger] all[i]).ok by {
            if i < had.len() {
                assert(had[i].ok);
            }
        }
    }
}

/// A check passes where no row violates it, or where as many rows are found as it expects.
/// A report with a failed check has failed.
pub proof fn a_check_passes_without_violations(report: &mut Report, check: CountCheck, count: i64)
    requires
        old(report).wf(),
        check.expected matches Some(expected) ==> -i64::MAX <= count - expected <= i64::MAX,
        call_ensures(push_count, (report, &check, count), ()),
    ensures
        ({
            let added = final(report).checks@.last();
            let passed = if check.expected is None {
                count == 0
            } else {
                Some(count) == check.expected
            };
            let off = if check.expected is None {
                count as int
            } else if count >= check.expected->0 {
                count - check.expected->0
            } else {
                check.expected->0 - count
            };
            &&& added.name@ == check.name@
            &&& added.ok == passed
            &&& added.violating_rows is Some
            &&& added.violating_rows->0 == off
            &&& final(report).ok == (old(report).ok && passed)
            &&& final(report).portable == old(report).portable
            &&& final(report).checks@.len() == old(report).checks@.len() + 1
        }),
{
    let added = crate::schema::integrity::count_outcome(check@, count);
    lemma_pushed(*old(report), *final(report), added);
}

/// The database's own check passes where it says `ok` and nothing else, and a table's where
/// the table is there.
pub proof fn the_database_vouches_for_itself(
    by_pragma: &mut Report,
    rows: Vec<String>,
    by_table: &mut Report,
    table: &str,
    present: bool,
)
    requires
        old(by_pragma).wf(),
        old(by_table).wf(),
        call_ensures(push_pragma, (by_pragma, &rows), ()),
        call_ensures(push_table, (by_table, table, present), ()),
    ensures
        final(by_pragma).ok <==> old(by_pragma).ok && rows@.len() == 1 && rows@[0]@ == "ok"@,
        final(by_table).ok == (old(by_table).ok && present),
        final(by_table).checks@.last().name@ == "schema.table."@ + table@,
{
    let said = strings(rows@);
    let passed = rows@.len() == 1 && rows@[0]@ == "ok"@;
    assert(said.len() == rows@.len());
    if passed {
        assert(said =~= seq!["ok"@]);
    }
    if said == seq!["ok"@] {
        assert(said[0] == rows@[0]@);
    }
    lemma_pushed(
        *old(by_pragma),
        *final(by_pragma),
        outcomes(final(by_pragma).checks@).last(),
    );
    lemma_pushed(*old(by_table), *final(by_table), outcomes(final(by_table).checks@).last());
}

/// The configuration passes with the current version, a positive chunk size, and an inline
/// threshold between nothing and the chunk size, both written as numbers.
pub proof fn a_sound_configuration_passes(
    report: &mut Report,
    version: Option<String>,
    chunk_size: Option<String>,
    inline_threshold: Option<String>,
    chunk: Option<i64>,
    inline: Option<i64>,
)
    requires
        old(report).wf(),
        call_ensures(config_i64, (&chunk_size,), chunk),
        call_ensures(config_i64, (&inline_threshold,), inline),
        call_ensures(check_config, (report, &version, &chunk_size, &inline_threshold), ()),
    ensures
        final(report).ok <==> {
            &&& old(report).ok
            &&& version is Some && version->0@ == "0.5"@
            &&& chunk is Some && chunk->0 > 0
            &&& inline is Some && 0 <= inline->0 <= chunk->0
        },
        final(report).checks@.len() == old(report).checks@.len() + 3,
{
    let had = outcomes(old(report).checks@);
    let all = outcomes(final(report).checks@);
    let n = had.len() as int;
    assert(all.len() == final(report).checks@.len());
    assert(all.len() == n + 3);
    assert forall|i: int| 0 <= i < n implies #[trigger] had[i] == all[i] by {}
    let a = all[n];
    let b = all[n + 1];
    let c = all[n + 2];
    if all_ok(all) {
        assert(a.ok && b.ok && c.ok);
        assert forall|i: int| 0 <= i < n implies (#[trigger] had[i]).ok by {
            assert(all[i].ok);
        }
    }
    if all_ok(had) && a.ok && b.ok && c.ok {
        assert forall|i: int| 0 <= i < all.len() implies (#[trigger] all[i]).ok by {
            if i < n {
                assert(had[i].ok);
            }
        }
    }
}

/// A database that needs files of its base is not portable. Only where it has to be portable
/// does the report fail for it.
pub proof fn a_portable_database_needs_no_base(report: &mut Report, rows: i64, required: bool)
    requires
        old(report).wf(),
        call_ensures(check_portability_status, (report, rows, required), ()),
    ensures
        final(report).portable <==> rows == 0,
        final(report).origin_backed <==> rows > 0,
        final(report).partial_origin_rows == rows,
        final(report).ok <==> old(report).ok && (!required || rows == 0),
        final(report).checks@.len() == old(report).checks@.len() + if required {
            2int
        } else {
            1int
        },
{
    let had = outcomes(old(report).checks@);
    let all = outcomes(final(report).checks@);
    let n = had.len() as int;
    assert(all.len() == final(report).checks@.len());
    assert forall|i: int| 0 <= i < n implies #[trigger] had[i] == all[i] by {}
    assert(all[n].ok);
    if required {
        assert(all[n + 1].ok == (rows == 0));
    }
    if all_ok(all) {
        assert forall|i: int| 0 <= i < n implies (#[trigger] had[i]).ok by {
            assert(all[i].ok);
        }
    }
    if all_ok(had) && (!required || rows == 0) {
        assert forall|i: int| 0 <= i < all.len() implies (#[trigger] all[i]).ok by {
            if i < n {
                assert(had[i].ok);
            }
        }
    }
}

/// A base file is the one that was recorded only where its size and both its times are, to
/// the nanosecond.
pub proof fn a_base_file_is_known_by_size_and_times(
    row: PartialOriginRow,
    found: FileFingerprint,
    path: &str,
    result: Result<(), Error>,
)
    requires
        call_ensures(validate_base_fingerprint, (&row, found, path), result),
    ensures
        result is Ok <==> {
            &&& found.size == row.base_fingerprint_size
            &&& found.mtime == row.base_mtime
            &&& found.mtime_nsec == row.base_mtime_nsec
            &&& found.ctime == row.base_ctime
            &&& found.ctime_nsec == row.base_ctime_nsec
        },
{
}

/// The check of the base files passes where nothing is wrong with any, and counts those with
/// which something is.
pub proof fn base_files_pass_together(report: &mut Report, total: usize, problems: Vec<String>)
    requires
        old(report).wf(),
        problems@.len() <= total,
        total <= i64::MAX,
        call_ensures(push_fingerprints, (report, total, &problems), ()),
    ensures
        final(report).ok <==> old(report).ok && problems@.len() == 0,
        final(report).checks@.last().violating_rows is Some,
        final(report).checks@.last().violating_rows->0 == problems@.len(),
        final(report).checks@.last().name@ == "overlay.partial_origin_base_fingerprints"@,
{
    assert(strings(problems@).len() == problems@.len());
    lemma_pushed(*old(report), *final(report), outcomes(final(report).checks@).last());
}

/// A recorded path is followed below the base only where it never goes up, without the parts
/// that stay where they are, and with all the others in their order.
pub proof fn a_recorded_path_stays_below_the_base(
    recorded: &str,
    result: Result<Vec<String>, Error>,
    i: int,
)
    requires
        call_ensures(recorded_components, (recorded,), result),
    ensures
        result is Err <==> components(recorded@).contains(".."@),
        result is Ok && 0 <= i < result->Ok_0@.len() ==> {
            &&& result->Ok_0@[i]@ != "."@
            &&& result->Ok_0@[i]@ != ".."@
            &&& components(recorded@).contains(result->Ok_0@[i]@)
        },
        result is Ok && !components(recorded@).contains("."@) ==> strings(result->Ok_0@)
            == components(recorded@),
{
    let all = components(recorded@);
    let keep = |part: Seq<char>| part != "."@;
    if result is Ok {
        let parts = result->Ok_0@;
        assert(strings(parts).len() == parts.len());
        assert(strings(parts) == all.filter(keep));
        if 0 <= i < parts.len() {
            assert(strings(parts)[i] == parts[i]@);
            all.lemma_filter_contains_rev(keep, parts[i]@);
            all.filter_lemma(keep);
            assert(keep(all.filter(keep)[i]));
        }
        if !all.contains("."@) {
            assert forall|k: int| 0 <= k < all.len() implies keep(#[trigger] all[k]) by {
                assert(all.contains(all[k]));
            }
            lemma_filter_all(all, keep);
        }
    }
}

proof fn lemma_filter_all(all: Seq<Seq<char>>, keep: spec_fn(Seq<char>) -> bool)
    requires
        forall|k: int| 0 <= k < all.len() ==> keep(#[trigger] all[k]),
    ensures
        all.filter(keep) == all,
    decreases all.len(),
{
    reveal(Seq::filter);
    if all.len() > 0 {
        let rest = all.drop_last();
        assert forall|k: int| 0 <= k < rest.len() implies keep(#[trigger] rest[k]) by {
            assert(rest[k] == all[k]);
        }
        lemma_filter_all(rest, keep);
        assert(all =~= rest.push(all.last()));
    }
}

/// A path lies below a directory only where it begins with the parts of the directory.
pub proof fn a_path_below_a_directory_begins_like_it(
    canonical: &str,
    base_root: &str,
    result: Result<(), Error>,
    i: int,
)
    requires
        call_ensures(check_below_base, (canonical, base_root), result),
    ensures
        result is Ok && 0 <= i < components(base_root@).len() ==> i < components(canonical@).len()
            && components(canonical@)[i] == components(base_root@)[i],
        result is Err ==> components(canonical@).len() < components(base_root@).len() || exists|k: int|
            0 <= k < components(base_root@).len() && #[trigger] components(canonical@)[k]
                != components(base_root@)[k],
        components(canonical@) == components(base_root@) ==> result is Ok,
{
    let p = components(canonical@);
    let d = components(base_root@);
    if d.is_prefix_of(p) {
        assert(d =~= p.subrange(0, d.len() as int));
    } else if d.len() <= p.len() {
        if forall|k: int| 0 <= k < d.len() ==> #[trigger] p[k] == d[k] {
            assert(d =~= p.subrange(0, d.len() as int));
        }
    }
}

/// A group of checks is run where the tables that it reads are there. Portability and the
/// overlay are always looked at.
pub proof fn checks_run_where_their_tables_are(tables: CoreTables, groups: Vec<CheckGroup>)
    requires
        call_ensures(check_groups, (tables,), groups),
    ensures
        groups@.contains(CheckGroup::Config) <==> tables.config,
        groups@.contains(CheckGroup::Storage) <==> tables.inode && tables.data,
        groups@.contains(CheckGroup::Namespace) <==> tables.inode && tables.dentry,
        groups@.contains(CheckGroup::Symlinks) <==> tables.inode && tables.symlink,
        groups@.contains(CheckGroup::Portability),
        groups@.contains(CheckGroup::Overlay),
        groups@.no_duplicates(),
{
    let n = groups@.len() as int;
    assert(groups@[n - 1] == CheckGroup::Overlay);
    assert(groups@[n - 2] == CheckGroup::Portability);
    if tables.config {
        assert(groups@[0] == CheckGroup::Config);
    }
    let c = if tables.config {
        1int
    } else {
        0int
    };
    let s = if tables.inode && tables.data {
        1int
    } else {
        0int
    };
    let d = if tables.inode && tables.dentry {
        1int
    } else {
        0int
    };
    if s == 1 {
        assert(groups@[c] == CheckGroup::Storage);
    }
    if d == 1 {
        assert(groups@[c + s] == CheckGroup::Namespace);
    }
    if tables.inode && tables.symlink {
        assert(groups@[c + s + d] == CheckGroup::Symlinks);
    }
}

/// The length of chunks is checked against a positive chunk size only, and every other check
/// of the contents expects that no row violates it.
pub proof fn chunks_are_held_to_the_chunk_size(
    chunk_size: Option<i64>,
    checks: Vec<CountCheck>,
    i: int,
)
    requires
        call_ensures(storage_checks, (chunk_size,), checks),
        0 <= i < checks@.len(),
    ensures
        checks@.len() == if chunk_size is Some && chunk_size->0 > 0 {
            10int
        } else {
            9int
        },
        checks@[i].expected is None,
        chunk_size is Some && chunk_size->0 > 0 ==> checks@[8].sql@
            == "SELECT COUNT(*) FROM fs_data WHERE length(data) > "@ + signed_decimal(
            chunk_size->0 as int,
        ),
{
    assert(plan(checks@).len() == checks@.len());
    assert(plan(checks@)[i] == checks@[i]@);
    reveal_strlit("");
    if chunk_size is Some && chunk_size->0 > 0 {
        assert(plan(checks@)[8] == checks@[8]@);
        assert("SELECT COUNT(*) FROM fs_data WHERE length(data) > "@ + signed_decimal(
            chunk_size->0 as int,
        ) + ""@ =~= "SELECT COUNT(*) FROM fs_data WHERE length(data) > "@ + signed_decimal(
            chunk_size->0 as int,
        ));
    }
}

/// There is one root. Every other check of the tree, the links and the overlay expects that
/// no row violates it, and the overlay's tables are looked at where they are.
pub proof fn every_other_check_expects_no_row(
    tree: Vec<CountCheck>,
    links: Vec<CountCheck>,
    tables: OverlayTables,
    origins: Vec<CountCheck>,
    chunk_size: Option<i64>,
    overrides: Vec<CountCheck>,
    i: int,
)
    requires
        call_ensures(namespace_checks, (), tree),
        call_ensures(symlink_checks, (), links),
        call_ensures(origin_checks, (tables,), origins),
        call_ensures(override_checks, (tables, chunk_size), overrides),
    ensures
        tree@.len() == 8,
        tree@[0].name@ == "namespace.root_inode"@,
        tree@[0].expected == Some(1i64),
        1 <= i < tree@.len() ==> tree@[i].expected is None,
        links@.len() == 2,
        0 <= i < links@.len() ==> links@[i].expected is None,
        0 <= i < origins@.len() ==> origins@[i].expected is None,
        0 <= i < overrides@.len() ==> overrides@[i].expected is None,
        origins@.len() == (if tables.origin {
            1int
        } else {
            0int
        }) + (if tables.partial_origin {
            4int
        } else {
            0int
        }),
        overrides@.len() == (if tables.chunk_override {
            if chunk_size is Some && chunk_size->0 > 0 {
                5int
            } else {
                4int
            }
        } else {
            0int
        }) + (if tables.whiteout {
            1int
        } else {
            0int
        }),
{
    assert(plan(tree@).len() == tree@.len());
    assert(plan(tree@)[0] == tree@[0]@);
    assert(plan(links@).len() == links@.len());
    assert(plan(origins@).len() == origins@.len());
    assert(plan(overrides@).len() == overrides@.len());
    if 0 <= i < tree@.len() {
        assert(plan(tree@)[i] == tree@[i]@);
    }
    if 0 <= i < links@.len() {
        assert(plan(links@)[i] == links@[i]@);
    }
    if 0 <= i < origins@.len() {
        assert(plan(origins@)[i] == origins@[i]@);
    }
    if 0 <= i < overrides@.len() {
        assert(plan(overrides@)[i] == overrides@[i]@);
    }
}

/// A count is the integer of the row that a query returned.
pub proof fn a_count_is_the_integer_of_its_row(
    sql: &str,
    row: Option<SqlValue>,
    result: Result<i64, Error>,
)
    requires
        call_ensures(scalar_i64, (sql, row), result),
    ensures
        result is Ok <==> row is Some && row->0@ is Integer,
        result is Ok ==> row->0@ == SqlModel::Integer(result->Ok_0),
{
}

} // verus!
