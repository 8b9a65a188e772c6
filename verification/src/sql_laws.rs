//! What statements do to the tables, and that each change is made by its statements.
use crate::namespace::NewInode;
use crate::pending::{
    BoundStatement, PendingTimeChange, TimeSets, pending_times_update, stamp_fragments,
    stamp_values, time_fragments, time_values, write_commit_time_sets,
};
use crate::sql::{SqlModel, SqlStatement, models};
use crate::tables::{InodeRow, InodeUpdate, LinkChange, RowChange, Tables};
use crate::text::{join, joined, texts};
use vstd::prelude::*;

verus! {

/// What one assignment of an `UPDATE fs_inode` does to a row. `value` is bound to its parameter,
/// if it has one.
pub open spec fn assigned(row: InodeRow, assignment: Seq<char>, value: i64) -> Option<InodeRow> {
    if assignment == "nlink = nlink + 1"@ {
        Some(InodeRow { nlink: row.nlink + 1, ..row })
    } else if assignment == "nlink = nlink - 1"@ {
        Some(InodeRow { nlink: row.nlink - 1, ..row })
    } else if assignment == "nlink = ?"@ {
        Some(InodeRow { nlink: value as int, ..row })
    } else if assignment == "mode = ?"@ {
        Some(InodeRow { mode: value as u32, ..row })
    } else if assignment == "uid = ?"@ {
        Some(InodeRow { uid: value as u32, ..row })
    } else if assignment == "gid = ?"@ {
        Some(InodeRow { gid: value as u32, ..row })
    } else if assignment == "atime = ?"@ {
        Some(InodeRow { atime: (value, row.atime.1), ..row })
    } else if assignment == "atime_nsec = ?"@ {
        Some(InodeRow { atime: (row.atime.0, value), ..row })
    } else if assignment == "mtime = ?"@ {
        Some(InodeRow { mtime: (value, row.mtime.1), ..row })
    } else if assignment == "mtime_nsec = ?"@ {
        Some(InodeRow { mtime: (row.mtime.0, value), ..row })
    } else if assignment == "ctime = ?"@ {
        Some(InodeRow { ctime: (value, row.ctime.1), ..row })
    } else if assignment == "ctime_nsec = ?"@ {
        Some(InodeRow { ctime: (row.ctime.0, value), ..row })
    } else {
        None
    }
}

/// Whether an assignment takes a bound value.
pub open spec fn has_parameter(assignment: Seq<char>) -> bool {
    assignment.contains('?')
}

/// What assignments with their bound values do to a row, in order. No value may be left over.
pub open spec fn all_assigned(
    row: InodeRow,
    assignments: Seq<Seq<char>>,
    values: Seq<i64>,
) -> Option<InodeRow>
    decreases assignments.len(),
{
    if assignments.len() == 0 {
        if values.len() == 0 {
            Some(row)
        } else {
            None
        }
    } else {
        let last = assignments.last();
        if has_parameter(last) {
            if values.len() == 0 {
                None
            } else {
                match all_assigned(row, assignments.drop_last(), values.drop_last()) {
                    Some(earlier) => assigned(earlier, last, values.last()),
                    None => None,
                }
            }
        } else {
            match all_assigned(row, assignments.drop_last(), values) {
                Some(earlier) => assigned(earlier, last, 0),
                None => None,
            }
        }
    }
}

proof fn lemma_parameters()
    ensures
        !has_parameter("nlink = nlink + 1"@),
        !has_parameter("nlink = nlink - 1"@),
        has_parameter("nlink = ?"@),
        has_parameter("mode = ?"@),
        has_parameter("uid = ?"@),
        has_parameter("gid = ?"@),
        has_parameter("atime = ?"@),
        has_parameter("atime_nsec = ?"@),
        has_parameter("mtime = ?"@),
        has_parameter("mtime_nsec = ?"@),
        has_parameter("ctime = ?"@),
        has_parameter("ctime_nsec = ?"@),
{
    reveal_strlit("nlink = nlink + 1");
    reveal_strlit("nlink = nlink - 1");
    reveal_strlit("nlink = ?");
    reveal_strlit("mode = ?");
    reveal_strlit("uid = ?");
    reveal_strlit("gid = ?");
    reveal_strlit("atime = ?");
    reveal_strlit("atime_nsec = ?");
    reveal_strlit("mtime = ?");
    reveal_strlit("mtime_nsec = ?");
    reveal_strlit("ctime = ?");
    reveal_strlit("ctime_nsec = ?");
    assert("nlink = ?"@[8] == '?');
    assert("mode = ?"@[7] == '?');
    assert("uid = ?"@[6] == '?');
    assert("gid = ?"@[6] == '?');
    assert("atime = ?"@[8] == '?');
    assert("atime_nsec = ?"@[13] == '?');
    assert("mtime = ?"@[8] == '?');
    assert("mtime_nsec = ?"@[13] == '?');
    assert("ctime = ?"@[8] == '?');
    assert("ctime_nsec = ?"@[13] == '?');
}

/// No two of the assignments are the same text.
proof fn lemma_assignments_differ(row: InodeRow, value: i64)
    ensures
        assigned(row, "nlink = nlink + 1"@, value) == Some(
            InodeRow { nlink: row.nlink + 1, ..row },
        ),
        assigned(row, "nlink = nlink - 1"@, value) == Some(
            InodeRow { nlink: row.nlink - 1, ..row },
        ),
        assigned(row, "nlink = ?"@, value) == Some(InodeRow { nlink: value as int, ..row }),
        assigned(row, "mode = ?"@, value) == Some(InodeRow { mode: value as u32, ..row }),
        assigned(row, "uid = ?"@, value) == Some(InodeRow { uid: value as u32, ..row }),
        assigned(row, "gid = ?"@, value) == Some(InodeRow { gid: value as u32, ..row }),
        assigned(row, "atime = ?"@, value) == Some(InodeRow { atime: (value, row.atime.1), ..row }),
        assigned(row, "atime_nsec = ?"@, value) == Some(
            InodeRow { atime: (row.atime.0, value), ..row },
        ),
        assigned(row, "mtime = ?"@, value) == Some(InodeRow { mtime: (value, row.mtime.1), ..row }),
        assigned(row, "mtime_nsec = ?"@, value) == Some(
            InodeRow { mtime: (row.mtime.0, value), ..row },
        ),
        assigned(row, "ctime = ?"@, value) == Some(InodeRow { ctime: (value, row.ctime.1), ..row }),
        assigned(row, "ctime_nsec = ?"@, value) == Some(
            InodeRow { ctime: (row.ctime.0, value), ..row },
        ),
{
    reveal_strlit("nlink = nlink + 1");
    reveal_strlit("nlink = nlink - 1");
    reveal_strlit("nlink = ?");
    reveal_strlit("mode = ?");
    reveal_strlit("uid = ?");
    reveal_strlit("gid = ?");
    reveal_strlit("atime = ?");
    reveal_strlit("atime_nsec = ?");
    reveal_strlit("mtime = ?");
    reveal_strlit("mtime_nsec = ?");
    reveal_strlit("ctime = ?");
    reveal_strlit("ctime_nsec = ?");
    assert("nlink = nlink + 1"@.len() == 17);
    assert("nlink = nlink - 1"@.len() == 17);
    assert("nlink = ?"@.len() == 9);
    assert("mode = ?"@.len() == 8);
    assert("uid = ?"@.len() == 7);
    assert("gid = ?"@.len() == 7);
    assert("atime = ?"@.len() == 9);
    assert("atime_nsec = ?"@.len() == 14);
    assert("mtime = ?"@.len() == 9);
    assert("mtime_nsec = ?"@.len() == 14);
    assert("ctime = ?"@.len() == 9);
    assert("ctime_nsec = ?"@.len() == 14);
    assert("nlink = nlink + 1"@[14] == '+');
    assert("nlink = nlink - 1"@[14] == '-');
    assert("nlink = ?"@[0] == 'n');
    assert("uid = ?"@[0] == 'u');
    assert("gid = ?"@[0] == 'g');
    assert("atime = ?"@[0] == 'a');
    assert("mtime = ?"@[0] == 'm');
    assert("ctime = ?"@[0] == 'c');
    assert("atime_nsec = ?"@[0] == 'a');
    assert("mtime_nsec = ?"@[0] == 'm');
    assert("ctime_nsec = ?"@[0] == 'c');
}

proof fn lemma_assign_value(
    row: InodeRow,
    assignments: Seq<Seq<char>>,
    values: Seq<i64>,
    earlier: InodeRow,
    assignment: Seq<char>,
    value: i64,
)
    requires
        all_assigned(row, assignments, values) == Some(earlier),
        has_parameter(assignment),
    ensures
        all_assigned(row, assignments.push(assignment), values.push(value)) == assigned(
            earlier,
            assignment,
            value,
        ),
{
    assert(assignments.push(assignment).drop_last() =~= assignments);
    assert(values.push(value).drop_last() =~= values);
}

proof fn lemma_assign_fixed(
    row: InodeRow,
    assignments: Seq<Seq<char>>,
    values: Seq<i64>,
    earlier: InodeRow,
    assignment: Seq<char>,
)
    requires
        all_assigned(row, assignments, values) == Some(earlier),
        !has_parameter(assignment),
    ensures
        all_assigned(row, assignments.push(assignment), values) == assigned(earlier, assignment, 0),
{
    assert(assignments.push(assignment).drop_last() =~= assignments);
}

/// The two assignments of a timestamp come after others.
proof fn lemma_stamp(
    row: InodeRow,
    assignments: Seq<Seq<char>>,
    values: Seq<i64>,
    earlier: InodeRow,
    column: Seq<char>,
    stamp: Option<(i64, i64)>,
)
    requires
        all_assigned(row, assignments, values) == Some(earlier),
        column == "atime"@ || column == "mtime"@ || column == "ctime"@,
    ensures
        all_assigned(
            row,
            assignments + stamp_fragments(column, stamp),
            values + stamp_values(stamp),
        ) == Some(
            match stamp {
                None => earlier,
                Some(t) => if column == "atime"@ {
                    InodeRow { atime: t, ..earlier }
                } else if column == "mtime"@ {
                    InodeRow { mtime: t, ..earlier }
                } else {
                    InodeRow { ctime: t, ..earlier }
                },
            },
        ),
{
    match stamp {
        None => {
            assert(assignments + stamp_fragments(column, stamp) =~= assignments);
            assert(values + stamp_values(stamp) =~= values);
        },
        Some(t) => {
            reveal_strlit("atime");
            reveal_strlit("mtime");
            reveal_strlit("ctime");
            reveal_strlit(" = ?");
            reveal_strlit("_nsec = ?");
            reveal_strlit("atime = ?");
            reveal_strlit("atime_nsec = ?");
            reveal_strlit("mtime = ?");
            reveal_strlit("mtime_nsec = ?");
            reveal_strlit("ctime = ?");
            reveal_strlit("ctime_nsec = ?");
            assert("atime"@[0] == 'a');
            assert("mtime"@[0] == 'm');
            assert("ctime"@[0] == 'c');
            assert("atime = ?"@ =~= "atime"@ + " = ?"@);
            assert("atime_nsec = ?"@ =~= "atime"@ + "_nsec = ?"@);
            assert("mtime = ?"@ =~= "mtime"@ + " = ?"@);
            assert("mtime_nsec = ?"@ =~= "mtime"@ + "_nsec = ?"@);
            assert("ctime = ?"@ =~= "ctime"@ + " = ?"@);
            assert("ctime_nsec = ?"@ =~= "ctime"@ + "_nsec = ?"@);
            lemma_parameters();
            lemma_assignments_differ(earlier, t.0);
            let first = column + " = ?"@;
            let second = column + "_nsec = ?"@;
            let middle = assigned(earlier, first, t.0)->Some_0;
            lemma_assignments_differ(middle, t.1);
            lemma_assign_value(row, assignments, values, earlier, first, t.0);
            lemma_assign_value(
                row,
                assignments.push(first),
                values.push(t.0),
                middle,
                second,
                t.1,
            );
            assert(assignments + stamp_fragments(column, stamp) =~= assignments.push(first).push(
                second,
            ));
            assert(values + stamp_values(stamp) =~= values.push(t.0).push(t.1));
        },
    }
}

/// The assignments of times come after others.
proof fn lemma_times(
    row: InodeRow,
    assignments: Seq<Seq<char>>,
    values: Seq<i64>,
    earlier: InodeRow,
    times: PendingTimeChange,
)
    requires
        all_assigned(row, assignments, values) == Some(earlier),
    ensures
        all_assigned(row, assignments + time_fragments(times), values + time_values(times)) == Some(
            InodeRow {
                atime: match times.atime {
                    Some(t) => t,
                    None => earlier.atime,
                },
                mtime: match times.mtime {
                    Some(t) => t,
                    None => earlier.mtime,
                },
                ctime: match times.ctime {
                    Some(t) => t,
                    None => earlier.ctime,
                },
                ..earlier
            },
        ),
{
    reveal_strlit("atime");
    reveal_strlit("mtime");
    reveal_strlit("ctime");
    assert("atime"@[0] == 'a');
    assert("mtime"@[0] == 'm');
    assert("ctime"@[0] == 'c');
    let f1 = assignments + stamp_fragments("atime"@, times.atime);
    let v1 = values + stamp_values(times.atime);
    lemma_stamp(row, assignments, values, earlier, "atime"@, times.atime);
    let r1 = all_assigned(row, f1, v1)->Some_0;
    let f2 = f1 + stamp_fragments("mtime"@, times.mtime);
    let v2 = v1 + stamp_values(times.mtime);
    lemma_stamp(row, f1, v1, r1, "mtime"@, times.mtime);
    let r2 = all_assigned(row, f2, v2)->Some_0;
    lemma_stamp(row, f2, v2, r2, "ctime"@, times.ctime);
    assert(assignments + time_fragments(times) =~= f2 + stamp_fragments("ctime"@, times.ctime));
    assert(values + time_values(times) =~= v2 + stamp_values(times.ctime));
}

/// The assignments of an update do to a row what the update says.
proof fn lemma_update(update: InodeUpdate, row: InodeRow)
    ensures
        all_assigned(
            row,
            update.fragments(),
            update.fixed_values() + time_values(update.times),
        ) == Some(update.apply_to(row)),
{
    lemma_parameters();
    let mut f = Seq::<Seq<char>>::empty();
    let mut v = Seq::<i64>::empty();
    let mut r = row;
    lemma_assignments_differ(row, 0);
    match update.links {
        LinkChange::Keep => {},
        LinkChange::To(n) => {
            lemma_assignments_differ(row, n as i64);
            lemma_assign_value(row, f, v, r, "nlink = ?"@, n as i64);
            f = f.push("nlink = ?"@);
            v = v.push(n as i64);
            r = InodeRow { nlink: n as int, ..r };
        },
        LinkChange::Up => {
            lemma_assign_fixed(row, f, v, r, "nlink = nlink + 1"@);
            f = f.push("nlink = nlink + 1"@);
            r = InodeRow { nlink: row.nlink + 1, ..r };
        },
        LinkChange::Down => {
            lemma_assign_fixed(row, f, v, r, "nlink = nlink - 1"@);
            f = f.push("nlink = nlink - 1"@);
            r = InodeRow { nlink: row.nlink - 1, ..r };
        },
    }
    if let Some(mode) = update.mode {
        lemma_assignments_differ(r, mode as i64);
        lemma_assign_value(row, f, v, r, "mode = ?"@, mode as i64);
        f = f.push("mode = ?"@);
        v = v.push(mode as i64);
        r = InodeRow { mode, ..r };
    }
    if let Some(uid) = update.uid {
        lemma_assignments_differ(r, uid as i64);
        lemma_assign_value(row, f, v, r, "uid = ?"@, uid as i64);
        f = f.push("uid = ?"@);
        v = v.push(uid as i64);
        r = InodeRow { uid, ..r };
    }
    if let Some(gid) = update.gid {
        lemma_assignments_differ(r, gid as i64);
        lemma_assign_value(row, f, v, r, "gid = ?"@, gid as i64);
        f = f.push("gid = ?"@);
        v = v.push(gid as i64);
        r = InodeRow { gid, ..r };
    }
    assert(update.fixed_fragments() =~= f);
    assert(update.fixed_values() =~= v);
    lemma_times(row, f, v, r, update.times);
}

/// Texts that are joined follow each other with the separator between neighbours: one stays as it
/// is, and a further one comes behind the separator.
pub proof fn a_joined_text_comes_behind_the_separator(
    parts: Vec<&'static str>,
    more: Vec<&'static str>,
    separator: &str,
    out: String,
    longer: String,
)
    requires
        call_ensures(join, (&parts, separator), out),
        call_ensures(join, (&more, separator), longer),
        more@.len() == parts@.len() + 1,
        parts@ == more@.drop_last(),
    ensures
        parts@.len() == 0 ==> out@ == Seq::<char>::empty() && longer@ == more@[0]@,
        parts@.len() > 0 ==> longer@ == out@ + separator@ + more@.last()@,
{
    assert(texts(more@).drop_last() =~= texts(parts@));
    assert(texts(more@).last() == more@.last()@);
}

/// What an `UPDATE fs_inode` of one row does.
pub open spec fn updates_row(
    t: Tables,
    sql: Seq<char>,
    values: Seq<SqlModel>,
    assignments: Seq<Seq<char>>,
    bound: Seq<i64>,
    ino: i64,
    after: Tables,
) -> bool {
    &&& assignments.len() > 0
    &&& sql == "UPDATE fs_inode SET "@ + joined(assignments, ", "@) + " WHERE ino = ?"@
    &&& values == bound.push(ino).map_values(|n: i64| SqlModel::Integer(n))
    &&& if t.inodes.contains_key(ino) {
        &&& all_assigned(t.inodes[ino], assignments, bound) is Some
        &&& after == Tables {
            inodes: t.inodes.insert(
                ino,
                all_assigned(t.inodes[ino], assignments, bound)->Some_0,
            ),
            ..t
        }
    } else {
        after == t
    }
}

/// Whether a statement with its bound values takes the tables from one state to another.
pub open spec fn does(t: Tables, sql: Seq<char>, values: Seq<SqlModel>, after: Tables) -> bool {
    ||| {
        &&& sql == "INSERT INTO fs_dentry (name, parent_ino, ino) VALUES (?, ?, ?)"@
        &&& values.len() == 3
        &&& values[0] matches SqlModel::Text(name)
        &&& values[1] matches SqlModel::Integer(parent)
        &&& values[2] matches SqlModel::Integer(ino)
        &&& after == Tables { dentries: t.dentries.insert((parent, name), ino), ..t }
    }
    ||| {
        &&& sql == "DELETE FROM fs_dentry WHERE parent_ino = ? AND name = ?"@
        &&& values.len() == 2
        &&& values[0] matches SqlModel::Integer(parent)
        &&& values[1] matches SqlModel::Text(name)
        &&& after == Tables { dentries: t.dentries.remove((parent, name)), ..t }
    }
    ||| {
        &&& sql
            == "UPDATE fs_dentry SET parent_ino = ?, name = ? WHERE parent_ino = ? AND name = ?"@
        &&& values.len() == 4
        &&& values[0] matches SqlModel::Integer(new_parent)
        &&& values[1] matches SqlModel::Text(new_name)
        &&& values[2] matches SqlModel::Integer(parent)
        &&& values[3] matches SqlModel::Text(name)
        &&& after == if t.dentries.contains_key((parent, name)) {
            Tables {
                dentries: t.dentries.remove((parent, name)).insert(
                    (new_parent, new_name),
                    t.dentries[(parent, name)],
                ),
                ..t
            }
        } else {
            t
        }
    }
    ||| {
        &&& sql == "INSERT INTO fs_symlink (ino, target) VALUES (?, ?)"@
        &&& values.len() == 2
        &&& values[0] matches SqlModel::Integer(ino)
        &&& values[1] matches SqlModel::Text(target)
        &&& after == Tables { symlinks: t.symlinks.insert(ino, target), ..t }
    }
    ||| {
        &&& sql == "DELETE FROM fs_inode WHERE ino = ?"@
        &&& values.len() == 1
        &&& values[0] matches SqlModel::Integer(ino)
        &&& after == Tables { inodes: t.inodes.remove(ino), ..t }
    }
    ||| {
        &&& sql == "DELETE FROM fs_symlink WHERE ino = ?"@
        &&& values.len() == 1
        &&& values[0] matches SqlModel::Integer(ino)
        &&& after == Tables { symlinks: t.symlinks.remove(ino), ..t }
    }
    ||| {
        &&& sql == "DELETE FROM fs_data WHERE ino = ?"@
        &&& values.len() == 1
        &&& values[0] matches SqlModel::Integer(ino)
        &&& after =~= Tables {
            chunks: Map::new(
                |key: (i64, i64)| t.chunks.contains_key(key) && key.0 != ino,
                |key: (i64, i64)| t.chunks[key],
            ),
            ..t
        }
    }
    ||| exists|assignments: Seq<Seq<char>>, bound: Seq<i64>, ino: i64| #[trigger]
        updates_row(t, sql, values, assignments, bound, ino, after)
}

/// Whether statements take the tables through these states, one after the other.
pub open spec fn all_do(statements: Seq<SqlStatement>, states: Seq<Tables>) -> bool {
    &&& states.len() == statements.len() + 1
    &&& forall|i: int|
        0 <= i < statements.len() ==> does(
            states[i],
            (#[trigger] statements[i]).sql@,
            models(statements[i].values@),
            states[i + 1],
        )
}

proof fn lemma_one_does(t: Tables, statements: Seq<SqlStatement>, after: Tables) -> (states: Seq<
    Tables,
>)
    requires
        statements.len() == 1,
        does(t, statements[0].sql@, models(statements[0].values@), after),
    ensures
        all_do(statements, states),
        states.first() == t,
        states.last() == after,
{
    seq![t, after]
}

/// Whether an update changes anything.
pub open spec fn sets_something(update: InodeUpdate) -> bool {
    ||| update.links != LinkChange::Keep
    ||| update.mode is Some
    ||| update.uid is Some
    ||| update.gid is Some
    ||| update.times.atime is Some
    ||| update.times.mtime is Some
    ||| update.times.ctime is Some
}

/// The statement of an update does to the row of the inode what the update says: links are added,
/// taken off or set, and the mode, the owner, the group and the times become those of the update
/// where it has any. Other rows stay.
pub proof fn the_statement_makes_the_update(
    t: Tables,
    update: InodeUpdate,
    statement: SqlStatement,
    after: Tables,
)
    requires
        call_ensures(InodeUpdate::statement, (&update,), statement),
        sets_something(update),
        after == (if t.inodes.contains_key(update.ino) {
            let row = t.inodes[update.ino];
            Tables {
                inodes: t.inodes.insert(
                    update.ino,
                    InodeRow {
                        nlink: match update.links {
                            LinkChange::Keep => row.nlink,
                            LinkChange::To(n) => n as int,
                            LinkChange::Up => row.nlink + 1,
                            LinkChange::Down => row.nlink - 1,
                        },
                        mode: match update.mode {
                            Some(mode) => mode,
                            None => row.mode,
                        },
                        uid: match update.uid {
                            Some(uid) => uid,
                            None => row.uid,
                        },
                        gid: match update.gid {
                            Some(gid) => gid,
                            None => row.gid,
                        },
                        atime: match update.times.atime {
                            Some(time) => time,
                            None => row.atime,
                        },
                        mtime: match update.times.mtime {
                            Some(time) => time,
                            None => row.mtime,
                        },
                        ctime: match update.times.ctime {
                            Some(time) => time,
                            None => row.ctime,
                        },
                        ..row
                    },
                ),
                ..t
            }
        } else {
            t
        }),
    ensures
        does(t, statement.sql@, models(statement.values@), after),
{
    let bound = update.fixed_values() + time_values(update.times);
    lemma_update(update, t.inodes[update.ino]);
    assert(update.fragments().len() > 0);
    assert(updates_row(
        t,
        statement.sql@,
        models(statement.values@),
        update.fragments(),
        bound,
        update.ino,
        after,
    ));
}

/// The statements of a change of the tables make that change.
pub proof fn the_statements_make_the_change(
    t: Tables,
    change: RowChange,
    statements: Vec<SqlStatement>,
) -> (states: Seq<Tables>)
    requires
        call_ensures(RowChange::statements, (&change,), statements),
        change matches RowChange::Update(update) ==> sets_something(update),
    ensures
        all_do(statements@, states),
        states.first() == t,
        states.last() == t.changed(change),
{
    match change {
        RowChange::Update(update) => {
            let bound = update.fixed_values() + time_values(update.times);
            lemma_update(update, t.inodes[update.ino]);
            assert(update.fragments().len() > 0);
            assert(updates_row(
                t,
                statements@[0].sql@,
                models(statements@[0].values@),
                update.fragments(),
                bound,
                update.ino,
                t.changed(change),
            ));
            lemma_one_does(t, statements@, t.changed(change))
        },
        RowChange::Reap { ino } => {
            let one = Tables { chunks: t.reaped(ino).chunks, ..t };
            let two = Tables { symlinks: one.symlinks.remove(ino), ..one };
            seq![t, one, two, t.changed(change)]
        },
        _ => lemma_one_does(t, statements@, t.changed(change)),
    }
}

/// Whether a statement inserts a row of `fs_inode` with the next number, which is `ino`.
pub open spec fn inserts_row(
    t: Tables,
    sql: Seq<char>,
    values: Seq<SqlModel>,
    ino: i64,
    after: Tables,
) -> bool {
    &&& sql
        == "INSERT INTO fs_inode (mode, nlink, uid, gid, size, atime, mtime, ctime, rdev, atime_nsec, mtime_nsec, ctime_nsec, data_inline, storage_kind) VALUES (?, ?, ?, ?, ?, ?, ?, ?, ?, ?, ?, ?, ?, ?) RETURNING ino"@
    &&& values.len() == 14
    &&& values[0] matches SqlModel::Integer(mode)
    &&& values[1] matches SqlModel::Integer(nlink)
    &&& values[2] matches SqlModel::Integer(uid)
    &&& values[3] matches SqlModel::Integer(gid)
    &&& values[4] matches SqlModel::Integer(size)
    &&& values[5] matches SqlModel::Integer(atime)
    &&& values[6] matches SqlModel::Integer(mtime)
    &&& values[7] matches SqlModel::Integer(ctime)
    &&& values[8] matches SqlModel::Integer(rdev)
    &&& values[9] matches SqlModel::Integer(atime_nsec)
    &&& values[10] matches SqlModel::Integer(mtime_nsec)
    &&& values[11] matches SqlModel::Integer(ctime_nsec)
    &&& values[13] matches SqlModel::Integer(storage_kind)
    &&& values[12] is Null || values[12] is Blob
    &&& after == Tables {
        inodes: t.inodes.insert(
            ino,
            InodeRow {
                mode: mode as u32,
                nlink: nlink as int,
                uid: uid as u32,
                gid: gid as u32,
                size,
                atime: (atime, atime_nsec),
                mtime: (mtime, mtime_nsec),
                ctime: (ctime, ctime_nsec),
                rdev: rdev as u64,
                data_inline: match values[12] {
                    SqlModel::Blob(data) => Some(data),
                    _ => None,
                },
                storage_kind,
            },
        ),
        ..t
    }
}

/// The statement of a new inode inserts its row: with its mode, links, owner, group, size and
/// device, made, read and changed just now, and with its contents in the row, empty, if they
/// start there.
pub proof fn the_statement_inserts_the_row(
    t: Tables,
    ino: i64,
    new: NewInode,
    statement: SqlStatement,
)
    requires
        call_ensures(NewInode::statement, (&new,), statement),
    ensures
        inserts_row(
            t,
            statement.sql@,
            models(statement.values@),
            ino,
            Tables {
                inodes: t.inodes.insert(
                    ino,
                    InodeRow {
                        mode: new.mode,
                        nlink: new.nlink as int,
                        uid: new.uid,
                        gid: new.gid,
                        size: new.size,
                        atime: new.now,
                        mtime: new.now,
                        ctime: new.now,
                        rdev: new.rdev,
                        data_inline: if new.inline {
                            Some(Seq::empty())
                        } else {
                            None
                        },
                        storage_kind: if new.inline {
                            1
                        } else {
                            0
                        },
                    },
                ),
                ..t
            },
        ),
{
    let rdev = new.rdev;
    assert((rdev as i64) as u64 == rdev) by (bit_vector);
}

/// The statement that commits stashed times sets exactly the times that are stashed, and there is
/// none if none are.
pub proof fn stashed_times_are_written_as_they_are(
    t: Tables,
    ino: i64,
    times: PendingTimeChange,
    result: Option<BoundStatement>,
)
    requires
        call_ensures(pending_times_update, (ino, &times), result),
        t.inodes.contains_key(ino),
    ensures
        result is None <==> times.atime is None && times.mtime is None && times.ctime is None,
        result matches Some(statement) ==> does(
            t,
            statement.sql@,
            statement.values@.map_values(|n: i64| SqlModel::Integer(n)),
            Tables {
                inodes: t.inodes.insert(
                    ino,
                    InodeRow {
                        atime: match times.atime {
                            Some(time) => time,
                            None => t.inodes[ino].atime,
                        },
                        mtime: match times.mtime {
                            Some(time) => time,
                            None => t.inodes[ino].mtime,
                        },
                        ctime: match times.ctime {
                            Some(time) => time,
                            None => t.inodes[ino].ctime,
                        },
                        ..t.inodes[ino]
                    },
                ),
                ..t
            },
        ),
{
    let row = t.inodes[ino];
    let none = Seq::<Seq<char>>::empty();
    let no_values = Seq::<i64>::empty();
    lemma_times(row, none, no_values, row, times);
    assert(none + time_fragments(times) =~= time_fragments(times));
    assert(no_values + time_values(times) =~= time_values(times));
    if let Some(statement) = result {
        assert(time_fragments(times).len() > 0);
        assert(updates_row(
            t,
            statement.sql@,
            statement.values@.map_values(|n: i64| SqlModel::Integer(n)),
            time_fragments(times),
            time_values(times),
            ino,
            Tables {
                inodes: t.inodes.insert(
                    ino,
                    all_assigned(row, time_fragments(times), time_values(times))->Some_0,
                ),
                ..t
            },
        ));
    }
}

/// The times that a commit of data writes: those that were set win, each by itself. A
/// modification or change time that was not set becomes the time of the commit, unless times are
/// to be kept. The access time is nobody's but who set it.
pub proof fn a_commit_stamps_what_was_not_set(
    row: InodeRow,
    preserve: bool,
    explicit: Option<PendingTimeChange>,
    stamp: Option<(i64, i64)>,
    out: TimeSets,
)
    requires
        call_ensures(write_commit_time_sets, (preserve, explicit, stamp), out),
    ensures
        ({
            let asked = match explicit {
                Some(times) => (times.atime, times.mtime, times.ctime),
                None => (None, None, None),
            };
            let now = if preserve {
                None
            } else {
                stamp
            };
            all_assigned(row, texts(out.sets@), out.values@) == Some(
                InodeRow {
                    atime: match asked.0 {
                        Some(time) => time,
                        None => row.atime,
                    },
                    mtime: match (asked.1, now) {
                        (Some(time), _) => time,
                        (None, Some(time)) => time,
                        (None, None) => row.mtime,
                    },
                    ctime: match (asked.2, now) {
                        (Some(time), _) => time,
                        (None, Some(time)) => time,
                        (None, None) => row.ctime,
                    },
                    ..row
                },
            )
        }),
{
    let none = Seq::<Seq<char>>::empty();
    let no_values = Seq::<i64>::empty();
    let times = crate::pending::commit_times(preserve, explicit, stamp);
    lemma_times(row, none, no_values, row, times);
    assert(none + time_fragments(times) =~= time_fragments(times));
    assert(no_values + time_values(times) =~= time_values(times));
}

} // verus!
