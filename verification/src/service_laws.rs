//! What surrounds the filesystem, in terms of what goes in and what comes out.
use crate::config::EnvReader;
use crate::error::Error;
use crate::mounts::{Mount, get_mounts, mounts_view, words};
use crate::options::{AgentFSOptions, DbPath, agent_db_path};
use crate::pool::{
    ConnectionPool, Lease, PoolOptions, Return, file_backed_connection_pool_options,
    memory_connection_pool_options, removable_sidecars,
};
use crate::semantics::durability::{
    AckDurability, Barrier, WriteReceipt, WriteStep, commit_barrier, write_steps,
};
use crate::sql::{SqlModel, SqlStatement, SqlValue, models};
use crate::text::strings;
use crate::toolcalls::{
    ToolCall, ToolCallCounts, ToolCallStatus, duration_ms_between, error_statement, found_start,
    normalize_timestamp_for_output, parsed_json, recent_statement, record_statement, recorded_id,
    row_to_counts, row_to_tool_call, start_statement, success_statement, timestamp_ms,
    unix_timestamp_ms, written_json,
};
use vstd::prelude::*;

verus! {

/// A status is stored under its own word, and that word and no other reads as it.
pub proof fn each_status_has_its_word(
    status: ToolCallStatus,
    text: &'static str,
    s: &str,
    read: Result<ToolCallStatus, Error>,
)
    requires
        call_ensures(ToolCallStatus::as_str, (&status,), text),
        call_ensures(ToolCallStatus::try_from, (s,), read),
    ensures
        status == ToolCallStatus::Pending ==> text@ == "pending"@,
        status == ToolCallStatus::Success ==> text@ == "success"@,
        status == ToolCallStatus::Error ==> text@ == "error"@,
        read == Ok::<ToolCallStatus, Error>(status) <==> s@ == text@,
        read is Err <==> s@ != "pending"@ && s@ != "success"@ && s@ != "error"@,
{
    reveal_strlit("pending");
    reveal_strlit("success");
    reveal_strlit("error");
    assert("pending"@[0] == 'p' && "success"@[0] == 's' && "error"@[0] == 'e');
}

/// Times of twelve digits and fewer are seconds, and longer ones milliseconds, before the epoch as
/// after it. Both are brought to milliseconds to be measured, and to seconds to be given out.
pub proof fn seconds_and_milliseconds_are_told_apart(time: i64, millis: i64, seconds: i64)
    requires
        time != i64::MIN,
        call_ensures(timestamp_ms, (time,), millis),
        call_ensures(normalize_timestamp_for_output, (time,), seconds),
    ensures
        -1_000_000_000_000 < time < 1_000_000_000_000 ==> millis == time * 1000 && seconds == time,
        time >= 1_000_000_000_000 ==> millis == time && seconds * 1000 <= time < (seconds + 1)
            * 1000,
        time <= -1_000_000_000_000 ==> millis == time && (seconds - 1) * 1000 < time <= seconds
            * 1000,
{
}

/// A call lasts from its start to its end, in milliseconds, as far as that fits. Times that the
/// clock gives are kept unless they do not fit.
pub proof fn a_call_lasts_from_start_to_end(
    started: i64,
    completed: i64,
    start: i64,
    end: i64,
    millis: i64,
    clock: u128,
    now: Result<i64, Error>,
)
    requires
        started != i64::MIN,
        completed != i64::MIN,
        call_ensures(timestamp_ms, (started,), start),
        call_ensures(timestamp_ms, (completed,), end),
        call_ensures(duration_ms_between, (started, completed), millis),
        call_ensures(unix_timestamp_ms, (clock,), now),
    ensures
        i64::MIN <= end - start <= i64::MAX ==> millis == end - start,
        end - start > i64::MAX ==> millis == i64::MAX,
        end - start < i64::MIN ==> millis == i64::MIN,
        now is Ok <==> clock <= i64::MAX,
        now matches Ok(found) ==> found == clock,
{
}

/// A call that starts is recorded with its name, its parameters and its start, as pending.
pub proof fn a_started_call_is_pending(
    name: &str,
    parameters: Option<serde_json::Value>,
    started: i64,
    statement: SqlStatement,
)
    requires
        call_ensures(start_statement, (name, &parameters, started), statement),
    ensures
        statement.sql@
            == "INSERT INTO tool_calls (name, parameters, status, started_at) VALUES (?, ?, 'pending', ?) RETURNING id"@,
        models(statement.values@).len() == 3,
        models(statement.values@)[0] == SqlModel::Text(name@),
        models(statement.values@)[1] == SqlModel::Text(
            match parameters {
                Some(json) => written_json(json),
                None => ""@,
            },
        ),
        models(statement.values@)[2] == SqlModel::Integer(started),
{
}

/// A call that ends is marked as a success with its result or as an error with its message, with
/// the time of its end and how long it took, and no other call is.
pub proof fn an_ended_call_is_a_success_or_an_error(
    id: i64,
    outcome: Option<serde_json::Value>,
    message: &str,
    started: i64,
    completed: i64,
    millis: i64,
    success: SqlStatement,
    failure: SqlStatement,
)
    requires
        started != i64::MIN,
        completed != i64::MIN,
        call_ensures(duration_ms_between, (started, completed), millis),
        call_ensures(success_statement, (id, &outcome, started, completed), success),
        call_ensures(error_statement, (id, message, started, completed), failure),
    ensures
        success.sql@
            == "UPDATE tool_calls SET result = ?, status = 'success', completed_at = ?, duration_ms = ? WHERE id = ?"@,
        models(success.values@) == seq![
            SqlModel::Text(
                match outcome {
                    Some(json) => written_json(json),
                    None => ""@,
                },
            ),
            SqlModel::Integer(completed),
            SqlModel::Integer(millis),
            SqlModel::Integer(id),
        ],
        failure.sql@
            == "UPDATE tool_calls SET error = ?, status = 'error', completed_at = ?, duration_ms = ? WHERE id = ?"@,
        models(failure.values@) == seq![
            SqlModel::Text(message@),
            SqlModel::Integer(completed),
            SqlModel::Integer(millis),
            SqlModel::Integer(id),
        ],
{
}

/// A call that is recorded at once has everything in its column; it is an error exactly if it has
/// a message.
pub proof fn a_recorded_call_has_everything_in_its_column(
    name: &str,
    started: i64,
    completed: i64,
    parameters: Option<serde_json::Value>,
    outcome: Option<serde_json::Value>,
    error: Option<String>,
    millis: i64,
    statement: SqlStatement,
)
    requires
        started != i64::MIN,
        completed != i64::MIN,
        call_ensures(duration_ms_between, (started, completed), millis),
        call_ensures(
            record_statement,
            (name, started, completed, &parameters, &outcome, &error),
            statement,
        ),
    ensures
        statement.sql@
            == "INSERT INTO tool_calls (name, parameters, result, error, status, started_at, completed_at, duration_ms) VALUES (?, ?, ?, ?, ?, ?, ?, ?) RETURNING id"@,
        models(statement.values@) == seq![
            SqlModel::Text(name@),
            SqlModel::Text(
                match parameters {
                    Some(json) => written_json(json),
                    None => ""@,
                },
            ),
            SqlModel::Text(
                match outcome {
                    Some(json) => written_json(json),
                    None => ""@,
                },
            ),
            SqlModel::Text(
                match error {
                    Some(text) => text@,
                    None => ""@,
                },
            ),
            SqlModel::Text(
                match error {
                    Some(_) => "error"@,
                    None => "success"@,
                },
            ),
            SqlModel::Integer(started),
            SqlModel::Integer(completed),
            SqlModel::Integer(millis),
        ],
{
}

/// Calls are listed from the latest on, as many as are asked for, and a hundred otherwise.
pub proof fn the_latest_calls_are_listed_first(limit: Option<i64>, statement: SqlStatement)
    requires
        call_ensures(recent_statement, (limit,), statement),
    ensures
        statement.sql@
            == "SELECT id, name, parameters, result, error, status, started_at, completed_at, duration_ms FROM tool_calls ORDER BY started_at DESC LIMIT ?"@,
        models(statement.values@) == seq![
            SqlModel::Integer(
                match limit {
                    Some(n) => n,
                    None => 100,
                },
            ),
        ],
{
}

/// A call reads back from its row, each column as what it holds: texts and numbers as they are,
/// JSON as it is parsed, an empty text as nothing, and times in seconds.
pub proof fn a_call_reads_back_from_its_row(
    row: Vec<SqlValue>,
    result: Result<ToolCall, Error>,
    started: i64,
    seconds: i64,
)
    requires
        row@.len() == 9,
        row@[6]@ == SqlModel::Integer(started),
        started != i64::MIN,
        row@[7]@ != SqlModel::Integer(i64::MIN),
        call_ensures(normalize_timestamp_for_output, (started,), seconds),
        call_ensures(row_to_tool_call, (&row,), result),
    ensures
        result matches Ok(call) ==> {
            &&& row@[0]@ == SqlModel::Integer(call.id)
            &&& row@[1]@ == SqlModel::Text(call.name@)
            &&& call.name@.len() > 0
            &&& row@[2]@ matches SqlModel::Text(text) ==> if text.len() == 0 {
                call.parameters is None
            } else {
                parsed_json(text) == Ok::<serde_json::Value, Seq<char>>(call.parameters->0)
                    && call.parameters is Some
            }
            &&& row@[3]@ matches SqlModel::Text(text) ==> if text.len() == 0 {
                call.result is None
            } else {
                parsed_json(text) == Ok::<serde_json::Value, Seq<char>>(call.result->0)
                    && call.result is Some
            }
            &&& row@[4]@ matches SqlModel::Text(text) ==> if text.len() == 0 {
                call.error is None
            } else {
                call.error is Some && (call.error->0)@ == text
            }
            &&& row@[5]@ == SqlModel::Text("pending"@) ==> call.status == ToolCallStatus::Pending
            &&& row@[5]@ == SqlModel::Text("success"@) ==> call.status == ToolCallStatus::Success
            &&& row@[5]@ == SqlModel::Text("error"@) ==> call.status == ToolCallStatus::Error
            &&& call.started_at == seconds
            &&& row@[7]@ is Null ==> call.completed_at is None
            &&& row@[7]@ == SqlModel::Integer(started) ==> call.completed_at == Some(seconds)
            &&& row@[8]@ is Null ==> call.duration_ms is None
            &&& row@[8]@ matches SqlModel::Integer(millis) ==> call.duration_ms == Some(millis)
        },
        row@[0]@ is Integer && row@[2]@ is Null && row@[3]@ is Null && row@[4]@ is Null && (
        row@[5]@ == SqlModel::Text("pending"@)) && row@[7]@ is Null && row@[8]@ is Null && (
        row@[1]@ matches SqlModel::Text(name) && name.len() > 0) ==> result is Ok,
{
    let all = models(row@);
    assert(all.len() == 9);
    assert(forall|i: int| 0 <= i < 9 ==> #[trigger] all[i] == row@[i]@);
    assert(all[0] == row@[0]@ && all[1] == row@[1]@ && all[2] == row@[2]@);
    assert(all[3] == row@[3]@ && all[4] == row@[4]@ && all[5] == row@[5]@);
    assert(all[6] == row@[6]@ && all[7] == row@[7]@ && all[8] == row@[8]@);
    reveal_strlit("pending");
    reveal_strlit("success");
    reveal_strlit("error");
    assert("pending"@[0] == 'p' && "success"@[0] == 's' && "error"@[0] == 'e');
}

/// The identity of a call and its start are the numbers of their cells; a call that has no row is
/// not found.
pub proof fn a_call_without_a_row_is_not_found(
    cell: SqlValue,
    row: Option<SqlValue>,
    id: Result<i64, Error>,
    start: Result<i64, Error>,
)
    requires
        call_ensures(recorded_id, (&cell,), id),
        call_ensures(found_start, (&row,), start),
    ensures
        cell@ matches SqlModel::Integer(n) ==> id == Ok::<i64, Error>(n),
        !(cell@ is Integer) ==> id is Err,
        row is None ==> start is Err && start->Err_0 is ToolCallNotFound,
        row matches Some(value) ==> (value@ matches SqlModel::Integer(n) ==> start == Ok::<
            i64,
            Error,
        >(n)),
{
}

/// The counts of a row of statistics are its columns in order.
pub proof fn counts_are_the_columns_in_order(row: Vec<SqlValue>, result: Result<ToolCallCounts, Error>)
    requires
        row@.len() >= 4,
        call_ensures(row_to_counts, (&row,), result),
    ensures
        result matches Ok(counts) ==> {
            &&& row@[0]@ == SqlModel::Text(counts.name@)
            &&& row@[1]@ == SqlModel::Integer(counts.total_calls)
            &&& row@[2]@ == SqlModel::Integer(counts.successful)
            &&& row@[3]@ == SqlModel::Integer(counts.failed)
        },
        row@[1]@ is Integer && row@[2]@ is Integer && row@[3]@ is Integer && (row@[0]@
            matches SqlModel::Text(name) && name.len() > 0) ==> result is Ok,
{
    let all = models(row@);
    assert(all[0] == row@[0]@ && all[1] == row@[1]@ && all[2] == row@[2]@ && all[3] == row@[3]@);
}

/// The steps of a write: the bytes go to the file, a committed write is made durable, and then it
/// is acknowledged with the number of bytes. A volatile write is not made durable.
pub proof fn a_committed_write_is_durable_before_it_is_acknowledged(
    count: usize,
    durability: AckDurability,
    steps: Vec<WriteStep>,
    ino: Option<i64>,
    barrier: Barrier,
)
    requires
        call_ensures(write_steps, (count, durability), steps),
        call_ensures(commit_barrier, (ino,), barrier),
    ensures
        steps@.len() >= 2,
        steps@[0] == WriteStep::Write,
        steps@.last() == WriteStep::Acknowledge(WriteReceipt { count, durability }),
        durability == AckDurability::Committed ==> steps@.len() == 3 && steps@[1]
            == WriteStep::Sync,
        durability == AckDurability::Volatile ==> steps@.len() == 2,
        ino is None ==> barrier == Barrier::All,
        ino matches Some(number) ==> barrier == Barrier::Inode(number),
{
}

/// The database of an agent lies in the directory for agents under the name of the agent.
pub proof fn agents_have_their_own_database(id: &str, path: String, valid: bool, i: int)
    requires
        call_ensures(agent_db_path, (id,), path),
        call_ensures(AgentFSOptions::validate_agent_id, (id,), valid),
    ensures
        path@ == ".agentfs/"@ + id@ + ".db"@,
        valid ==> id@.len() > 0 && !id@.contains('/') && !id@.contains('.'),
{
    reveal_strlit(".agentfs");
    reveal_strlit("/");
    reveal_strlit(".agentfs/");
    assert(".agentfs/"@ =~= ".agentfs"@ + "/"@);
}

/// What is given opens what it names: memory, the database of an agent that is there, or a file
/// that is there, in that order. What is missing is reported as what it looks like.
pub proof fn a_name_opens_what_is_there(
    text: &str,
    agent_exists: bool,
    file_exists: bool,
    valid: bool,
    path: String,
    result: Result<AgentFSOptions, Error>,
)
    requires
        call_ensures(AgentFSOptions::validate_agent_id, (text,), valid),
        call_ensures(agent_db_path, (text,), path),
        call_ensures(AgentFSOptions::resolve, (text, agent_exists, file_exists), result),
    ensures
        text@ == ":memory:"@ ==> result is Ok && (result->Ok_0).path is None && (
        result->Ok_0).id is None,
        text@ != ":memory:"@ && valid && agent_exists ==> result is Ok && (
        result->Ok_0).path is Some && (result->Ok_0).path->0@ == path@,
        text@ != ":memory:"@ && !(valid && agent_exists) && file_exists ==> result is Ok && (
        result->Ok_0).path is Some && (result->Ok_0).path->0@ == text@,
        text@ != ":memory:"@ && !file_exists && valid && !agent_exists ==> result is Err
            && result->Err_0 is AgentNotFound,
        text@ != ":memory:"@ && !file_exists && !valid ==> result is Err,
        text@ != ":memory:"@ && !file_exists && !valid && text@.contains('/') ==> result->Err_0
            is DatabaseNotFound,
{
}

/// A path wins over the name of an agent, and without either the database is in memory.
pub proof fn a_path_wins_over_an_agent(
    options: AgentFSOptions,
    result: Result<DbPath, Error>,
    id: &str,
    valid: bool,
    path: String,
)
    requires
        call_ensures(AgentFSOptions::db_path, (&options,), result),
        options.id matches Some(found) ==> found@ == id@,
        call_ensures(AgentFSOptions::validate_agent_id, (id,), valid),
        call_ensures(agent_db_path, (id,), path),
    ensures
        options.path matches Some(given) ==> if given@ == ":memory:"@ {
            result is Ok && result->Ok_0 is Memory
        } else {
            result matches Ok(DbPath::Given(found)) && found@ == given@
        },
        options.path is None && options.id is None ==> result is Ok && result->Ok_0 is Memory,
        options.path is None && options.id is Some && valid ==> (result
            matches Ok(DbPath::Agent(found)) && found@ == path@),
        options.path is None && options.id is Some && !valid ==> result is Err && result->Err_0
            is InvalidAgentId,
{
}

/// A pool lends as many connections as it may, an idle one before a new one, and none beyond.
pub proof fn a_pool_lends_up_to_its_limit(pool: &mut ConnectionPool, lease: Option<Lease>)
    requires
        old(pool).wf(),
        call_ensures(ConnectionPool::try_lend, (pool,), lease),
    ensures
        lease is Some <==> old(pool).lent < old(pool).limit,
        lease is Some ==> final(pool).lent == old(pool).lent + 1,
        lease is None ==> final(pool).lent == old(pool).lent,
        final(pool).lent <= final(pool).limit && final(pool).limit == old(pool).limit,
        lease is Some && old(pool).idle@.len() > 0 ==> lease is Some && lease->0 is Reuse,
        lease is Some && old(pool).idle@.len() == 0 ==> lease->0 is Create,
{
}

/// A connection that is given back is lent no more. It is kept to be used again exactly if it is
/// sound and nothing is under way on it.
pub proof fn only_sound_connections_are_kept(
    pool: &mut ConnectionPool,
    number: u64,
    healthy: bool,
    busy: bool,
    fate: Return,
)
    requires
        old(pool).wf(),
        old(pool).lent > 0,
        call_ensures(ConnectionPool::give_back, (pool, number, healthy, busy), fate),
    ensures
        final(pool).lent == old(pool).lent - 1,
        fate == Return::Kept <==> healthy && !busy,
        fate == Return::Evicted <==> !healthy,
        fate == Return::Kept ==> {
            let before = old(pool).idle@.len();
            final(pool).idle@.len() == before + 1 && final(pool).idle@.last() == number
        },
        fate != Return::Kept ==> final(pool).idle@ == old(pool).idle@,
{
}

/// A pool lends at least one connection, and starts with none.
pub proof fn a_pool_lends_at_least_one(
    options: PoolOptions,
    pool: ConnectionPool,
    file: PoolOptions,
    memory: PoolOptions,
)
    requires
        call_ensures(ConnectionPool::with_options, (&options,), pool),
        call_ensures(file_backed_connection_pool_options, (), file),
        call_ensures(memory_connection_pool_options, (), memory),
    ensures
        pool.limit >= 1,
        options.max_connections >= 1 ==> pool.limit == options.max_connections,
        pool.lent == 0 && pool.idle@.len() == 0,
        file.max_connections == 8 && file.timeout_millis == 30_000,
        memory.max_connections == 1 && memory.timeout_millis == 30_000,
        strings(file.setup_sql@) == seq![
            "PRAGMA temp_store = MEMORY"@,
            "PRAGMA busy_timeout = 5000"@,
            "PRAGMA journal_mode = WAL"@,
            "PRAGMA synchronous = NORMAL"@,
        ],
        strings(memory.setup_sql@) == seq!["PRAGMA temp_store = MEMORY"@],
{
}

/// The log of a database is removed only if it is empty, and its index if it is there.
pub proof fn only_an_empty_log_is_removed(
    path: &str,
    wal: Option<u64>,
    shm: bool,
    files: Vec<String>,
)
    requires
        call_ensures(removable_sidecars, (path, wal, shm), files),
    ensures
        strings(files@).contains(path@ + "-wal"@) <==> wal == Some(0u64),
        strings(files@).contains(path@ + "-shm"@) <==> shm,
        files@.len() <= 2,
{
    reveal_strlit("-wal");
    reveal_strlit("-shm");
    let log = path@ + "-wal"@;
    let index = path@ + "-shm"@;
    assert(log[path@.len() as int + 1] == 'w');
    assert(index[path@.len() as int + 1] == 's');
    let all = strings(files@);
    assert(all.len() == files@.len());
    if wal == Some(0u64) {
        assert(all[0] == log);
    }
    if shm {
        assert(all[all.len() - 1] == index);
    }
}

/// A switch is on for `1`, `true`, `yes` and `on`, off for `0`, `false`, `no` and `off`, and left as
/// it is otherwise.
pub proof fn words_switch_on_and_off(
    value: &str,
    switch: Option<bool>,
    default: bool,
    with_default: bool,
    without: bool,
)
    requires
        call_ensures(EnvReader::parse_bool, (value,), switch),
        call_ensures(EnvReader::bool_or, (Some(value), default), with_default),
        call_ensures(EnvReader::bool_or, (None, default), without),
    ensures
        value@ == "1"@ || value@ == "true"@ || value@ == "yes"@ || value@ == "on"@ ==> switch
            == Some(true),
        value@ == "0"@ || value@ == "false"@ || value@ == "no"@ || value@ == "off"@ ==> switch
            == Some(false),
        with_default == match switch {
            Some(found) => found,
            None => default,
        },
        without == default,
{
    crate::config::a_switch_has_one_meaning(value@);
}

/// A mount of an agent is listed with the agent and the place that the first two words of its line
/// give. One line that is no mount of an agent lists nothing.
pub proof fn a_line_lists_the_mount_of_its_agent(
    line: Seq<char>,
    contents: &str,
    mounts: Vec<Mount>,
)
    requires
        contents@ == line.push('\n'),
        !line.contains('\n'),
        call_ensures(get_mounts, (contents,), mounts),
    ensures
        mounts@.len() <= 1,
        mounts@.len() == 1 ==> words(line).len() >= 2 && words(line)[0] == "agentfs:"@
            + mounts@[0].id@ && words(line)[1] == mounts@[0].mountpoint@ && mounts@[0].id@
            != "fuse"@,
        words(line).len() >= 2 && "agentfs:"@.is_prefix_of(words(line)[0]) && words(line)[0]
            != "agentfs:fuse"@ ==> mounts@.len() == 1,
{
    lemma_one_line(line);
    let parts = words(line);
    let all = crate::mounts::lines(contents@);
    assert(contents@.drop_last() =~= line);
    assert(all =~= seq![line]);
    assert(all.drop_last() =~= Seq::<Seq<char>>::empty());
    assert(all.last() == line);
    assert(crate::mounts::mounts_of(all.drop_last()) =~= Seq::<(Seq<char>, Seq<char>)>::empty());
    let views = mounts_view(mounts@);
    assert(views.len() == mounts@.len());
    reveal_strlit("agentfs:");
    reveal_strlit("fuse");
    reveal_strlit("agentfs:fuse");
    if parts.len() >= 2 && "agentfs:"@.is_prefix_of(parts[0]) {
        let id = parts[0].skip(8);
        assert("agentfs:"@.len() == 8);
        assert(parts[0] =~= "agentfs:"@ + id);
        if id == "fuse"@ {
            assert("agentfs:fuse"@ =~= "agentfs:"@ + "fuse"@);
        }
    }
    if mounts@.len() == 1 {
        assert(views[0] == (mounts@[0].id@, mounts@[0].mountpoint@));
    }
}

proof fn lemma_one_line(line: Seq<char>)
    requires
        !line.contains('\n'),
    ensures
        crate::mounts::scan_lines(line) == (Seq::<Seq<char>>::empty(), line),
    decreases line.len(),
{
    if line.len() > 0 {
        let rest = line.drop_last();
        assert(!rest.contains('\n')) by {
            if rest.contains('\n') {
                let i = rest.index_of('\n');
                assert(line[i] == '\n');
            }
        }
        lemma_one_line(rest);
        assert(line.contains(line[line.len() - 1]));
        assert(rest.push(line.last()) =~= line);
    } else {
        assert(line =~= Seq::<char>::empty());
    }
}

} // verus!
