//! Records of tool calls: their statements, rows and times.
use crate::error::{Error, is_internal};
use crate::sql::{SqlModel, SqlStatement, SqlValue, models};
use crate::text::same_text;
use vstd::prelude::*;

verus! {

/// Times of at least this magnitude are milliseconds, smaller ones seconds.
pub const MILLIS_FROM: i64 = 1_000_000_000_000;

/// How many calls are listed unless a limit is given.
pub const DEFAULT_RECENT_LIMIT: i64 = 100;

pub const START_SQL: &'static str =
    "INSERT INTO tool_calls (name, parameters, status, started_at) VALUES (?, ?, 'pending', ?) RETURNING id";

pub const STARTED_AT_SQL: &'static str = "SELECT started_at FROM tool_calls WHERE id = ?";

pub const SUCCESS_SQL: &'static str =
    "UPDATE tool_calls SET result = ?, status = 'success', completed_at = ?, duration_ms = ? WHERE id = ?";

pub const ERROR_SQL: &'static str =
    "UPDATE tool_calls SET error = ?, status = 'error', completed_at = ?, duration_ms = ? WHERE id = ?";

pub const RECORD_SQL: &'static str =
    "INSERT INTO tool_calls (name, parameters, result, error, status, started_at, completed_at, duration_ms) VALUES (?, ?, ?, ?, ?, ?, ?, ?) RETURNING id";

pub const GET_SQL: &'static str =
    "SELECT id, name, parameters, result, error, status, started_at, completed_at, duration_ms FROM tool_calls WHERE id = ?";

pub const RECENT_SQL: &'static str =
    "SELECT id, name, parameters, result, error, status, started_at, completed_at, duration_ms FROM tool_calls ORDER BY started_at DESC LIMIT ?";

pub const STATS_FOR_SQL: &'static str =
    "SELECT name, COUNT(*) as total_calls, SUM(CASE WHEN status = 'success' THEN 1 ELSE 0 END) as successful, SUM(CASE WHEN status = 'error' THEN 1 ELSE 0 END) as failed, AVG(CASE WHEN duration_ms IS NOT NULL THEN duration_ms ELSE 0 END) as avg_duration_ms FROM tool_calls WHERE name = ? GROUP BY name";

pub const STATS_SQL: &'static str =
    "SELECT name, COUNT(*) as total_calls, SUM(CASE WHEN status = 'success' THEN 1 ELSE 0 END) as successful, SUM(CASE WHEN status = 'error' THEN 1 ELSE 0 END) as failed, AVG(CASE WHEN duration_ms IS NOT NULL THEN duration_ms ELSE 0 END) as avg_duration_ms FROM tool_calls GROUP BY name ORDER BY total_calls DESC";

/// `serde_json::Value`, any JSON value.
#[verifier::external_type_specification]
#[verifier::external_body]
pub struct ExJsonValue(serde_json::Value);

/// The JSON value that a text stands for, or what is wrong with the text.
pub uninterp spec fn parsed_json(text: Seq<char>) -> Result<serde_json::Value, Seq<char>>;

/// The text that a JSON value is written as.
pub uninterp spec fn written_json(value: serde_json::Value) -> Seq<char>;

/// `serde_json::from_str`: the JSON value that a text stands for. The value, or the message
/// of the error, depends on nothing but the text.
#[verifier::external_body]
fn parse_json(text: &str) -> (result: Result<serde_json::Value, String>)
    ensures
        match result {
            Ok(value) => parsed_json(text@) == Ok::<serde_json::Value, Seq<char>>(value),
            Err(message) => parsed_json(text@) == Err::<serde_json::Value, Seq<char>>(message@),
        },
{
    serde_json::from_str(text).map_err(|error| error.to_string())
}

/// `serde_json::Value::to_string`: the compact JSON text of a value. It depends on nothing
/// but the value.
#[verifier::external_body]
fn write_json(value: &serde_json::Value) -> (text: String)
    ensures
        text@ == written_json(*value),
{
    value.to_string()
}

/// How far a tool call has come.
#[derive(Debug, Clone, Copy, PartialEq, Eq, Structural)]
pub enum ToolCallStatus {
    Pending,
    Success,
    Error,
}

impl ToolCallStatus {
    /// The status as it is stored.
    pub open spec fn text(self) -> Seq<char> {
        match self {
            ToolCallStatus::Pending => "pending"@,
            ToolCallStatus::Success => "success"@,
            ToolCallStatus::Error => "error"@,
        }
    }

    /// The status as it is stored.
    pub fn as_str(&self) -> (text: &'static str)
        ensures
            text@ == self.text(),
    {
        match self {
            ToolCallStatus::Pending => "pending",
            ToolCallStatus::Success => "success",
            ToolCallStatus::Error => "error",
        }
    }

    /// The status that a stored text stands for.
    pub open spec fn of_text(text: Seq<char>) -> Option<ToolCallStatus> {
        if text == "pending"@ {
            Some(ToolCallStatus::Pending)
        } else if text == "success"@ {
            Some(ToolCallStatus::Success)
        } else if text == "error"@ {
            Some(ToolCallStatus::Error)
        } else {
            None
        }
    }

    /// Reads a stored status.
    pub fn try_from(s: &str) -> (result: Result<ToolCallStatus, Error>)
        ensures
            match result {
                Ok(status) => ToolCallStatus::of_text(s@) == Some(status),
                Err(error) => ToolCallStatus::of_text(s@) is None && is_internal(
                    error,
                    "invalid tool call status: "@ + s@,
                ),
            },
    {
        if same_text(s, "pending") {
            Ok(ToolCallStatus::Pending)
        } else if same_text(s, "success") {
            Ok(ToolCallStatus::Success)
        } else if same_text(s, "error") {
            Ok(ToolCallStatus::Error)
        } else {
            let mut message: String = "invalid tool call status: ".to_owned();
            message.append(s);
            Err(Error::Internal(message))
        }
    }
}

/// A status reads back as it was stored.
pub proof fn a_stored_status_reads_back(status: ToolCallStatus)
    ensures
        ToolCallStatus::of_text(status.text()) == Some(status),
{
    reveal_strlit("pending");
    reveal_strlit("success");
    reveal_strlit("error");
    assert("pending"@[0] == 'p' && "success"@[0] == 's' && "error"@[0] == 'e');
}

/// A time in milliseconds, whether it was given in seconds or in milliseconds.
pub open spec fn in_millis(timestamp: i64) -> int {
    if timestamp >= MILLIS_FROM || timestamp <= -MILLIS_FROM {
        timestamp as int
    } else {
        timestamp * 1000
    }
}

/// A time in milliseconds.
pub fn timestamp_ms(timestamp: i64) -> (millis: i64)
    requires
        timestamp != i64::MIN,
    ensures
        millis == in_millis(timestamp),
{
    if timestamp >= MILLIS_FROM || timestamp <= -MILLIS_FROM {
        timestamp
    } else {
        timestamp * 1000
    }
}

/// The nearest number that fits in 64 bits.
pub open spec fn saturated(n: int) -> i64 {
    if n > i64::MAX {
        i64::MAX
    } else if n < i64::MIN {
        i64::MIN
    } else {
        n as i64
    }
}

/// The milliseconds from one time to another.
pub fn duration_ms_between(started_at: i64, completed_at: i64) -> (millis: i64)
    requires
        started_at != i64::MIN,
        completed_at != i64::MIN,
    ensures
        millis == saturated(in_millis(completed_at) - in_millis(started_at)),
{
    let end: i64 = timestamp_ms(completed_at);
    let start: i64 = timestamp_ms(started_at);
    match end.checked_sub(start) {
        Some(millis) => millis,
        None => if end > start {
            i64::MAX
        } else {
            i64::MIN
        },
    }
}

/// A time in whole seconds, rounded towards zero if it was given in milliseconds.
pub open spec fn in_seconds(timestamp: i64) -> int {
    if timestamp >= MILLIS_FROM {
        timestamp as int / 1000
    } else if timestamp <= -MILLIS_FROM {
        -((-timestamp) / 1000)
    } else {
        timestamp as int
    }
}

/// A time as it is given out, in seconds.
pub fn normalize_timestamp_for_output(timestamp: i64) -> (seconds: i64)
    requires
        timestamp != i64::MIN,
    ensures
        seconds == in_seconds(timestamp),
{
    if timestamp >= MILLIS_FROM {
        timestamp / 1000
    } else if timestamp <= -MILLIS_FROM {
        let magnitude: i64 = -timestamp;
        -(magnitude / 1000)
    } else {
        timestamp
    }
}

/// Times that are given out keep their order, so a call does not seem to end before it
/// began.
pub proof fn given_out_times_keep_their_order(started_at: i64, completed_at: i64)
    requires
        started_at <= completed_at,
        (started_at >= MILLIS_FROM) == (completed_at >= MILLIS_FROM),
        (started_at <= -MILLIS_FROM) == (completed_at <= -MILLIS_FROM),
    ensures
        in_seconds(started_at) <= in_seconds(completed_at),
{
}

/// The present time in milliseconds, from what the clock says.
pub fn unix_timestamp_ms(millis: u128) -> (result: Result<i64, Error>)
    ensures
        if millis <= i64::MAX {
            result matches Ok(timestamp) && timestamp == millis
        } else {
            result matches Err(error) && is_internal(
                error,
                "current timestamp exceeds i64 milliseconds"@,
            )
        },
{
    if millis <= 0x7fff_ffff_ffff_ffff {
        Ok(millis as i64)
    } else {
        Err(Error::Internal("current timestamp exceeds i64 milliseconds".to_owned()))
    }
}

/// A JSON value as it is stored: its text, or an empty text if there is none.
pub open spec fn stored_json(value: Option<serde_json::Value>) -> Seq<char> {
    match value {
        Some(json) => written_json(json),
        None => ""@,
    }
}

fn json_or_empty(value: &Option<serde_json::Value>) -> (text: String)
    ensures
        text@ == stored_json(*value),
{
    match value {
        Some(json) => write_json(json),
        None => "".to_owned(),
    }
}

/// The statement that records the start of a call.
pub fn start_statement(name: &str, parameters: &Option<serde_json::Value>, started_at: i64) -> (statement:
    SqlStatement)
    ensures
        statement.runs(
            START_SQL@,
            seq![
                SqlModel::Text(name@),
                SqlModel::Text(stored_json(*parameters)),
                SqlModel::Integer(started_at),
            ],
        ),
{
    let mut values: Vec<SqlValue> = Vec::new();
    values.push(SqlValue::Text(name.to_owned()));
    values.push(SqlValue::Text(json_or_empty(parameters)));
    values.push(SqlValue::Integer(started_at));
    assert(models(values@) =~= seq![
        SqlModel::Text(name@),
        SqlModel::Text(stored_json(*parameters)),
        SqlModel::Integer(started_at),
    ]);
    SqlStatement { sql: START_SQL.to_owned(), values }
}

/// The number of a call that was recorded.
pub fn recorded_id(cell: &SqlValue) -> (result: Result<i64, Error>)
    ensures
        match cell@ {
            SqlModel::Integer(id) => result matches Ok(found) && found == id,
            _ => result matches Err(error) && is_internal(error, "failed to get tool call ID"@),
        },
{
    match cell.as_integer() {
        Some(id) => Ok(id),
        None => Err(Error::Internal("failed to get tool call ID".to_owned())),
    }
}

/// When a call started, from the row that was found for it.
pub fn found_start(row: &Option<SqlValue>) -> (result: Result<i64, Error>)
    ensures
        match *row {
            None => result matches Err(Error::ToolCallNotFound),
            Some(cell) => match cell@ {
                SqlModel::Integer(started_at) => result matches Ok(found) && found == started_at,
                _ => result matches Err(error) && is_internal(error, "invalid started_at value"@),
            },
        },
{
    match row {
        None => Err(Error::ToolCallNotFound),
        Some(cell) => match cell.as_integer() {
            Some(started_at) => Ok(started_at),
            None => Err(Error::Internal("invalid started_at value".to_owned())),
        },
    }
}

/// The statement that records the success of a call.
pub fn success_statement(
    id: i64,
    result: &Option<serde_json::Value>,
    started_at: i64,
    completed_at: i64,
) -> (statement: SqlStatement)
    requires
        started_at != i64::MIN,
        completed_at != i64::MIN,
    ensures
        statement.runs(
            SUCCESS_SQL@,
            seq![
                SqlModel::Text(stored_json(*result)),
                SqlModel::Integer(completed_at),
                SqlModel::Integer(saturated(in_millis(completed_at) - in_millis(started_at))),
                SqlModel::Integer(id),
            ],
        ),
{
    let duration: i64 = duration_ms_between(started_at, completed_at);
    let mut values: Vec<SqlValue> = Vec::new();
    values.push(SqlValue::Text(json_or_empty(result)));
    values.push(SqlValue::Integer(completed_at));
    values.push(SqlValue::Integer(duration));
    values.push(SqlValue::Integer(id));
    assert(models(values@) =~= seq![
        SqlModel::Text(stored_json(*result)),
        SqlModel::Integer(completed_at),
        SqlModel::Integer(duration),
        SqlModel::Integer(id),
    ]);
    SqlStatement { sql: SUCCESS_SQL.to_owned(), values }
}

/// The statement that records the failure of a call.
pub fn error_statement(id: i64, error: &str, started_at: i64, completed_at: i64) -> (statement:
    SqlStatement)
    requires
        started_at != i64::MIN,
        completed_at != i64::MIN,
    ensures
        statement.runs(
            ERROR_SQL@,
            seq![
                SqlModel::Text(error@),
                SqlModel::Integer(completed_at),
                SqlModel::Integer(saturated(in_millis(completed_at) - in_millis(started_at))),
                SqlModel::Integer(id),
            ],
        ),
{
    let duration: i64 = duration_ms_between(started_at, completed_at);
    let mut values: Vec<SqlValue> = Vec::new();
    values.push(SqlValue::Text(error.to_owned()));
    values.push(SqlValue::Integer(completed_at));
    values.push(SqlValue::Integer(duration));
    values.push(SqlValue::Integer(id));
    assert(models(values@) =~= seq![
        SqlModel::Text(error@),
        SqlModel::Integer(completed_at),
        SqlModel::Integer(duration),
        SqlModel::Integer(id),
    ]);
    SqlStatement { sql: ERROR_SQL.to_owned(), values }
}

/// The status of a call that was recorded when it was over.
pub open spec fn final_status(error: Option<Seq<char>>) -> ToolCallStatus {
    if error is Some {
        ToolCallStatus::Error
    } else {
        ToolCallStatus::Success
    }
}

pub open spec fn error_view(error: Option<String>) -> Option<Seq<char>> {
    match error {
        Some(text) => Some(text@),
        None => None,
    }
}

/// The statement that records a call that is over, with a result or an error.
pub fn record_statement(
    name: &str,
    started_at: i64,
    completed_at: i64,
    parameters: &Option<serde_json::Value>,
    result: &Option<serde_json::Value>,
    error: &Option<String>,
) -> (statement: SqlStatement)
    requires
        started_at != i64::MIN,
        completed_at != i64::MIN,
    ensures
        statement.runs(
            RECORD_SQL@,
            seq![
                SqlModel::Text(name@),
                SqlModel::Text(stored_json(*parameters)),
                SqlModel::Text(stored_json(*result)),
                SqlModel::Text(
                    match error_view(*error) {
                        Some(text) => text,
                        None => ""@,
                    },
                ),
                SqlModel::Text(final_status(error_view(*error)).text()),
                SqlModel::Integer(started_at),
                SqlModel::Integer(completed_at),
                SqlModel::Integer(saturated(in_millis(completed_at) - in_millis(started_at))),
            ],
        ),
{
    let duration: i64 = duration_ms_between(started_at, completed_at);
    let (message, status): (String, ToolCallStatus) = match error {
        Some(text) => (text.clone(), ToolCallStatus::Error),
        None => ("".to_owned(), ToolCallStatus::Success),
    };
    let mut values: Vec<SqlValue> = Vec::new();
    values.push(SqlValue::Text(name.to_owned()));
    values.push(SqlValue::Text(json_or_empty(parameters)));
    values.push(SqlValue::Text(json_or_empty(result)));
    values.push(SqlValue::Text(message));
    values.push(SqlValue::Text(status.as_str().to_owned()));
    values.push(SqlValue::Integer(started_at));
    values.push(SqlValue::Integer(completed_at));
    values.push(SqlValue::Integer(duration));
    assert(models(values@) =~= seq![
        SqlModel::Text(name@),
        SqlModel::Text(stored_json(*parameters)),
        SqlModel::Text(stored_json(*result)),
        SqlModel::Text(
            match error_view(*error) {
                Some(text) => text,
                None => ""@,
            },
        ),
        SqlModel::Text(final_status(error_view(*error)).text()),
        SqlModel::Integer(started_at),
        SqlModel::Integer(completed_at),
        SqlModel::Integer(duration),
    ]);
    SqlStatement { sql: RECORD_SQL.to_owned(), values }
}

/// The statement that lists recent calls.
pub fn recent_statement(limit: Option<i64>) -> (statement: SqlStatement)
    ensures
        statement.runs(
            RECENT_SQL@,
            seq![
                SqlModel::Integer(
                    match limit {
                        Some(n) => n,
                        None => DEFAULT_RECENT_LIMIT,
                    },
                ),
            ],
        ),
{
    let most: i64 = match limit {
        Some(n) => n,
        None => DEFAULT_RECENT_LIMIT,
    };
    let mut values: Vec<SqlValue> = Vec::new();
    values.push(SqlValue::Integer(most));
    assert(models(values@) =~= seq![SqlModel::Integer(most)]);
    SqlStatement { sql: RECENT_SQL.to_owned(), values }
}

/// A cell of a row. A row that is too short reads as if it went on with nulls.
pub open spec fn cell(row: Seq<SqlModel>, at: int) -> SqlModel {
    if 0 <= at < row.len() {
        row[at]
    } else {
        SqlModel::Null
    }
}

/// What is wrong with a row.
pub enum Problem {
    Message(Seq<char>),
    Json(Seq<char>),
}

/// The complaint about a column that holds something else than it should.
pub open spec fn complaint(column: Seq<char>, wanted: Seq<char>) -> Problem {
    Problem::Message("invalid tool_calls."@ + column + ": expected "@ + wanted)
}

pub open spec fn states(error: Error, problem: Problem) -> bool {
    match problem {
        Problem::Message(text) => is_internal(error, text),
        Problem::Json(text) => error matches Error::Json(found) && found@ == text,
    }
}

fn complain(column: &str, wanted: &str) -> (error: Error)
    ensures
        states(error, complaint(column@, wanted@)),
{
    let mut message: String = "invalid tool_calls.".to_owned();
    message.append(column);
    message.append(": expected ");
    message.append(wanted);
    Error::Internal(message)
}

/// A number that has to be there.
pub open spec fn number_in(value: SqlModel, column: Seq<char>) -> Result<i64, Problem> {
    match value {
        SqlModel::Integer(n) => Ok(n),
        _ => Err(complaint(column, "integer"@)),
    }
}

/// A number that may be missing.
pub open spec fn optional_number_in(value: SqlModel, column: Seq<char>) -> Result<
    Option<i64>,
    Problem,
> {
    match value {
        SqlModel::Null => Ok(None),
        SqlModel::Integer(n) => Ok(Some(n)),
        _ => Err(complaint(column, "integer"@)),
    }
}

/// A text that may be missing. An empty text counts as missing.
pub open spec fn optional_text_in(value: SqlModel, column: Seq<char>) -> Result<
    Option<Seq<char>>,
    Problem,
> {
    match value {
        SqlModel::Null => Ok(None),
        SqlModel::Text(text) => if text.len() == 0 {
            Ok(None)
        } else {
            Ok(Some(text))
        },
        _ => Err(complaint(column, "text"@)),
    }
}

/// A text that has to be there.
pub open spec fn text_in(value: SqlModel, column: Seq<char>) -> Result<Seq<char>, Problem> {
    match optional_text_in(value, column) {
        Ok(Some(text)) => Ok(text),
        Ok(None) => Err(complaint(column, "text"@)),
        Err(problem) => Err(problem),
    }
}

/// A JSON value that may be missing.
pub open spec fn optional_json_in(value: SqlModel, column: Seq<char>) -> Result<
    Option<serde_json::Value>,
    Problem,
> {
    match optional_text_in(value, column) {
        Ok(Some(text)) => match parsed_json(text) {
            Ok(json) => Ok(Some(json)),
            Err(message) => Err(Problem::Json(message)),
        },
        Ok(None) => Ok(None),
        Err(problem) => Err(problem),
    }
}

/// Whether an outcome is what was to be found.
pub open spec fn agrees<T>(result: Result<T, Error>, expected: Result<T, Problem>) -> bool {
    match (result, expected) {
        (Ok(found), Ok(wanted)) => found == wanted,
        (Err(error), Err(problem)) => states(error, problem),
        _ => false,
    }
}

/// Whether an outcome is the text that was to be found.
pub open spec fn agrees_on_text(
    result: Result<Option<String>, Error>,
    expected: Result<Option<Seq<char>>, Problem>,
) -> bool {
    match (result, expected) {
        (Ok(Some(found)), Ok(Some(wanted))) => found@ == wanted,
        (Ok(None), Ok(None)) => true,
        (Err(error), Err(problem)) => states(error, problem),
        _ => false,
    }
}

fn required_i64(row: &Vec<SqlValue>, at: usize, column: &str) -> (result: Result<i64, Error>)
    ensures
        agrees(result, number_in(cell(models(row@), at as int), column@)),
{
    if at < row.len() {
        assert(models(row@)[at as int] == row@[at as int]@);
        if let Some(n) = row[at].as_integer() {
            return Ok(n);
        }
    }
    Err(complain(column, "integer"))
}

fn optional_i64(row: &Vec<SqlValue>, at: usize, column: &str) -> (result: Result<
    Option<i64>,
    Error,
>)
    ensures
        agrees(result, optional_number_in(cell(models(row@), at as int), column@)),
{
    if at >= row.len() {
        return Ok(None);
    }
    assert(models(row@)[at as int] == row@[at as int]@);
    match &row[at] {
        SqlValue::Null => Ok(None),
        SqlValue::Integer(n) => Ok(Some(*n)),
        _ => Err(complain(column, "integer")),
    }
}

fn optional_text(row: &Vec<SqlValue>, at: usize, column: &str) -> (result: Result<
    Option<String>,
    Error,
>)
    ensures
        agrees_on_text(result, optional_text_in(cell(models(row@), at as int), column@)),
{
    if at >= row.len() {
        return Ok(None);
    }
    assert(models(row@)[at as int] == row@[at as int]@);
    match &row[at] {
        SqlValue::Null => Ok(None),
        SqlValue::Text(text) => {
            let chars: Vec<char> = crate::text::chars_of(text.as_str());
            if chars.len() == 0 {
                Ok(None)
            } else {
                Ok(Some(text.clone()))
            }
        },
        _ => Err(complain(column, "text")),
    }
}

fn required_text(row: &Vec<SqlValue>, at: usize, column: &str) -> (result: Result<String, Error>)
    ensures
        match (result, text_in(cell(models(row@), at as int), column@)) {
            (Ok(found), Ok(wanted)) => found@ == wanted,
            (Err(error), Err(problem)) => states(error, problem),
            _ => false,
        },
{
    match optional_text(row, at, column) {
        Ok(Some(text)) => Ok(text),
        Ok(None) => Err(complain(column, "text")),
        Err(error) => Err(error),
    }
}

fn optional_json(row: &Vec<SqlValue>, at: usize, column: &str) -> (result: Result<
    Option<serde_json::Value>,
    Error,
>)
    ensures
        agrees(result, optional_json_in(cell(models(row@), at as int), column@)),
{
    match optional_text(row, at, column) {
        Ok(Some(text)) => match parse_json(text.as_str()) {
            Ok(json) => Ok(Some(json)),
            Err(message) => Err(Error::Json(message)),
        },
        Ok(None) => Ok(None),
        Err(error) => Err(error),
    }
}

/// A recorded tool call.
#[derive(Debug, Clone)]
pub struct ToolCall {
    pub id: i64,
    pub name: String,
    pub parameters: Option<serde_json::Value>,
    pub result: Option<serde_json::Value>,
    pub error: Option<String>,
    pub status: ToolCallStatus,
    /// In seconds.
    pub started_at: i64,
    /// In seconds.
    pub completed_at: Option<i64>,
    pub duration_ms: Option<i64>,
}

/// The status in a row.
pub open spec fn status_in(value: SqlModel) -> Result<ToolCallStatus, Problem> {
    match text_in(value, "status"@) {
        Ok(text) => match ToolCallStatus::of_text(text) {
            Some(status) => Ok(status),
            None => Err(Problem::Message("invalid tool call status: "@ + text)),
        },
        Err(problem) => Err(problem),
    }
}

pub open spec fn problem_of<T>(result: Result<T, Problem>) -> Option<Problem> {
    match result {
        Ok(_) => None,
        Err(problem) => Some(problem),
    }
}

/// The first of two problems.
pub open spec fn first_of(a: Option<Problem>, b: Option<Problem>) -> Option<Problem> {
    if a is Some {
        a
    } else {
        b
    }
}

/// The first thing that is wrong with the row of a call, column by column.
pub open spec fn call_problem(row: Seq<SqlModel>) -> Option<Problem> {
    first_of(
        problem_of(number_in(cell(row, 0), "id"@)),
        first_of(
            problem_of(text_in(cell(row, 1), "name"@)),
            first_of(
                problem_of(optional_json_in(cell(row, 2), "parameters"@)),
                first_of(
                    problem_of(optional_json_in(cell(row, 3), "result"@)),
                    first_of(
                        problem_of(optional_text_in(cell(row, 4), "error"@)),
                        first_of(
                            problem_of(status_in(cell(row, 5))),
                            first_of(
                                problem_of(number_in(cell(row, 6), "started_at"@)),
                                first_of(
                                    problem_of(optional_number_in(cell(row, 7), "completed_at"@)),
                                    problem_of(optional_number_in(cell(row, 8), "duration_ms"@)),
                                ),
                            ),
                        ),
                    ),
                ),
            ),
        ),
    )
}

/// Whether a call is the one that a row holds.
pub open spec fn call_is(call: ToolCall, row: Seq<SqlModel>) -> bool {
    &&& number_in(cell(row, 0), "id"@) == Ok::<i64, Problem>(call.id)
    &&& text_in(cell(row, 1), "name"@) == Ok::<Seq<char>, Problem>(call.name@)
    &&& optional_json_in(cell(row, 2), "parameters"@) == Ok::<_, Problem>(call.parameters)
    &&& optional_json_in(cell(row, 3), "result"@) == Ok::<_, Problem>(call.result)
    &&& optional_text_in(cell(row, 4), "error"@) == Ok::<_, Problem>(error_view(call.error))
    &&& status_in(cell(row, 5)) == Ok::<ToolCallStatus, Problem>(call.status)
    &&& number_in(cell(row, 6), "started_at"@) matches Ok(started_at) && call.started_at
        == in_seconds(started_at)
    &&& match optional_number_in(cell(row, 7), "completed_at"@) {
        Ok(Some(completed_at)) => call.completed_at matches Some(found) && found == in_seconds(
            completed_at,
        ),
        Ok(None) => call.completed_at is None,
        Err(_) => false,
    }
    &&& optional_number_in(cell(row, 8), "duration_ms"@) == Ok::<_, Problem>(call.duration_ms)
}

/// Reads the row of a call.
pub fn row_to_tool_call(row: &Vec<SqlValue>) -> (result: Result<ToolCall, Error>)
    requires
        cell(models(row@), 6) != SqlModel::Integer(i64::MIN),
        cell(models(row@), 7) != SqlModel::Integer(i64::MIN),
    ensures
        match call_problem(models(row@)) {
            Some(problem) => result matches Err(error) && states(error, problem),
            None => result matches Ok(call) && call_is(call, models(row@)),
        },
{
    let id: i64 = match required_i64(row, 0, "id") {
        Ok(id) => id,
        Err(error) => return Err(error),
    };
    let name: String = match required_text(row, 1, "name") {
        Ok(name) => name,
        Err(error) => return Err(error),
    };
    let parameters: Option<serde_json::Value> = match optional_json(row, 2, "parameters") {
        Ok(parameters) => parameters,
        Err(error) => return Err(error),
    };
    let outcome: Option<serde_json::Value> = match optional_json(row, 3, "result") {
        Ok(outcome) => outcome,
        Err(error) => return Err(error),
    };
    let failure: Option<String> = match optional_text(row, 4, "error") {
        Ok(failure) => failure,
        Err(error) => return Err(error),
    };
    let status_text: String = match required_text(row, 5, "status") {
        Ok(text) => text,
        Err(error) => return Err(error),
    };
    let status: ToolCallStatus = match ToolCallStatus::try_from(status_text.as_str()) {
        Ok(status) => status,
        Err(error) => return Err(error),
    };
    let started_at: i64 = match required_i64(row, 6, "started_at") {
        Ok(started_at) => normalize_timestamp_for_output(started_at),
        Err(error) => return Err(error),
    };
    let completed_at: Option<i64> = match optional_i64(row, 7, "completed_at") {
        Ok(Some(completed_at)) => Some(normalize_timestamp_for_output(completed_at)),
        Ok(None) => None,
        Err(error) => return Err(error),
    };
    let duration_ms: Option<i64> = match optional_i64(row, 8, "duration_ms") {
        Ok(duration_ms) => duration_ms,
        Err(error) => return Err(error),
    };
    Ok(
        ToolCall {
            id,
            name,
            parameters,
            result: outcome,
            error: failure,
            status,
            started_at,
            completed_at,
            duration_ms,
        },
    )
}

/// How many calls of a tool there were.
#[derive(Debug)]
pub struct ToolCallCounts {
    pub name: String,
    pub total_calls: i64,
    pub successful: i64,
    pub failed: i64,
}

/// The first thing that is wrong with the counts in a row of statistics.
pub open spec fn counts_problem(row: Seq<SqlModel>) -> Option<Problem> {
    first_of(
        problem_of(text_in(cell(row, 0), "name"@)),
        first_of(
            problem_of(number_in(cell(row, 1), "total_calls"@)),
            first_of(
                problem_of(number_in(cell(row, 2), "successful"@)),
                problem_of(number_in(cell(row, 3), "failed"@)),
            ),
        ),
    )
}

/// Reads the counts in a row of statistics. The average that follows them is not among
/// them.
pub fn row_to_counts(row: &Vec<SqlValue>) -> (result: Result<ToolCallCounts, Error>)
    ensures
        match counts_problem(models(row@)) {
            Some(problem) => result matches Err(error) && states(error, problem),
            None => result matches Ok(counts) && {
                &&& cell(models(row@), 0) == SqlModel::Text(counts.name@)
                &&& cell(models(row@), 1) == SqlModel::Integer(counts.total_calls)
                &&& cell(models(row@), 2) == SqlModel::Integer(counts.successful)
                &&& cell(models(row@), 3) == SqlModel::Integer(counts.failed)
            },
        },
{
    let name: String = match required_text(row, 0, "name") {
        Ok(name) => name,
        Err(error) => return Err(error),
    };
    let total_calls: i64 = match required_i64(row, 1, "total_calls") {
        Ok(n) => n,
        Err(error) => return Err(error),
    };
    let successful: i64 = match required_i64(row, 2, "successful") {
        Ok(n) => n,
        Err(error) => return Err(error),
    };
    let failed: i64 = match required_i64(row, 3, "failed") {
        Ok(n) => n,
        Err(error) => return Err(error),
    };
    Ok(ToolCallCounts { name, total_calls, successful, failed })
}

/// What was stored for a missing value reads back as missing.
pub proof fn a_missing_value_reads_back_as_missing(column: Seq<char>)
    ensures
        optional_json_in(SqlModel::Text(stored_json(None)), column) == Ok::<
            Option<serde_json::Value>,
            Problem,
        >(None),
        optional_text_in(SqlModel::Text(""@), column) == Ok::<Option<Seq<char>>, Problem>(None),
{
    reveal_strlit("");
}

} // verus!
