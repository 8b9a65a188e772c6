use agentfs_core::error::Error;
use agentfs_core::sql::SqlValue;
use agentfs_core::toolcalls::{
    duration_ms_between, error_statement, found_start, normalize_timestamp_for_output,
    recent_statement, record_statement, recorded_id, row_to_counts, row_to_tool_call,
    start_statement, success_statement, timestamp_ms, unix_timestamp_ms, ToolCallStatus,
};
use serde_json::Value;

fn text(value: &SqlValue) -> &str {
    match value {
        SqlValue::Text(text) => text,
        _ => panic!("no text: {value:?}"),
    }
}

fn integer(value: &SqlValue) -> i64 {
    match value {
        SqlValue::Integer(n) => *n,
        _ => panic!("no integer: {value:?}"),
    }
}

fn row() -> Vec<SqlValue> {
    vec![
        SqlValue::Integer(3),
        SqlValue::Text("fast".to_string()),
        SqlValue::Text("{\"path\": [1, 2]}".to_string()),
        SqlValue::Text("".to_string()),
        SqlValue::Null,
        SqlValue::Text("success".to_string()),
        SqlValue::Integer(1_700_000_000_123),
        SqlValue::Integer(1_700_000_001),
        SqlValue::Integer(25),
    ]
}

#[test]
fn statuses_read_back() {
    for status in [ToolCallStatus::Pending, ToolCallStatus::Success, ToolCallStatus::Error] {
        assert_eq!(ToolCallStatus::try_from(status.as_str()).unwrap(), status);
    }
    assert!(matches!(
        ToolCallStatus::try_from("done"),
        Err(Error::Internal(message)) if message == "invalid tool call status: done"
    ));
}

#[test]
fn times_are_seconds_or_milliseconds() {
    assert_eq!(timestamp_ms(1_700_000_000), 1_700_000_000_000);
    assert_eq!(timestamp_ms(1_700_000_000_123), 1_700_000_000_123);
    assert_eq!(normalize_timestamp_for_output(1_700_000_000_999), 1_700_000_000);
    assert_eq!(normalize_timestamp_for_output(-1_700_000_000_999), -1_700_000_000);
    assert_eq!(normalize_timestamp_for_output(42), 42);
    assert_eq!(duration_ms_between(1_700_000_000, 1_700_000_000_025), 25);
    assert_eq!(duration_ms_between(i64::MIN + 1, i64::MAX), i64::MAX);
    assert_eq!(duration_ms_between(i64::MAX, i64::MIN + 1), i64::MIN);
    assert_eq!(unix_timestamp_ms(5).unwrap(), 5);
    assert!(matches!(
        unix_timestamp_ms(1 << 63),
        Err(Error::Internal(message)) if message == "current timestamp exceeds i64 milliseconds"
    ));
}

#[test]
fn a_start_is_recorded_with_its_parameters() {
    let parameters: Value = serde_json::from_str("{\"b\": 1, \"a\": \"x\\n\"}").unwrap();
    let statement = start_statement("tool", &Some(parameters), 77);
    assert!(statement.sql.contains("'pending'"));
    assert_eq!(text(&statement.values[0]), "tool");
    assert_eq!(text(&statement.values[1]), "{\"a\":\"x\\n\",\"b\":1}");
    assert_eq!(integer(&statement.values[2]), 77);
    assert_eq!(text(&start_statement("tool", &None, 77).values[1]), "");
    assert_eq!(recorded_id(&SqlValue::Integer(9)).unwrap(), 9);
    assert!(matches!(
        recorded_id(&SqlValue::Null),
        Err(Error::Internal(message)) if message == "failed to get tool call ID"
    ));
}

#[test]
fn an_end_is_recorded_with_its_duration() {
    assert!(matches!(found_start(&None), Err(Error::ToolCallNotFound)));
    assert!(matches!(
        found_start(&Some(SqlValue::Null)),
        Err(Error::Internal(message)) if message == "invalid started_at value"
    ));
    let started = found_start(&Some(SqlValue::Integer(1_700_000_000_000))).unwrap();
    let done = success_statement(4, &None, started, 1_700_000_000_040);
    assert!(done.sql.contains("status = 'success'"));
    assert_eq!(text(&done.values[0]), "");
    assert_eq!(integer(&done.values[2]), 40);
    assert_eq!(integer(&done.values[3]), 4);
    let failed = error_statement(4, "broken", started, 1_700_000_000_041);
    assert!(failed.sql.contains("status = 'error'"));
    assert_eq!(text(&failed.values[0]), "broken");
    assert_eq!(integer(&failed.values[2]), 41);
}

#[test]
fn a_call_can_be_recorded_at_once() {
    let good = record_statement("t", 10, 12, &None, &Some(Value::Bool(true)), &None);
    assert_eq!(text(&good.values[2]), "true");
    assert_eq!(text(&good.values[3]), "");
    assert_eq!(text(&good.values[4]), "success");
    assert_eq!(integer(&good.values[7]), 2000);
    let bad = record_statement("t", 10, 12, &None, &None, &Some("oops".to_string()));
    assert_eq!(text(&bad.values[3]), "oops");
    assert_eq!(text(&bad.values[4]), "error");
    assert_eq!(integer(&recent_statement(None).values[0]), 100);
    assert_eq!(integer(&recent_statement(Some(3)).values[0]), 3);
}

#[test]
fn rows_are_read() {
    let call = row_to_tool_call(&row()).unwrap();
    assert_eq!((call.id, call.name.as_str()), (3, "fast"));
    assert_eq!(call.parameters.unwrap()["path"][1], 2);
    assert!(call.result.is_none());
    assert!(call.error.is_none());
    assert_eq!(call.status, ToolCallStatus::Success);
    assert_eq!(call.started_at, 1_700_000_000);
    assert_eq!(call.completed_at, Some(1_700_000_001));
    assert_eq!(call.duration_ms, Some(25));
}

#[test]
fn invalid_toolcall_json_propagates() {
    let mut bad = row();
    bad[2] = SqlValue::Text("{not-json".to_string());
    let error = row_to_tool_call(&bad).expect_err("invalid JSON should propagate");
    assert!(
        matches!(error, Error::Json(_)),
        "expected JSON decode error, got {error:?}"
    );
}

#[test]
fn broken_rows_name_the_column() {
    let problem = |at: usize, value: SqlValue| {
        let mut bad = row();
        bad[at] = value;
        match row_to_tool_call(&bad) {
            Err(Error::Internal(message)) => message,
            other => panic!("{other:?}"),
        }
    };
    assert_eq!(problem(0, SqlValue::Null), "invalid tool_calls.id: expected integer");
    assert_eq!(problem(1, SqlValue::Text("".to_string())), "invalid tool_calls.name: expected text");
    assert_eq!(problem(4, SqlValue::Integer(1)), "invalid tool_calls.error: expected text");
    assert_eq!(problem(5, SqlValue::Text("odd".to_string())), "invalid tool call status: odd");
    assert_eq!(problem(7, SqlValue::Real), "invalid tool_calls.completed_at: expected integer");
    assert!(matches!(
        row_to_tool_call(&vec![SqlValue::Integer(1)]),
        Err(Error::Internal(message)) if message == "invalid tool_calls.name: expected text"
    ));
}

#[test]
fn counts_are_read() {
    let counts = row_to_counts(&vec![
        SqlValue::Text("t".to_string()),
        SqlValue::Integer(5),
        SqlValue::Integer(3),
        SqlValue::Integer(2),
        SqlValue::Real,
    ])
    .unwrap();
    assert_eq!(counts.name, "t");
    assert_eq!((counts.total_calls, counts.successful, counts.failed), (5, 3, 2));
    assert!(matches!(
        row_to_counts(&vec![SqlValue::Text("t".to_string()), SqlValue::Integer(5)]),
        Err(Error::Internal(message)) if message == "invalid tool_calls.successful: expected integer"
    ));
}
