use query_engine::executor::{
    build_query_result_html, materialize_rows, DriverCall, DriverReply, ExecPhase, ExecRequest,
    Executor, QueryOptions, QueryResponse,
};
use query_engine::pool::PoolSlot;
use query_engine::value::{DriverValue, StructuredValue};

fn request(sql: &str, db: Option<&str>, options: QueryOptions) -> ExecRequest {
    ExecRequest {
        sql: sql.to_string(),
        db: db.map(|d| d.to_string()),
        options,
    }
}

fn run_to_completion(req: ExecRequest, mut replies: Vec<DriverReply>) -> (Vec<String>, ExecPhase) {
    let mut issued: Vec<String> = Vec::new();
    let (mut machine, first) = Executor::start(req);
    let mut call = Some(first);
    while let Some(c) = call {
        match &c {
            DriverCall::Borrow => issued.push("<borrow>".to_string()),
            DriverCall::Run(s) => issued.push(s.clone()),
            DriverCall::Statement(s) => issued.push(format!("<sql> {}", s)),
            DriverCall::Fetch => issued.push("<fetch>".to_string()),
        }
        if replies.is_empty() {
            break;
        }
        let reply = replies.remove(0);
        let (next, next_call) = machine.step(reply);
        machine = next;
        call = next_call;
    }
    (issued, machine.phase)
}

#[test]
fn select_scenario_returns_single_response() {
    let req = request("SELECT 1 AS x", None, QueryOptions::default());
    let replies = vec![
        DriverReply::Borrowed,
        DriverReply::Dispatched {
            columns: vec!["x".to_string()],
            affected_rows: 0,
            last_insert_id: 0,
        },
        DriverReply::Rows { raw: vec![vec![DriverValue::Int(1)]], elapsed_ms: 3 },
    ];
    let (issued, phase) = run_to_completion(req, replies);
    assert_eq!(issued, vec!["<borrow>", "<sql> SELECT 1 AS x", "<fetch>"]);
    match phase {
        ExecPhase::Done { response } => {
            assert_eq!(response.columns, vec!["x".to_string()]);
            assert_eq!(response.rows.len(), 1);
            assert_eq!(response.rows[0].len(), 1);
            assert!(matches!(response.rows[0][0], StructuredValue::Int(1)));
            assert_eq!(response.affected_rows, 0);
        }
        other => panic!("not done: {}", phase_name(&other)),
    }
}

#[test]
fn insert_scenario_reports_affected_and_insert_id() {
    let req = request("INSERT INTO t(v) VALUES (5)", None, QueryOptions::default());
    let replies = vec![
        DriverReply::Borrowed,
        DriverReply::Dispatched { columns: vec![], affected_rows: 1, last_insert_id: 3 },
        DriverReply::Rows { raw: vec![], elapsed_ms: 1 },
    ];
    let (_issued, phase) = run_to_completion(req, replies);
    match phase {
        ExecPhase::Done { response } => {
            assert_eq!(response.affected_rows, 1);
            assert!(response.last_insert_id > 0);
            assert_eq!(response.last_insert_id, 3);
            assert!(response.rows.is_empty());
        }
        other => panic!("not done: {}", phase_name(&other)),
    }
}

#[test]
fn unconnected_pool_reports_not_connected() {
    let slot: PoolSlot<u32> = PoolSlot::new();
    assert!(!slot.is_connected());
    match slot.current() {
        Err(e) => assert_eq!(e, "Not connected"),
        Ok(_) => panic!("no pool was established"),
    }
    let req = request("SELECT 1", None, QueryOptions::default());
    let replies = vec![DriverReply::Failed("Not connected".to_string())];
    let (_issued, phase) = run_to_completion(req, replies);
    match phase {
        ExecPhase::Failed { error } => assert_eq!(error, "Not connected"),
        other => panic!("not failed: {}", phase_name(&other)),
    }
}

#[test]
fn pool_slot_replace_and_clear() {
    let mut slot: PoolSlot<u32> = PoolSlot::new();
    slot.replace(7);
    assert!(slot.is_connected());
    assert_eq!(*slot.current().unwrap(), 7);
    slot.replace(8);
    assert_eq!(*slot.current().unwrap(), 8);
    slot.clear();
    assert!(slot.current().is_err());
}

#[test]
fn failing_statement_reports_prefixed_error_and_no_response() {
    let req = request("SELECT * FROM nonexistent_table", None, QueryOptions::default());
    let replies = vec![
        DriverReply::Borrowed,
        DriverReply::Failed("Table 'nonexistent_table' doesn't exist".to_string()),
    ];
    let (_issued, phase) = run_to_completion(req, replies);
    match phase {
        ExecPhase::Failed { error } => {
            assert_eq!(error, "SQL Error: Table 'nonexistent_table' doesn't exist");
        }
        other => panic!("not failed: {}", phase_name(&other)),
    }
}

#[test]
fn rollback_option_brackets_the_statement() {
    let req = request(
        "DELETE FROM t",
        None,
        QueryOptions { rollback: true, disable_fk_checks: false },
    );
    let replies = vec![
        DriverReply::Borrowed,
        DriverReply::Ran,
        DriverReply::Dispatched { columns: vec![], affected_rows: 4, last_insert_id: 0 },
        DriverReply::Rows { raw: vec![], elapsed_ms: 2 },
        DriverReply::Ran,
    ];
    let (issued, phase) = run_to_completion(req, replies);
    assert_eq!(
        issued,
        vec!["<borrow>", "START TRANSACTION", "<sql> DELETE FROM t", "<fetch>", "ROLLBACK"]
    );
    assert!(matches!(phase, ExecPhase::Done { .. }));
}

#[test]
fn fk_toggle_is_restored_last() {
    let req = request(
        "DELETE FROM parent",
        Some("mydb"),
        QueryOptions { rollback: true, disable_fk_checks: true },
    );
    let replies = vec![
        DriverReply::Borrowed,
        DriverReply::Ran,
        DriverReply::Ran,
        DriverReply::Ran,
        DriverReply::Dispatched { columns: vec![], affected_rows: 1, last_insert_id: 0 },
        DriverReply::Rows { raw: vec![], elapsed_ms: 2 },
        DriverReply::Ran,
        DriverReply::Ran,
    ];
    let (issued, phase) = run_to_completion(req, replies);
    assert_eq!(
        issued,
        vec![
            "<borrow>",
            "USE `mydb`",
            "SET FOREIGN_KEY_CHECKS = 0",
            "START TRANSACTION",
            "<sql> DELETE FROM parent",
            "<fetch>",
            "ROLLBACK",
            "SET FOREIGN_KEY_CHECKS = 1",
        ]
    );
    assert!(matches!(phase, ExecPhase::Done { .. }));
}

#[test]
fn empty_db_name_switches_nothing() {
    let req = request("SELECT 1", Some(""), QueryOptions::default());
    let replies = vec![
        DriverReply::Borrowed,
        DriverReply::Dispatched { columns: vec![], affected_rows: 0, last_insert_id: 0 },
        DriverReply::Rows { raw: vec![], elapsed_ms: 0 },
    ];
    let (issued, phase) = run_to_completion(req, replies);
    assert_eq!(issued, vec!["<borrow>", "<sql> SELECT 1", "<fetch>"]);
    assert!(matches!(phase, ExecPhase::Done { .. }));
}

#[test]
fn schema_switch_failure_aborts_before_user_sql() {
    let req = request("SELECT 1", Some("missing_db"), QueryOptions::default());
    let replies = vec![
        DriverReply::Borrowed,
        DriverReply::Failed("Unknown database 'missing_db'".to_string()),
    ];
    let (issued, phase) = run_to_completion(req, replies);
    assert_eq!(issued, vec!["<borrow>", "USE `missing_db`"]);
    match phase {
        ExecPhase::Failed { error } => assert_eq!(error, "Unknown database 'missing_db'"),
        other => panic!("not failed: {}", phase_name(&other)),
    }
}

#[test]
fn options_resolve_defaults_to_off() {
    let r = QueryOptions::resolve(None, None);
    assert!(!r.rollback);
    assert!(!r.disable_fk_checks);
    let r = QueryOptions::resolve(Some(true), Some(false));
    assert!(r.rollback);
    assert!(!r.disable_fk_checks);
    let d = QueryOptions::default();
    assert!(!d.rollback && !d.disable_fk_checks);
}

#[test]
fn materialize_pads_short_rows_with_null() {
    let raw = vec![vec![DriverValue::Int(1)], vec![]];
    let rows = materialize_rows(2, &raw);
    assert_eq!(rows.len(), 2);
    assert_eq!(rows[0].len(), 2);
    assert_eq!(rows[1].len(), 2);
    assert!(matches!(rows[0][0], StructuredValue::Int(1)));
    assert!(matches!(rows[0][1], StructuredValue::Null));
    assert!(matches!(rows[1][0], StructuredValue::Null));
}

#[test]
fn html_projection_of_first_response() {
    let response = QueryResponse {
        columns: vec!["x".to_string()],
        rows: vec![vec![StructuredValue::Int(1)]],
        affected_rows: 0,
        last_insert_id: 0,
        duration_ms: 4,
    };
    let results = vec![response];
    let html = build_query_result_html(&results, 9).unwrap();
    assert_eq!(html.head_html, "<tr><th>x</th></tr>");
    assert_eq!(html.body_html, "<tr><td>1</td></tr>");
    assert_eq!(html.pagination_html, "");
    assert_eq!(html.count, 1);
    assert_eq!(html.total_rows, 1);
    assert_eq!(html.query_time, 9);
}

#[test]
fn html_projection_requires_a_response() {
    let results: Vec<QueryResponse> = Vec::new();
    match build_query_result_html(&results, 0) {
        Err(e) => assert_eq!(e, "No results returned"),
        Ok(_) => panic!("no response to project"),
    }
}

fn phase_name(phase: &ExecPhase) -> &'static str {
    match phase {
        ExecPhase::Borrowing => "borrowing",
        ExecPhase::Setup { .. } => "setup",
        ExecPhase::Running => "running",
        ExecPhase::Fetching { .. } => "fetching",
        ExecPhase::Cleanup { .. } => "cleanup",
        ExecPhase::FailingCleanup { .. } => "failing cleanup",
        ExecPhase::Done { .. } => "done",
        ExecPhase::Failed { .. } => "failed",
    }
}

#[test]
fn failed_statement_still_unwinds_session_state() {
    let req = request(
        "DELETE FROM t",
        None,
        QueryOptions { rollback: true, disable_fk_checks: true },
    );
    let replies = vec![
        DriverReply::Borrowed,
        DriverReply::Ran,
        DriverReply::Ran,
        DriverReply::Failed("bad statement".to_string()),
        DriverReply::Ran,
        DriverReply::Ran,
    ];
    let (issued, phase) = run_to_completion(req, replies);
    assert_eq!(
        issued,
        vec![
            "<borrow>",
            "SET FOREIGN_KEY_CHECKS = 0",
            "START TRANSACTION",
            "<sql> DELETE FROM t",
            "ROLLBACK",
            "SET FOREIGN_KEY_CHECKS = 1",
        ]
    );
    match phase {
        ExecPhase::Failed { error } => assert_eq!(error, "SQL Error: bad statement"),
        other => panic!("not failed: {}", phase_name(&other)),
    }
}

#[test]
fn setup_failure_restores_applied_toggle() {
    let req = request(
        "DELETE FROM t",
        None,
        QueryOptions { rollback: true, disable_fk_checks: true },
    );
    let replies = vec![
        DriverReply::Borrowed,
        DriverReply::Ran,
        DriverReply::Failed("cannot begin".to_string()),
        DriverReply::Ran,
    ];
    let (issued, phase) = run_to_completion(req, replies);
    assert_eq!(
        issued,
        vec![
            "<borrow>",
            "SET FOREIGN_KEY_CHECKS = 0",
            "START TRANSACTION",
            "SET FOREIGN_KEY_CHECKS = 1",
        ]
    );
    match phase {
        ExecPhase::Failed { error } => assert_eq!(error, "cannot begin"),
        other => panic!("not failed: {}", phase_name(&other)),
    }
}

#[test]
fn unwind_keeps_the_first_error() {
    let req = request(
        "DELETE FROM t",
        None,
        QueryOptions { rollback: true, disable_fk_checks: true },
    );
    let replies = vec![
        DriverReply::Borrowed,
        DriverReply::Ran,
        DriverReply::Ran,
        DriverReply::Failed("bad statement".to_string()),
        DriverReply::Failed("rollback also failed".to_string()),
        DriverReply::Ran,
    ];
    let (issued, phase) = run_to_completion(req, replies);
    assert_eq!(issued.last().unwrap(), "SET FOREIGN_KEY_CHECKS = 1");
    match phase {
        ExecPhase::Failed { error } => assert_eq!(error, "SQL Error: bad statement"),
        other => panic!("not failed: {}", phase_name(&other)),
    }
}

#[test]
fn fetch_failure_unwinds_without_prefix() {
    let req = request(
        "SELECT * FROM t",
        None,
        QueryOptions { rollback: true, disable_fk_checks: false },
    );
    let replies = vec![
        DriverReply::Borrowed,
        DriverReply::Ran,
        DriverReply::Dispatched { columns: vec!["a".to_string()], affected_rows: 0, last_insert_id: 0 },
        DriverReply::Failed("connection dropped".to_string()),
        DriverReply::Ran,
    ];
    let (issued, phase) = run_to_completion(req, replies);
    assert_eq!(issued.last().unwrap(), "ROLLBACK");
    match phase {
        ExecPhase::Failed { error } => assert_eq!(error, "connection dropped"),
        other => panic!("not failed: {}", phase_name(&other)),
    }
}

#[test]
fn cleanup_failure_on_success_path_is_propagated() {
    let req = request(
        "DELETE FROM t",
        None,
        QueryOptions { rollback: true, disable_fk_checks: false },
    );
    let replies = vec![
        DriverReply::Borrowed,
        DriverReply::Ran,
        DriverReply::Dispatched { columns: vec![], affected_rows: 2, last_insert_id: 0 },
        DriverReply::Rows { raw: vec![], elapsed_ms: 1 },
        DriverReply::Failed("rollback refused".to_string()),
    ];
    let (_issued, phase) = run_to_completion(req, replies);
    match phase {
        ExecPhase::Failed { error } => assert_eq!(error, "rollback refused"),
        other => panic!("not failed: {}", phase_name(&other)),
    }
}
