use dynatrace_problem_forwarder::error::{ForwarderError, StoreError};
use dynatrace_problem_forwarder::storage::database::Database;
use dynatrace_problem_forwarder::storage::models::{ForwardHistory, ForwardedProblem};

fn row(id: &str, status: &str) -> ForwardedProblem {
    ForwardedProblem::new_at(
        id.to_string(),
        status.to_string(),
        Some("AVAILABILITY".to_string()),
        format!("title of {}", id),
        1_000,
    )
}

fn entry(id: &str, status: &str) -> ForwardHistory {
    let code = if status == "success" { Some(200) } else { None };
    let error = if status == "success" { None } else { Some("boom".to_string()) };
    ForwardHistory::new_at(id.to_string(), "hook".to_string(), status.to_string(), code, error, 2_000)
}

#[test]
fn new_store_is_empty() {
    let db = Database::new();
    assert!(db.get_problem("PRB-1").is_none());
    let stats = db.get_stats();
    assert_eq!(stats.total_problems, 0);
    assert_eq!(stats.total_forwards, 0);
    assert!(db.problems().is_empty());
    assert!(db.history().is_empty());
}

#[test]
fn insert_then_lookup_returns_the_row() {
    let mut db = Database::new();
    assert_eq!(db.insert_problem(&row("PRB-1", "OPEN")), Ok(1));
    assert_eq!(db.insert_problem(&row("PRB-2", "CLOSED")), Ok(2));
    let found = db.get_problem("PRB-1").expect("the problem is known");
    assert_eq!(found.id, Some(1));
    assert_eq!(found.problem_id, "PRB-1");
    assert_eq!(found.status, "OPEN");
    assert_eq!(found.severity_level.as_deref(), Some("AVAILABILITY"));
    assert_eq!(found.title, "title of PRB-1");
    assert_eq!(found.forward_count, 1);
    assert_eq!(found.first_seen_at, 1_000);
    assert_eq!(found.last_forwarded_at, 1_000);
    assert_eq!(found.last_status_change_at, 1_000);
    assert!(db.get_problem("PRB-3").is_none());
}

#[test]
fn insert_of_a_tracked_problem_is_a_conflict() {
    let mut db = Database::new();
    db.insert_problem(&row("PRB-1", "OPEN")).unwrap();
    assert_eq!(
        db.insert_problem(&row("PRB-1", "CLOSED")),
        Err(ForwarderError::Database(StoreError::Conflict))
    );
    assert_eq!(db.get_problem("PRB-1").unwrap().status, "OPEN");
    assert_eq!(db.problems().len(), 1);
}

#[test]
fn update_status_counts_one_more_forward() {
    let mut db = Database::new();
    db.insert_problem(&row("PRB-1", "OPEN")).unwrap();
    assert_eq!(db.update_problem_status_at("PRB-1", "RESOLVED", 5_000), Ok(()));
    let found = db.get_problem("PRB-1").unwrap();
    assert_eq!(found.status, "RESOLVED");
    assert_eq!(found.forward_count, 2);
    assert_eq!(found.first_seen_at, 1_000);
    assert_eq!(found.created_at, 1_000);
    assert_eq!(found.last_forwarded_at, 5_000);
    assert_eq!(found.last_status_change_at, 5_000);
    assert_eq!(found.updated_at, 5_000);
    assert_eq!(found.id, Some(1));
}

#[test]
fn update_status_of_an_unknown_problem_is_not_found() {
    let mut db = Database::new();
    assert_eq!(
        db.update_problem_status_at("PRB-9", "OPEN", 1),
        Err(ForwarderError::Database(StoreError::NotFound))
    );
    assert_eq!(
        db.update_problem_status("PRB-9", "OPEN"),
        Err(ForwarderError::Database(StoreError::NotFound))
    );
    assert_eq!(
        db.update_last_forwarded("PRB-9"),
        Err(ForwarderError::Database(StoreError::NotFound))
    );
}

#[test]
fn update_status_refuses_a_counter_at_its_limit() {
    let mut db = Database::new();
    let mut full = row("PRB-1", "OPEN");
    full.forward_count = i32::MAX;
    db.insert_problem(&full).unwrap();
    assert_eq!(
        db.update_problem_status_at("PRB-1", "CLOSED", 9),
        Err(ForwarderError::Database(StoreError::Exhausted))
    );
    assert_eq!(db.get_problem("PRB-1").unwrap().status, "OPEN");
}

#[test]
fn update_last_forwarded_keeps_the_status() {
    let mut db = Database::new();
    db.insert_problem(&row("PRB-1", "OPEN")).unwrap();
    assert_eq!(db.update_last_forwarded_at("PRB-1", 7_000), Ok(()));
    let found = db.get_problem("PRB-1").unwrap();
    assert_eq!(found.status, "OPEN");
    assert_eq!(found.forward_count, 2);
    assert_eq!(found.last_forwarded_at, 7_000);
    assert_eq!(found.last_status_change_at, 1_000);
    assert_eq!(found.updated_at, 7_000);
}

#[test]
fn update_with_the_clock_sets_one_timestamp() {
    let mut db = Database::new();
    db.insert_problem(&row("PRB-1", "OPEN")).unwrap();
    db.update_problem_status("PRB-1", "CLOSED").unwrap();
    let found = db.get_problem("PRB-1").unwrap();
    assert_eq!(found.status, "CLOSED");
    assert_eq!(found.forward_count, 2);
    assert_eq!(found.last_forwarded_at, found.last_status_change_at);
    assert_eq!(found.last_forwarded_at, found.updated_at);
    assert!(found.updated_at > 1_600_000_000);
}

#[test]
fn history_is_appended_in_order() {
    let mut db = Database::new();
    assert_eq!(db.insert_forward_history(&entry("PRB-1", "success")), Ok(1));
    assert_eq!(db.insert_forward_history(&entry("PRB-1", "failed")), Ok(2));
    db.record_history(&entry("PRB-2", "success"));
    let ledger = db.history();
    assert_eq!(ledger.len(), 3);
    assert_eq!(ledger[0].id, Some(1));
    assert_eq!(ledger[1].status, "failed");
    assert_eq!(ledger[1].error_message.as_deref(), Some("boom"));
    assert_eq!(ledger[2].problem_id, "PRB-2");
    assert_eq!(ledger[2].id, Some(3));
    assert_eq!(ledger[2].response_code, Some(200));
    assert_eq!(ledger[2].forwarded_at, 2_000);
}

#[test]
fn stats_count_problems_and_deliveries() {
    let mut db = Database::new();
    db.insert_problem(&row("PRB-1", "OPEN")).unwrap();
    db.insert_problem(&row("PRB-2", "CLOSED")).unwrap();
    db.insert_problem(&row("PRB-3", "OPEN")).unwrap();
    db.insert_problem(&row("PRB-4", "RESOLVED")).unwrap();
    db.record_history(&entry("PRB-1", "success"));
    db.record_history(&entry("PRB-1", "failed"));
    db.record_history(&entry("PRB-2", "success"));
    db.record_history(&entry("PRB-3", "pending"));
    let stats = db.get_stats();
    assert_eq!(stats.total_problems, 4);
    assert_eq!(stats.open_problems, 2);
    assert_eq!(stats.closed_problems, 2);
    assert_eq!(stats.total_forwards, 4);
    assert_eq!(stats.successful_forwards, 2);
    assert_eq!(stats.failed_forwards, 1);
}

#[test]
fn clear_removes_problems_and_keeps_history() {
    let mut db = Database::new();
    db.insert_problem(&row("PRB-1", "OPEN")).unwrap();
    db.insert_problem(&row("PRB-2", "OPEN")).unwrap();
    db.record_history(&entry("PRB-1", "success"));
    assert_eq!(db.clear_all_problems(), 2);
    assert!(db.get_problem("PRB-1").is_none());
    assert!(db.get_problem("PRB-2").is_none());
    assert_eq!(db.history().len(), 1);
    let stats = db.get_stats();
    assert_eq!(stats.total_problems, 0);
    assert_eq!(stats.total_forwards, 1);
    assert_eq!(db.clear_all_problems(), 0);
    assert_eq!(db.insert_problem(&row("PRB-1", "OPEN")), Ok(3));
}

#[test]
fn new_rows_read_the_clock_once() {
    let problem = ForwardedProblem::new("PRB-1".into(), "OPEN".into(), None, "t".into());
    assert_eq!(problem.id, None);
    assert_eq!(problem.forward_count, 1);
    assert_eq!(problem.first_seen_at, problem.last_forwarded_at);
    assert_eq!(problem.first_seen_at, problem.last_status_change_at);
    assert_eq!(problem.first_seen_at, problem.created_at);
    assert_eq!(problem.first_seen_at, problem.updated_at);
    assert!(problem.first_seen_at > 1_600_000_000);
    let attempt = ForwardHistory::new("PRB-1".into(), "hook".into(), "success".into(), Some(204), None);
    assert_eq!(attempt.id, None);
    assert_eq!(attempt.response_code, Some(204));
    assert!(attempt.forwarded_at > 1_600_000_000);
}
