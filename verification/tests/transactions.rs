use pattern_database::error::Error;
use pattern_database::ids::{DatabaseId, EventID, PatternID};
use pattern_database::pipeline::{
    add_pipeline_dictionary, delete_pipeline, insert_pipeline_config, insert_pipeline_state, load_pipeline_config,
    load_pipeline_detector, load_pipeline_state, update_pipeline_config, update_pipeline_state, PipelineConfig,
    PipelineState,
};
use pattern_database::queue::events::{event_dequeued, event_marked, mark_event_processed, store_events};
use pattern_database::queue::patterns::{mark_pattern_processed, pattern_dequeued, pattern_marked};
use pattern_database::resolution::Spline;
use pattern_database::event::Event;
use pattern_database::sql::{statement, SqlValue};
use pattern_database::store::dictionaries::{after_insert, after_update, StoreAction};
use pattern_database::time::Timestamp;
use pattern_database::transaction::{
    after_begin, after_commit, after_last_step, after_rollback, after_statement, base_delay, concurrent_settings,
    connect_failure, first_action, in_transactions, jittered, lookup_retry, release_wait, reopened_settings,
    rolling_back, step, wal_settings, Action, BeginAction, BeginMode, FileState, LookupStage, OnFailure, Step,
};

fn steps() -> Vec<Step> {
    vec![
        rolling_back("A", Vec::new(), "a failed: "),
        step(statement("B", Vec::new()), "b failed: ", OnFailure::Leave),
        step(statement("C", Vec::new()), "c failed: ", OnFailure::Tell),
    ]
}

/// What is done in a transaction of which a step fails.
fn done(failing: Option<usize>) -> Vec<String> {
    let steps = steps();
    let mut log = Vec::new();
    let mut action = first_action(&steps);
    loop {
        match action {
            Action::Execute(i) => {
                log.push(steps[i].statement.sql.clone());
                let outcome = if failing == Some(i) { Err("no".to_string()) } else { Ok(1) };
                action = after_statement(&steps, i, outcome);
            }
            Action::Commit => {
                log.push("commit".to_string());
                return log;
            }
            Action::RollBack(message) => {
                log.push(format!("rollback: {message}"));
                return log;
            }
            Action::Fail(e) => {
                log.push(format!("fail: {}", e.message()));
                return log;
            }
        }
    }
}

#[test]
fn a_transaction_is_committed_only_where_every_step_succeeds() {
    assert_eq!(done(None), vec!["A", "B", "C", "commit"]);
    assert_eq!(done(Some(0)), vec!["A", "rollback: a failed: no"]);
    assert_eq!(done(Some(1)), vec!["A", "B", "fail: Database error: b failed: no"]);
    assert_eq!(done(Some(2)), vec!["A", "B", "C", "fail: c failed: no"]);
    assert!(matches!(first_action(&Vec::new()), Action::Commit));
    assert!(matches!(after_last_step(Some(Error::Message("x".to_string()))), Action::Fail(_)));
    assert!(matches!(after_last_step(None), Action::Commit));
}

#[test]
fn a_failed_rollback_is_told_unless_it_is_quiet() {
    let told = |mode| after_rollback(mode, "a failed".to_string(), Err("stuck".to_string())).message();
    assert_eq!(told(OnFailure::RollBack), "Rollback failed: stuck");
    assert_eq!(told(OnFailure::RollBackQuietly), "a failed");
    assert_eq!(after_rollback(OnFailure::RollBack, "a failed".to_string(), Ok(())).message(), "a failed");
    assert!(after_commit(false, Err("x".to_string())).is_ok());
    assert_eq!(after_commit(true, Err("x".to_string())).unwrap_err().message(), "x");
}

#[test]
fn steps_are_cut_into_transactions() {
    let many: Vec<Step> = (0..5).map(|i| rolling_back(&format!("S{i}"), Vec::new(), "")).collect();
    let cut = in_transactions(many, 2);
    let sizes: Vec<usize> = cut.iter().map(Vec::len).collect();
    assert_eq!(sizes, vec![2, 2, 1]);
    assert_eq!(cut[2][0].statement.sql, "S4");
}

#[test]
fn waits_grow_up_to_a_limit() {
    let delays: Vec<u64> = (0..8).map(base_delay).collect();
    assert_eq!(delays, vec![10, 20, 40, 80, 160, 320, 500, 500]);
    for _ in 0..100 {
        let wait = jittered(100);
        assert!((100..150).contains(&wait));
    }
    assert!(matches!(after_begin("concurrent", 0, Ok(())), BeginAction::Begun));
    assert!(matches!(after_begin("concurrent", 0, Err("x".to_string())), BeginAction::Retry(20)));
}

#[test]
fn a_transaction_begins_in_the_best_way_there_is() {
    assert_eq!(BeginMode::Concurrent.sql(), "BEGIN CONCURRENT");
    let next = BeginMode::Concurrent.fallback("x".to_string()).unwrap();
    assert_eq!(next, BeginMode::Immediate);
    assert_eq!(next.fallback("x".to_string()).unwrap(), BeginMode::Deferred);
    assert!(BeginMode::Deferred.fallback("x".to_string()).is_err());
    assert_eq!(concurrent_settings().len(), 6);
    assert_eq!(wal_settings()[0], "PRAGMA journal_mode=WAL");
    assert_eq!(wal_settings()[5], "PRAGMA cache_size=-64000");
    assert_eq!(
        reopened_settings(),
        vec!["PRAGMA journal_mode=WAL", "PRAGMA busy_timeout = 30000", "PRAGMA synchronous = NORMAL"]
    );
}

#[test]
fn a_lookup_is_tried_again_where_the_error_passes() {
    assert_eq!(lookup_retry(LookupStage::Query, 1, "Database is LOCKED"), Some(50));
    assert_eq!(lookup_retry(LookupStage::Query, 9, "write conflict"), Some(3200));
    assert_eq!(lookup_retry(LookupStage::Query, 40, "locked"), None);
    assert_eq!(lookup_retry(LookupStage::Query, 1, "no such table"), None);
    assert_eq!(lookup_retry(LookupStage::ConnectForAspect, 3, "busy"), None);
    assert_eq!(lookup_retry(LookupStage::ConnectForSubject, 3, "Busy"), Some(75));
}

#[test]
fn a_connection_is_waited_for() {
    let first = connect_failure(1, 3, "I/O Error");
    assert_eq!(first.wait, Some(2000));
    assert_eq!(first.error.message(), "Retry needed");
    assert_eq!(connect_failure(1, 3, "refused").wait, Some(200));
    let last = connect_failure(3, 3, "refused");
    assert_eq!(last.wait, None);
    assert_eq!(last.error.message(), "Database error: Failed to connect after 3 attempts: refused");
    assert_eq!(release_wait(0, FileState::Denied), Some(100));
    assert_eq!(release_wait(49, FileState::Denied), None);
    assert_eq!(release_wait(0, FileState::Accessible), None);
}

#[test]
fn a_dictionary_is_updated_where_it_is_known() {
    assert!(matches!(after_insert("d", "x", "{}", 1, Ok(1)), StoreAction::Commit));
    match after_insert("d", "x", "{}", 1, Err("UNIQUE constraint failed".to_string())) {
        StoreAction::Execute(s) => assert!(s.sql.starts_with("UPDATE dictionaries")),
        StoreAction::RollBack(message) => assert!(!message.is_empty()),
        StoreAction::Commit => panic!("the insertion failed"),
    }
    assert!(matches!(after_update(Ok(1)), StoreAction::Commit));
    assert!(matches!(after_update(Err("x".to_string())), StoreAction::RollBack(_)));
}

#[test]
fn a_pipeline_is_set_up_and_read() {
    let config = PipelineConfig { spline_method: Spline::Cubic, batch_size: 64 };
    let update = update_pipeline_config(&config, "\"Cubic\"", 5).unwrap();
    assert!(update.statement.sql.starts_with("UPDATE pipeline_config"));
    assert!(insert_pipeline_config(&config, "\"Cubic\"", 5, 1).is_none());
    assert!(insert_pipeline_config(&config, "\"Cubic\"", 5, 0).is_some());
    let read = load_pipeline_config(Ok("\"Cubic\"".to_string()), Ok(64), Ok(Spline::Cubic)).unwrap();
    assert_eq!(read, config);
    assert!(load_pipeline_config(Err("x".to_string()), Ok(64), Ok(Spline::Cubic)).is_err());
    assert!(load_pipeline_config(Ok(String::new()), Ok(-1), Ok(Spline::Cubic)).is_err());
    assert!(!delete_pipeline().is_empty());
}

#[test]
fn the_state_of_a_pipeline_is_kept() {
    let state = PipelineState { last_run: Some(Timestamp { seconds: 9, nanos: 0 }), run_count: 3, version: 1 };
    assert!(update_pipeline_state(&state).is_ok());
    assert!(insert_pipeline_state(&state, 0).is_some());
    assert!(insert_pipeline_state(&state, 1).is_none());
    let endless = PipelineState { run_count: u64::MAX, ..state };
    assert!(update_pipeline_state(&endless).is_err());
    let read = load_pipeline_state(Some(9_000), Ok(3), Ok(1), 1).unwrap();
    assert_eq!(read, state);
    assert!(load_pipeline_state(None, Ok(-3), Ok(1), 1).is_err() || load_pipeline_state(None, Ok(-3), Ok(1), 1).unwrap().last_run.is_none());
    assert!(add_pipeline_dictionary("shapes", true, 1).is_none());
    assert!(add_pipeline_dictionary("shapes", false, 1).is_some());
}

#[test]
fn a_detector_is_read() {
    let detector = load_pipeline_detector(
        Ok("d1".to_string()),
        Ok("peaks".to_string()),
        None,
        Ok("\"Peak\"".to_string()),
        true,
        None,
    )
    .unwrap();
    assert_eq!(detector.detector_id, "d1");
    assert_eq!(detector.detector_type, Some("\"Peak\"".to_string()));
    let custom = load_pipeline_detector(
        Ok("d1".to_string()),
        Ok("peaks".to_string()),
        None,
        Ok("?".to_string()),
        false,
        None,
    )
    .unwrap();
    assert_eq!(custom.detector_type, None);
    assert!(load_pipeline_detector(
        Err("x".to_string()),
        Ok(String::new()),
        None,
        Ok(String::new()),
        true,
        None
    )
    .is_err());
}

#[test]
fn what_was_not_there_cannot_be_marked_or_dequeued() {
    assert!(event_marked(1).is_ok() && event_marked(0).is_err());
    assert!(event_dequeued(1).is_ok() && event_dequeued(0).is_err());
    assert!(pattern_marked(1).is_ok() && pattern_marked(0).is_err());
    assert!(pattern_dequeued(1).is_ok() && pattern_dequeued(0).is_err());
    assert!(matches!(mark_event_processed(&EventID::new(), 7).statement.params[0], SqlValue::Integer(7)));
    assert!(matches!(mark_pattern_processed(&PatternID::new(), 7).statement.params[0], SqlValue::Integer(7)));
}

#[test]
fn events_are_stored_in_several_transactions() {
    let events: Vec<Event> = (0..3).map(|i| Event::new(None, format!("e{i}"), None, None)).collect();
    let texts = vec!["{}".to_string(); 3];
    let transactions = store_events(&events, &DatabaseId::new(), &texts, &vec![1, 2, 3]);
    assert_eq!(transactions.iter().map(Vec::len).sum::<usize>(), 3);
    assert!(transactions[0][0].statement.sql.contains("'processed'"));
}
