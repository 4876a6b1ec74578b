use aegis_ai_runtime::execution_state::state_debug;
use aegis_ai_runtime::{ExecutionState, ExecutionStateManager};

#[test]
fn created_execution_is_pending_and_found() {
    let mut m = ExecutionStateManager::new();
    let id = m.create("log(1)", "default");
    assert!(id.starts_with("exec_"));
    assert!(id["exec_".len()..].chars().all(|c| c.is_ascii_digit()));
    let r = m.get(&id).unwrap();
    assert_eq!(r.id, id);
    assert_eq!(r.code, "log(1)");
    assert_eq!(r.tool, "default");
    assert_eq!(r.state, ExecutionState::Pending);
    assert_eq!(r.result, None);
    assert_eq!(r.created_at, r.updated_at);
    assert!(m.get("exec_unknown").is_none());
}

#[test]
fn state_machine_transitions() {
    let mut m = ExecutionStateManager::new();
    let id = m.create("x", "t");
    assert!(m.pause(&id).is_err());
    m.start(&id).unwrap();
    assert_eq!(m.get(&id).unwrap().state, ExecutionState::Running);
    assert!(m.resume(&id).is_err());
    m.pause(&id).unwrap();
    assert_eq!(m.get(&id).unwrap().state, ExecutionState::Paused);
    m.resume(&id).unwrap();
    assert_eq!(m.get(&id).unwrap().state, ExecutionState::Running);
    m.complete(&id, "42").unwrap();
    let r = m.get(&id).unwrap();
    assert_eq!(r.state, ExecutionState::Completed);
    assert_eq!(r.result, Some("42".to_string()));
    assert_eq!(r.code, "x");
}

#[test]
fn transition_error_messages() {
    let mut m = ExecutionStateManager::new();
    let id = m.create("x", "t");
    assert_eq!(m.pause(&id).unwrap_err(), "Can only pause Running executions, current: Pending");
    assert_eq!(m.resume(&id).unwrap_err(), "Can only resume Paused executions, current: Pending");
    m.fail(&id, "boom \"quoted\"").unwrap();
    assert_eq!(
        m.pause(&id).unwrap_err(),
        "Can only pause Running executions, current: Failed(\"boom \\\"quoted\\\"\")"
    );
    assert_eq!(m.start("nope").unwrap_err(), "Execution not found: nope");
    assert_eq!(m.pause("nope").unwrap_err(), "Execution not found: nope");
    assert_eq!(m.resume("nope").unwrap_err(), "Execution not found: nope");
    assert_eq!(m.complete("nope", "r").unwrap_err(), "Execution not found: nope");
    assert_eq!(m.fail("nope", "e").unwrap_err(), "Execution not found: nope");
}

#[test]
fn fail_records_the_error_and_keeps_result() {
    let mut m = ExecutionStateManager::new();
    let id = m.create("x", "t");
    m.complete(&id, "first").unwrap();
    m.fail(&id, "later").unwrap();
    let r = m.get(&id).unwrap();
    assert_eq!(r.state, ExecutionState::Failed("later".to_string()));
    assert_eq!(r.result, Some("first".to_string()));
    // a finished execution can be started again
    m.start(&id).unwrap();
    assert_eq!(m.get(&id).unwrap().state, ExecutionState::Running);
}

#[test]
fn list_and_count_active() {
    let mut m = ExecutionStateManager::new();
    assert!(m.list().is_empty());
    assert_eq!(m.count_active(), 0);
    let (mut a, mut b) = (m.create("a", "t"), m.create("b", "t"));
    while b == a {
        // same millisecond: the second record replaced the first; start over
        m = ExecutionStateManager::new();
        a = m.create("a", "t");
        b = m.create("b", "t");
    }
    assert_ne!(a, b);
    assert_eq!(m.list().len(), 2);
    assert_eq!(m.count_active(), 2);
    m.complete(&a, "ok").unwrap();
    assert_eq!(m.count_active(), 1);
    m.fail(&b, "no").unwrap();
    assert_eq!(m.count_active(), 0);
    let ids: Vec<String> = m.list().into_iter().map(|r| r.id).collect();
    assert!(ids.contains(&a) && ids.contains(&b));
}

#[test]
fn state_debug_matches_derived_debug() {
    for s in [
        ExecutionState::Pending,
        ExecutionState::Running,
        ExecutionState::Paused,
        ExecutionState::Completed,
        ExecutionState::Failed("a\nb\"c".to_string()),
    ] {
        assert_eq!(state_debug(&s), format!("{:?}", s));
    }
}

#[test]
fn cloned_record_is_equal() {
    let mut m = ExecutionStateManager::new();
    let id = m.create("x", "t");
    let r = m.get(&id).unwrap();
    let c = r.clone();
    assert_eq!(c.id, r.id);
    assert_eq!(c.state, r.state);
    assert_eq!(c.created_at, r.created_at);
}

#[test]
fn create_at_files_the_record_under_the_given_time() {
    let mut m = ExecutionStateManager::new();
    let id = m.create_at("code", "tool", 1725029869123, 1725029869);
    assert_eq!(id, "exec_1725029869123");
    let r = m.get(&id).unwrap();
    assert_eq!((r.created_at, r.updated_at), (1725029869, 1725029869));
    assert_eq!(r.state, ExecutionState::Pending);
    let again = m.create_at("other", "tool", 1725029869123, 1725029870);
    assert_eq!(again, id);
    assert_eq!(m.list().len(), 1);
    assert_eq!(m.get(&id).unwrap().code, "other");
    m.create_at("x", "t", 0, 0);
    assert_eq!(m.get("exec_0").unwrap().code, "x");
}
