use justice_server::error::{ErrorKind, RepositoryError};
use justice_server::ids::UserId;
use justice_server::repositories::sessions::MemorySessions;
use justice_server::services::session::{
    cleanup_sweep, create_session, delete_session, next_issue_step,
    session_expiry, validate_session, IssueStep, SESSION_ATTEMPTS,
};
use justice_server::services::trace::{uid_from_parts, TraceId};

fn trace() -> TraceId {
    TraceId::from_string("trace".to_string())
}

fn draws(tokens: &[&str]) -> Vec<String> {
    tokens.iter().map(|t| t.to_string()).collect()
}

#[test]
fn test_create_session_ok() {
    let mut sessions = MemorySessions::new();
    let result = create_session(&mut sessions, UserId::new(1), 0, &draws(&["tok"]), &trace());
    let token = result.unwrap();
    assert_eq!(token, "tok");
    assert_eq!(validate_session(&sessions, &token, 1, &trace()).unwrap(), UserId::new(1));
}

#[test]
fn test_create_session_conflict() {
    let mut sessions = MemorySessions::new();
    let taken = draws(&["a", "b", "c", "d", "e"]);
    for t in &taken {
        sessions.insert(t.clone(), UserId::new(9), 100).unwrap();
    }
    let result = create_session(&mut sessions, UserId::new(1), 0, &taken, &trace());
    assert_eq!(result.unwrap_err().kind(), ErrorKind::Conflict);
}

#[test]
fn test_create_session_unknown() {
    let outcome = Err(RepositoryError::Unknown("unknown sqlx error".to_string()));
    assert_eq!(next_issue_step(0, &outcome), IssueStep::Fail(ErrorKind::Unknown));
}

#[test]
fn issue_steps() {
    assert_eq!(next_issue_step(0, &Ok(())), IssueStep::Accept);
    assert_eq!(next_issue_step(0, &Err(RepositoryError::Conflict)), IssueStep::Retry);
    assert_eq!(next_issue_step(3, &Err(RepositoryError::Conflict)), IssueStep::Retry);
    assert_eq!(
        next_issue_step(SESSION_ATTEMPTS - 1, &Err(RepositoryError::Conflict)),
        IssueStep::Fail(ErrorKind::Conflict)
    );
    assert_eq!(next_issue_step(1, &Err(RepositoryError::NotFound)), IssueStep::Fail(ErrorKind::Unknown));
}

#[test]
fn same_draw_is_not_issued_twice() {
    let mut sessions = MemorySessions::new();
    let first = create_session(&mut sessions, UserId::new(1), 0, &draws(&["dup", "x"]), &trace()).unwrap();
    assert_eq!(first, "dup");
    let second = create_session(&mut sessions, UserId::new(2), 0, &draws(&["dup", "fresh"]), &trace()).unwrap();
    assert_eq!(second, "fresh");
    assert_eq!(validate_session(&sessions, &"dup".to_string(), 1, &trace()).unwrap(), UserId::new(1));
    assert_eq!(validate_session(&sessions, &"fresh".to_string(), 1, &trace()).unwrap(), UserId::new(2));
}

#[test]
fn retries_stop_after_the_bound() {
    let mut sessions = MemorySessions::new();
    for t in ["a", "b", "c", "d", "e"] {
        sessions.insert(t.to_string(), UserId::new(9), 100).unwrap();
    }
    let sixth_free = draws(&["a", "b", "c", "d", "e", "f"]);
    let result = create_session(&mut sessions, UserId::new(1), 0, &sixth_free, &trace());
    assert_eq!(result.unwrap_err().kind(), ErrorKind::Conflict);
    let fifth_free = draws(&["a", "b", "c", "d", "z"]);
    let result = create_session(&mut sessions, UserId::new(1), 0, &fifth_free, &trace());
    assert_eq!(result.unwrap(), "z");
}

#[test]
fn expired_and_missing_sessions_look_the_same() {
    let mut sessions = MemorySessions::new();
    sessions.insert("old".to_string(), UserId::new(1), 50).unwrap();
    let expired = validate_session(&sessions, &"old".to_string(), 50, &trace());
    let missing = validate_session(&sessions, &"nope".to_string(), 50, &trace());
    assert_eq!(expired.unwrap_err().kind(), ErrorKind::NotFound);
    assert_eq!(missing.unwrap_err().kind(), ErrorKind::NotFound);
    assert!(validate_session(&sessions, &"old".to_string(), 49, &trace()).is_ok());
}

#[test]
fn delete_is_idempotent() {
    let mut sessions = MemorySessions::new();
    sessions.insert("t".to_string(), UserId::new(1), 50).unwrap();
    delete_session(&mut sessions, &"t".to_string());
    delete_session(&mut sessions, &"t".to_string());
    assert!(validate_session(&sessions, &"t".to_string(), 0, &trace()).is_err());
}

#[test]
fn cleanup_removes_only_expired() {
    let mut sessions = MemorySessions::new();
    sessions.insert("a".to_string(), UserId::new(1), 10).unwrap();
    sessions.insert("b".to_string(), UserId::new(2), 20).unwrap();
    sessions.insert("c".to_string(), UserId::new(3), 30).unwrap();
    assert_eq!(cleanup_sweep(&mut sessions, 20), 1);
    assert!(validate_session(&sessions, &"b".to_string(), 19, &trace()).is_ok());
    assert!(validate_session(&sessions, &"c".to_string(), 19, &trace()).is_ok());
    assert_eq!(cleanup_sweep(&mut sessions, 20), 0);
    assert_eq!(cleanup_sweep(&mut sessions, 100), 2);
}

#[test]
fn expiry_is_seven_days_and_saturates() {
    assert_eq!(session_expiry(1000), 1000 + 604800);
    assert_eq!(session_expiry(i64::MAX - 1), i64::MAX);
}

#[test]
fn trace_ids_are_short_and_fresh() {
    let a = TraceId::new(1_700_000_000_000, 5);
    let b = TraceId::new(1_700_000_000_000, 6);
    assert_eq!(a.as_str().len(), 11);
    assert_ne!(a.as_str(), b.as_str());
    assert_eq!(TraceId::new(0, 0).as_str(), "AAAAAAAAAAA");
    assert_eq!(uid_from_parts(0, 1), "AAAAAAAAAAE");
}

#[test]
fn empty_store_always_issues() {
    let mut sessions = MemorySessions::new();
    let token = create_session(&mut sessions, UserId::new(3), 10, &draws(&["only"]), &trace()).unwrap();
    assert_eq!(token, "only");
    let none: Vec<String> = Vec::new();
    let err = create_session(&mut sessions, UserId::new(3), 10, &none, &trace()).unwrap_err();
    assert_eq!(err.kind(), ErrorKind::Conflict);
}
