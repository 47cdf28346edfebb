use justice_server::error::{ApiError, ErrorKind, RepositoryError};
use justice_server::ids::UserId;
use justice_server::models::users::{LoginUserRequest, Password, User, Username};
use justice_server::controllers::users::register_user;
use justice_server::random::SmallRandom;
use justice_server::repositories::sessions::MemorySessions;
use justice_server::repositories::users::MemoryUsers;
use justice_server::services::auth::{auth_from_lookup, authenticate, session_token, unauthorized};
use justice_server::services::trace::TraceId;

fn trace() -> TraceId {
    TraceId::from_string("trace".to_string())
}

fn clears_cookie(e: &ApiError) -> bool {
    matches!(e, ApiError::Unauthorized { trace_id } if trace_id.as_str() == "trace")
        && e.status() == 401
        && e.headers().contains(&("Set-Cookie".to_string(), "session=_; Max-Age=0".to_string()))
}

#[test]
fn token_from_cookie_header() {
    assert_eq!(session_token(&vec!["session=abc".to_string()]), Some("abc".to_string()));
    assert_eq!(session_token(&vec!["theme=dark; session=xyz".to_string()]), Some("xyz".to_string()));
    assert_eq!(
        session_token(&vec!["theme=dark".to_string(), "session=second".to_string()]),
        Some("second".to_string())
    );
    assert_eq!(session_token(&vec!["theme=dark".to_string()]), None);
    assert_eq!(session_token(&vec![]), None);
    assert_eq!(session_token(&vec!["sessions=nope".to_string()]), None);
}

#[test]
fn requests_without_valid_session_are_unauthorized() {
    let mut users = MemoryUsers::new();
    let mut sessions = MemorySessions::new();
    let creds = LoginUserRequest {
        username: Username::new("alice".to_string()),
        password: Password::new("password1".to_string()),
    };
    let reg = register_user(&mut SmallRandom::new(1), &mut users, &mut sessions, &creds, 0, &vec!["tok".to_string()], &trace()).unwrap();
    let t = trace();
    let none = authenticate(&users, &sessions, &vec![], Some(&t), 1).unwrap_err();
    assert!(clears_cookie(&none));
    let forged = authenticate(&users, &sessions, &vec!["session=forged".to_string()], Some(&t), 1).unwrap_err();
    assert!(clears_cookie(&forged));
    let header = format!("session={}", reg.session);
    let expired = authenticate(&users, &sessions, &vec![header.clone()], Some(&t), i64::MAX).unwrap_err();
    assert!(clears_cookie(&expired));
    let ok = authenticate(&users, &sessions, &vec![header.clone()], Some(&t), 1).unwrap();
    assert_eq!(ok.user.id, reg.user_id);
    assert_eq!(ok.session, reg.session);
    let no_trace = authenticate(&users, &sessions, &vec![header], None, 1).unwrap_err();
    assert_eq!(no_trace.kind(), ErrorKind::Internal);
}

#[test]
fn failed_lookup_is_unauthorized() {
    let e = auth_from_lookup("t".to_string(), Err(RepositoryError::NotFound), &trace()).unwrap_err();
    assert!(clears_cookie(&e));
    let user = User { id: UserId::new(4), username: "bob".to_string(), password: "h".to_string(), created_at: 0 };
    let ok = auth_from_lookup("t".to_string(), Ok(user), &trace()).unwrap();
    assert_eq!(ok.user.id, UserId::new(4));
    assert!(clears_cookie(&unauthorized(&trace())));
}

#[test]
fn error_statuses_and_tags() {
    let t = trace();
    let cases = vec![
        (ApiError::Unknown { trace_id: t.clone() }, 500, "Unknown"),
        (ApiError::Internal, 500, "Internal"),
        (ApiError::Conflict { trace_id: t.clone() }, 409, "Conflict"),
        (ApiError::NotFound { trace_id: t.clone() }, 404, "NotFound"),
        (ApiError::Unauthorized { trace_id: t.clone() }, 401, "Unauthorized"),
        (ApiError::Forbidden { trace_id: t.clone() }, 403, "Forbidden"),
    ];
    for (e, status, tag) in cases {
        assert_eq!(e.status(), status);
        assert_eq!(e.type_tag(), tag);
        assert_eq!(e.headers().is_empty(), tag != "Unauthorized");
    }
    let v = ApiError::Validation { fields: justice_server::error::FieldErrors::new(), trace_id: t };
    assert_eq!(v.status(), 400);
}

#[test]
fn storage_errors_are_classified() {
    assert!(matches!(RepositoryError::from_database(true, false, String::new()), RepositoryError::Conflict));
    assert!(matches!(RepositoryError::from_database(false, true, String::new()), RepositoryError::NotFound));
    assert!(matches!(
        RepositoryError::from_database(false, false, "boom".to_string()),
        RepositoryError::Unknown(ref s) if s == "boom"
    ));
}
