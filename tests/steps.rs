use justice_server::controllers::chats::{check_new_chat, created_chat, listed_chats, removed_chat};
use justice_server::controllers::messages::{
    access_check, check_message, message_recipients, page_result, require_access, stored_message, AccessCheck,
};
use justice_server::controllers::search::check_search;
use justice_server::controllers::users::check_registration;
use justice_server::error::{ApiError, ErrorKind, RepositoryError};
use justice_server::ids::{ChatId, MessageId, UserId};
use justice_server::models::chats::ChatTitle;
use justice_server::models::messages::{Message, MessageContent, NewMessageRequest};
use justice_server::models::search::SearchUsersQuery;
use justice_server::models::users::{LoginUserRequest, Password, Username};
use justice_server::services::trace::TraceId;

fn trace() -> TraceId {
    TraceId::from_string("t-1".to_string())
}

fn carries(e: &ApiError, kind: ErrorKind) -> bool {
    let t = match e {
        ApiError::Unknown { trace_id }
        | ApiError::Conflict { trace_id }
        | ApiError::NotFound { trace_id }
        | ApiError::Unauthorized { trace_id }
        | ApiError::Forbidden { trace_id }
        | ApiError::Validation { trace_id, .. } => trace_id.as_str().to_string(),
        ApiError::Internal => String::new(),
    };
    e.kind() == kind && t == "t-1"
}

fn failure() -> RepositoryError {
    RepositoryError::Unknown("down".to_string())
}

fn message(id: i64) -> Message {
    Message { id: MessageId::new(id), content: "x".to_string(), chat_id: ChatId::new(1), sender_id: None, created_at: 0 }
}

#[test]
fn access_check_tells_storage_failure_apart() {
    let ids = Ok(vec![ChatId::new(1)]);
    assert_eq!(access_check(&ids, ChatId::new(1)), AccessCheck::Member);
    assert_eq!(access_check(&ids, ChatId::new(2)), AccessCheck::NotMember);
    assert_eq!(access_check(&Err(failure()), ChatId::new(1)), AccessCheck::StorageFailure);
    assert!(require_access(AccessCheck::Member, &trace()).is_ok());
    assert!(carries(&require_access(AccessCheck::NotMember, &trace()).unwrap_err(), ErrorKind::Forbidden));
    assert!(carries(&require_access(AccessCheck::StorageFailure, &trace()).unwrap_err(), ErrorKind::Forbidden));
}

#[test]
fn message_steps() {
    let ok = NewMessageRequest { content: MessageContent::new("hi".to_string()) };
    let empty = NewMessageRequest { content: MessageContent::new(" ".to_string()) };
    assert!(check_message(AccessCheck::Member, &ok, &trace()).is_ok());
    assert!(carries(&check_message(AccessCheck::Member, &empty, &trace()).unwrap_err(), ErrorKind::Validation));
    assert!(carries(&check_message(AccessCheck::NotMember, &ok, &trace()).unwrap_err(), ErrorKind::Forbidden));
    assert_eq!(stored_message(Ok(message(4)), &trace()).unwrap().id, MessageId::new(4));
    assert!(carries(&stored_message(Err(failure()), &trace()).unwrap_err(), ErrorKind::Unknown));
    let members = Ok(vec![UserId::new(1), UserId::new(2), UserId::new(3)]);
    assert_eq!(message_recipients(&members, UserId::new(2)), vec![UserId::new(1), UserId::new(3)]);
    assert!(message_recipients(&Err(failure()), UserId::new(2)).is_empty());
}

#[test]
fn page_steps() {
    let page = page_result(Ok(vec![message(3), message(2), message(1)]), 2, &trace()).unwrap();
    assert_eq!(page.messages.len(), 2);
    assert!(page.has_more);
    assert!(carries(&page_result(Err(failure()), 2, &trace()).unwrap_err(), ErrorKind::Unknown));
}

#[test]
fn chat_steps() {
    assert!(check_new_chat(&ChatTitle::new("t".to_string()), &trace()).is_ok());
    assert!(carries(&check_new_chat(&ChatTitle::new(String::new()), &trace()).unwrap_err(), ErrorKind::Validation));
    let members = vec![UserId::new(1), UserId::new(2)];
    let created = created_chat(Ok(ChatId::new(9)), UserId::new(1), members, &trace()).unwrap();
    assert_eq!(created.response.chat_id, ChatId::new(9));
    assert_eq!(created.recipients, vec![UserId::new(2)]);
    let failed = created_chat(Err(failure()), UserId::new(1), vec![UserId::new(1)], &trace());
    assert!(carries(&failed.err().unwrap(), ErrorKind::Unknown));
    assert!(removed_chat(Ok(()), &trace()).is_ok());
    assert!(carries(&removed_chat(Err(failure()), &trace()).unwrap_err(), ErrorKind::Unknown));
    assert!(listed_chats(Ok(vec![]), &trace()).is_ok());
    assert!(carries(&listed_chats(Err(failure()), &trace()).err().unwrap(), ErrorKind::Unknown));
}

#[test]
fn registration_and_search_checks() {
    let good = LoginUserRequest {
        username: Username::new("valid_user".to_string()),
        password: Password::new("ValidPass123".to_string()),
    };
    assert!(check_registration(&good, &trace()).is_ok());
    let bad = LoginUserRequest { username: Username::new("".to_string()), password: Password::new("".to_string()) };
    assert!(carries(&check_registration(&bad, &trace()).unwrap_err(), ErrorKind::Validation));
    let query = SearchUsersQuery { username: Username::new("ab".to_string()) };
    assert!(carries(&check_search(&query, &trace()).unwrap_err(), ErrorKind::Validation));
    let query = SearchUsersQuery { username: Username::new("abc".to_string()) };
    assert!(check_search(&query, &trace()).is_ok());
}
