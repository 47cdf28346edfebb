use justice_server::controllers::chats::{
    chat_members, fanout_targets, get_chats, merge_ids, new_chat, remove_chat, validate_chat,
};
use justice_server::controllers::messages::check_chat_access;
use justice_server::error::{ErrorKind, Field, RepositoryError};
use justice_server::ids::{ChatId, UserId};
use justice_server::models::chats::{ChatTitle, NewChatRequest};
use justice_server::repositories::chats::MemoryChats;
use justice_server::services::trace::TraceId;

fn trace() -> TraceId {
    TraceId::from_string("trace".to_string())
}

fn ids(v: &[i32]) -> Vec<UserId> {
    v.iter().map(|i| UserId::new(*i)).collect()
}

#[test]
fn test_check_chat_access_ok() {
    let fetched = Ok(vec![ChatId::new(1), ChatId::new(2), ChatId::new(3)]);
    assert!(check_chat_access(&fetched, ChatId::new(2)));
}

#[test]
fn test_check_chat_access_fail() {
    let fetched = Ok(vec![ChatId::new(1), ChatId::new(2), ChatId::new(3)]);
    assert!(!check_chat_access(&fetched, ChatId::new(4)));
}

#[test]
fn access_check_fails_closed() {
    let fetched: Result<Vec<ChatId>, RepositoryError> = Err(RepositoryError::Unknown("down".to_string()));
    assert!(!check_chat_access(&fetched, ChatId::new(1)));
}

#[test]
fn title_rules() {
    assert_eq!(ChatTitle::new(String::new()).validate(), vec!["Title is empty".to_string()]);
    assert_eq!(ChatTitle::new("t".repeat(51)).validate(), vec!["Title is too long".to_string()]);
    assert!(ChatTitle::new("t".repeat(50)).validate().is_empty());
    assert!(validate_chat(&ChatTitle::new("ok".to_string())).is_empty());
    assert!(validate_chat(&ChatTitle::new(String::new())).contains_key(Field::Title));
}

#[test]
fn members_of_a_new_chat() {
    assert_eq!(merge_ids(UserId::new(1), ids(&[2, 3])), ids(&[1, 2, 3]));
    assert_eq!(chat_members(UserId::new(1), None), ids(&[1]));
    assert_eq!(chat_members(UserId::new(1), Some(vec![])), ids(&[1]));
    assert_eq!(chat_members(UserId::new(1), Some(ids(&[4]))), ids(&[1, 4]));
}

#[test]
fn fanout_excludes_actor() {
    let targets = fanout_targets(&ids(&[1, 2, 3]), UserId::new(1));
    assert_eq!(targets, ids(&[2, 3]));
    let targets = fanout_targets(&ids(&[2, 1, 2, 3, 1]), UserId::new(1));
    assert_eq!(targets, ids(&[2, 3]));
    assert!(fanout_targets(&ids(&[1]), UserId::new(1)).is_empty());
}

#[test]
fn membership_follows_creation_and_removal() {
    let mut chats = MemoryChats::new();
    let title = ChatTitle::new("team".to_string());
    let c = chats.create_chat(&title, &ids(&[1, 2, 2])).unwrap();
    let other = chats.create_chat(&title, &ids(&[3])).unwrap();
    assert_ne!(c, other);
    assert!(chats.is_member(UserId::new(1), c));
    assert!(chats.is_member(UserId::new(2), c));
    assert!(!chats.is_member(UserId::new(3), c));
    assert_eq!(chats.get_chat_members(c), ids(&[1, 2]));
    assert_eq!(chats.get_user_chats_ids(UserId::new(3)), vec![other]);
    chats.remove_chat(c);
    assert!(!chats.is_member(UserId::new(1), c));
    assert!(chats.get_chat_members(c).is_empty());
    assert!(chats.is_member(UserId::new(3), other));
    assert!(!chats.is_member(UserId::new(1), ChatId::new(99)));
}

#[test]
fn new_chat_names_recipients() {
    let mut chats = MemoryChats::new();
    let request = NewChatRequest { title: ChatTitle::new("t".to_string()), users_ids: Some(ids(&[2, 3])) };
    let created = new_chat(&mut chats, UserId::new(1), request, &trace()).unwrap();
    assert_eq!(created.members, ids(&[1, 2, 3]));
    assert_eq!(created.recipients, ids(&[2, 3]));
    let listed = get_chats(&chats, UserId::new(3));
    assert_eq!(listed.0.len(), 1);
    assert_eq!(listed.0[0].id, created.response.chat_id);
    assert_eq!(listed.0[0].title.as_str(), "t");
    let bad = NewChatRequest { title: ChatTitle::new(String::new()), users_ids: None };
    assert_eq!(new_chat(&mut chats, UserId::new(1), bad, &trace()).err().unwrap().kind(), ErrorKind::Validation);
}

#[test]
fn only_members_remove_a_chat() {
    let mut chats = MemoryChats::new();
    let c = chats.create_chat(&ChatTitle::new("t".to_string()), &ids(&[1])).unwrap();
    assert_eq!(remove_chat(&mut chats, UserId::new(2), c, &trace()).unwrap_err().kind(), ErrorKind::Forbidden);
    assert!(remove_chat(&mut chats, UserId::new(1), c, &trace()).is_ok());
    assert_eq!(remove_chat(&mut chats, UserId::new(1), c, &trace()).unwrap_err().kind(), ErrorKind::Forbidden);
}
