use justice_server::controllers::messages::{get_messages, new_message, page_limit, page_of};
use justice_server::error::ErrorKind;
use justice_server::ids::{ChatId, MessageId, UserId};
use justice_server::models::chats::ChatTitle;
use justice_server::models::messages::{MessageContent, NewMessageRequest};
use justice_server::repositories::chats::MemoryChats;
use justice_server::repositories::messages::MemoryMessages;
use justice_server::services::trace::TraceId;

fn trace() -> TraceId {
    TraceId::from_string("trace".to_string())
}

fn setup() -> (MemoryChats, MemoryMessages, ChatId) {
    let mut chats = MemoryChats::new();
    let c = chats
        .create_chat(&ChatTitle::new("t".to_string()), &[UserId::new(1), UserId::new(2), UserId::new(3)])
        .unwrap();
    (chats, MemoryMessages::new(), c)
}

fn send(chats: &MemoryChats, messages: &mut MemoryMessages, from: i32, chat: ChatId, text: &str) -> MessageId {
    let req = NewMessageRequest { content: MessageContent::new(text.to_string()) };
    new_message(chats, messages, UserId::new(from), chat, &req, 0, &trace()).unwrap().message.id
}

#[test]
fn cursor_pages_over_five_messages() {
    let (chats, mut messages, c) = setup();
    let sent: Vec<MessageId> = (0..5).map(|i| send(&chats, &mut messages, 1, c, &format!("m{i}"))).collect();
    let first = get_messages(&chats, &messages, UserId::new(1), c, 2, None, &trace()).unwrap();
    assert_eq!(first.messages.iter().map(|m| m.id).collect::<Vec<_>>(), vec![sent[4], sent[3]]);
    assert!(first.has_more);
    let second = get_messages(&chats, &messages, UserId::new(1), c, 2, Some(sent[3]), &trace()).unwrap();
    assert_eq!(second.messages.iter().map(|m| m.id).collect::<Vec<_>>(), vec![sent[2], sent[1]]);
    assert!(second.has_more);
    let third = get_messages(&chats, &messages, UserId::new(1), c, 2, Some(sent[1]), &trace()).unwrap();
    assert_eq!(third.messages.iter().map(|m| m.id).collect::<Vec<_>>(), vec![sent[0]]);
    assert!(!third.has_more);
    assert_eq!(third.messages[0].content, "m0");
}

#[test]
fn pages_only_hold_the_chat() {
    let (mut chats, mut messages, c) = setup();
    let d = chats.create_chat(&ChatTitle::new("u".to_string()), &[UserId::new(1)]).unwrap();
    send(&chats, &mut messages, 1, c, "in c");
    send(&chats, &mut messages, 1, d, "in d");
    let page = get_messages(&chats, &messages, UserId::new(1), d, 10, None, &trace()).unwrap();
    assert_eq!(page.messages.len(), 1);
    assert_eq!(page.messages[0].content, "in d");
    assert_eq!(page.messages[0].chat_id, d);
    assert_eq!(page.messages[0].sender_id, Some(UserId::new(1)));
}

#[test]
fn page_limits_are_clamped() {
    assert_eq!(page_limit(1000), 100);
    assert_eq!(page_limit(100), 100);
    assert_eq!(page_limit(7), 7);
    assert_eq!(page_limit(-3), 0);
    let (chats, mut messages, c) = setup();
    send(&chats, &mut messages, 1, c, "x");
    let empty = get_messages(&chats, &messages, UserId::new(1), c, 0, None, &trace()).unwrap();
    assert!(empty.messages.is_empty());
    assert!(empty.has_more);
}

#[test]
fn page_of_cuts_extra_message() {
    let (chats, mut messages, c) = setup();
    for i in 0..3 {
        send(&chats, &mut messages, 2, c, &format!("{i}"));
    }
    let fetched = messages.get_messages(c, 3, None);
    let page = page_of(fetched, 2);
    assert_eq!(page.messages.len(), 2);
    assert!(page.has_more);
    let fetched = messages.get_messages(c, 3, None);
    let page = page_of(fetched, 3);
    assert_eq!(page.messages.len(), 3);
    assert!(!page.has_more);
}

#[test]
fn non_members_are_forbidden() {
    let (chats, mut messages, c) = setup();
    let req = NewMessageRequest { content: MessageContent::new("hi".to_string()) };
    let sent = new_message(&chats, &mut messages, UserId::new(7), c, &req, 0, &trace());
    assert_eq!(sent.err().unwrap().kind(), ErrorKind::Forbidden);
    let read = get_messages(&chats, &messages, UserId::new(7), c, 5, None, &trace());
    assert_eq!(read.unwrap_err().kind(), ErrorKind::Forbidden);
    let missing = get_messages(&chats, &messages, UserId::new(1), ChatId::new(77), 5, None, &trace());
    assert_eq!(missing.unwrap_err().kind(), ErrorKind::Forbidden);
}

#[test]
fn empty_message_is_rejected() {
    let (chats, mut messages, c) = setup();
    let req = NewMessageRequest { content: MessageContent::new("   ".to_string()) };
    let sent = new_message(&chats, &mut messages, UserId::new(1), c, &req, 0, &trace());
    assert_eq!(sent.err().unwrap().kind(), ErrorKind::Validation);
}

#[test]
fn message_from_a_reaches_b_and_c() {
    let (chats, mut messages, c) = setup();
    let req = NewMessageRequest { content: MessageContent::new("hello".to_string()) };
    let sent = new_message(&chats, &mut messages, UserId::new(1), c, &req, 5, &trace()).unwrap();
    assert_eq!(sent.recipients, vec![UserId::new(2), UserId::new(3)]);
    assert_eq!(sent.message.created_at, 5);
}
