use vstd::prelude::*;
use crate::ids::{ChatId, MessageId, UserId};
use crate::models::users::if_then;
use crate::text::{owned, trim_str, trimmed};

verus! {

/// Largest page of messages one request can ask for.
pub const MAX_MESSAGES: i64 = 100;

/// A stored message; `created_at` is in seconds since the Unix epoch.
#[derive(Clone, Debug)]
pub struct Message {
    pub id: MessageId,
    pub content: String,
    pub chat_id: ChatId,
    pub sender_id: Option<UserId>,
    pub created_at: i64,
}

/// The validation messages for a message body.
pub open spec fn content_issues(s: Seq<char>) -> Seq<Seq<char>> {
    if_then(trimmed(s).len() == 0, "Message is empty"@)
}

/// The body of a message, as submitted.
#[derive(Clone, Debug)]
pub struct MessageContent(pub String);

impl MessageContent {
    pub fn new(content: String) -> (r: Self)
        ensures
            r.0@ == content@,
    {
        MessageContent(content)
    }

    pub fn as_str(&self) -> (r: &str)
        ensures
            r@ == self.0@,
    {
        self.0.as_str()
    }

    /// Checks the body; an empty list means it is acceptable.
    pub fn validate(&self) -> (r: Vec<String>)
        ensures
            r@.map_values(|m: String| m@) == content_issues(self.0@),
    {
        let mut errors: Vec<String> = Vec::new();
        if trim_str(self.0.as_str()).is_empty() {
            errors.push(owned("Message is empty"));
        }
        assert(errors@.map_values(|m: String| m@) =~= content_issues(self.0@));
        errors
    }
}

/// Request to send a message.
pub struct NewMessageRequest {
    pub content: MessageContent,
}

/// Answer to a sent message.
#[derive(Clone, Copy, Debug)]
pub struct NewMessageResponse {
    pub message_id: MessageId,
}

/// One page of a chat's messages, newest first.
#[derive(Clone, Debug)]
pub struct GetMessagesResponse {
    pub messages: Vec<Message>,
    pub has_more: bool,
}

} // verus!
