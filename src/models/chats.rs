use vstd::prelude::*;
use crate::ids::{ChatId, UserId};
use crate::models::users::if_then;
use crate::text::{byte_len, owned};

verus! {

/// Largest accepted chat title, in bytes.
pub const TITLE_MAX_BYTES: usize = 50;

/// The validation messages for a chat title, in the order they are reported.
pub open spec fn title_issues(s: Seq<char>) -> Seq<Seq<char>> {
    if_then(s.len() == 0, "Title is empty"@) + if_then(
        byte_len(s) > TITLE_MAX_BYTES,
        "Title is too long"@,
    )
}

/// The title of a chat, as submitted.
#[derive(Clone, Debug)]
pub struct ChatTitle(pub String);

impl ChatTitle {
    pub fn new(title: String) -> (r: Self)
        ensures
            r.0@ == title@,
    {
        ChatTitle(title)
    }

    pub fn as_str(&self) -> (r: &str)
        ensures
            r@ == self.0@,
    {
        self.0.as_str()
    }

    /// Checks the title; an empty list means it is acceptable.
    pub fn validate(&self) -> (r: Vec<String>)
        ensures
            r@.map_values(|m: String| m@) == title_issues(self.0@),
    {
        let mut errors: Vec<String> = Vec::new();
        let t = self.0.as_str();
        if t.is_empty() {
            errors.push(owned("Title is empty"));
        }
        assert(errors@.map_values(|m: String| m@) =~= if_then(t@.len() == 0, "Title is empty"@));
        if t.as_bytes().len() > TITLE_MAX_BYTES {
            errors.push(owned("Title is too long"));
        }
        assert(errors@.map_values(|m: String| m@) =~= title_issues(self.0@));
        errors
    }
}

/// A chat with its members.
#[derive(Clone, Debug)]
pub struct Chat {
    pub id: ChatId,
    pub title: ChatTitle,
    pub users_ids: Vec<UserId>,
}

/// Request to create a chat, optionally with co-members.
pub struct NewChatRequest {
    pub title: ChatTitle,
    pub users_ids: Option<Vec<UserId>>,
}

/// The chats of a user.
pub struct GetChatsResponse(pub Vec<Chat>);

/// Answer to a chat creation.
#[derive(Clone, Copy, Debug)]
pub struct NewChatResponse {
    pub chat_id: ChatId,
}

impl NewChatResponse {
    pub fn new(chat_id: ChatId) -> (r: Self)
        ensures
            r.chat_id == chat_id,
    {
        NewChatResponse { chat_id }
    }
}

} // verus!
