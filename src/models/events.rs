use vstd::prelude::*;
use vstd::string::StringExecFns;
use crate::ids::{ChatId, UserId};
use crate::models::chats::ChatTitle;
use crate::models::messages::Message;

verus! {

/// The kind of a live event.
#[derive(Clone, Copy, Debug, PartialEq, Eq, Structural)]
pub enum SseEventType {
    Message,
    Chat,
}

impl SseEventType {
    pub open spec fn spec_name(self) -> Seq<char> {
        match self {
            SseEventType::Message => "message"@,
            SseEventType::Chat => "chat"@,
        }
    }

    /// The event name written on the stream.
    pub fn as_str(&self) -> (r: &'static str)
        ensures
            r@ == self.spec_name(),
    {
        match self {
            SseEventType::Message => "message",
            SseEventType::Chat => "chat",
        }
    }
}

/// A live event: its kind and its serialized payload.
#[derive(Clone, Debug)]
pub struct SseEvent {
    pub event_type: SseEventType,
    pub data: String,
}

impl SseEvent {
    pub fn new(event_type: SseEventType, data: String) -> (r: Self)
        ensures
            r.event_type == event_type,
            r.data@ == data@,
    {
        SseEvent { event_type, data }
    }

    /// A copy of the event, with the same kind and payload.
    pub fn duplicate(&self) -> (r: Self)
        ensures
            r.event_type == self.event_type,
            r.data@ == self.data@,
    {
        SseEvent { event_type: self.event_type, data: self.data.clone() }
    }
}

/// Payload of a chat event: a chat the receiver was added to.
#[derive(Clone, Debug)]
pub struct ChatEvent {
    pub chat_id: ChatId,
    pub title: ChatTitle,
    pub users_ids: Vec<UserId>,
}

/// Payload of a message event: a message sent to one of the receiver's chats.
#[derive(Clone, Debug)]
pub struct MessageEvent {
    pub message: Message,
    pub chat_id: ChatId,
    pub user_id: UserId,
}

} // verus!
