pub mod chats;
pub mod events;
pub mod messages;
pub mod search;
pub mod users;
