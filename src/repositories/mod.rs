pub mod chats;
pub mod sessions;
pub mod users;
pub mod messages;
