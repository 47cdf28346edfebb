pub mod chats;
pub mod messages;
pub mod search;
pub mod users;

pub use crate::models::users::{LoginUserRequest, Password, Username};
