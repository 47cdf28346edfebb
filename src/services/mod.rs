pub mod auth;
pub mod hub;
pub mod session;
pub mod trace;
