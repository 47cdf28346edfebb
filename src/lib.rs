//! Chat backend core: session authority, chat access control, the live
//! event hub, and the request-level rules that tie them together.

pub mod ids;
pub mod text;
pub mod crypto;
pub mod models;
pub mod error;
pub mod services;
pub mod repositories;
pub mod random;
pub mod controllers;
