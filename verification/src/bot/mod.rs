//! What the bot says and does in a chat.

pub mod handlers;
pub mod job;
pub mod menu;
pub mod post;
pub mod wording;
