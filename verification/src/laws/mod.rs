//! What holds of the library as a whole.

pub mod downloads;
pub mod jobs;
pub mod messages;
pub mod metadata;
pub mod progress;
pub mod sessions;
pub mod settings;
pub mod texts;
pub mod updates;
pub mod views;
pub mod words;
