//! The decisions behind a self-hosted Telegram bot that downloads videos with yt-dlp.
//!
//! What the bot decides or computes stands here and is verified: reading the
//! configuration, routing messages and button taps, building command lines, reading what
//! yt-dlp prints, following a job from link to upload, and wording every message. The
//! program around the library talks to Telegram, runs the processes, touches the disk and
//! does the floating-point arithmetic on the percentage of a download.

pub mod bot;
pub mod config;
pub mod downloader;
pub mod error;
pub mod laws;
pub mod outside;
pub mod state;
pub mod text;
pub mod updater;
