//! A command-line HTTP client's decision logic: transfer planning, resumable
//! downloads, admission control and benchmark statistics.

pub mod bench;
pub mod cache;
pub mod client;
pub mod config;
pub mod download;
pub mod error;
pub mod game;
pub mod history;
pub mod limiter;
pub mod log;
pub mod probe;
pub mod response;
pub mod segment;
pub mod text;
