pub mod clock;
pub mod codec;
pub mod commands;
pub mod discover;
pub mod error;
pub mod hooks;
pub mod rank;
pub mod recency;
pub mod search;
pub mod show;
pub mod storage;
pub mod text;
pub mod types;
pub mod update;
