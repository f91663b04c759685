//! Lyrics search, matching and parsing for desktop music players.

pub mod text;
pub mod ws_client;
pub mod parsers;
pub mod bytes;
pub mod codec;
pub mod models;
pub mod searchers;
pub mod fetchers;
pub mod error;
pub mod files;
pub mod logger;
pub mod providers;
pub mod readers;
