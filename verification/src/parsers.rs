//! Lyrics parsers, one per lyrics source.

pub mod applemusic;
pub mod decrypt;
pub mod kugou;
pub mod soda_music;
pub mod spotify;
