//! Lyrics files that players keep on this machine.

pub mod qqmusic;
