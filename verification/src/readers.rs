//! Readers of lyrics that players keep on this machine.

pub mod qqmusic;
