//! Requests to lyrics services: what is sent, and how the replies are read.

pub mod qqmusic;
