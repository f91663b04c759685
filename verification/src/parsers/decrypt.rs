//! Encryption of lyrics requests.

pub mod netease;
