//! Credentials that some lyrics sources need.

use vstd::prelude::*;

verus! {

/// Credentials for the sources that need them.
#[derive(Debug, Clone, Default)]
pub struct Session {
    pub applemusic_token: Option<String>,
    pub spotify_cookie: Option<String>,
}

} // verus!
