//! The websocket client that local players are reached with.

use vstd::prelude::*;

verus! {

/// A websocket client; it holds no state of its own.
#[derive(Debug, Clone, Copy, Default)]
pub struct WsClient;

impl WsClient {
    /// A client.
    pub fn new() -> (r: Self)
        ensures
            r == WsClient,
    {
        WsClient
    }
}

} // verus!
