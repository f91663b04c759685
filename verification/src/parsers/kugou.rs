//! Kugou lyrics.

use vstd::prelude::*;

verus! {

/// Parser of Kugou lyrics.
pub struct KugouParsers {}

} // verus!
