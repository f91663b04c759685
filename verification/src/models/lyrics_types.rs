//! Formats lyrics come in.

use vstd::prelude::*;

verus! {

/// A lyrics format.
#[derive(Debug, Clone, Copy, PartialEq, Eq)]
pub enum LyricsTypes {
    LRC,
    QRC,
    YRC,
    KRC,
    Unknown,
}

impl Default for LyricsTypes {
    fn default() -> (r: Self)
        ensures
            r == LyricsTypes::Unknown,
    {
        LyricsTypes::Unknown
    }
}

} // verus!
