//! Soda Music word-synced lyrics, whose word times are already offsets.

use vstd::prelude::*;
use crate::error::parser::{ParseError, ParserError};
use crate::error::{LyrixError, LyrixResult};

verus! {

/// Parser of Soda Music lyrics.
pub struct SodaParser;

impl SodaParser {
    /// The offset of a word: `t2` itself (it is already an offset; `t1` is not used), refused
    /// as an offset overflow naming both times when it does not fit in a `u16`.
    pub fn get_offset_time(&self, t1: u32, t2: u32) -> (r: LyrixResult<u16>)
        ensures
            t2 <= u16::MAX ==> r == Ok::<u16, LyrixError>(t2 as u16),
            t2 > u16::MAX ==> r == Err::<u16, LyrixError>(
                LyrixError::Parser(ParserError::Parse(ParseError::OffsetOverflow { t1, t2 })),
            ),
    {
        if t2 <= 0xFFFF {
            Ok(t2 as u16)
        } else {
            Err(LyrixError::Parser(ParserError::Parse(ParseError::OffsetOverflow { t1, t2 })))
        }
    }
}

} // verus!
