//! Lyrics lines and their syllables.

use vstd::prelude::*;

verus! {

/// One syllable of a word-synced line.
#[derive(Debug, Clone, Default)]
pub struct TextInfo {
    /// Start, as an offset from the start of its line, in milliseconds.
    pub start_time: u16,
    pub duration: u16,
    pub text: String,
}

/// One lyrics line: either a whole `text`, or its `syllables`.
#[derive(Debug, Clone, Default)]
pub struct LineInfo {
    /// Start, in milliseconds from the start of the track.
    pub start_time: u32,
    pub duration: u16,
    pub text: String,
    pub syllables: Vec<TextInfo>,
}

/// The value of a `TextInfo`.
pub struct TextInfoView {
    pub start_time: u16,
    pub duration: u16,
    pub text: Seq<char>,
}

/// The value of a `LineInfo`.
pub struct LineInfoView {
    pub start_time: u32,
    pub duration: u16,
    pub text: Seq<char>,
    pub syllables: Seq<TextInfoView>,
}

impl DeepView for TextInfo {
    type V = TextInfoView;

    open spec fn deep_view(&self) -> TextInfoView {
        TextInfoView { start_time: self.start_time, duration: self.duration, text: self.text@ }
    }
}

impl DeepView for LineInfo {
    type V = LineInfoView;

    open spec fn deep_view(&self) -> LineInfoView {
        LineInfoView {
            start_time: self.start_time,
            duration: self.duration,
            text: self.text@,
            syllables: self.syllables.deep_view(),
        }
    }
}

impl LineInfo {
    /// A line is empty when it starts at 0 or has no syllables.
    pub fn is_empty(&self) -> (r: bool)
        ensures
            r == (self.start_time == 0 || self.syllables@.len() == 0),
    {
        self.start_time == 0 || self.syllables.len() == 0
    }
}

} // verus!
