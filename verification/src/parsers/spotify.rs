//! Spotify color lyrics: lines with start and end times given as decimal strings.

use vstd::prelude::*;
use crate::models::line_info::{LineInfo, LineInfoView};
use crate::text::{chars_of, parse_u32, parse_u32_chars};

verus! {

/// A line of a Spotify lyrics reply.
#[derive(Debug, Default)]
pub struct RawLine {
    pub start_time_ms: Option<String>,
    pub words: Option<String>,
    pub end_time_ms: Option<String>,
}

/// The lyrics of a Spotify lyrics reply.
#[derive(Debug, Default)]
pub struct LyricData {
    pub sync_type: Option<String>,
    pub lines: Option<Vec<RawLine>>,
}

/// A time field, `"0"` when absent.
pub open spec fn time_text(f: Option<String>) -> Seq<char> {
    match f {
        Some(s) => s@,
        None => "0"@,
    }
}

/// The lines of a reply, in order: lines without words are skipped; the start and end are
/// read as `u32`, and the length is the end minus the start, cut to 16 bits, or 0 when the end
/// is not after the start. The first time that does not read fails the whole parse.
pub open spec fn spotify_lines(raws: Seq<RawLine>) -> Result<Seq<LineInfoView>, Seq<char>>
    decreases raws.len(),
{
    if raws.len() == 0 {
        Ok(seq![])
    } else {
        match spotify_lines(raws.drop_last()) {
            Err(e) => Err(e),
            Ok(prev) => {
                let raw = raws.last();
                let words = match raw.words {
                    Some(w) => w@,
                    None => seq![],
                };
                if words.len() == 0 {
                    Ok(prev)
                } else {
                    match parse_u32(time_text(raw.start_time_ms)) {
                        None => Err("SpotifyParser: invalid startTimeMs"@),
                        Some(st) => match parse_u32(time_text(raw.end_time_ms)) {
                            None => Err("SpotifyParser: invalid endTimeMs"@),
                            Some(et) => Ok(
                                prev.push(
                                    LineInfoView {
                                        start_time: st,
                                        duration: if et > st {
                                            (et - st) as u16
                                        } else {
                                            0
                                        },
                                        text: words,
                                        syllables: seq![],
                                    },
                                ),
                            ),
                        },
                    }
                }
            },
        }
    }
}

/// Parser of Spotify lyrics replies.
pub struct SpotifyParser;

impl SpotifyParser {
    /// The lines of the lyrics `data`; see [`SpotifyParser::parse_without_st`].
    pub fn parse(&self, data: LyricData) -> (r: Result<Vec<LineInfo>, String>)
        ensures
            match (data.sync_type, data.lines) {
                (Some(s), Some(l)) if s@ == "LINE_SYNCED"@ => match spotify_lines(l@) {
                    Ok(v) => r matches Ok(lines) && lines.deep_view() == v,
                    Err(e) => r matches Err(m) && m@ == e,
                },
                (Some(s), None) if s@ == "LINE_SYNCED"@ => r matches Err(m) && m@
                    == "SpotifyParser: missing lines"@,
                _ => r matches Err(m) && m@ == "SpotifyParser: unknown sync_type: "@ + match data.sync_type {
                    Some(s) => s@,
                    None => seq![],
                },
            },
    {
        self.parse_without_st(data)
    }

    /// The lines of the lyrics `data`: only line-synced lyrics are read; see
    /// [`spotify_lines`].
    pub fn parse_without_st(&self, data: LyricData) -> (r: Result<Vec<LineInfo>, String>)
        ensures
            match (data.sync_type, data.lines) {
                (Some(s), Some(l)) if s@ == "LINE_SYNCED"@ => match spotify_lines(l@) {
                    Ok(v) => r matches Ok(lines) && lines.deep_view() == v,
                    Err(e) => r matches Err(m) && m@ == e,
                },
                (Some(s), None) if s@ == "LINE_SYNCED"@ => r matches Err(m) && m@
                    == "SpotifyParser: missing lines"@,
                _ => r matches Err(m) && m@ == "SpotifyParser: unknown sync_type: "@ + match data.sync_type {
                    Some(s) => s@,
                    None => seq![],
                },
            },
    {
        let sync_type = match &data.sync_type {
            Some(s) => s.clone(),
            None => String::new(),
        };
        proof {
            reveal_strlit("LINE_SYNCED");
        }
        if !crate::text::str_eq(sync_type.as_str(), "LINE_SYNCED") {
            return Err(crate::text::concat_str("SpotifyParser: unknown sync_type: ", sync_type.as_str()));
        }
        let lines = match data.lines {
            Some(l) => l,
            None => {
                return Err("SpotifyParser: missing lines".to_string());
            },
        };
        let ghost all = lines@;
        let mut out: Vec<LineInfo> = Vec::new();
        let mut k: usize = 0;
        assert(all.take(0) =~= Seq::<RawLine>::empty());
        assert(out.deep_view() =~= Seq::<LineInfoView>::empty());
        while k < lines.len()
            invariant
                k <= lines@.len(),
                all == lines@,
                data.lines == Some(lines),
                data.sync_type matches Some(s) && s@ == "LINE_SYNCED"@,
                spotify_lines(all.take(k as int)) == Ok::<Seq<LineInfoView>, Seq<char>>(
                    out.deep_view(),
                ),
            decreases lines@.len() - k,
        {
            assert(all.take(k + 1).drop_last() =~= all.take(k as int));
            assert(all.take(k + 1).last() == lines[k as int]);
            let raw = &lines[k];
            let words = match &raw.words {
                Some(w) => w.clone(),
                None => String::new(),
            };
            if !words.as_str().is_empty() {
                let st_text = match &raw.start_time_ms {
                    Some(s) => s.clone(),
                    None => "0".to_string(),
                };
                let st = match parse_u32_chars(chars_of(st_text.as_str()).as_slice()) {
                    Some(v) => v,
                    None => {
                        proof {
                            lemma_first_error_stays(all, k as int + 1);
                        }
                        return Err("SpotifyParser: invalid startTimeMs".to_string());
                    },
                };
                let et_text = match &raw.end_time_ms {
                    Some(s) => s.clone(),
                    None => "0".to_string(),
                };
                let et = match parse_u32_chars(chars_of(et_text.as_str()).as_slice()) {
                    Some(v) => v,
                    None => {
                        proof {
                            lemma_first_error_stays(all, k as int + 1);
                        }
                        return Err("SpotifyParser: invalid endTimeMs".to_string());
                    },
                };
                let duration: u16 = if et > st {
                    (et - st) as u16
                } else {
                    0
                };
                let line = LineInfo { start_time: st, duration, text: words, syllables: Vec::new() };
                let ghost before = out.deep_view();
                assert(line.syllables.deep_view() =~= Seq::<crate::models::line_info::TextInfoView>::empty());
                out.push(line);
                assert(out.deep_view() =~= before.push(line.deep_view()));
            }
            k = k + 1;
        }
        assert(all.take(k as int) =~= all);
        Ok(out)
    }
}

/// Once a prefix of the lines fails, every longer prefix fails with the same error.
proof fn lemma_first_error_stays(raws: Seq<RawLine>, n: int)
    requires
        0 <= n <= raws.len(),
        spotify_lines(raws.take(n)) is Err,
    ensures
        spotify_lines(raws) == spotify_lines(raws.take(n)),
    decreases raws.len() - n,
{
    if n == raws.len() {
        assert(raws.take(n) =~= raws);
    } else {
        assert(raws.take(n + 1).drop_last() =~= raws.take(n));
        lemma_first_error_stays(raws, n + 1);
    }
}

} // verus!
