//! Apple Music TTML lyrics: line-synced (`<p begin=".." end="..">text</p>`) and
//! syllable-synced (`<span begin=".." end="..">text</span>` inside each `<p>`).

use vstd::prelude::*;
use vstd::string::StringSliceAdditionalSpecFns;
use vstd::utf8::{decode_utf8, encode_utf8, encode_utf8_valid_utf8, is_char_boundary_start_end_of_seq, valid_utf8};
use crate::bytes::{find_byte, find_bytes, lemma_after_pattern, lemma_at_pattern, str_range};
use crate::models::line_info::{LineInfo, LineInfoView, TextInfo, TextInfoView};
use crate::text::{
    chars_of, contains, find, find_from, lemma_find_from, parse_u32, parse_u32_chars,
    decimal, push_decimal, push_str_chars, split_once, split_once_chars, subvec, trim, trim_bounds,
};

verus! {

/// The result of a computation of the parser: a value, a reported failure, or an arithmetic
/// overflow (on which the parser panics, so its callers rule it out).
pub enum Outcome<T> {
    Value(T),
    Failure(Seq<char>),
    Overflow,
}

/// The name of what `Debug` writes for a `str` with the characters `s` (quoted and escaped).
pub uninterp spec fn str_debug_of(s: Seq<char>) -> Seq<char>;

/// The name of what `Debug` writes for the error that `str::parse::<u32>` gives on `s` (empty
/// when `s` parses).
pub uninterp spec fn u32_parse_error_debug_of(s: Seq<char>) -> Seq<char>;

/// The message for the numeric field `name` whose text `s` is no `u32`.
pub open spec fn field_error(s: Seq<char>, name: Seq<char>) -> Seq<char> {
    if s.len() == 0 {
        "AppleMusic Parser: missing "@ + name
    } else {
        "AppleMusic Parser: failed to parse "@ + name + ": "@ + u32_parse_error_debug_of(s)
            + " raw="@ + str_debug_of(s)
    }
}

/// The message for a part `what` missing from the time tag `t`.
pub open spec fn not_found_text(what: Seq<char>, t: Seq<char>) -> Seq<char> {
    "AppleMusic Parser: "@ + what + " not found in "@ + str_debug_of(t)
}

/// The message for an offset of `d` ms, more than a `u16` holds.
pub open spec fn offset_overflow_of(d: u32) -> Seq<char> {
    "AppleMusic Parsers: offset overflow("@ + decimal(d as nat) + ")"@
}

/// The message for an offset from `t1` to `t2` that does not fit: negative or too large.
pub open spec fn offset_error(t1: u32, t2: u32) -> Seq<char> {
    if t2 < t1 {
        "AppleMusic Parsers: overflow ("@ + decimal(t1 as nat) + " "@ + decimal(t2 as nat) + ")"@
    } else {
        offset_overflow_of((t2 - t1) as u32)
    }
}

/// The message for a line that ends at `et`, before its start `lst`.
pub open spec fn end_before_start_text(et: u32, lst: u32) -> Seq<char> {
    "AppleMusic Parser: line end_time before start_time: "@ + decimal(et as nat) + " < "@
        + decimal(lst as nat)
}

/// A field `s` scaled by `k`.
pub open spec fn scaled_field(s: Seq<char>, name: Seq<char>, k: int) -> Outcome<u32> {
    match parse_u32(s) {
        None => Outcome::Failure(field_error(s, name)),
        Some(v) => if v * k > u32::MAX {
            Outcome::Overflow
        } else {
            Outcome::Value((v * k) as u32)
        },
    }
}

/// The sum `a + b` of two `u32` values, or an overflow.
pub open spec fn checked_sum(a: u32, b: u32) -> Outcome<u32> {
    if a + b > u32::MAX {
        Outcome::Overflow
    } else {
        Outcome::Value((a + b) as u32)
    }
}

/// A syllable time tag `[m:]s.xxx` in milliseconds: `m` minutes (optional), `s` seconds and
/// `xxx` milliseconds, with surrounding white space ignored.
#[verifier::opaque]
pub open spec fn syllable_time(tag: Seq<char>) -> Outcome<u32> {
    let t = trim(tag);
    let minutes: Outcome<u32> = match split_once(t, ':') {
        Some(p) => scaled_field(p.0, "minutes"@, 60_000),
        None => Outcome::Value(0),
    };
    let rest = match split_once(t, ':') {
        Some(p) => p.1,
        None => t,
    };
    match minutes {
        Outcome::Value(mv) => match split_once(rest, '.') {
            None => Outcome::Failure(not_found_text("seconds"@, t)),
            Some(q) => match scaled_field(q.0, "seconds"@, 1_000) {
                Outcome::Value(sv) => match scaled_field(q.1, "centis"@, 1) {
                    Outcome::Value(cv) => match checked_sum(mv, sv) {
                        Outcome::Value(ms) => checked_sum(ms, cv),
                        other => other,
                    },
                    other => other,
                },
                other => other,
            },
        },
        other => other,
    }
}

/// A line time tag `h:m:s.cc` in milliseconds: hours, minutes, seconds and hundredths of a
/// second, with surrounding white space ignored.
#[verifier::opaque]
pub open spec fn line_time(tag: Seq<char>) -> Outcome<u32> {
    let t = trim(tag);
    match split_once(t, ':') {
        None => Outcome::Failure(not_found_text("hours"@, t)),
        Some(p1) => match split_once(p1.1, ':') {
            None => Outcome::Failure(not_found_text("minutes"@, t)),
            Some(p2) => match split_once(p2.1, '.') {
                None => Outcome::Failure(not_found_text("centis"@, t)),
                Some(p3) => match scaled_field(p1.0, "hours"@, 3_600_000) {
                    Outcome::Value(h) => match scaled_field(p2.0, "minutes"@, 60_000) {
                        Outcome::Value(m) => match scaled_field(p3.0, "seconds"@, 1_000) {
                            Outcome::Value(s) => match scaled_field(p3.1, "centis"@, 10) {
                                Outcome::Value(c) => match checked_sum(h, m) {
                                    Outcome::Value(hm) => match checked_sum(hm, s) {
                                        Outcome::Value(hms) => checked_sum(hms, c),
                                        other => other,
                                    },
                                    other => other,
                                },
                                other => other,
                            },
                            other => other,
                        },
                        other => other,
                    },
                    other => other,
                },
            },
        },
    }
}

/// The result of a parse matches an outcome that is not an overflow.
pub open spec fn reports<T>(r: Result<T, String>, o: Outcome<T>) -> bool {
    match o {
        Outcome::Value(v) => r == Ok::<T, String>(v),
        Outcome::Failure(m) => r matches Err(x) && x@ == m,
        Outcome::Overflow => false,
    }
}

/// The bytes `in="` that open a start-time attribute.
pub open spec fn begin_tag() -> Seq<u8> {
    seq![105u8, 110u8, 61u8, 34u8]
}

/// The bytes `nd="` that open an end-time attribute.
pub open spec fn end_tag() -> Seq<u8> {
    seq![110u8, 100u8, 61u8, 34u8]
}

/// The bytes `="` that open any attribute value.
pub open spec fn attr_tag() -> Seq<u8> {
    seq![61u8, 34u8]
}

/// The bytes `<p` that open a paragraph.
pub open spec fn p_open() -> Seq<u8> {
    seq![60u8, 112u8]
}

/// The bytes `</p` that close a paragraph.
pub open spec fn p_close() -> Seq<u8> {
    seq![60u8, 47u8, 112u8]
}

/// The bytes `div` that start the lyrics body.
pub open spec fn div_tag() -> Seq<u8> {
    seq![100u8, 105u8, 118u8]
}

/// The bytes `span` whose presence marks syllable-synced lyrics.
pub open spec fn span_tag() -> Seq<u8> {
    seq![115u8, 112u8, 97u8, 110u8]
}

/// The byte `"`.
pub open spec fn quote() -> u8 {
    34u8
}

/// The text of the UTF-8 bytes `b[i..j]`.
pub open spec fn text_between(b: Seq<u8>, i: int, j: int) -> Seq<char> {
    decode_utf8(b.subrange(i, j))
}

/// The offset `t2 - t1` as a `u16`, when `t1 <= t2` and it fits.
pub open spec fn offset_time(t1: u32, t2: u32) -> Option<u16> {
    if t2 < t1 || t2 - t1 > u16::MAX {
        None
    } else {
        Some((t2 - t1) as u16)
    }
}

/// The syllable that starts at the first `in="` at or after `pos` in the line `b` (whose start
/// time is `lst`): `in="<start>" ... nd="<end>" ...>text<`. `None` when no `in="` follows;
/// otherwise the syllable and the position after its text.
pub open spec fn next_syllable(b: Seq<u8>, pos: int, lst: u32) -> Outcome<
    Option<(TextInfoView, int)>,
> {
    match find_from(b, begin_tag(), pos) {
        None => Outcome::Value(None),
        Some(i) => match find_from(b, seq![quote()], i + 4) {
            None => Outcome::Failure("AppleMusic Parser: word start_time not found"@),
            Some(q1) => match syllable_time(text_between(b, i + 4, q1)) {
                Outcome::Value(st) => match find_from(b, end_tag(), q1 + 1) {
                    None => Outcome::Failure("AppleMusic Parser: word end_time not found"@),
                    Some(i2) => match find_from(b, seq![quote()], i2 + 4) {
                        None => Outcome::Failure("AppleMusic Parser: word end_time not found"@),
                        Some(q2) => match syllable_time(text_between(b, i2 + 4, q2)) {
                            Outcome::Value(et) => match find_from(b, seq![62u8], q2 + 1) {
                                None => Outcome::Failure("AppleMusic Parser: failed to parse lyrics"@),
                                Some(g) => match find_from(b, seq![60u8], g + 1) {
                                    None => Outcome::Failure("AppleMusic Parser: failed to parse lyrics"@),
                                    Some(l) => match (offset_time(lst, st), offset_time(st, et)) {
                                        (Some(o1), Some(o2)) => Outcome::Value(
                                            Some(
                                                (
                                                    TextInfoView {
                                                        start_time: o1,
                                                        duration: o2,
                                                        text: text_between(b, g + 1, l),
                                                    },
                                                    l + 1,
                                                ),
                                            ),
                                        ),
                                        (None, _) => Outcome::Failure(offset_error(lst, st)),
                                        (Some(_), None) => Outcome::Failure(offset_error(st, et)),
                                    },
                                },
                            },
                            Outcome::Failure(m) => Outcome::Failure(m),
                            Outcome::Overflow => Outcome::Overflow,
                        },
                    },
                },
                Outcome::Failure(m) => Outcome::Failure(m),
                Outcome::Overflow => Outcome::Overflow,
            },
        },
    }
}

/// The position after a syllable lies after `pos` and within the line.
pub proof fn lemma_next_syllable_advances(b: Seq<u8>, pos: int, lst: u32)
    requires
        0 <= pos,
    ensures
        next_syllable(b, pos, lst) matches Outcome::Value(Some(p)) ==> pos < p.1 <= b.len(),
{
    lemma_find_from(b, begin_tag(), pos);
    if let Some(i) = find_from(b, begin_tag(), pos) {
        lemma_find_from(b, seq![quote()], i + 4);
        if let Some(q1) = find_from(b, seq![quote()], i + 4) {
            lemma_find_from(b, end_tag(), q1 + 1);
            if let Some(i2) = find_from(b, end_tag(), q1 + 1) {
                lemma_find_from(b, seq![quote()], i2 + 4);
                if let Some(q2) = find_from(b, seq![quote()], i2 + 4) {
                    lemma_find_from(b, seq![62u8], q2 + 1);
                    if let Some(g) = find_from(b, seq![62u8], q2 + 1) {
                        lemma_find_from(b, seq![60u8], g + 1);
                    }
                }
            }
        }
    }
}

/// The syllables of the line `b` from `pos` on, in order.
pub open spec fn syllables_from(b: Seq<u8>, pos: int, lst: u32) -> Outcome<Seq<TextInfoView>>
    decreases b.len() - pos,
{
    if pos < 0 {
        Outcome::Failure(seq![])
    } else {
        match next_syllable(b, pos, lst) {
            Outcome::Value(None) => Outcome::Value(seq![]),
            Outcome::Value(Some(p)) => {
                proof {
                    lemma_next_syllable_advances(b, pos, lst);
                }
                match syllables_from(b, p.1, lst) {
                    Outcome::Value(rest) => Outcome::Value(seq![p.0] + rest),
                    Outcome::Failure(m) => Outcome::Failure(m),
                    Outcome::Overflow => Outcome::Overflow,
                }
            },
            Outcome::Failure(m) => Outcome::Failure(m),
            Outcome::Overflow => Outcome::Overflow,
        }
    }
}

/// A syllable-synced line `<p begin="<start>" end="<end>" ...>` followed by its syllables.
#[verifier::opaque]
pub open spec fn syllable_line(b: Seq<u8>) -> Outcome<LineInfoView> {
    match find_from(b, begin_tag(), 0) {
        None => Outcome::Failure("AppleMusic Parser: line start_time not found"@),
        Some(i) => match find_from(b, seq![quote()], i + 4) {
            None => Outcome::Failure("AppleMusic Parser: line start_time not found"@),
            Some(q1) => match syllable_time(text_between(b, i + 4, q1)) {
                Outcome::Value(lst) => match find_from(b, end_tag(), q1 + 1) {
                    None => Outcome::Failure("AppleMusic Parser: line end_time not found"@),
                    Some(i2) => match find_from(b, seq![quote()], i2 + 4) {
                        None => Outcome::Failure("AppleMusic Parser: line end_time not found"@),
                        Some(q2) => match syllable_time(text_between(b, i2 + 4, q2)) {
                            Outcome::Value(et) => if et < lst {
                                Outcome::Failure(end_before_start_text(et, lst))
                            } else {
                                match syllables_from(b, q2 + 1, lst) {
                                    Outcome::Value(syls) => if et - lst > u16::MAX {
                                        Outcome::Failure(offset_overflow_of((et - lst) as u32))
                                    } else {
                                        Outcome::Value(
                                            LineInfoView {
                                                start_time: lst,
                                                duration: (et - lst) as u16,
                                                text: seq![],
                                                syllables: syls,
                                            },
                                        )
                                    },
                                    Outcome::Failure(m) => Outcome::Failure(m),
                                    Outcome::Overflow => Outcome::Overflow,
                                }
                            },
                            Outcome::Failure(m) => Outcome::Failure(m),
                            Outcome::Overflow => Outcome::Overflow,
                        },
                    },
                },
                Outcome::Failure(m) => Outcome::Failure(m),
                Outcome::Overflow => Outcome::Overflow,
            },
        },
    }
}

/// The parse of a value: it matches the outcome, which is not an overflow.
pub open spec fn reports_view<T: DeepView>(r: Result<T, String>, o: Outcome<T::V>) -> bool {
    match o {
        Outcome::Value(v) => r matches Ok(x) && x.deep_view() == v,
        Outcome::Failure(m) => r matches Err(x) && x@ == m,
        Outcome::Overflow => false,
    }
}

/// Why a parse stopped: a reported failure with its message, or an arithmetic overflow.
pub enum Fault {
    Failure(String),
    Overflow,
}

/// The result of a checked computation matches the outcome.
pub open spec fn answers<T>(r: Result<T, Fault>, o: Outcome<T>) -> bool {
    match o {
        Outcome::Value(v) => r matches Ok(x) && x == v,
        Outcome::Failure(m) => r matches Err(Fault::Failure(x)) && x@ == m,
        Outcome::Overflow => r matches Err(Fault::Overflow),
    }
}

/// The result of a checked parse matches the outcome.
pub open spec fn answers_view<T: DeepView>(r: Result<T, Fault>, o: Outcome<T::V>) -> bool {
    match o {
        Outcome::Value(v) => r matches Ok(x) && x.deep_view() == v,
        Outcome::Failure(m) => r matches Err(Fault::Failure(x)) && x@ == m,
        Outcome::Overflow => r matches Err(Fault::Overflow),
    }
}

/// A checked result whose outcome is known not to overflow, with the failure's message.
fn without_overflow<T>(r: Result<T, Fault>) -> (s: Result<T, String>)
    requires
        !(r matches Err(Fault::Overflow)),
    ensures
        match r {
            Ok(v) => s matches Ok(x) && x == v,
            Err(Fault::Failure(m)) => s matches Err(x) && x == m,
            Err(Fault::Overflow) => false,
        },
{
    match r {
        Ok(v) => Ok(v),
        Err(Fault::Failure(m)) => Err(m),
        Err(Fault::Overflow) => Err(String::new()),
    }
}

/// `acc` followed by the value of `o`.
pub open spec fn after<A>(acc: Seq<A>, o: Outcome<Seq<A>>) -> Outcome<Seq<A>> {
    match o {
        Outcome::Value(v) => Outcome::Value(acc + v),
        Outcome::Failure(m) => Outcome::Failure(m),
        Outcome::Overflow => Outcome::Overflow,
    }
}

/// The lines of syllable-synced lyrics `b`, pairing the `<p` and `</p` occurrences found from
/// `il` and `ie` on: each pair must be in order, and the bytes between them form a line.
pub open spec fn paragraph_lines(b: Seq<u8>, il: int, ie: int) -> Outcome<Seq<LineInfoView>>
    decreases b.len() - il,
{
    if il < 0 {
        Outcome::Failure(seq![])
    } else {
        match find_from(b, p_open(), il) {
            None => Outcome::Value(seq![]),
            Some(l) => match find_from(b, p_close(), ie) {
                None => Outcome::Value(seq![]),
                Some(e) => if l >= e {
                    Outcome::Failure(unexpected_error_text())
                } else {
                    match syllable_line(b.subrange(l, e)) {
                        Outcome::Value(line) => {
                            proof {
                                lemma_find_from(b, p_open(), il);
                            }
                            match paragraph_lines(b, l + 2, e + 3) {
                                Outcome::Value(rest) => Outcome::Value(seq![line] + rest),
                                Outcome::Failure(m) => Outcome::Failure(m),
                                Outcome::Overflow => Outcome::Overflow,
                            }
                        },
                        Outcome::Failure(m) => Outcome::Failure(m),
                        Outcome::Overflow => Outcome::Overflow,
                    }
                },
            },
        }
    }
}

/// The message given when a `<p` does not come before its `</p`.
pub open spec fn unexpected_error_text() -> Seq<char> {
    "AppleMusic Parser: Unexpected error"@
}

/// The message given when line-synced lyrics have no `div`.
pub open spec fn body_not_found_text() -> Seq<char> {
    "AppleMusic Parser: lyrics body not found"@
}

/// The lines parsed from lyrics `b` have one shape: with `span` they are word-synced and their
/// text is empty; otherwise they are line-synced and have no syllables.
pub open spec fn lyrics_shape(b: Seq<u8>, v: Seq<LineInfoView>) -> bool {
    forall|k: int|
        0 <= k < v.len() ==> if contains(b, span_tag()) {
            (#[trigger] v[k]).text.len() == 0
        } else {
            v[k].syllables.len() == 0
        }
}

/// The lines of line-synced lyrics `u`, read from the `="` occurrences found from `it` on:
/// `="<begin>"` then `="<end>"`, then the text between the next `>` and `<`.
pub open spec fn plain_lines(u: Seq<u8>, it: int) -> Outcome<Seq<LineInfoView>>
    decreases u.len() - it,
{
    if it < 0 {
        Outcome::Failure(seq![])
    } else {
        match find_from(u, attr_tag(), it) {
            None => Outcome::Value(seq![]),
            Some(u1) => match find_from(u, seq![quote()], u1 + 2) {
                None => Outcome::Failure("AppleMusic Parser: start_time not found"@),
                Some(c1) => match line_time(text_between(u, u1 + 2, c1)) {
                    Outcome::Value(st) => match find_from(u, attr_tag(), u1 + 2) {
                        None => Outcome::Value(seq![]),
                        Some(u2) => match find_from(u, seq![quote()], u2 + 2) {
                            None => Outcome::Failure("AppleMusic Parser: end_time not found"@),
                            Some(c2) => match line_time(text_between(u, u2 + 2, c2)) {
                                Outcome::Value(et) => match find_from(u, seq![62u8], c2 + 1) {
                                    None => Outcome::Failure("AppleMusic Parser: failed to parse lyrics"@),
                                    Some(g) => match find_from(u, seq![60u8], g + 1) {
                                        None => Outcome::Failure("AppleMusic Parser: failed to parse lyrics"@),
                                        Some(l) => match offset_time(st, et) {
                                            None => Outcome::Failure(offset_error(st, et)),
                                            Some(d) => {
                                                proof {
                                                    lemma_find_from(u, attr_tag(), it);
                                                    lemma_find_from(u, attr_tag(), u1 + 2);
                                                }
                                                match plain_lines(u, u2 + 2) {
                                                    Outcome::Value(rest) => Outcome::Value(
                                                        seq![
                                                            LineInfoView {
                                                                start_time: st,
                                                                duration: d,
                                                                text: text_between(u, g + 1, l),
                                                                syllables: seq![],
                                                            },
                                                        ] + rest,
                                                    ),
                                                    Outcome::Failure(m) => Outcome::Failure(m),
                                                    Outcome::Overflow => Outcome::Overflow,
                                                }
                                            },
                                        },
                                    },
                                },
                                Outcome::Failure(m) => Outcome::Failure(m),
                                Outcome::Overflow => Outcome::Overflow,
                            },
                        },
                    },
                    Outcome::Failure(m) => Outcome::Failure(m),
                    Outcome::Overflow => Outcome::Overflow,
                },
            },
        }
    }
}

/// Line-synced lyrics `b`: the lines after the first `div`, which must be there.
pub open spec fn div_lines(b: Seq<u8>) -> Outcome<Seq<LineInfoView>> {
    match find(b, div_tag()) {
        None => Outcome::Failure(body_not_found_text()),
        Some(c) => plain_lines(b.subrange(c, b.len() as int), 0),
    }
}

/// Lyrics `b` (UTF-8): syllable-synced when they contain `span`, line-synced otherwise.
pub open spec fn lyrics_lines(b: Seq<u8>) -> Outcome<Seq<LineInfoView>> {
    if contains(b, span_tag()) {
        paragraph_lines(b, 0, 0)
    } else {
        div_lines(b)
    }
}

/// A syllable-synced line has no line text.
proof fn lemma_syllable_line_text_empty(b: Seq<u8>)
    ensures
        syllable_line(b) matches Outcome::Value(line) ==> line.text.len() == 0,
{
    reveal(syllable_line);
}

/// Every line of syllable-synced lyrics has an empty text.
proof fn lemma_paragraph_lines_text_empty(b: Seq<u8>, il: int, ie: int)
    ensures
        paragraph_lines(b, il, ie) matches Outcome::Value(v) ==> forall|k: int|
            0 <= k < v.len() ==> (#[trigger] v[k]).text.len() == 0,
    decreases b.len() - il,
{
    if il >= 0 {
        if let Some(l) = find_from(b, p_open(), il) {
            if let Some(e) = find_from(b, p_close(), ie) {
                if l < e {
                    lemma_syllable_line_text_empty(b.subrange(l, e));
                    lemma_find_from(b, p_open(), il);
                    lemma_paragraph_lines_text_empty(b, l + 2, e + 3);
                }
            }
        }
    }
}

/// Every line of line-synced lyrics has no syllables.
proof fn lemma_plain_lines_no_syllables(u: Seq<u8>, it: int)
    ensures
        plain_lines(u, it) matches Outcome::Value(v) ==> forall|k: int|
            0 <= k < v.len() ==> (#[trigger] v[k]).syllables.len() == 0,
    decreases u.len() - it,
{
    if it >= 0 {
        if let Some(u1) = find_from(u, attr_tag(), it) {
            lemma_find_from(u, attr_tag(), it);
            if let Some(u2) = find_from(u, attr_tag(), u1 + 2) {
                lemma_find_from(u, attr_tag(), u1 + 2);
                lemma_plain_lines_no_syllables(u, u2 + 2);
            }
        }
    }
}

/// The lines of parsed lyrics come in one shape: lyrics with `span` give word-synced lines,
/// whose text is empty, and other lyrics give line-synced lines, with no syllables.
pub proof fn lemma_lyrics_lines_shape(b: Seq<u8>)
    ensures
        lyrics_lines(b) matches Outcome::Value(v) ==> forall|k: int|
            0 <= k < v.len() ==> if contains(b, span_tag()) {
                (#[trigger] v[k]).text.len() == 0
            } else {
                v[k].syllables.len() == 0
            },
{
    lemma_paragraph_lines_text_empty(b, 0, 0);
    if let Some(c) = find(b, div_tag()) {
        lemma_plain_lines_no_syllables(b.subrange(c, b.len() as int), 0);
    }
}

/// `format!("{:?}", s)`: `s` quoted and escaped as `Debug` writes a `str`. The text is named
/// [`str_debug_of`]; what it is character by character is not stated.
#[verifier::external_body]
fn debug_text(s: &str) -> (r: String)
    ensures
        r@ == str_debug_of(s@),
{
    format!("{:?}", s)
}

/// The `Debug` text of the error that `s.parse::<u32>()` gives (empty when `s` parses), named
/// [`u32_parse_error_debug_of`]; what it is is not stated.
#[verifier::external_body]
fn u32_parse_error_text(s: &str) -> (r: String)
    ensures
        r@ == u32_parse_error_debug_of(s@),
{
    match s.parse::<u32>() {
        Ok(_) => String::new(),
        Err(e) => format!("{:?}", e),
    }
}

/// `AppleMusic Parser: <what> not found in <tag>`, the tag written as `Debug` writes a `str`.
fn not_found_in(what: &str, tag: &Vec<char>) -> (r: String)
    ensures
        r@ == not_found_text(what@, tag@),
{
    let t = crate::text::string_of_chars(tag.as_slice());
    let mut m: Vec<char> = Vec::new();
    push_str_chars(&mut m, "AppleMusic Parser: ");
    push_str_chars(&mut m, what);
    push_str_chars(&mut m, " not found in ");
    let d = debug_text(t.as_str());
    push_str_chars(&mut m, d.as_str());
    let r = crate::text::string_of_chars(m.as_slice());
    assert(r@ =~= not_found_text(what@, tag@));
    r
}

/// `AppleMusic Parsers: offset overflow(<d>)`.
fn offset_overflow_text(d: u32) -> (r: String)
    ensures
        r@ == offset_overflow_of(d),
{
    let mut m: Vec<char> = Vec::new();
    push_str_chars(&mut m, "AppleMusic Parsers: offset overflow(");
    push_decimal(&mut m, d as u64);
    push_str_chars(&mut m, ")");
    assert(m@ =~= "AppleMusic Parsers: offset overflow("@ + crate::text::decimal(d as nat) + ")"@);
    crate::text::string_of_chars(m.as_slice())
}

/// Apple Music lyrics parser.
pub struct AppleMusicParser {}

impl AppleMusicParser {
    /// A numeric field of a time tag.
    fn parse_u32_field(field: &[char], name: &str) -> (r: Result<u32, String>)
        ensures
            match parse_u32(field@) {
                Some(v) => r == Ok::<u32, String>(v),
                None => r matches Err(m) && m@ == field_error(field@, name@),
            },
    {
        if field.len() == 0 {
            let mut m = "AppleMusic Parser: missing ".to_owned();
            m.append(name);
            assert(m@ =~= field_error(field@, name@));
            return Err(m);
        }
        match parse_u32_chars(field) {
            Some(v) => Ok(v),
            None => {
                let raw = crate::text::string_of_chars(field);
                let mut m: Vec<char> = Vec::new();
                push_str_chars(&mut m, "AppleMusic Parser: failed to parse ");
                push_str_chars(&mut m, name);
                push_str_chars(&mut m, ": ");
                push_str_chars(&mut m, u32_parse_error_text(raw.as_str()).as_str());
                push_str_chars(&mut m, " raw=");
                push_str_chars(&mut m, debug_text(raw.as_str()).as_str());
                assert(m@ =~= field_error(field@, name@));
                Err(crate::text::string_of_chars(m.as_slice()))
            },
        }
    }

    /// A field scaled by `k`; see [`scaled_field`].
    fn scaled(field: &[char], name: &str, k: u32) -> (r: Result<u32, Fault>)
        ensures
            answers(r, scaled_field(field@, name@, k as int)),
    {
        let v = match Self::parse_u32_field(field, name) {
            Ok(v) => v,
            Err(m) => return Err(Fault::Failure(m)),
        };
        let wide_v = v as u64;
        let wide_k = k as u64;
        assert(wide_v * wide_k <= 0xFFFF_FFFF * 0xFFFF_FFFF) by (nonlinear_arith)
            requires
                wide_v <= 0xFFFF_FFFF,
                wide_k <= 0xFFFF_FFFF,
        ;
        if wide_v * wide_k > 0xFFFF_FFFFu64 {
            return Err(Fault::Overflow);
        }
        Ok(v * k)
    }

    /// The sum of two times; see [`checked_sum`].
    fn sum(a: u32, b: u32) -> (r: Result<u32, Fault>)
        ensures
            answers(r, checked_sum(a, b)),
    {
        match a.checked_add(b) {
            Some(t) => Ok(t),
            None => Err(Fault::Overflow),
        }
    }

    /// A syllable time tag `[m:]s.xxx` in milliseconds; see [`syllable_time`].
    fn syllables_time_checked(&self, tag: &str) -> (r: Result<u32, Fault>)
        ensures
            answers(r, syllable_time(tag@)),
    {
        reveal(syllable_time);
        let cs = chars_of(tag);
        let (a, b) = trim_bounds(cs.as_slice(), 0, cs.len());
        assert(cs@.subrange(0, cs@.len() as int) =~= tag@);
        let t = subvec(cs.as_slice(), a, b);
        let (minutes, rest) = match split_once_chars(t.as_slice(), ':') {
            Some((m, rest)) => (Self::scaled(m.as_slice(), "minutes", 60_000)?, rest),
            None => (0, subvec(t.as_slice(), 0, t.len())),
        };
        assert(split_once(t@, ':') is None ==> rest@ =~= t@);
        let (seconds_str, centis_str) = match split_once_chars(rest.as_slice(), '.') {
            Some(p) => p,
            None => {
                return Err(Fault::Failure(not_found_in("seconds", &t)));
            },
        };
        let seconds = Self::scaled(seconds_str.as_slice(), "seconds", 1_000)?;
        let centis = match Self::parse_u32_field(centis_str.as_slice(), "centis") {
            Ok(v) => v,
            Err(m) => return Err(Fault::Failure(m)),
        };
        let ms = Self::sum(minutes, seconds)?;
        Self::sum(ms, centis)
    }

    /// Parses a syllable time tag `[m:]s.xxx` into milliseconds.
    pub fn parse_syllables_time(&self, tag: &str) -> (r: Result<u32, String>)
        requires
            syllable_time(tag@) !is Overflow,
        ensures
            reports(r, syllable_time(tag@)),
    {
        without_overflow(self.syllables_time_checked(tag))
    }

    /// A line time tag `h:m:s.cc` in milliseconds; see [`line_time`].
    fn time_checked(&self, tag: &str) -> (r: Result<u32, Fault>)
        ensures
            answers(r, line_time(tag@)),
    {
        reveal(line_time);
        let cs = chars_of(tag);
        let (a, b) = trim_bounds(cs.as_slice(), 0, cs.len());
        assert(cs@.subrange(0, cs@.len() as int) =~= tag@);
        let t = subvec(cs.as_slice(), a, b);
        let (hours_str, rest) = match split_once_chars(t.as_slice(), ':') {
            Some(p) => p,
            None => {
                return Err(Fault::Failure(not_found_in("hours", &t)));
            },
        };
        let (minutes_str, rest) = match split_once_chars(rest.as_slice(), ':') {
            Some(p) => p,
            None => {
                return Err(Fault::Failure(not_found_in("minutes", &t)));
            },
        };
        let (seconds_str, centis_str) = match split_once_chars(rest.as_slice(), '.') {
            Some(p) => p,
            None => {
                return Err(Fault::Failure(not_found_in("centis", &t)));
            },
        };
        let hours = Self::scaled(hours_str.as_slice(), "hours", 3_600_000)?;
        let minutes = Self::scaled(minutes_str.as_slice(), "minutes", 60_000)?;
        let seconds = Self::scaled(seconds_str.as_slice(), "seconds", 1_000)?;
        let centis = Self::scaled(centis_str.as_slice(), "centis", 10)?;
        let hm = Self::sum(hours, minutes)?;
        let hms = Self::sum(hm, seconds)?;
        Self::sum(hms, centis)
    }

    /// Parses a line time tag `h:m:s.cc` into milliseconds.
    pub fn parse_time(&self, tag: &str) -> (r: Result<u32, String>)
        requires
            line_time(tag@) !is Overflow,
        ensures
            reports(r, line_time(tag@)),
    {
        without_overflow(self.time_checked(tag))
    }
}

impl AppleMusicParser {
    /// The offset `t2 - t1` in milliseconds, which must fit in a `u16`.
    fn get_offset_time(&self, t1: u32, t2: u32) -> (r: Result<u16, String>)
        ensures
            match offset_time(t1, t2) {
                Some(d) => r == Ok::<u16, String>(d),
                None => r matches Err(m) && m@ == offset_error(t1, t2),
            },
    {
        if t2 < t1 {
            let mut m: Vec<char> = Vec::new();
            push_str_chars(&mut m, "AppleMusic Parsers: overflow (");
            push_decimal(&mut m, t1 as u64);
            push_str_chars(&mut m, " ");
            push_decimal(&mut m, t2 as u64);
            push_str_chars(&mut m, ")");
            assert(m@ =~= offset_error(t1, t2));
            return Err(crate::text::string_of_chars(m.as_slice()));
        }
        let diff = t2 - t1;
        if diff > 0xFFFF {
            return Err(offset_overflow_text(diff));
        }
        Ok(diff as u16)
    }

    /// The time tag whose value starts at `p` (right after `="`) in the line `line`, and the
    /// position of its closing quote.
    fn time_field<'a>(line: &'a str, p: usize) -> (r: Option<(&'a str, usize)>)
        requires
            p <= line.spec_bytes().len(),
            vstd::utf8::is_char_boundary(line.spec_bytes(), p as int),
        ensures
            match find_from(line.spec_bytes(), seq![quote()], p as int) {
                None => r is None,
                Some(q) => r matches Some(f) && f.1 == q && f.0@ == text_between(
                    line.spec_bytes(),
                    p as int,
                    q,
                ) && p <= q < line.spec_bytes().len(),
            },
    {
        let b = line.as_bytes();
        match find_byte(b, p, 34u8) {
            None => None,
            Some(q) => {
                proof {
                    encode_utf8_valid_utf8(line@);
                    lemma_at_pattern(b@, seq![quote()], q as int);
                }
                Some((str_range(line, p, q), q))
            },
        }
    }

    /// The syllable at or after `pos` in `line`; see [`next_syllable`].
    fn parse_next_syllable(&self, line: &str, pos: usize, lst: u32) -> (r: Result<
        Option<(TextInfo, usize)>,
        Fault,
    >)
        requires
            pos <= line.spec_bytes().len(),
        ensures
            match next_syllable(line.spec_bytes(), pos as int, lst) {
                Outcome::Value(None) => r matches Ok(None),
                Outcome::Value(Some(v)) => r matches Ok(Some(x)) && x.0.deep_view() == v.0 && x.1
                    == v.1,
                Outcome::Failure(m) => r matches Err(Fault::Failure(x)) && x@ == m,
                Outcome::Overflow => r matches Err(Fault::Overflow),
            },
    {
        let b = line.as_bytes();
        let ghost bs = line.spec_bytes();
        assert(b@.len() == b.len());
        proof {
            encode_utf8_valid_utf8(line@);
        }
        let begin = vec![105u8, 110u8, 61u8, 34u8];
        let end = vec![110u8, 100u8, 61u8, 34u8];
        assert(begin@ =~= begin_tag());
        assert(end@ =~= end_tag());
        let i = match find_bytes(b, pos, begin.as_slice()) {
            None => return Ok(None),
            Some(i) => i,
        };
        proof {
            lemma_after_pattern(bs, begin_tag(), i as int);
        }
        let (tag, q1) = match Self::time_field(line, i + 4) {
            None => return Err(Fault::Failure("AppleMusic Parser: word start_time not found".to_owned())),
            Some(f) => f,
        };
        let st = self.syllables_time_checked(tag)?;
        let i2 = match find_bytes(b, q1 + 1, end.as_slice()) {
            None => return Err(Fault::Failure("AppleMusic Parser: word end_time not found".to_owned())),
            Some(i2) => i2,
        };
        proof {
            lemma_after_pattern(bs, end_tag(), i2 as int);
        }
        let (tag, q2) = match Self::time_field(line, i2 + 4) {
            None => return Err(Fault::Failure("AppleMusic Parser: word end_time not found".to_owned())),
            Some(f) => f,
        };
        let et = self.syllables_time_checked(tag)?;
        let g = match find_byte(b, q2 + 1, 62u8) {
            None => return Err(Fault::Failure("AppleMusic Parser: failed to parse lyrics".to_owned())),
            Some(g) => g,
        };
        let l = match find_byte(b, g + 1, 60u8) {
            None => return Err(Fault::Failure("AppleMusic Parser: failed to parse lyrics".to_owned())),
            Some(l) => l,
        };
        proof {
            lemma_at_pattern(bs, seq![62u8], g as int);
            lemma_after_pattern(bs, seq![62u8], g as int);
            lemma_at_pattern(bs, seq![60u8], l as int);
        }
        let text = str_range(line, g + 1, l).to_owned();
        let start_time = match self.get_offset_time(lst, st) {
            Ok(d) => d,
            Err(m) => return Err(Fault::Failure(m)),
        };
        let duration = match self.get_offset_time(st, et) {
            Ok(d) => d,
            Err(m) => return Err(Fault::Failure(m)),
        };
        Ok(Some((TextInfo { start_time, duration, text }, l + 1)))
    }

    /// The syllables of `line` from `pos` on; see [`syllables_from`].
    fn parse_syllables_from(&self, line: &str, from: usize, lst: u32) -> (r: Result<
        Vec<TextInfo>,
        Fault,
    >)
        requires
            from <= line.spec_bytes().len(),
        ensures
            answers_view(r, syllables_from(line.spec_bytes(), from as int, lst)),
    {
        let ghost bs = line.spec_bytes();
        let mut pos = from;
        let mut textinfo: Vec<TextInfo> = Vec::new();
        let ghost whole = syllables_from(bs, pos as int, lst);
        assert(textinfo.deep_view() =~= seq![]);
        assert(after(textinfo.deep_view(), whole) =~= whole);
        loop
            invariant
                bs == line.spec_bytes(),
                whole == syllables_from(bs, from as int, lst),
                pos <= bs.len(),
                after(textinfo.deep_view(), syllables_from(bs, pos as int, lst)) == whole,
            ensures
                whole matches Outcome::Value(w) && w == textinfo.deep_view(),
            decreases bs.len() - pos,
        {
            match self.parse_next_syllable(line, pos, lst)? {
                None => {
                    assert(textinfo.deep_view() + seq![] =~= textinfo.deep_view());
                    break;
                },
                Some((x, np)) => {
                    proof {
                        lemma_next_syllable_advances(bs, pos as int, lst);
                    }
                    let ghost before = textinfo.deep_view();
                    textinfo.push(x);
                    assert(textinfo.deep_view() =~= before + seq![x.deep_view()]);
                    pos = np;
                    proof {
                        let rest = syllables_from(bs, pos as int, lst);
                        if let Outcome::Value(rv) = rest {
                            assert(before + (seq![x.deep_view()] + rv) =~= textinfo.deep_view()
                                + rv);
                        }
                    }
                },
            }
        }
        Ok(textinfo)
    }

    /// One syllable-synced line `<p begin=".." end="..">` with its
    /// `<span begin=".." end="..">text</span>` syllables.
    fn syllables_line_checked(&self, line: &str) -> (r: Result<LineInfo, Fault>)
        ensures
            answers_view(r, syllable_line(line.spec_bytes())),
    {
        reveal(syllable_line);
        let b = line.as_bytes();
        let ghost bs = line.spec_bytes();
        assert(b@.len() == b.len());
        proof {
            encode_utf8_valid_utf8(line@);
        }
        let begin = vec![105u8, 110u8, 61u8, 34u8];
        let end = vec![110u8, 100u8, 61u8, 34u8];
        assert(begin@ =~= begin_tag());
        assert(end@ =~= end_tag());
        let i = match find_bytes(b, 0, begin.as_slice()) {
            None => return Err(Fault::Failure("AppleMusic Parser: line start_time not found".to_owned())),
            Some(i) => i,
        };
        proof {
            lemma_after_pattern(bs, begin_tag(), i as int);
        }
        let (tag, q1) = match Self::time_field(line, i + 4) {
            None => return Err(Fault::Failure("AppleMusic Parser: line start_time not found".to_owned())),
            Some(f) => f,
        };
        let lst = self.syllables_time_checked(tag)?;
        let i2 = match find_bytes(b, q1 + 1, end.as_slice()) {
            None => return Err(Fault::Failure("AppleMusic Parser: line end_time not found".to_owned())),
            Some(i2) => i2,
        };
        proof {
            lemma_after_pattern(bs, end_tag(), i2 as int);
        }
        let (tag, q2) = match Self::time_field(line, i2 + 4) {
            None => return Err(Fault::Failure("AppleMusic Parser: line end_time not found".to_owned())),
            Some(f) => f,
        };
        let end_time = self.syllables_time_checked(tag)?;
        if end_time < lst {
            let mut m: Vec<char> = Vec::new();
            push_str_chars(&mut m, "AppleMusic Parser: line end_time before start_time: ");
            push_decimal(&mut m, end_time as u64);
            push_str_chars(&mut m, " < ");
            push_decimal(&mut m, lst as u64);
            assert(m@ =~= end_before_start_text(end_time, lst));
            return Err(Fault::Failure(crate::text::string_of_chars(m.as_slice())));
        }
        let ld = end_time - lst;
        let textinfo = self.parse_syllables_from(line, q2 + 1, lst)?;
        if ld > 0xFFFF {
            return Err(Fault::Failure(offset_overflow_text(ld)));
        }
        Ok(LineInfo { start_time: lst, duration: ld as u16, text: String::new(), syllables: textinfo })
    }

    /// Parses one syllable-synced line `<p begin=".." end="..">` with its
    /// `<span begin=".." end="..">text</span>` syllables.
    pub fn parse_syllables_line(&self, line: &str) -> (r: Result<LineInfo, String>)
        requires
            syllable_line(line.spec_bytes()) !is Overflow,
        ensures
            reports_view(r, syllable_line(line.spec_bytes())),
    {
        without_overflow(self.syllables_line_checked(line))
    }
}

impl AppleMusicParser {
    /// Syllable-synced lyrics: each `<p ...>...</p` is a line of syllables; see
    /// [`paragraph_lines`].
    fn syllables_checked(&self, lyrics: &String) -> (r: Result<Vec<LineInfo>, Fault>)
        ensures
            answers_view(r, paragraph_lines(encode_utf8(lyrics@), 0, 0)),
    {
        let s = lyrics.as_str();
        let b = s.as_bytes();
        let ghost bs = s.spec_bytes();
        assert(bs == encode_utf8(lyrics@));
        assert(b@.len() == b.len());
        proof {
            encode_utf8_valid_utf8(s@);
        }
        let open = vec![60u8, 112u8];
        let close = vec![60u8, 47u8, 112u8];
        assert(open@ =~= p_open());
        assert(close@ =~= p_close());
        let mut il: usize = 0;
        let mut ie: usize = 0;
        let mut lineinfo: Vec<LineInfo> = Vec::new();
        let ghost whole = paragraph_lines(bs, 0, 0);
        assert(lineinfo.deep_view() =~= seq![]);
        assert(after(lineinfo.deep_view(), whole) =~= whole);
        loop
            invariant
                bs == s.spec_bytes(),
                bs == encode_utf8(lyrics@),
                b@ == bs,
                b@.len() == b.len(),
                valid_utf8(bs),
                open@ == p_open(),
                close@ == p_close(),
                il <= bs.len(),
                ie <= bs.len(),
                whole == paragraph_lines(bs, 0, 0),
                after(lineinfo.deep_view(), paragraph_lines(bs, il as int, ie as int)) == whole,
            ensures
                whole matches Outcome::Value(w) && w == lineinfo.deep_view(),
            decreases bs.len() - il,
        {
            let l = match find_bytes(b, il, open.as_slice()) {
                None => {
                    assert(lineinfo.deep_view() + seq![] =~= lineinfo.deep_view());
                    break;
                },
                Some(l) => l,
            };
            let e = match find_bytes(b, ie, close.as_slice()) {
                None => {
                    assert(lineinfo.deep_view() + seq![] =~= lineinfo.deep_view());
                    break;
                },
                Some(e) => e,
            };
            if l >= e {
                let m = "AppleMusic Parser: Unexpected error".to_owned();
                proof {
                    reveal_strlit("AppleMusic Parser: Unexpected error");
                }
                assert(m@ == unexpected_error_text());
                return Err(Fault::Failure(m));
            }
            proof {
                lemma_at_pattern(bs, p_open(), l as int);
                lemma_at_pattern(bs, p_close(), e as int);
            }
            let line = str_range(s, l, e);
            let x = self.syllables_line_checked(line)?;
            let ghost before = lineinfo.deep_view();
            lineinfo.push(x);
            assert(lineinfo.deep_view() =~= before + seq![x.deep_view()]);
            il = l + 2;
            ie = e + 3;
            proof {
                let rest = paragraph_lines(bs, il as int, ie as int);
                if let Outcome::Value(rv) = rest {
                    assert(before + (seq![x.deep_view()] + rv) =~= lineinfo.deep_view() + rv);
                }
            }
        }
        Ok(lineinfo)
    }

    /// The lines of line-synced lyrics `u`; see [`plain_lines`].
    fn parse_plain_lines(&self, u: &str) -> (r: Result<Vec<LineInfo>, Fault>)
        ensures
            answers_view(r, plain_lines(u.spec_bytes(), 0)),
    {
        let b = u.as_bytes();
        let ghost bs = u.spec_bytes();
        assert(b@.len() == b.len());
        proof {
            encode_utf8_valid_utf8(u@);
        }
        let eq = vec![61u8, 34u8];
        assert(eq@ =~= attr_tag());
        let mut it: usize = 0;
        let mut lineinfo: Vec<LineInfo> = Vec::new();
        let ghost whole = plain_lines(bs, 0);
        assert(lineinfo.deep_view() =~= seq![]);
        assert(after(lineinfo.deep_view(), whole) =~= whole);
        loop
            invariant
                bs == u.spec_bytes(),
                b@ == bs,
                b@.len() == b.len(),
                valid_utf8(bs),
                eq@ == attr_tag(),
                it <= bs.len(),
                whole == plain_lines(bs, 0),
                after(lineinfo.deep_view(), plain_lines(bs, it as int)) == whole,
            ensures
                whole matches Outcome::Value(w) && w == lineinfo.deep_view(),
            decreases bs.len() - it,
        {
            let u1 = match find_bytes(b, it, eq.as_slice()) {
                None => {
                    assert(lineinfo.deep_view() + seq![] =~= lineinfo.deep_view());
                    break;
                },
                Some(u1) => u1,
            };
            proof {
                lemma_after_pattern(bs, attr_tag(), u1 as int);
            }
            let (tag, _c1) = match Self::time_field(u, u1 + 2) {
                None => return Err(Fault::Failure("AppleMusic Parser: start_time not found".to_owned())),
                Some(f) => f,
            };
            let st = self.time_checked(tag)?;
            let u2 = match find_bytes(b, u1 + 2, eq.as_slice()) {
                None => {
                    assert(lineinfo.deep_view() + seq![] =~= lineinfo.deep_view());
                    break;
                },
                Some(u2) => u2,
            };
            proof {
                lemma_after_pattern(bs, attr_tag(), u2 as int);
            }
            let (tag, c2) = match Self::time_field(u, u2 + 2) {
                None => return Err(Fault::Failure("AppleMusic Parser: end_time not found".to_owned())),
                Some(f) => f,
            };
            let et = self.time_checked(tag)?;
            let g = match find_byte(b, c2 + 1, 62u8) {
                None => return Err(Fault::Failure("AppleMusic Parser: failed to parse lyrics".to_owned())),
                Some(g) => g,
            };
            let l = match find_byte(b, g + 1, 60u8) {
                None => return Err(Fault::Failure("AppleMusic Parser: failed to parse lyrics".to_owned())),
                Some(l) => l,
            };
            proof {
                lemma_after_pattern(bs, seq![62u8], g as int);
                lemma_at_pattern(bs, seq![60u8], l as int);
            }
            let text = str_range(u, g + 1, l).to_owned();
            let duration = match self.get_offset_time(st, et) {
                Ok(d) => d,
                Err(m) => return Err(Fault::Failure(m)),
            };
            let x = LineInfo { start_time: st, duration, text, syllables: Vec::new() };
            let ghost before = lineinfo.deep_view();
            lineinfo.push(x);
            assert(x.syllables.deep_view() =~= seq![]);
            assert(lineinfo.deep_view() =~= before + seq![x.deep_view()]);
            it = u2 + 2;
            proof {
                let rest = plain_lines(bs, it as int);
                if let Outcome::Value(rv) = rest {
                    assert(before + (seq![x.deep_view()] + rv) =~= lineinfo.deep_view() + rv);
                }
            }
        }
        Ok(lineinfo)
    }

    /// Line-synced lyrics: the lines after the first `div`; see [`div_lines`].
    fn w_checked(&self, lyrics: &String) -> (r: Result<Vec<LineInfo>, Fault>)
        ensures
            answers_view(r, div_lines(encode_utf8(lyrics@))),
    {
        let s = lyrics.as_str();
        let b = s.as_bytes();
        let ghost bs = s.spec_bytes();
        assert(b@.len() == b.len());
        proof {
            encode_utf8_valid_utf8(s@);
            is_char_boundary_start_end_of_seq(bs);
        }
        let div = vec![100u8, 105u8, 118u8];
        assert(div@ =~= div_tag());
        let cpos = match find_bytes(b, 0, div.as_slice()) {
            None => {
                let m = "AppleMusic Parser: lyrics body not found".to_owned();
                proof {
                    reveal_strlit("AppleMusic Parser: lyrics body not found");
                }
                assert(m@ == body_not_found_text());
                return Err(Fault::Failure(m));
            },
            Some(c) => c,
        };
        proof {
            lemma_at_pattern(bs, div_tag(), cpos as int);
        }
        let ulyrics = str_range(s, cpos, b.len());
        self.parse_plain_lines(ulyrics)
    }

    /// Apple Music lyrics, syllable-synced when they contain `span`, line-synced otherwise;
    /// see [`lyrics_lines`].
    fn lyrics_checked(&self, lyrics: &String) -> (r: Result<Vec<LineInfo>, Fault>)
        ensures
            answers_view(r, lyrics_lines(encode_utf8(lyrics@))),
    {
        let span = vec![115u8, 112u8, 97u8, 110u8];
        assert(span@ =~= span_tag());
        let has_span = find_bytes(lyrics.as_str().as_bytes(), 0, span.as_slice()).is_some();
        if has_span {
            self.syllables_checked(lyrics)
        } else {
            self.w_checked(lyrics)
        }
    }

    /// Parses syllable-synced lyrics: each `<p ...>...</p` is a line of syllables.
    pub fn parse_syllables(&self, lyrics: String) -> (r: Result<Vec<LineInfo>, String>)
        requires
            paragraph_lines(encode_utf8(lyrics@), 0, 0) !is Overflow,
        ensures
            reports_view(r, paragraph_lines(encode_utf8(lyrics@), 0, 0)),
    {
        without_overflow(self.syllables_checked(&lyrics))
    }

    /// Parses line-synced lyrics: the lines after the first `div`.
    pub fn parse_w(&self, lyrics: String) -> (r: Result<Vec<LineInfo>, String>)
        requires
            div_lines(encode_utf8(lyrics@)) !is Overflow,
        ensures
            reports_view(r, div_lines(encode_utf8(lyrics@))),
    {
        without_overflow(self.w_checked(&lyrics))
    }

    /// Parses Apple Music lyrics, syllable-synced when they contain `span`, line-synced
    /// otherwise.
    pub fn parse_without_st(&self, lyrics: String) -> (r: Result<Vec<LineInfo>, String>)
        requires
            lyrics_lines(encode_utf8(lyrics@)) !is Overflow,
        ensures
            reports_view(r, lyrics_lines(encode_utf8(lyrics@))),
            r matches Ok(v) ==> lyrics_shape(encode_utf8(lyrics@), v.deep_view()),
    {
        proof {
            lemma_lyrics_lines_shape(encode_utf8(lyrics@));
        }
        without_overflow(self.lyrics_checked(&lyrics))
    }

    /// Parses Apple Music lyrics; see [`AppleMusicParser::parse_without_st`].
    pub fn parse(&self, lyrics: String) -> (r: Result<Vec<LineInfo>, String>)
        requires
            lyrics_lines(encode_utf8(lyrics@)) !is Overflow,
        ensures
            reports_view(r, lyrics_lines(encode_utf8(lyrics@))),
            r matches Ok(v) ==> lyrics_shape(encode_utf8(lyrics@), v.deep_view()),
    {
        self.parse_without_st(lyrics)
    }

    /// Parses Apple Music lyrics, telling an arithmetic overflow apart: `None` exactly when
    /// the times overflow a `u32` (on which [`AppleMusicParser::parse`] may not be called);
    /// otherwise what `parse` gives.
    pub fn parse_checked(&self, lyrics: String) -> (r: Option<Result<Vec<LineInfo>, String>>)
        ensures
            lyrics_lines(encode_utf8(lyrics@)) is Overflow <==> r is None,
            r matches Some(x) ==> reports_view(x, lyrics_lines(encode_utf8(lyrics@))),
            r matches Some(Ok(v)) ==> lyrics_shape(encode_utf8(lyrics@), v.deep_view()),
    {
        proof {
            lemma_lyrics_lines_shape(encode_utf8(lyrics@));
        }
        match self.lyrics_checked(&lyrics) {
            Ok(v) => Some(Ok(v)),
            Err(Fault::Failure(m)) => Some(Err(m)),
            Err(Fault::Overflow) => None,
        }
    }
}

} // verus!
