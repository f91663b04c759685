//! Log levels, and the settings that decide which log lines are written.

use vstd::prelude::*;
use crate::text::{chars_of, eq_ignore_ascii_case, eq_ignore_case, literal_chars, trim};

verus! {

/// How serious a log line is.
#[derive(Debug, Clone, Copy, PartialEq, Eq)]
pub enum LogLevel {
    Debug,
    Info,
    Warn,
    Error,
}

/// The number of a level: 0 for debug up to 3 for error.
pub open spec fn level_number(l: LogLevel) -> u8 {
    match l {
        LogLevel::Debug => 0,
        LogLevel::Info => 1,
        LogLevel::Warn => 2,
        LogLevel::Error => 3,
    }
}

/// The level of a number; any other number is info.
pub open spec fn level_of_number(v: u8) -> LogLevel {
    if v == 0 {
        LogLevel::Debug
    } else if v == 1 {
        LogLevel::Info
    } else if v == 2 {
        LogLevel::Warn
    } else if v == 3 {
        LogLevel::Error
    } else {
        LogLevel::Info
    }
}

/// The lower case name of a level.
pub open spec fn level_lower(l: LogLevel) -> Seq<char> {
    match l {
        LogLevel::Debug => "debug"@,
        LogLevel::Info => "info"@,
        LogLevel::Warn => "warn"@,
        LogLevel::Error => "error"@,
    }
}

/// The upper case name of a level, as log lines show it.
pub open spec fn level_upper(l: LogLevel) -> Seq<char> {
    match l {
        LogLevel::Debug => "DEBUG"@,
        LogLevel::Info => "INFO"@,
        LogLevel::Warn => "WARN"@,
        LogLevel::Error => "ERROR"@,
    }
}

/// The level a name gives, in any ASCII case; any other name is info.
pub open spec fn level_of_name(s: Seq<char>) -> LogLevel {
    if eq_ignore_ascii_case(s, "debug"@) {
        LogLevel::Debug
    } else if eq_ignore_ascii_case(s, "info"@) {
        LogLevel::Info
    } else if eq_ignore_ascii_case(s, "warn"@) {
        LogLevel::Warn
    } else if eq_ignore_ascii_case(s, "error"@) {
        LogLevel::Error
    } else {
        LogLevel::Info
    }
}

impl LogLevel {
    /// The lower case name of the level.
    pub fn as_str_lower(&self) -> (r: &'static str)
        ensures
            r@ == level_lower(*self),
    {
        match self {
            LogLevel::Debug => "debug",
            LogLevel::Info => "info",
            LogLevel::Warn => "warn",
            LogLevel::Error => "error",
        }
    }

    /// The upper case name of the level, as log lines show it.
    pub fn name(&self) -> (r: &'static str)
        ensures
            r@ == level_upper(*self),
    {
        match self {
            LogLevel::Debug => "DEBUG",
            LogLevel::Info => "INFO",
            LogLevel::Warn => "WARN",
            LogLevel::Error => "ERROR",
        }
    }

    /// The number of the level.
    pub fn as_u8(&self) -> (r: u8)
        ensures
            r == level_number(*self),
    {
        match self {
            LogLevel::Debug => 0,
            LogLevel::Info => 1,
            LogLevel::Warn => 2,
            LogLevel::Error => 3,
        }
    }

    /// The level numbered `val`; any other number is info.
    pub fn from_u8(val: u8) -> (r: LogLevel)
        ensures
            r == level_of_number(val),
    {
        if val == 0 {
            LogLevel::Debug
        } else if val == 1 {
            LogLevel::Info
        } else if val == 2 {
            LogLevel::Warn
        } else if val == 3 {
            LogLevel::Error
        } else {
            LogLevel::Info
        }
    }

    /// The level named `s` in any ASCII case; any other name is info.
    pub fn from_str(s: &str) -> (r: LogLevel)
        ensures
            r == level_of_name(s@),
    {
        let cs = chars_of(s);
        let debug = literal_chars("debug");
        let info = literal_chars("info");
        let warn = literal_chars("warn");
        let error = literal_chars("error");
        if eq_ignore_case(cs.as_slice(), debug.as_slice()) {
            LogLevel::Debug
        } else if eq_ignore_case(cs.as_slice(), info.as_slice()) {
            LogLevel::Info
        } else if eq_ignore_case(cs.as_slice(), warn.as_slice()) {
            LogLevel::Warn
        } else if eq_ignore_case(cs.as_slice(), error.as_slice()) {
            LogLevel::Error
        } else {
            LogLevel::Info
        }
    }
}

/// The number of the level named `level`.
pub fn level_to_u8(level: &str) -> (r: u8)
    ensures
        r == level_number(level_of_name(level@)),
{
    LogLevel::from_str(level).as_u8()
}

/// A level's number gives the level back, and so does its lower case name.
pub proof fn lemma_level_round_trip(l: LogLevel)
    ensures
        level_of_number(level_number(l)) == l,
        level_of_name(level_lower(l)) == l,
{
    reveal_strlit("debug");
    reveal_strlit("info");
    reveal_strlit("warn");
    reveal_strlit("error");
    match l {
        LogLevel::Debug => {
            assert(eq_ignore_ascii_case("debug"@, "debug"@));
        },
        LogLevel::Info => {
            assert(!eq_ignore_ascii_case("info"@, "debug"@));
            assert(eq_ignore_ascii_case("info"@, "info"@));
        },
        LogLevel::Warn => {
            assert(!eq_ignore_ascii_case("warn"@, "debug"@));
            assert(!eq_ignore_ascii_case("warn"@, "info"@)) by {
                assert(crate::text::ascii_lower("warn"@[0]) != "info"@[0] as u32 as int);
            }
            assert(eq_ignore_ascii_case("warn"@, "warn"@));
        },
        LogLevel::Error => {
            assert(!eq_ignore_ascii_case("error"@, "debug"@)) by {
                assert(crate::text::ascii_lower("error"@[0]) != "debug"@[0] as u32 as int);
            }
            assert(!eq_ignore_ascii_case("error"@, "info"@));
            assert(!eq_ignore_ascii_case("error"@, "warn"@));
            assert(eq_ignore_ascii_case("error"@, "error"@));
        },
    }
}

/// The lower case name of a level is its upper case name with the ASCII letters made lower
/// case (what `to_ascii_lowercase` gives).
pub proof fn lemma_lower_name_is_lowered_upper_name(l: LogLevel)
    ensures
        eq_ignore_ascii_case(level_upper(l), level_lower(l)),
{
    reveal_strlit("debug");
    reveal_strlit("info");
    reveal_strlit("warn");
    reveal_strlit("error");
    reveal_strlit("DEBUG");
    reveal_strlit("INFO");
    reveal_strlit("WARN");
    reveal_strlit("ERROR");
    let u = level_upper(l);
    let w = level_lower(l);
    assert forall|i: int| 0 <= i < u.len() implies crate::text::ascii_lower(#[trigger] u[i])
        == w[i] as u32 as int by {
        assert('A' <= u[i] && u[i] <= 'Z');
        assert(u[i] as u32 + 32 == w[i] as u32);
    }
}

/// The code of `c` with ASCII lower case letters made upper case.
pub open spec fn ascii_upper_code(c: char) -> int {
    if 'a' <= c && c <= 'z' {
        (c as u32) - 32
    } else {
        c as u32 as int
    }
}

/// `s.to_ascii_uppercase()` reads `t`.
pub open spec fn ascii_uppercase_is(s: Seq<char>, t: Seq<char>) -> bool {
    s.len() == t.len() && forall|i: int|
        0 <= i < s.len() ==> ascii_upper_code(#[trigger] s[i]) == t[i] as u32 as int
}

/// For a lower case ASCII letter `l` and its upper case form `u`, `c` is `l` ignoring ASCII
/// case exactly when `c` made ASCII upper case is `u`.
proof fn lemma_case_char(c: char, l: char, u: char)
    requires
        'a' <= l && l <= 'z',
        (u as u32) + 32 == l as u32,
    ensures
        (crate::text::ascii_lower(c) == l as u32 as int) <==> (ascii_upper_code(c) == u as u32
            as int),
{
    let ci: int = c as u32 as int;
    let li: int = l as u32 as int;
    let ui: int = u as u32 as int;
    assert(97 <= li && li <= 122);
    assert(ui == li - 32);
    if 'A' <= c && c <= 'Z' {
        assert(65 <= ci && ci <= 90);
        assert(crate::text::ascii_lower(c) == ci + 32);
        assert(ascii_upper_code(c) == ci);
    } else if 'a' <= c && c <= 'z' {
        assert(97 <= ci && ci <= 122);
        assert(crate::text::ascii_lower(c) == ci);
        assert(ascii_upper_code(c) == ci - 32);
    } else {
        assert(ci < 65 || (90 < ci && ci < 97) || 122 < ci);
        assert(crate::text::ascii_lower(c) == ci);
        assert(ascii_upper_code(c) == ci);
    }
}

/// For a lower case ASCII word `lower` and its upper case form `upper`, `s` equals `lower`
/// ignoring ASCII case exactly when `s` made ASCII upper case reads `upper`.
proof fn lemma_case_forms(s: Seq<char>, lower: Seq<char>, upper: Seq<char>)
    requires
        lower.len() == upper.len(),
        forall|i: int|
            0 <= i < lower.len() ==> 'a' <= #[trigger] lower[i] && lower[i] <= 'z' && (upper[i]
                as u32) + 32 == lower[i] as u32,
    ensures
        eq_ignore_ascii_case(s, lower) <==> ascii_uppercase_is(s, upper),
{
    if s.len() == lower.len() {
        assert forall|i: int| 0 <= i < s.len() implies (crate::text::ascii_lower(s[i])
            == lower[i] as u32 as int <==> ascii_upper_code(s[i]) == upper[i] as u32 as int) by {
            lemma_case_char(s[i], lower[i], upper[i]);
        }
    }
}

/// `LogLevel::from_str` compares the name made ASCII upper case with `DEBUG`, `INFO`, `WARN`
/// and `ERROR` (with no trimming), and gives info for any other name.
pub proof fn lemma_level_of_uppercase_name(s: Seq<char>)
    ensures
        level_of_name(s) == if ascii_uppercase_is(s, "DEBUG"@) {
            LogLevel::Debug
        } else if ascii_uppercase_is(s, "INFO"@) {
            LogLevel::Info
        } else if ascii_uppercase_is(s, "WARN"@) {
            LogLevel::Warn
        } else if ascii_uppercase_is(s, "ERROR"@) {
            LogLevel::Error
        } else {
            LogLevel::Info
        },
{
    reveal_strlit("debug");
    reveal_strlit("info");
    reveal_strlit("warn");
    reveal_strlit("error");
    reveal_strlit("DEBUG");
    reveal_strlit("INFO");
    reveal_strlit("WARN");
    reveal_strlit("ERROR");
    lemma_case_forms(s, "debug"@, "DEBUG"@);
    lemma_case_forms(s, "info"@, "INFO"@);
    lemma_case_forms(s, "warn"@, "WARN"@);
    lemma_case_forms(s, "error"@, "ERROR"@);
}

/// The upper case name a level is shown by gives the level back.
pub proof fn lemma_level_name_round_trip(l: LogLevel)
    ensures
        level_of_name(level_upper(l)) == l,
{
    reveal_strlit("DEBUG");
    reveal_strlit("INFO");
    reveal_strlit("WARN");
    reveal_strlit("ERROR");
    lemma_level_of_uppercase_name("DEBUG"@);
    lemma_level_of_uppercase_name("INFO"@);
    lemma_level_of_uppercase_name("WARN"@);
    lemma_level_of_uppercase_name("ERROR"@);
    match l {
        LogLevel::Debug => {
            assert(ascii_uppercase_is("DEBUG"@, "DEBUG"@));
        },
        LogLevel::Info => {
            assert(!ascii_uppercase_is("INFO"@, "DEBUG"@));
            assert(ascii_uppercase_is("INFO"@, "INFO"@));
        },
        LogLevel::Warn => {
            assert(!ascii_uppercase_is("WARN"@, "DEBUG"@));
            assert(!ascii_uppercase_is("WARN"@, "INFO"@)) by {
                assert(ascii_upper_code("WARN"@[0]) != "INFO"@[0] as u32 as int);
            }
            assert(ascii_uppercase_is("WARN"@, "WARN"@));
        },
        LogLevel::Error => {
            assert(!ascii_uppercase_is("ERROR"@, "DEBUG"@)) by {
                assert(ascii_upper_code("ERROR"@[0]) != "DEBUG"@[0] as u32 as int);
            }
            assert(!ascii_uppercase_is("ERROR"@, "INFO"@));
            assert(!ascii_uppercase_is("ERROR"@, "WARN"@));
            assert(ascii_uppercase_is("ERROR"@, "ERROR"@));
        },
    }
}

/// Setting the level by a name and reading it back gives the lower case name of the level that
/// the name gives.
pub proof fn lemma_level_read_back(name: Seq<char>)
    ensures
        level_lower(level_of_number(level_number(level_of_name(name)))) == level_lower(
            level_of_name(name),
        ),
{
    lemma_level_round_trip(level_of_name(name));
}

/// The tags of a filter as they are kept: each trimmed, the empty ones dropped.
pub open spec fn normalized_tags(tags: Seq<Seq<char>>) -> Seq<Seq<char>>
    decreases tags.len(),
{
    if tags.len() == 0 {
        seq![]
    } else {
        let prev = normalized_tags(tags.drop_last());
        let t = trim(tags.last());
        if t.len() == 0 {
            prev
        } else {
            prev.push(t)
        }
    }
}

/// The settings of the log: the lowest level written, and a filter by tag.
pub struct LoggerState {
    level: u8,
    filter_tags: Vec<String>,
    filter_invert: bool,
}

impl LoggerState {
    /// The number of the lowest level written.
    pub closed spec fn level(&self) -> u8 {
        self.level
    }

    /// The filter's tags.
    pub closed spec fn tags(&self) -> Seq<Seq<char>> {
        self.filter_tags.deep_view()
    }

    /// Whether the filter keeps only its tags (else it drops them).
    pub closed spec fn invert(&self) -> bool {
        self.filter_invert
    }

    /// Info and above are written, with no filter.
    pub fn new() -> (r: LoggerState)
        ensures
            r.level() == 1,
            r.tags() == Seq::<Seq<char>>::empty(),
            !r.invert(),
    {
        let r = LoggerState { level: 1, filter_tags: Vec::new(), filter_invert: false };
        assert(r.filter_tags.deep_view() =~= Seq::<Seq<char>>::empty());
        r
    }

    /// Writes the level named `level` and above (info for an unknown name).
    pub fn set_level(&mut self, level: &str)
        ensures
            final(self).level() == level_number(level_of_name(level@)),
            final(self).tags() == old(self).tags(),
            final(self).invert() == old(self).invert(),
    {
        self.level = level_to_u8(level);
    }

    /// The lower case name of the lowest level written.
    pub fn get_level(&self) -> (r: String)
        ensures
            r@ == level_lower(level_of_number(self.level())),
    {
        LogLevel::from_u8(self.level).as_str_lower().to_string()
    }

    /// Filters log lines by `tags` (trimmed, the empty ones dropped): lines with one of these
    /// tags are dropped, or, when `invert`, only they are written.
    pub fn set_filter(&mut self, tags: Vec<String>, invert: bool)
        ensures
            final(self).tags() == normalized_tags(tags.deep_view()),
            final(self).invert() == invert,
            final(self).level() == old(self).level(),
    {
        let mut normalized: Vec<String> = Vec::new();
        let mut k: usize = 0;
        while k < tags.len()
            invariant
                k <= tags@.len(),
                normalized.deep_view() == normalized_tags(tags.deep_view().take(k as int)),
            decreases tags@.len() - k,
        {
            assert(tags.deep_view().take(k + 1).drop_last() =~= tags.deep_view().take(k as int));
            assert(tags.deep_view().take(k + 1).last() == tags[k as int]@);
            let t = crate::text::trim_string(tags[k].as_str());
            if !t.as_str().is_empty() {
                let ghost before = normalized.deep_view();
                normalized.push(t);
                assert(normalized.deep_view() =~= before.push(t@));
            }
            k = k + 1;
        }
        assert(tags.deep_view().take(k as int) =~= tags.deep_view());
        self.filter_tags = normalized;
        self.filter_invert = invert;
    }

    /// The filter's tags.
    pub fn get_filter_tags(&self) -> (r: Vec<String>)
        ensures
            r.deep_view() == self.tags(),
    {
        let mut r: Vec<String> = Vec::new();
        let mut k: usize = 0;
        while k < self.filter_tags.len()
            invariant
                k <= self.filter_tags@.len(),
                r.deep_view() == self.filter_tags.deep_view().take(k as int),
            decreases self.filter_tags@.len() - k,
        {
            let ghost before = r.deep_view();
            r.push(self.filter_tags[k].clone());
            assert(r.deep_view() =~= before.push(self.filter_tags[k as int]@));
            k = k + 1;
            assert(r.deep_view() =~= self.filter_tags.deep_view().take(k as int));
        }
        assert(self.filter_tags.deep_view().take(k as int) =~= self.filter_tags.deep_view());
        r
    }

    /// Whether the filter keeps only its tags.
    pub fn get_filter_invert(&self) -> (r: bool)
        ensures
            r == self.invert(),
    {
        self.filter_invert
    }

    /// Whether a line tagged `tag` at `level` is written: its level is at least the lowest
    /// written, and, with a filter, its tag is not among the filter's tags (is among them,
    /// when the filter is inverted).
    pub fn should_log(&self, tag: &str, level: LogLevel) -> (r: bool)
        ensures
            r == (level_number(level) >= self.level() && (self.tags().len() == 0 || (
            self.tags().contains(tag@) == self.invert()))),
    {
        if level.as_u8() < self.level {
            return false;
        }
        if self.filter_tags.len() > 0 {
            let mut matched = false;
            let mut k: usize = 0;
            while k < self.filter_tags.len()
                invariant
                    k <= self.filter_tags@.len(),
                    matched == self.filter_tags.deep_view().take(k as int).contains(tag@),
                decreases self.filter_tags@.len() - k,
            {
                let ghost prev = self.filter_tags.deep_view().take(k as int);
                assert(self.filter_tags.deep_view().take(k + 1) =~= prev.push(
                    self.filter_tags[k as int]@,
                ));
                let same = crate::text::str_eq(self.filter_tags[k].as_str(), tag);
                proof {
                    let next = prev.push(self.filter_tags[k as int]@);
                    if matched {
                        let j = choose|j: int| 0 <= j < prev.len() && prev[j] == tag@;
                        assert(next[j] == tag@);
                    }
                    if same {
                        assert(next[k as int] == tag@);
                    }
                    if next.contains(tag@) {
                        let j = choose|j: int| 0 <= j < next.len() && next[j] == tag@;
                        if j < prev.len() {
                            assert(prev[j] == tag@);
                        }
                    }
                }
                matched = matched || same;
                k = k + 1;
            }
            assert(self.filter_tags.deep_view().take(k as int) =~= self.filter_tags.deep_view());
            if matched != self.filter_invert {
                return false;
            }
        }
        true
    }
}

} // verus!
