//! The lyrics files that QQ Music keeps on this machine: their names, the setting that says
//! where they are, and which of them belongs to a track.

use vstd::prelude::*;
use crate::error::general::GeneralError;
use crate::error::{LyrixError, LyrixResult};
use crate::models::track_metadata::TrackMetadata;
use crate::text::{
    all_ascii_digits, chars_of, eq_ignore_ascii_case, eq_ignore_case, is_ascii_digit,
    literal_chars, matches_at, occurs_at, rfind, rfind_in, split_at_char, split_chars, split_once,
    split_once_chars, string_of_chars, subvec, trim, trim_bounds, trim_end, trim_start,
    is_white_space, rfind_upto,
};

verus! {

/// What the name of a QQ Music lyrics file tells of its track.
#[derive(Debug, Clone, PartialEq, Eq)]
pub struct QQMusicQrcFilenameInfo {
    pub artist: String,
    pub title: String,
    pub index: String,
    pub album: String,
}

/// The parts of a lyrics file name `artist - title - index - album_qm.qrc`: the name is trimmed,
/// must end with `_qm.qrc`, and is cut at its last three ` - ` (as `rsplitn(4, " - ")` cuts it);
/// each part is trimmed.
pub open spec fn qrc_filename_parts(name: Seq<char>) -> Option<
    (Seq<char>, Seq<char>, Seq<char>, Seq<char>),
> {
    let t = trim(name);
    let suf = "_qm.qrc"@;
    let sep = " - "@;
    if t.len() < suf.len() || t.subrange(t.len() - suf.len(), t.len() as int) != suf {
        None
    } else {
        let base = t.subrange(0, t.len() - suf.len());
        match rfind(base, sep) {
            None => None,
            Some(p3) => {
                let b2 = base.subrange(0, p3);
                match rfind(b2, sep) {
                    None => None,
                    Some(p2) => {
                        let b1 = b2.subrange(0, p2);
                        match rfind(b1, sep) {
                            None => None,
                            Some(p1) => Some(
                                (
                                    trim(b1.subrange(0, p1)),
                                    trim(b1.subrange(p1 + sep.len(), p2)),
                                    trim(b2.subrange(p2 + sep.len(), p3)),
                                    trim(base.subrange(p3 + sep.len(), base.len() as int)),
                                ),
                            ),
                        }
                    },
                }
            },
        }
    }
}

/// The (artist, title, index, album) of a QQ Music lyrics file name: its parts, when none is
/// empty and the index is all ASCII digits.
pub open spec fn qrc_filename(name: Seq<char>) -> Option<
    (Seq<char>, Seq<char>, Seq<char>, Seq<char>),
> {
    match qrc_filename_parts(name) {
        Some((artist, title, index, album)) => if artist.len() > 0 && title.len() > 0
            && index.len() > 0 && album.len() > 0 && all_ascii_digits(index) {
            Some((artist, title, index, album))
        } else {
            None
        },
        None => None,
    }
}

/// The trimmed characters `cs[lo..hi]`, as a vector.
fn trimmed_part(cs: &[char], lo: usize, hi: usize) -> (r: Vec<char>)
    requires
        lo <= hi <= cs@.len(),
    ensures
        r@ == trim(cs@.subrange(lo as int, hi as int)),
{
    let (a, b) = trim_bounds(cs, lo, hi);
    subvec(cs, a, b)
}

/// The last ` - ` in `s`.
fn last_separator(s: &[char]) -> (r: Option<usize>)
    ensures
        r matches Some(k) ==> rfind(s@, " - "@) == Some(k as int) && k + 3 <= s@.len(),
        r is None ==> rfind(s@, " - "@) is None,
{
    let sep = literal_chars(" - ");
    proof {
        reveal_strlit(" - ");
    }
    let r = rfind_in(s, sep.as_slice());
    proof {
        if let Some(k) = r {
            crate::text::lemma_rfind_upto(s@, sep@, s@.len() - sep@.len());
        }
    }
    r
}

/// Whether every character of `s` is an ASCII digit.
fn all_digits(s: &[char]) -> (r: bool)
    ensures
        r == all_ascii_digits(s@),
{
    let mut i: usize = 0;
    while i < s.len()
        invariant
            i <= s@.len(),
            forall|j: int| 0 <= j < i ==> is_ascii_digit(#[trigger] s@[j]),
        decreases s@.len() - i,
    {
        if !('0' <= s[i] && s[i] <= '9') {
            return false;
        }
        i = i + 1;
    }
    true
}

/// The parts of `name` that [`qrc_filename`] gives, as character vectors.
fn qrc_filename_chars(name: &str) -> (r: Option<(Vec<char>, Vec<char>, Vec<char>, Vec<char>)>)
    ensures
        match r {
            Some((a, t, i, al)) => qrc_filename(name@) == Some((a@, t@, i@, al@)),
            None => qrc_filename(name@) is None,
        },
{
    let cs = chars_of(name);
    let (a, b) = trim_bounds(cs.as_slice(), 0, cs.len());
    let ghost t = trim(name@);
    assert(cs@.subrange(0, cs@.len() as int) =~= cs@);
    assert(cs@.subrange(a as int, b as int) == t);
    let suf = literal_chars("_qm.qrc");
    proof {
        reveal_strlit("_qm.qrc");
    }
    if b - a < suf.len() {
        return None;
    }
    if !matches_at(cs.as_slice(), suf.as_slice(), b - suf.len()) {
        assert(t.subrange(t.len() - 7, t.len() as int) =~= cs@.subrange(b - 7, b as int));
        return None;
    }
    assert(t.subrange(t.len() - 7, t.len() as int) =~= cs@.subrange(b - 7, b as int));
    let base = subvec(cs.as_slice(), a, b - 7);
    assert(base@ =~= t.subrange(0, t.len() - 7));
    let p3 = match last_separator(base.as_slice()) {
        Some(k) => k,
        None => return None,
    };
    let b2 = subvec(base.as_slice(), 0, p3);
    let p2 = match last_separator(b2.as_slice()) {
        Some(k) => k,
        None => return None,
    };
    let b1 = subvec(b2.as_slice(), 0, p2);
    let p1 = match last_separator(b1.as_slice()) {
        Some(k) => k,
        None => return None,
    };
    proof {
        reveal_strlit(" - ");
    }
    let artist = trimmed_part(b1.as_slice(), 0, p1);
    let title = trimmed_part(b1.as_slice(), p1 + 3, p2);
    let index = trimmed_part(b2.as_slice(), p2 + 3, p3);
    let album = trimmed_part(base.as_slice(), p3 + 3, base.len());
    if artist.len() == 0 || title.len() == 0 || index.len() == 0 || album.len() == 0 {
        return None;
    }
    if !all_digits(index.as_slice()) {
        return None;
    }
    Some((artist, title, index, album))
}

/// The track a QQ Music lyrics file name tells of, such as `artist - title - 303 - album_qm.qrc`;
/// see [`qrc_filename`].
pub fn parse_qqmusic_qrc_filename(file_name: &str) -> (r: Option<QQMusicQrcFilenameInfo>)
    ensures
        match qrc_filename(file_name@) {
            Some((artist, title, index, album)) => r matches Some(info) && info.artist@ == artist
                && info.title@ == title && info.index@ == index && info.album@ == album,
            None => r is None,
        },
{
    match qrc_filename_chars(file_name) {
        Some((artist, title, index, album)) => Some(
            QQMusicQrcFilenameInfo {
                artist: string_of_chars(artist.as_slice()),
                title: string_of_chars(title.as_slice()),
                index: string_of_chars(index.as_slice()),
                album: string_of_chars(album.as_slice()),
            },
        ),
        None => None,
    }
}

/// `trim_start(s)` is a suffix of `s` that does not start with white space.
proof fn lemma_trim_start_shape(s: Seq<char>)
    ensures
        trim_start(s).len() <= s.len(),
        trim_start(s) =~= s.subrange(s.len() - trim_start(s).len(), s.len() as int),
        trim_start(s).len() > 0 ==> !is_white_space(trim_start(s)[0]),
    decreases s.len(),
{
    if s.len() > 0 && is_white_space(s[0]) {
        let d = s.drop_first();
        lemma_trim_start_shape(d);
        let n = trim_start(d).len() as int;
        assert(d.subrange(d.len() - n, d.len() as int) =~= s.subrange(s.len() - n, s.len() as int));
    } else {
        assert(s.subrange(0, s.len() as int) =~= s);
    }
}

/// `trim_end(s)` is a prefix of `s` that does not end with white space.
proof fn lemma_trim_end_shape(s: Seq<char>)
    ensures
        trim_end(s).len() <= s.len(),
        trim_end(s) =~= s.subrange(0, trim_end(s).len() as int),
        trim_end(s).len() > 0 ==> !is_white_space(trim_end(s).last()),
    decreases s.len(),
{
    if s.len() > 0 && is_white_space(s.last()) {
        let d = s.drop_last();
        lemma_trim_end_shape(d);
        let n = trim_end(d).len() as int;
        assert(d.subrange(0, n) =~= s.subrange(0, n));
    } else {
        assert(s.subrange(0, s.len() as int) =~= s);
    }
}

/// A trimmed text that is not empty neither starts nor ends with white space.
proof fn lemma_trimmed_ends(s: Seq<char>)
    requires
        trim(s) == s,
        s.len() > 0,
    ensures
        !is_white_space(s[0]),
        !is_white_space(s.last()),
{
    lemma_trim_start_shape(s);
    lemma_trim_end_shape(trim_start(s));
    assert(s[0] == trim_start(s)[0]);
}

/// A text that neither starts nor ends with white space is its own trim.
proof fn lemma_trim_of_trimmed_ends(s: Seq<char>)
    requires
        s.len() > 0,
        !is_white_space(s[0]),
        !is_white_space(s.last()),
    ensures
        trim(s) == s,
{
}

/// In `x - y`, where `y` has no `-`, the last ` - ` is the one after `x`.
proof fn lemma_last_separator_before(x: Seq<char>, y: Seq<char>)
    requires
        !y.contains('-'),
    ensures
        rfind(x + " - "@ + y, " - "@) == Some(x.len() as int),
{
    reveal_strlit(" - ");
    let sep = " - "@;
    let s = x + sep + y;
    let k = x.len() as int;
    assert(s.subrange(k, k + 3) =~= sep);
    assert forall|j: int| k < j <= s.len() - 3 implies !#[trigger] occurs_at(s, sep, j) by {
        if occurs_at(s, sep, j) {
            assert(s.subrange(j, j + 3)[1] == sep[1]);
            if j == k + 1 {
                assert(s[j + 1] == ' ');
            } else {
                assert(s[j + 1] == y[j + 1 - k - 3]);
                assert(y.contains('-'));
            }
        }
    }
    assert(occurs_at(s, sep, k));
    crate::text::lemma_rfind_upto(s, sep, s.len() - 3);
    assert(rfind(s, sep) == rfind_upto(s, sep, s.len() - 3));
}

/// The name `artist - title - index - album_qm.qrc` gives back its four parts, when each is
/// trimmed and not empty, the title and the album hold no `-`, and the index is all ASCII
/// digits (the artist may hold ` - `: the name is cut from the right).
pub proof fn lemma_qrc_filename_round_trip(
    artist: Seq<char>,
    title: Seq<char>,
    index: Seq<char>,
    album: Seq<char>,
)
    requires
        artist.len() > 0 && title.len() > 0 && index.len() > 0 && album.len() > 0,
        trim(artist) == artist && trim(title) == title && trim(index) == index && trim(album)
            == album,
        !title.contains('-'),
        !album.contains('-'),
        all_ascii_digits(index),
    ensures
        qrc_filename(artist + " - "@ + title + " - "@ + index + " - "@ + album + "_qm.qrc"@) == Some(
            (artist, title, index, album),
        ),
{
    reveal_strlit(" - ");
    reveal_strlit("_qm.qrc");
    let sep = " - "@;
    let x2 = artist + sep + title;
    let x3 = x2 + sep + index;
    let base = x3 + sep + album;
    let name = base + "_qm.qrc"@;
    lemma_trimmed_ends(artist);
    assert(name[0] == artist[0]);
    assert(name.last() == 'c');
    lemma_trim_of_trimmed_ends(name);
    assert(name.subrange(name.len() - 7, name.len() as int) =~= "_qm.qrc"@);
    assert(name.subrange(0, name.len() - 7) =~= base);
    assert(!index.contains('-')) by {
        if index.contains('-') {
            let k = choose|k: int| 0 <= k < index.len() && index[k] == '-';
            assert(crate::text::is_ascii_digit(index[k]));
        }
    }
    lemma_last_separator_before(x3, album);
    assert(base.subrange(0, x3.len() as int) =~= x3);
    lemma_last_separator_before(x2, index);
    assert(x3.subrange(0, x2.len() as int) =~= x2);
    lemma_last_separator_before(artist, title);
    assert(x2.subrange(0, artist.len() as int) =~= artist);
    assert(x2.subrange(artist.len() as int + 3, x2.len() as int) =~= title);
    assert(x3.subrange(x2.len() as int + 3, x3.len() as int) =~= index);
    assert(base.subrange(x3.len() as int + 3, base.len() as int) =~= album);
}

/// What a file name gives is four parts, none empty, with an index of ASCII digits.
pub proof fn lemma_qrc_filename_fields(name: Seq<char>)
    ensures
        qrc_filename(name) matches Some((artist, title, index, album)) ==> artist.len() > 0
            && title.len() > 0 && index.len() > 0 && album.len() > 0 && all_ascii_digits(index),
{
}

/// Whether `file_name` is the name of a QQ Music lyrics file.
pub fn is_qqmusic_qrc_filename(file_name: &str) -> (r: bool)
    ensures
        r == qrc_filename(file_name@) is Some,
{
    parse_qqmusic_qrc_filename(file_name).is_some()
}

/// The extension of a file name, as `Path::extension` gives it: after the last `.`, unless the
/// name has no `.`, starts with its only `.`, or is `..`.
pub open spec fn extension_of(name: Seq<char>) -> Option<Seq<char>> {
    if name == ".."@ {
        None
    } else {
        match rfind(name, seq!['.']) {
            Some(i) => if i == 0 {
                None
            } else {
                Some(name.subrange(i + 1, name.len() as int))
            },
            None => None,
        }
    }
}

/// Whether the file named `file_name` has the extension `qrc`, in any case.
pub fn is_qrc_file(file_name: &str) -> (r: bool)
    ensures
        r == (extension_of(file_name@) matches Some(e) && eq_ignore_ascii_case(e, "qrc"@)),
{
    let cs = chars_of(file_name);
    let dots = literal_chars("..");
    if crate::text::chars_eq(cs.as_slice(), dots.as_slice()) {
        return false;
    }
    let dot = vec!['.'];
    assert(dot@ =~= seq!['.']);
    match rfind_in(cs.as_slice(), dot.as_slice()) {
        Some(i) => {
            if i == 0 {
                return false;
            }
            proof {
                crate::text::lemma_rfind_upto(cs@, dot@, cs@.len() - 1);
                assert(cs@.len() == cs.len());
                assert(occurs_at(cs@, dot@, i as int));
            }
            let ext = subvec(cs.as_slice(), i + 1, cs.len());
            let qrc = literal_chars("qrc");
            eq_ignore_case(ext.as_slice(), qrc.as_slice())
        },
        None => false,
    }
}

/// Whether the file named `file_name` is a QQ Music lyrics file.
pub fn is_qqmusic_qrc_path(file_name: &str) -> (r: bool)
    ensures
        r == qrc_filename(file_name@) is Some,
{
    is_qqmusic_qrc_filename(file_name)
}

/// `s` without its leading byte order marks (`trim_start_matches('\u{feff}')`).
pub open spec fn strip_boms(s: Seq<char>) -> Seq<char>
    decreases s.len(),
{
    if s.len() > 0 && s[0] == '\u{feff}' {
        strip_boms(s.drop_first())
    } else {
        s
    }
}

/// `s` without its leading double quotes.
pub open spec fn strip_quotes_start(s: Seq<char>) -> Seq<char>
    decreases s.len(),
{
    if s.len() > 0 && s[0] == '"' {
        strip_quotes_start(s.drop_first())
    } else {
        s
    }
}

/// `s` without its trailing double quotes.
pub open spec fn strip_quotes_end(s: Seq<char>) -> Seq<char>
    decreases s.len(),
{
    if s.len() > 0 && s.last() == '"' {
        strip_quotes_end(s.drop_last())
    } else {
        s
    }
}

/// `s` without double quotes at either end (`trim_matches('"')`).
pub open spec fn strip_quotes(s: Seq<char>) -> Seq<char> {
    strip_quotes_end(strip_quotes_start(s))
}

/// What one line of `WebkitCachePath.ini` says of the cache path: nothing, unless it reads
/// `Path = value` (the key in any ASCII case); then the value, trimmed and unquoted.
pub open spec fn ini_line_path(raw: Seq<char>) -> Option<Seq<char>> {
    let line = strip_boms(trim(raw));
    match split_once(line, '=') {
        Some((key, value)) => if eq_ignore_ascii_case(trim(key), "path"@) {
            Some(strip_quotes(trim(value)))
        } else {
            None
        },
        None => None,
    }
}

/// The value of the first line of `lines` that sets the cache path.
pub open spec fn first_ini_path(lines: Seq<Seq<char>>) -> Option<Seq<char>>
    decreases lines.len(),
{
    if lines.len() == 0 {
        None
    } else {
        match ini_line_path(lines[0]) {
            Some(v) => Some(v),
            None => first_ini_path(lines.drop_first()),
        }
    }
}

/// The cache path that `WebkitCachePath.ini` sets: the value of the first line that sets it,
/// when not empty (lines are cut at `\n`; a `\r` before it is trimmed with the rest).
pub open spec fn webkit_cache_path(content: Seq<char>) -> Option<Seq<char>> {
    match first_ini_path(split_at_char(content, '\n')) {
        Some(v) => if v.len() > 0 {
            Some(v)
        } else {
            None
        },
        None => None,
    }
}

/// The bounds of `cs[lo..hi]` without its leading byte order marks.
fn skip_boms(cs: &[char], lo: usize, hi: usize) -> (r: usize)
    requires
        lo <= hi <= cs@.len(),
    ensures
        lo <= r <= hi,
        cs@.subrange(r as int, hi as int) == strip_boms(cs@.subrange(lo as int, hi as int)),
    decreases hi - lo,
{
    if lo < hi && cs[lo] == '\u{feff}' {
        assert(cs@.subrange(lo as int, hi as int).drop_first() =~= cs@.subrange(
            lo + 1,
            hi as int,
        ));
        skip_boms(cs, lo + 1, hi)
    } else {
        lo
    }
}

/// The bounds of `cs[lo..hi]` without double quotes at either end.
fn quote_bounds(cs: &[char], lo: usize, hi: usize) -> (r: (usize, usize))
    requires
        lo <= hi <= cs@.len(),
    ensures
        lo <= r.0 <= r.1 <= hi,
        cs@.subrange(r.0 as int, r.1 as int) == strip_quotes(
            cs@.subrange(lo as int, hi as int),
        ),
{
    let a = quote_start(cs, lo, hi);
    let b = quote_end(cs, a, hi);
    (a, b)
}

fn quote_start(cs: &[char], lo: usize, hi: usize) -> (r: usize)
    requires
        lo <= hi <= cs@.len(),
    ensures
        lo <= r <= hi,
        cs@.subrange(r as int, hi as int) == strip_quotes_start(
            cs@.subrange(lo as int, hi as int),
        ),
    decreases hi - lo,
{
    if lo < hi && cs[lo] == '"' {
        assert(cs@.subrange(lo as int, hi as int).drop_first() =~= cs@.subrange(
            lo + 1,
            hi as int,
        ));
        quote_start(cs, lo + 1, hi)
    } else {
        lo
    }
}

fn quote_end(cs: &[char], lo: usize, hi: usize) -> (r: usize)
    requires
        lo <= hi <= cs@.len(),
    ensures
        lo <= r <= hi,
        cs@.subrange(lo as int, r as int) == strip_quotes_end(
            cs@.subrange(lo as int, hi as int),
        ),
    decreases hi - lo,
{
    if lo < hi && cs[hi - 1] == '"' {
        assert(cs@.subrange(lo as int, hi as int).drop_last() =~= cs@.subrange(
            lo as int,
            hi - 1,
        ));
        quote_end(cs, lo, hi - 1)
    } else {
        lo + (hi - lo)
    }
}

/// What the line `line` says of the cache path; see [`ini_line_path`].
fn line_path(line: &[char]) -> (r: Option<Vec<char>>)
    ensures
        match r {
            Some(v) => ini_line_path(line@) == Some(v@),
            None => ini_line_path(line@) is None,
        },
{
    let (a, b) = trim_bounds(line, 0, line.len());
    assert(line@.subrange(0, line@.len() as int) =~= line@);
    let c = skip_boms(line, a, b);
    let rest = subvec(line, c, b);
    match split_once_chars(rest.as_slice(), '=') {
        Some((key, value)) => {
            let (ka, kb) = trim_bounds(key.as_slice(), 0, key.len());
            assert(key@.subrange(0, key@.len() as int) =~= key@);
            let k = subvec(key.as_slice(), ka, kb);
            let path = literal_chars("path");
            if eq_ignore_case(k.as_slice(), path.as_slice()) {
                let (va, vb) = trim_bounds(value.as_slice(), 0, value.len());
                assert(value@.subrange(0, value@.len() as int) =~= value@);
                let (qa, qb) = quote_bounds(value.as_slice(), va, vb);
                Some(subvec(value.as_slice(), qa, qb))
            } else {
                None
            }
        },
        None => None,
    }
}

/// The cache path that `WebkitCachePath.ini` (the text `content`) sets; see
/// [`webkit_cache_path`]. Without one, it is refused as a missing field.
pub fn parse_webkit_cache_path(content: &str) -> (r: LyrixResult<String>)
    ensures
        match webkit_cache_path(content@) {
            Some(v) => r matches Ok(p) && p@ == v,
            None => r matches Err(LyrixError::General(GeneralError::MissingField { field }))
                && field@ == "WebkitCachePath.ini Path"@,
        },
{
    let cs = chars_of(content);
    let lines = split_chars(cs.as_slice(), '\n');
    let ghost all = lines.deep_view();
    let mut i: usize = 0;
    assert(all.skip(0) =~= all);
    while i < lines.len()
        invariant
            i <= lines@.len(),
            all == lines.deep_view(),
            all == split_at_char(content@, '\n'),
            first_ini_path(all) == first_ini_path(all.skip(i as int)),
        decreases lines@.len() - i,
    {
        assert(all.skip(i as int).drop_first() =~= all.skip(i + 1));
        assert(all.skip(i as int)[0] == lines[i as int]@);
        if let Some(v) = line_path(lines[i].as_slice()) {
            if v.len() == 0 {
                return Err(
                    LyrixError::General(
                        GeneralError::MissingField { field: "WebkitCachePath.ini Path".to_string() },
                    ),
                );
            }
            return Ok(string_of_chars(v.as_slice()));
        }
        i = i + 1;
    }
    assert(all.skip(i as int) =~= seq![]);
    Err(
        LyrixError::General(
            GeneralError::MissingField { field: "WebkitCachePath.ini Path".to_string() },
        ),
    )
}

/// Lyrics files of QQ Music are read only on Windows: any other system, named by `os`, is
/// refused as an unsupported platform.
pub fn ensure_windows(os: &str) -> (r: LyrixResult<()>)
    ensures
        os@ == "windows"@ ==> r is Ok,
        os@ != "windows"@ ==> (r matches Err(
            LyrixError::General(GeneralError::Platform { platform }),
        ) && platform@ == os@),
{
    if crate::text::str_eq(os, "windows") {
        Ok(())
    } else {
        Err(LyrixError::General(GeneralError::Platform { platform: os.to_string() }))
    }
}

/// The title, artist and album of `track`, trimmed; each is required, and a missing one is
/// refused as a missing field named after it.
pub fn track_fields(track: &TrackMetadata) -> (r: LyrixResult<(String, String, String)>)
    ensures
        match (track.title, track.artist, track.album) {
            (Some(t), Some(a), Some(al)) => r matches Ok((rt, ra, ral)) && rt@ == trim(t@)
                && ra@ == trim(a@) && ral@ == trim(al@),
            (None, _, _) => r matches Err(
                LyrixError::General(GeneralError::MissingField { field }),
            ) && field@ == "track_metadata.title"@,
            (Some(_), None, _) => r matches Err(
                LyrixError::General(GeneralError::MissingField { field }),
            ) && field@ == "track_metadata.artist"@,
            (Some(_), Some(_), None) => r matches Err(
                LyrixError::General(GeneralError::MissingField { field }),
            ) && field@ == "track_metadata.album"@,
        },
{
    let title = match &track.title {
        Some(t) => crate::text::trim_string(t.as_str()),
        None => {
            return Err(
                LyrixError::General(
                    GeneralError::MissingField { field: "track_metadata.title".to_string() },
                ),
            );
        },
    };
    let artist = match &track.artist {
        Some(a) => crate::text::trim_string(a.as_str()),
        None => {
            return Err(
                LyrixError::General(
                    GeneralError::MissingField { field: "track_metadata.artist".to_string() },
                ),
            );
        },
    };
    let album = match &track.album {
        Some(a) => crate::text::trim_string(a.as_str()),
        None => {
            return Err(
                LyrixError::General(
                    GeneralError::MissingField { field: "track_metadata.album".to_string() },
                ),
            );
        },
    };
    Ok((title, artist, album))
}

/// The directory entry named `name` is the lyrics file of a track with this artist, title and
/// album.
pub open spec fn qrc_entry_matches(
    name: Option<String>,
    artist: Seq<char>,
    title: Seq<char>,
    album: Seq<char>,
) -> bool {
    match name {
        Some(n) => (extension_of(n@) matches Some(e) && eq_ignore_ascii_case(e, "qrc"@)) && (
        qrc_filename(n@) matches Some((a, t, _i, al)) && a == artist && t == title && al
            == album),
        None => false,
    }
}

/// Among the directory entries `names` (a name that is not UTF-8 is `None`), the first that is
/// the lyrics file of `track`: the same artist, title and album, trimmed. A track without one
/// of these is refused; see [`track_fields`].
pub fn find_qqmusic_qrc_path_by_metadata_in_dir(
    names: &Vec<Option<String>>,
    track: &TrackMetadata,
) -> (r: LyrixResult<Option<usize>>)
    ensures
        match (track.title, track.artist, track.album, r) {
            (Some(t), Some(a), Some(al), Ok(Some(i))) => match names@[i as int] {
                Some(n) => match qrc_filename(n@) {
                    Some(p) => p.0 == trim(a@) && p.1 == trim(t@) && p.3 == trim(al@),
                    None => false,
                },
                None => false,
            },
            _ => true,
        },
        match (track.title, track.artist, track.album) {
            (None, _, _) => r matches Err(
                LyrixError::General(GeneralError::MissingField { field }),
            ) && field@ == "track_metadata.title"@,
            (Some(_), None, _) => r matches Err(
                LyrixError::General(GeneralError::MissingField { field }),
            ) && field@ == "track_metadata.artist"@,
            (Some(_), Some(_), None) => r matches Err(
                LyrixError::General(GeneralError::MissingField { field }),
            ) && field@ == "track_metadata.album"@,
            (Some(t), Some(a), Some(al)) => r matches Ok(found) && match found {
                Some(i) => i < names@.len() && qrc_entry_matches(
                    names@[i as int],
                    trim(a@),
                    trim(t@),
                    trim(al@),
                ) && forall|j: int|
                    0 <= j < i ==> !qrc_entry_matches(
                        #[trigger] names@[j],
                        trim(a@),
                        trim(t@),
                        trim(al@),
                    ),
                None => forall|j: int|
                    0 <= j < names@.len() ==> !qrc_entry_matches(
                        #[trigger] names@[j],
                        trim(a@),
                        trim(t@),
                        trim(al@),
                    ),
            },
        },
{
    let (title, artist, album) = match track_fields(track) {
        Ok(f) => f,
        Err(e) => return Err(e),
    };
    let mut i: usize = 0;
    while i < names.len()
        invariant
            i <= names@.len(),
            track.title matches Some(t) && title@ == trim(t@),
            track.artist matches Some(a) && artist@ == trim(a@),
            track.album matches Some(al) && album@ == trim(al@),
            forall|j: int|
                0 <= j < i ==> !qrc_entry_matches(#[trigger] names@[j], artist@, title@, album@),
        decreases names@.len() - i,
    {
        if let Some(name) = &names[i] {
            if is_qrc_file(name.as_str()) {
                if let Some(info) = parse_qqmusic_qrc_filename(name.as_str()) {
                    if info.artist == artist && info.title == title && info.album == album {
                        return Ok(Some(i));
                    }
                }
            }
        }
        i = i + 1;
    }
    Ok(None)
}

/// The directory entry named `name` is the lyrics file named `target`.
pub open spec fn qrc_entry_named(name: Option<String>, target: Seq<char>) -> bool {
    match name {
        Some(n) => (extension_of(n@) matches Some(e) && eq_ignore_ascii_case(e, "qrc"@)) && n@
            == target,
        None => false,
    }
}

/// Among the directory entries `names`, the first named `file_name` (trimmed); none when that
/// is not the name of a QQ Music lyrics file.
pub fn find_qqmusic_qrc_path_in_dir(names: &Vec<Option<String>>, file_name: &str) -> (r: Option<
    usize,
>)
    ensures
        qrc_filename(trim(file_name@)) is None ==> r is None,
        qrc_filename(trim(file_name@)) is Some ==> match r {
            Some(i) => i < names@.len() && qrc_entry_named(names@[i as int], trim(file_name@))
                && forall|j: int|
                0 <= j < i ==> !qrc_entry_named(#[trigger] names@[j], trim(file_name@)),
            None => forall|j: int|
                0 <= j < names@.len() ==> !qrc_entry_named(#[trigger] names@[j], trim(file_name@)),
        },
{
    let target = crate::text::trim_string(file_name);
    if !is_qqmusic_qrc_filename(target.as_str()) {
        return None;
    }
    let mut i: usize = 0;
    while i < names.len()
        invariant
            i <= names@.len(),
            target@ == trim(file_name@),
            qrc_filename(target@) is Some,
            forall|j: int| 0 <= j < i ==> !qrc_entry_named(#[trigger] names@[j], target@),
        decreases names@.len() - i,
    {
        if let Some(name) = &names[i] {
            if is_qrc_file(name.as_str()) && *name == target {
                return Some(i);
            }
        }
        i = i + 1;
    }
    None
}

/// The directory entry named `name` is a QQ Music lyrics file.
pub open spec fn qrc_entry(name: Option<String>) -> bool {
    match name {
        Some(n) => (extension_of(n@) matches Some(e) && eq_ignore_ascii_case(e, "qrc"@))
            && qrc_filename(n@) is Some,
        None => false,
    }
}

/// The positions, in order, of the directory entries that are QQ Music lyrics files.
pub fn collect_matching_qrc_files(names: &Vec<Option<String>>) -> (r: Vec<usize>)
    ensures
        forall|k: int| 0 <= k < r@.len() ==> r@[k] < names@.len() && qrc_entry(names@[r@[k] as int]),
        forall|k: int, l: int| 0 <= k < l < r@.len() ==> r@[k] < r@[l],
        forall|j: int| 0 <= j < names@.len() && qrc_entry(#[trigger] names@[j]) ==> r@.contains(j as usize),
{
    let mut out: Vec<usize> = Vec::new();
    let mut i: usize = 0;
    while i < names.len()
        invariant
            i <= names@.len(),
            forall|k: int| 0 <= k < out@.len() ==> out@[k] < i && qrc_entry(names@[out@[k] as int]),
            forall|k: int, l: int| 0 <= k < l < out@.len() ==> out@[k] < out@[l],
            forall|j: int| 0 <= j < i && qrc_entry(#[trigger] names@[j]) ==> out@.contains(j as usize),
        decreases names@.len() - i,
    {
        let keep = match &names[i] {
            Some(name) => is_qrc_file(name.as_str()) && is_qqmusic_qrc_path(name.as_str()),
            None => false,
        };
        if keep {
            let ghost before = out@;
            out.push(i);
            assert(out@[out@.len() - 1] == i);
            assert forall|j: int| 0 <= j < i + 1 && qrc_entry(#[trigger] names@[j]) implies out@.contains(j as usize) by {
                if j < i {
                    let k = choose|k: int| 0 <= k < before.len() && before[k] == j as usize;
                    assert(out@[k] == j as usize);
                }
            }
        }
        i = i + 1;
    }
    out
}

} // verus!
