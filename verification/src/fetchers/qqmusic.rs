//! QQ Music: endpoints, reply models, and the reading of lyrics replies.

use vstd::prelude::*;
use vstd::string::StringSliceAdditionalSpecFns;
use vstd::utf8::{decode_utf8, is_char_boundary, valid_utf8};
use crate::bytes::{find_byte, lemma_after_pattern, lemma_at_pattern, str_range};
use crate::codec::{base64_decode, base64_standard_decoding, string_from_utf8};
use crate::error::searcher::SearcherError;
use crate::error::{LyrixError, LyrixResult};
use crate::searchers::qqmusic::QQMusicSearchResult;
use crate::text::{
    chars_of, find, find_in, lemma_find_from, find_from, matches_at, occurs_at,
    string_of_chars, subvec,
};

verus! {

/// The QQ Music web endpoint `https://c.y.qq.com/`.
pub open spec fn qqmusic_base_url() -> Seq<char> {
    seq!['h', 't', 't', 'p', 's', ':', '/', '/', 'c', '.', 'y', '.', 'q', 'q', '.', 'c', 'o', 'm', '/']
}

/// Client of the QQ Music web API.
#[derive(Debug, Clone)]
pub struct QQMusicApi {
    pub base_url: String,
}

impl QQMusicApi {
    /// A client of `https://c.y.qq.com/`.
    pub fn new() -> (r: Self)
        ensures
            r.base_url@ == qqmusic_base_url(),
    {
        let base_url = "https://c.y.qq.com/".to_owned();
        proof {
            reveal_strlit("https://c.y.qq.com/");
        }
        QQMusicApi { base_url }
    }
}

/// The JSON inside a JSONP reply `val` wrapped in `callback_sign(...)`: empty unless `val` starts
/// with `callback_sign`; then the first `callback_sign(` is removed and one closing `)` at the
/// end.
pub open spec fn jsonp_payload(callback_sign: Seq<char>, val: Seq<char>) -> Seq<char> {
    if !occurs_at(val, callback_sign, 0) {
        seq![]
    } else {
        let p = callback_sign.push('(');
        let j = match find(val, p) {
            Some(i) => val.subrange(0, i) + val.subrange(i + p.len(), val.len() as int),
            None => val,
        };
        if j.len() > 0 && j.last() == ')' {
            j.drop_last()
        } else {
            j
        }
    }
}

/// A reply `callback_sign(json)` gives back `json`.
pub proof fn lemma_jsonp_round_trip(callback_sign: Seq<char>, json: Seq<char>)
    ensures
        jsonp_payload(callback_sign, callback_sign.push('(') + json.push(')')) == json,
{
    let p = callback_sign.push('(');
    let val = p + json.push(')');
    assert(val.subrange(0, callback_sign.len() as int) =~= callback_sign);
    assert(val.subrange(0, p.len() as int) =~= p);
    assert(occurs_at(val, p, 0));
    assert(find_from(val, p, 0) == Some(0int));
    let j = val.subrange(0, 0) + val.subrange(p.len() as int, val.len() as int);
    assert(j =~= json.push(')'));
    assert(j.drop_last() =~= json);
}

/// The JSON inside the JSONP reply `val`; see [`jsonp_payload`].
pub fn resolve_resp_json(callback_sign: &str, val: &str) -> (r: String)
    ensures
        r@ == jsonp_payload(callback_sign@, val@),
{
    let v = chars_of(val);
    let mut p = chars_of(callback_sign);
    if p.len() > v.len() || !matches_at(v.as_slice(), p.as_slice(), 0) {
        proof {
            if p@.len() > v@.len() {
                assert(!occurs_at(val@, callback_sign@, 0));
            }
        }
        return String::new();
    }
    p.push('(');
    let mut j: Vec<char> = match find_in(v.as_slice(), p.as_slice()) {
        Some(i) => {
            proof {
                lemma_find_from(v@, p@, 0);
            }
            assert(v@.len() == v.len());
            let mut head = subvec(v.as_slice(), 0, i);
            let tail = subvec(v.as_slice(), i + p.len(), v.len());
            let ghost h = head@;
            let mut k: usize = 0;
            while k < tail.len()
                invariant
                    k <= tail@.len(),
                    head@ == h + tail@.take(k as int),
                decreases tail@.len() - k,
            {
                head.push(tail[k]);
                k = k + 1;
                assert(head@ =~= h + tail@.take(k as int));
            }
            assert(tail@.take(k as int) =~= tail@);
            head
        },
        None => v,
    };
    if j.len() > 0 && j[j.len() - 1] == ')' {
        let ghost before = j@;
        j.pop();
        assert(j@ =~= before.drop_last());
    }
    string_of_chars(j.as_slice())
}

/// How a scan for the `<![CDATA[...]]>` of a QRC reply ends.
#[derive(Debug, Clone, Copy, PartialEq, Eq)]
pub enum QrcScan {
    /// The encrypted lyrics are the bytes `start..end`.
    Found { start: usize, end: usize },
    /// No `[CDATA[` followed by a `]`.
    NotFound,
    /// The six bytes after a `[` end inside a character: slicing the reply there panics.
    Unsliceable,
}

/// The bytes of `CDATA[`.
pub open spec fn cdata_open() -> Seq<u8> {
    seq![67u8, 68u8, 65u8, 84u8, 65u8, 91u8]
}

/// The scan of the reply bytes `b` from `cpos`: each `[` is looked at in turn; when the six
/// bytes after it read `CDATA[`, the lyrics run from there to the next `]`.
pub open spec fn qrc_scan(b: Seq<u8>, cpos: int) -> QrcScan
    decreases b.len() - cpos,
{
    if cpos < 0 || cpos >= b.len() {
        QrcScan::NotFound
    } else {
        match find_from(b, seq![91u8], cpos) {
            None => QrcScan::NotFound,
            Some(k) => {
                proof {
                    lemma_find_from(b, seq![91u8], cpos);
                }
                let c = k + 1;
                if c + 6 <= b.len() && b.subrange(c, c + 6) == cdata_open() {
                    match find_from(b, seq![93u8], c + 6) {
                        Some(e) => QrcScan::Found { start: (c + 6) as usize, end: e as usize },
                        None => QrcScan::NotFound,
                    }
                } else if c + 6 <= b.len() && !is_char_boundary(b, c + 6) {
                    QrcScan::Unsliceable
                } else {
                    qrc_scan(b, c)
                }
            },
        }
    }
}

/// The scan of a QRC reply for its lyrics; see [`qrc_scan`].
pub fn scan_qrc_reply(resp: &str) -> (r: QrcScan)
    ensures
        r == qrc_scan(resp.spec_bytes(), 0),
        r matches QrcScan::Found { start, end } ==> start <= end <= resp.spec_bytes().len()
            && is_char_boundary(resp.spec_bytes(), start as int) && is_char_boundary(
            resp.spec_bytes(),
            end as int,
        ),
{
    let b = resp.as_bytes();
    proof {
        vstd::utf8::encode_utf8_valid_utf8(resp@);
    }
    let len = b.len();
    let mut cpos: usize = 0;
    while cpos < len
        invariant
            len == b@.len(),
            b@ == resp.spec_bytes(),
            valid_utf8(b@),
            cpos <= len,
            qrc_scan(b@, 0) == qrc_scan(b@, cpos as int),
        decreases len - cpos,
    {
        let k = match find_byte(b, cpos, 91u8) {
            Some(k) => k,
            None => {
                return QrcScan::NotFound;
            },
        };
        proof {
            lemma_find_from(b@, seq![91u8], cpos as int);
        }
        let c = k + 1;
        if 6 <= len - c {
            let mut same = true;
            let cd: [u8; 6] = [67u8, 68u8, 65u8, 84u8, 65u8, 91u8];
            let mut t: usize = 0;
            while t < 6
                invariant
                    t <= 6,
                    c + 6 <= len,
                    len == b@.len(),
                    cd@ == cdata_open(),
                    same == (forall|u: int| 0 <= u < t ==> b@[c + u] == cd@[u]),
                decreases 6 - t,
            {
                if b[c + t] != cd[t] {
                    same = false;
                }
                t = t + 1;
            }
            assert(same == (b@.subrange(c as int, c + 6) =~= cdata_open()));
            if same {
                match find_byte(b, c + 6, 93u8) {
                    Some(e) => {
                        proof {
                            lemma_after_pattern(b@, cdata_open(), c as int);
                            lemma_at_pattern(b@, seq![93u8], e as int);
                        }
                        return QrcScan::Found { start: c + 6, end: e };
                    },
                    None => {
                        return QrcScan::NotFound;
                    },
                }
            }
            if !resp.is_char_boundary(c + 6) {
                return QrcScan::Unsliceable;
            }
        }
        cpos = c;
    }
    QrcScan::NotFound
}

/// The encrypted QRC lyrics in the reply `resp` to a lyrics download for song `id`: the text of
/// the first `<![CDATA[...]]>` (up to its first `]`). A reply without one is refused as no
/// result, naming the song.
pub fn lyrics_qrc_from_reply(resp: &str, id: &str) -> (r: LyrixResult<String>)
    requires
        qrc_scan(resp.spec_bytes(), 0) != QrcScan::Unsliceable,
    ensures
        match qrc_scan(resp.spec_bytes(), 0) {
            QrcScan::Found { start, end } => r matches Ok(s) && s@ == decode_utf8(
                resp.spec_bytes().subrange(start as int, end as int),
            ),
            _ => r matches Err(LyrixError::Searcher(SearcherError::NoResults { label, query }))
                && label@ == "QQMusic"@ && query@ == "qrc id="@ + id@,
        },
{
    match scan_qrc_reply(resp) {
        QrcScan::Found { start, end } => Ok(str_range(resp, start, end).to_string()),
        _ => Err(
            LyrixError::Searcher(
                SearcherError::NoResults {
                    label: "QQMusic".to_string(),
                    query: crate::text::concat_str("qrc id=", id),
                },
            ),
        ),
    }
}

// Reply models of the QQ Music web API.

/// The reply to a search.
#[derive(Debug, Default)]
pub struct MusicFcgApiResult1 {
    pub code: Option<i64>,
    pub req_1: Option<MusicFcgReq11>,
}

/// The search request's part of the reply.
#[derive(Debug, Default)]
pub struct MusicFcgReq11 {
    pub code: Option<i64>,
    pub data: Option<MusicFcgReq1Data1>,
}

#[derive(Debug, Default)]
pub struct MusicFcgReq1Data1 {
    pub body: Option<MusicFcgReq1DataBody1>,
}

#[derive(Debug, Default)]
pub struct MusicFcgReq1DataBody1 {
    pub song: Option<SongList1>,
}

#[derive(Debug, Default)]
pub struct SongList1 {
    pub list: Option<Vec<Song1>>,
}

/// A song found by a search.
#[derive(Debug, Default)]
pub struct Song1 {
    pub album: Option<Album1>,
    pub id: Option<u32>,
    /// Length, in seconds.
    pub interval: Option<i32>,
    pub mid: Option<String>,
    pub name: Option<String>,
    pub title: Option<String>,
    pub subtitle: Option<String>,
    pub singer: Option<Vec<Singer1>>,
    pub time_public: Option<String>,
    pub file: Option<Preview1>,
}

/// The preview cut of a song.
#[derive(Debug, Default)]
pub struct Preview1 {
    /// Start of the preview, in milliseconds.
    pub b_30s: Option<u32>,
    pub e_30s: Option<u32>,
}

#[derive(Debug, Default)]
pub struct Singer1 {
    pub id: Option<i64>,
    pub mid: Option<String>,
    pub name: Option<String>,
    pub title: Option<String>,
}

#[derive(Debug, Default)]
pub struct Album1 {
    pub id: Option<i32>,
    pub mid: Option<String>,
    pub name: Option<String>,
    pub title: Option<String>,
}

/// The reply to a lyrics request.
#[derive(Debug, Default)]
pub struct LyricResult1 {
    pub code: Option<i64>,
    pub lyric: Option<String>,
    pub trans: Option<String>,
}

/// Lyrics and their translation.
#[derive(Debug, Default)]
pub struct QqLyricsResponse1 {
    pub lyrics: String,
    pub trans: String,
}

/// A base64 field after decoding: when it decodes, the UTF-8 text of the bytes (none when they
/// are not UTF-8); when it does not, the field as it was.
pub open spec fn decoded_field(f: Option<String>, r: Option<String>) -> bool {
    match f {
        Some(s) => match base64_standard_decoding(vstd::utf8::encode_utf8(s@)) {
            Some(d) => if valid_utf8(d) {
                r matches Some(t) && t@ == decode_utf8(d)
            } else {
                r is None
            },
            None => r == f,
        },
        None => r is None,
    }
}

/// Decodes one base64 field; see [`decoded_field`].
fn decode_field(f: Option<String>) -> (r: Option<String>)
    ensures
        decoded_field(f, r),
{
    match f {
        Some(s) => match base64_decode(s.as_str().as_bytes()) {
            Some(d) => string_from_utf8(d),
            None => Some(s),
        },
        None => None,
    }
}

impl LyricResult1 {
    /// Decodes the base64 lyrics and translation in place; see [`decoded_field`].
    pub fn decode(&mut self)
        ensures
            final(self).code == old(self).code,
            decoded_field(old(self).lyric, final(self).lyric),
            decoded_field(old(self).trans, final(self).trans),
    {
        let lyric = self.lyric.take();
        self.lyric = decode_field(lyric);
        let trans = self.trans.take();
        self.trans = decode_field(trans);
    }
}

/// The artists of a song: the singers that have a name, in order.
pub open spec fn singer_names(singers: Seq<Singer1>) -> Seq<Seq<char>>
    decreases singers.len(),
{
    if singers.len() == 0 {
        seq![]
    } else {
        let prev = singer_names(singers.drop_last());
        match singers.last().name {
            Some(n) => prev.push(n@),
            None => prev,
        }
    }
}

/// A song's length in milliseconds fits in an `i32`.
pub open spec fn song_fits(song: Song1) -> bool {
    song.interval matches Some(i) ==> i32::MIN <= i * 1000 <= i32::MAX
}

/// `r` is the search result for `song`: its name (else title, else empty), its named singers,
/// its album's name (else empty), its length in milliseconds and its mid (else empty).
pub open spec fn song_result(r: QQMusicSearchResult, song: Song1) -> bool {
    &&& r.title@ == match song.name {
        Some(n) => n@,
        None => match song.title {
            Some(t) => t@,
            None => seq![],
        },
    }
    &&& r.artists.deep_view() == singer_names(match song.singer {
        Some(v) => v@,
        None => seq![],
    })
    &&& r.album@ == match song.album {
        Some(a) => match a.name {
            Some(n) => n@,
            None => seq![],
        },
        None => seq![],
    }
    &&& r.duration_ms == match song.interval {
        Some(i) => Some((i * 1000) as i32),
        None => None::<i32>,
    }
    &&& r.mid@ == match song.mid {
        Some(m) => m@,
        None => seq![],
    }
    &&& r.match_score == 0
}

/// The search result for `song`; see [`song_result`].
pub fn song_to_result(song: Song1) -> (r: QQMusicSearchResult)
    requires
        song_fits(song),
    ensures
        song_result(r, song),
{
    let title = match song.name {
        Some(n) => n,
        None => match song.title {
            Some(t) => t,
            None => String::new(),
        },
    };
    let mut artists: Vec<String> = Vec::new();
    match &song.singer {
        Some(singers) => {
            let mut k: usize = 0;
            while k < singers.len()
                invariant
                    k <= singers@.len(),
                    artists.deep_view() == singer_names(singers@.take(k as int)),
                decreases singers@.len() - k,
            {
                assert(singers@.take(k + 1).drop_last() =~= singers@.take(k as int));
                match &singers[k].name {
                    Some(n) => {
                        let ghost before = artists.deep_view();
                        artists.push(n.clone());
                        assert(artists.deep_view() =~= before.push(n@));
                    },
                    None => {},
                }
                k = k + 1;
            }
            assert(singers@.take(k as int) =~= singers@);
        },
        None => {},
    }
    let album = match &song.album {
        Some(a) => match &a.name {
            Some(n) => n.clone(),
            None => String::new(),
        },
        None => String::new(),
    };
    let duration_ms = match song.interval {
        Some(i) => Some(i * 1000),
        None => None,
    };
    let mid = match song.mid {
        Some(m) => m,
        None => String::new(),
    };
    let r = QQMusicSearchResult { mid, title, artists, album, duration_ms, match_score: 0 };
    assert(r.artists.deep_view() == singer_names(match song.singer {
        Some(v) => v@,
        None => seq![],
    }));
    r
}

/// The songs listed in a search reply (none when a level of it is missing).
pub open spec fn reply_songs(reply: Option<MusicFcgApiResult1>) -> Seq<Song1> {
    match reply {
        Some(r) => match r.req_1 {
            Some(q) => match q.data {
                Some(d) => match d.body {
                    Some(b) => match b.song {
                        Some(s) => match s.list {
                            Some(l) => l@,
                            None => seq![],
                        },
                        None => seq![],
                    },
                    None => seq![],
                },
                None => seq![],
            },
            None => seq![],
        },
        None => seq![],
    }
}

/// The search results of a search reply: one per listed song, in order; see
/// [`song_to_result`].
pub fn results_from_reply(reply: Option<MusicFcgApiResult1>) -> (r: Vec<QQMusicSearchResult>)
    requires
        forall|i: int| 0 <= i < reply_songs(reply).len() ==> song_fits(#[trigger] reply_songs(reply)[i]),
    ensures
        r@.len() == reply_songs(reply).len(),
        forall|i: int| 0 <= i < r@.len() ==> song_result(#[trigger] r@[i], reply_songs(reply)[i]),
{
    let ghost songs = reply_songs(reply);
    let list: Vec<Song1> = match reply {
        Some(rr) => match rr.req_1 {
            Some(q) => match q.data {
                Some(d) => match d.body {
                    Some(b) => match b.song {
                        Some(s) => match s.list {
                            Some(l) => l,
                            None => Vec::new(),
                        },
                        None => Vec::new(),
                    },
                    None => Vec::new(),
                },
                None => Vec::new(),
            },
            None => Vec::new(),
        },
        None => Vec::new(),
    };
    assert(list@ == songs);
    let mut out: Vec<QQMusicSearchResult> = Vec::new();
    for song in it: list
        invariant
            it.seq() == songs,
            forall|i: int| 0 <= i < songs.len() ==> song_fits(#[trigger] songs[i]),
            out@.len() == it.index(),
            forall|i: int| 0 <= i < out@.len() ==> song_result(#[trigger] out@[i], songs[i]),
    {
        out.push(song_to_result(song));
    }
    out
}

/// Whether every song of a search reply has a length whose milliseconds fit in an `i32`; see
/// [`results_from_reply`].
pub fn reply_fits(reply: &Option<MusicFcgApiResult1>) -> (r: bool)
    ensures
        r == forall|i: int| 0 <= i < reply_songs(*reply).len() ==> song_fits(#[trigger] reply_songs(*reply)[i]),
{
    let list: &Vec<Song1> = match reply {
        Some(rr) => match &rr.req_1 {
            Some(q) => match &q.data {
                Some(d) => match &d.body {
                    Some(b) => match &b.song {
                        Some(s) => match &s.list {
                            Some(l) => l,
                            None => return true,
                        },
                        None => return true,
                    },
                    None => return true,
                },
                None => return true,
            },
            None => return true,
        },
        None => return true,
    };
    let ghost songs = reply_songs(*reply);
    assert(list@ == songs);
    let mut i: usize = 0;
    while i < list.len()
        invariant
            i <= list@.len(),
            list@ == songs,
            songs == reply_songs(*reply),
            forall|j: int| 0 <= j < i ==> song_fits(#[trigger] songs[j]),
        decreases list@.len() - i,
    {
        if let Some(v) = list[i].interval {
            if v < -2147483 || v > 2147483 {
                assert(!song_fits(songs[i as int]));
                return false;
            }
        }
        i = i + 1;
    }
    true
}

} // verus!
