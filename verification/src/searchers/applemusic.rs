//! Apple Music search results and their scoring.

use vstd::prelude::*;
use crate::models::track_metadata::{opt_text, TrackMetadata};
use crate::searchers::scoring::{
    album_artist_points, album_artist_points_exec, artist_points, artist_points_exec,
    clean_title_chars, clean_title_string, duration_points, duration_points_exec,
    lowered_words, lowered_words_exec, make_search_strings, opt_chars, opt_lower,
    remove_feat_string, title_points, title_points_exec, track_album_artist,
};
use crate::searchers::{ISearchResult, ISearcher, SearchResultView};
use crate::error::searcher::SearcherError;
use crate::error::{LyrixError, LyrixResult};
use crate::text::{chars_eq, lowercase_chars, lowercase_of, split_at_char, split_chars};

verus! {

/// Searches Apple Music with a developer token.
#[derive(Debug, Clone)]
pub struct ApplemusicSearcher {
    pub token: String,
}

impl ApplemusicSearcher {
    /// A searcher that authenticates with `token`.
    pub fn new(token: String) -> (r: Self)
        ensures
            r.token == token,
    {
        ApplemusicSearcher { token }
    }

    /// The searcher's label.
    pub fn label(&self) -> (r: &'static str)
        ensures
            r@ == seq!['a', 'p', 'p', 'l', 'e', 'm', 'u', 's', 'i', 'c'],
    {
        proof {
            reveal_strlit("applemusic");
        }
        "applemusic"
    }
}

impl Default for ApplemusicSearcher {
    /// A searcher with an empty token.
    fn default() -> (r: Self)
        ensures
            r.token@ == Seq::<char>::empty(),
    {
        Self::new(String::new())
    }
}

/// The artist field of a track split at `—`: its trimmed, lowercased, non-empty parts.
pub open spec fn artist_parts(track: TrackMetadata) -> Seq<Seq<char>> {
    lowered_words(split_at_char(opt_text(track.artist), '\u{2014}'))
}

/// The `i`-th artist part, empty when there is none.
pub open spec fn artist_part(track: TrackMetadata, i: int) -> Seq<char> {
    if artist_parts(track).len() > i {
        artist_parts(track)[i]
    } else {
        seq![]
    }
}

/// The track's artists: its first artist part split at `、`.
pub open spec fn applemusic_artists(track: TrackMetadata) -> Seq<Seq<char>> {
    lowered_words(split_at_char(artist_part(track, 0), '\u{3001}'))
}

/// One point when the album (the second artist part) equals the result's lowercased album.
pub open spec fn applemusic_album_points(ta: Seq<char>, ra: Seq<char>) -> int {
    if ta.len() > 0 && ra.len() > 0 && ta == ra {
        1
    } else {
        0
    }
}

/// The Apple Music match score: title, artists (before `—`, separated by `、`), album (after
/// `—`, exact), album artist and duration points.
pub open spec fn applemusic_score(track: TrackMetadata, r: SearchResultView) -> int {
    title_points(lowercase_of(opt_text(track.title)), lowercase_of(r.title)) + artist_points(
        applemusic_artists(track),
        r.artists,
    ) + applemusic_album_points(artist_part(track, 1), lowercase_of(r.album))
        + album_artist_points(track_album_artist(track), r.album_artists) + duration_points(
        track.duration_ms,
        r.duration_ms,
    )
}

impl ISearcher for ApplemusicSearcher {
    open spec fn track_score(&self, track: TrackMetadata, r: SearchResultView) -> int {
        applemusic_score(track, r)
    }

    /// Apple Music results are never trial cuts.
    open spec fn track_trial(&self, track: TrackMetadata, r: SearchResultView) -> bool {
        false
    }

    fn get_split_char(&self) -> (r: char)
        ensures
            r == ' ',
    {
        ' '
    }

    fn min_score(&self) -> (r: i8)
        ensures
            r == 5,
    {
        5
    }

    fn wow_score(&self) -> (r: i8)
        ensures
            r == 7,
    {
        7
    }

    fn clean_title(&self, title: &str) -> (r: String) {
        clean_title_string(title)
    }

    fn remove_feat(&self, title: &str) -> (r: String) {
        remove_feat_string(title)
    }

    fn make_search_string(&self, track: &TrackMetadata) -> (r: Vec<String>) {
        make_search_strings(track)
    }

    fn compare_track<R: ISearchResult>(&self, track: &TrackMetadata, result: &R) -> (r: (
        i8,
        bool,
    )) {
        let (a_points, rest) = applemusic_parts(track, result);
        ((a_points + rest) as i8, false)
    }

    fn score_fits<R: ISearchResult>(&self, track: &TrackMetadata, result: &R) -> (r: bool) {
        let (a_points, rest) = applemusic_parts(track, result);
        a_points <= 127 && a_points + rest <= 127
    }
}

/// The artist points of `result` for `track`, and the other points, which are at most 11; see
/// [`applemusic_score`].
fn applemusic_parts<R: ISearchResult>(track: &TrackMetadata, result: &R) -> (r: (u64, u64))
    ensures
        r.0 + r.1 == applemusic_score(*track, result.result_view()),
        r.1 <= 11,
{
        let tt = opt_lower(&track.title);
        let rt = lowercase_chars(result.title());
        let t_points = title_points_exec(&tt, &rt);
        let artist = opt_chars(&track.artist);
        let parts = lowered_words_exec(&split_chars(artist.as_slice(), '\u{2014}'));
        let first: Vec<char> = if parts.len() > 0 {
            let p = &parts[0];
            assert(parts.deep_view()[0] == p@);
            crate::text::subvec(p.as_slice(), 0, p.len())
        } else {
            Vec::new()
        };
        assert(first@ =~= artist_part(*track, 0));
        let artists = lowered_words_exec(&split_chars(first.as_slice(), '\u{3001}'));
        let a_points = artist_points_exec(&artists, result.artists());
        let ta: Vec<char> = if parts.len() > 1 {
            let p = &parts[1];
            assert(parts.deep_view()[1] == p@);
            crate::text::subvec(p.as_slice(), 0, p.len())
        } else {
            Vec::new()
        };
        assert(ta@ =~= artist_part(*track, 1));
        let ra = lowercase_chars(result.album());
        let al_points: u64 = if ta.len() > 0 && ra.len() > 0 && chars_eq(ta.as_slice(), ra.as_slice()) {
            1
        } else {
            0
        };
        let taa = clean_title_chars(opt_lower(&track.album_artist));
        let aa_points = album_artist_points_exec(&taa, result.album_artists());
        let d_points = duration_points_exec(track.duration_ms, result.duration_ms());
    (a_points, t_points + al_points + aa_points + d_points)
}

/// An Apple Music search result.
#[derive(Debug, Clone)]
pub struct ApplemusicSearchResult {
    pub id: String,
    pub title: String,
    pub artists: Vec<String>,
    pub album: String,
    pub duration_ms: Option<u32>,
    pub has_lyrics: bool,
    pub match_score: i8,
}

impl ISearchResult for ApplemusicSearchResult {
    open spec fn result_view(&self) -> SearchResultView {
        SearchResultView {
            title: self.title@,
            artists: self.artists.deep_view(),
            album: self.album@,
            album_artists: None,
            duration_ms: self.duration_ms,
            match_score: self.match_score,
            trial: None,
            is_trial: false,
        }
    }

    fn title(&self) -> (r: &str) {
        self.title.as_str()
    }

    fn artists(&self) -> (r: &[String]) {
        let r = self.artists.as_slice();
        assert(r.deep_view() =~= self.artists.deep_view());
        r
    }

    fn album(&self) -> (r: &str) {
        self.album.as_str()
    }

    fn album_artists(&self) -> (r: Option<&[String]>) {
        None
    }

    fn duration_ms(&self) -> (r: Option<u32>) {
        self.duration_ms
    }

    fn match_score(&self) -> (r: i8) {
        self.match_score
    }

    fn set_match_score(&mut self, mt: i8)
        ensures
            *final(self) == (ApplemusicSearchResult { match_score: mt, ..*old(self) }),
    {
        self.match_score = mt;
    }

    /// Apple Music results carry no trial cut.
    fn trial(&self) -> (r: Option<[u32; 2]>) {
        None
    }

    fn is_trial(&self) -> (r: bool) {
        false
    }

    /// Apple Music results are never trial cuts: this changes nothing.
    fn set_trial(&mut self, _i: bool)
        ensures
            *final(self) == *old(self),
    {
    }
}

/// The attributes of a song in an Apple Music search reply.
#[derive(Debug, Default)]
pub struct AppleSongAttributes {
    pub name: Option<String>,
    pub artist_name: Option<String>,
    pub album_name: Option<String>,
    pub duration_in_millis: Option<u64>,
    pub has_lyrics: Option<bool>,
}

/// A song in an Apple Music search reply.
#[derive(Debug, Default)]
pub struct AppleSong {
    pub id: Option<String>,
    pub attributes: Option<AppleSongAttributes>,
}

/// The text of an optional string, empty when absent.
pub open spec fn or_empty(o: Option<String>) -> Seq<char> {
    match o {
        Some(s) => s@,
        None => seq![],
    }
}

/// The search result for a song with these attributes: the artists are the artist name cut
/// at `、`, trimmed, the empty ones dropped; the duration is cut to 32 bits.
pub open spec fn apple_result_matches(r: ApplemusicSearchResult, id: Seq<char>, a: AppleSongAttributes) -> bool {
    &&& r.id@ == id
    &&& r.title@ == or_empty(a.name)
    &&& r.artists.deep_view() == crate::text::trimmed_nonempty(
        split_at_char(or_empty(a.artist_name), '\u{3001}'),
    )
    &&& r.album@ == or_empty(a.album_name)
    &&& r.duration_ms == match a.duration_in_millis {
        Some(d) => Some(d as u32),
        None => None::<u32>,
    }
    &&& r.has_lyrics == match a.has_lyrics {
        Some(h) => h,
        None => false,
    }
    &&& r.match_score == 0
}

fn text_or_empty(o: &Option<String>) -> (r: String)
    ensures
        r@ == or_empty(*o),
{
    match o {
        Some(s) => s.clone(),
        None => String::new(),
    }
}

/// The results of an Apple Music search for `query` whose reply lists `songs` (none when a
/// level of the reply is missing, which is refused as no result). A song without attributes
/// fails the whole search, naming its id.
pub fn apple_results(label: &str, query: &str, songs: Option<Vec<AppleSong>>) -> (r: LyrixResult<
    Vec<ApplemusicSearchResult>,
>)
    ensures
        match songs {
            None => r matches Err(LyrixError::Searcher(SearcherError::NoResults { label: l, query: q }))
                && l@ == label@ && q@ == query@,
            Some(v) => if forall|i: int| 0 <= i < v@.len() ==> (#[trigger] v@[i]).attributes is Some {
                r matches Ok(out) && out@.len() == v@.len() && forall|i: int|
                    0 <= i < v@.len() ==> apple_result_matches(
                        #[trigger] out@[i],
                        or_empty(v@[i].id),
                        v@[i].attributes.unwrap(),
                    )
            } else {
                let k = choose|k: int| 0 <= k < v@.len() && (#[trigger] v@[k]).attributes is None
                    && forall|j: int| 0 <= j < k ==> (#[trigger] v@[j]).attributes is Some;
                r matches Err(LyrixError::Searcher(SearcherError::MissingField { label: l, field }))
                    && l@ == label@ && field@ == "attributes for id="@ + or_empty(v@[k].id)
            },
        },
{
    let v = match songs {
        Some(v) => v,
        None => {
            return Err(
                LyrixError::Searcher(
                    SearcherError::NoResults { label: label.to_string(), query: query.to_string() },
                ),
            );
        },
    };
    let mut out: Vec<ApplemusicSearchResult> = Vec::new();
    let mut i: usize = 0;
    while i < v.len()
        invariant
            i <= v@.len(),
            songs == Some(v),
            out@.len() == i,
            forall|j: int| 0 <= j < i ==> (#[trigger] v@[j]).attributes is Some,
            forall|j: int|
                0 <= j < i ==> apple_result_matches(
                    #[trigger] out@[j],
                    or_empty(v@[j].id),
                    v@[j].attributes.unwrap(),
                ),
        decreases v@.len() - i,
    {
        let song = &v[i];
        let id = text_or_empty(&song.id);
        let a = match &song.attributes {
            Some(a) => a,
            None => {
                proof {
                    assert(!(forall|j: int| 0 <= j < v@.len() ==> (#[trigger] v@[j]).attributes is Some));
                    let k = choose|k: int| 0 <= k < v@.len() && (#[trigger] v@[k]).attributes is None
                        && forall|j: int| 0 <= j < k ==> (#[trigger] v@[j]).attributes is Some;
                    if k < i {
                        assert(v@[k].attributes is Some);
                    }
                    if k > i {
                        assert(v@[i as int].attributes is Some);
                    }
                    assert(k == i);
                }
                return Err(
                    LyrixError::Searcher(
                        SearcherError::MissingField {
                            label: label.to_string(),
                            field: crate::text::concat_str("attributes for id=", id.as_str()),
                        },
                    ),
                );
            },
        };
        let singer = text_or_empty(&a.artist_name);
        let cs = crate::text::chars_of(singer.as_str());
        let parts = split_chars(cs.as_slice(), '\u{3001}');
        let artists = crate::text::trimmed_nonempty_strings(&parts);
        let duration_ms = match a.duration_in_millis {
            Some(d) => Some(d as u32),
            None => None,
        };
        let has_lyrics = match a.has_lyrics {
            Some(h) => h,
            None => false,
        };
        let r = ApplemusicSearchResult {
            id,
            title: text_or_empty(&a.name),
            artists,
            album: text_or_empty(&a.album_name),
            duration_ms,
            has_lyrics,
            match_score: 0,
        };
        out.push(r);
        i = i + 1;
    }
    Ok(out)
}

} // verus!
