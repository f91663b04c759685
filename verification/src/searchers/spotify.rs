//! Spotify search results.

use vstd::prelude::*;
use crate::models::track_metadata::TrackMetadata;
use crate::searchers::scoring::{
    clean_title_string, default_score, default_score_fits, make_search_strings, remove_feat_string,
    score_default, trial_match,
};
use crate::searchers::{ISearchResult, ISearcher, SearchResultView};
use crate::error::searcher::SearcherError;
use crate::error::{LyrixError, LyrixResult};

verus! {

/// Searches Spotify with a session cookie.
#[derive(Debug, Clone)]
pub struct SpotifySearcher {
    pub cookie: String,
}

impl SpotifySearcher {
    /// The searcher's label.
    pub fn label(&self) -> (r: &'static str)
        ensures
            r@ == seq!['S', 'p', 'o', 't', 'i', 'f', 'y'],
    {
        proof {
            reveal_strlit("Spotify");
        }
        "Spotify"
    }
}

impl ISearcher for SpotifySearcher {
    open spec fn track_score(&self, track: TrackMetadata, r: SearchResultView) -> int {
        default_score(track, r, ' ')
    }

    open spec fn track_trial(&self, track: TrackMetadata, r: SearchResultView) -> bool {
        trial_match(track.duration_ms, r.trial)
    }

    fn get_split_char(&self) -> (r: char)
        ensures
            r == ' ',
    {
        ' '
    }

    fn min_score(&self) -> (r: i8)
        ensures
            r == 5,
    {
        5
    }

    fn wow_score(&self) -> (r: i8)
        ensures
            r == 7,
    {
        7
    }

    fn clean_title(&self, title: &str) -> (r: String) {
        clean_title_string(title)
    }

    fn remove_feat(&self, title: &str) -> (r: String) {
        remove_feat_string(title)
    }

    fn make_search_string(&self, track: &TrackMetadata) -> (r: Vec<String>) {
        make_search_strings(track)
    }

    fn compare_track<R: ISearchResult>(&self, track: &TrackMetadata, result: &R) -> (r: (
        i8,
        bool,
    )) {
        score_default(track, result, ' ')
    }

    fn score_fits<R: ISearchResult>(&self, track: &TrackMetadata, result: &R) -> (r: bool) {
        default_score_fits(track, result, ' ')
    }
}

/// A Spotify search result.
#[derive(Debug, Clone)]
pub struct SpotifySearchResult {
    pub id: String,
    pub title: String,
    pub artists: Vec<String>,
    pub album: String,
    pub duration_ms: Option<u32>,
    pub match_score: i8,
    pub trial: Option<[u32; 2]>,
    pub is_trial: bool,
}

impl ISearchResult for SpotifySearchResult {
    open spec fn result_view(&self) -> SearchResultView {
        SearchResultView {
            title: self.title@,
            artists: self.artists.deep_view(),
            album: self.album@,
            album_artists: None,
            duration_ms: self.duration_ms,
            match_score: self.match_score,
            trial: match self.trial {
                Some(t) => Some((t[0], t[1])),
                None => None,
            },
            is_trial: self.is_trial,
        }
    }

    fn title(&self) -> (r: &str) {
        self.title.as_str()
    }

    fn artists(&self) -> (r: &[String]) {
        let r = self.artists.as_slice();
        assert(r.deep_view() =~= self.artists.deep_view());
        r
    }

    fn album(&self) -> (r: &str) {
        self.album.as_str()
    }

    fn album_artists(&self) -> (r: Option<&[String]>) {
        None
    }

    fn duration_ms(&self) -> (r: Option<u32>) {
        self.duration_ms
    }

    fn match_score(&self) -> (r: i8) {
        self.match_score
    }

    fn set_match_score(&mut self, mt: i8)
        ensures
            *final(self) == (SpotifySearchResult { match_score: mt, ..*old(self) }),
    {
        self.match_score = mt;
    }

    fn trial(&self) -> (r: Option<[u32; 2]>) {
        self.trial
    }

    fn is_trial(&self) -> (r: bool) {
        self.is_trial
    }

    /// Marks the result as a trial cut or not.
    fn set_trial(&mut self, i: bool)
        ensures
            *final(self) == (SpotifySearchResult { is_trial: i, ..*old(self) }),
    {
        self.is_trial = i;
    }
}

/// An artist's profile in a Spotify search reply.
#[derive(Debug, Default)]
pub struct SpotifyProfile {
    pub name: Option<String>,
}

/// An artist in a Spotify search reply.
#[derive(Debug, Default)]
pub struct SpotifyArtist {
    pub profile: Option<SpotifyProfile>,
}

/// The artists of a track in a Spotify search reply.
#[derive(Debug, Default)]
pub struct SpotifyArtists {
    pub items: Option<Vec<SpotifyArtist>>,
}

/// The album of a track in a Spotify search reply.
#[derive(Debug, Default)]
pub struct SpotifyAlbum {
    pub name: Option<String>,
}

/// The length of a track in a Spotify search reply.
#[derive(Debug, Default)]
pub struct SpotifyDuration {
    pub total_milliseconds: Option<u32>,
}

/// A track in a Spotify search reply.
#[derive(Debug, Default)]
pub struct SpotifyTrack {
    pub id: Option<String>,
    pub name: Option<String>,
    pub album_of_track: Option<SpotifyAlbum>,
    pub artists: Option<SpotifyArtists>,
    pub duration: Option<SpotifyDuration>,
}

/// The item of a top result.
#[derive(Debug, Default)]
pub struct SpotifyItem {
    pub data: Option<SpotifyTrack>,
}

/// A top result of a Spotify search reply.
#[derive(Debug, Default)]
pub struct SpotifyTopResult {
    pub item: Option<SpotifyItem>,
}

/// The names of the artists that have a profile with a name, in order.
pub open spec fn profile_names(a: Seq<SpotifyArtist>) -> Seq<Seq<char>>
    decreases a.len(),
{
    if a.len() == 0 {
        seq![]
    } else {
        let prev = profile_names(a.drop_last());
        match a.last().profile {
            Some(p) => match p.name {
                Some(n) => prev.push(n@),
                None => prev,
            },
            None => prev,
        }
    }
}

/// The name of an artist's profile, when it has a profile with a name.
pub open spec fn profile_name_of(x: SpotifyArtist) -> Option<Seq<char>> {
    match x.profile {
        Some(p) => match p.name {
            Some(n) => Some(n@),
            None => None,
        },
        None => None,
    }
}

/// The artist names of a reply are those of all its artists that have a named profile, in
/// order (`filter_map` over the artists), so there are as many as such artists.
pub proof fn lemma_profile_names_are_all_named_profiles(a: Seq<SpotifyArtist>)
    ensures
        profile_names(a) == a.filter_map(|x: SpotifyArtist| profile_name_of(x)),
        profile_names(a).len() == a.filter(|x: SpotifyArtist| profile_name_of(x) is Some).len(),
    decreases a.len(),
{
    reveal(Seq::filter);
    if a.len() > 0 {
        lemma_profile_names_are_all_named_profiles(a.drop_last());
        let f = |x: SpotifyArtist| profile_name_of(x);
        match profile_name_of(a.last()) {
            Some(n) => {
                assert(a.drop_last().filter_map(f).push(n) =~= a.drop_last().filter_map(f) + seq![n]);
            },
            None => {},
        }
    }
}

/// The search result a top result gives: none unless it has an item, data, id, name, album
/// with a name, and artists with items.
pub open spec fn spotify_result_of(t: SpotifyTopResult) -> Option<(Seq<char>, Seq<char>, Seq<Seq<char>>, Seq<char>, Option<u32>)> {
    match t.item {
        Some(i) => match i.data {
            Some(d) => match (d.id, d.name, d.album_of_track, d.artists) {
                (Some(id), Some(title), Some(album), Some(artists)) => match (album.name, artists.items) {
                    (Some(album_name), Some(items)) => Some((
                        id@,
                        title@,
                        profile_names(items@),
                        album_name@,
                        match d.duration {
                            Some(du) => du.total_milliseconds,
                            None => None,
                        },
                    )),
                    _ => None,
                },
                _ => None,
            },
            None => None,
        },
        None => None,
    }
}

/// The results that `tops` give, in order, skipping the incomplete ones.
pub open spec fn spotify_results_of(tops: Seq<SpotifyTopResult>) -> Seq<(Seq<char>, Seq<char>, Seq<Seq<char>>, Seq<char>, Option<u32>)>
    decreases tops.len(),
{
    if tops.len() == 0 {
        seq![]
    } else {
        let prev = spotify_results_of(tops.drop_last());
        match spotify_result_of(tops.last()) {
            Some(x) => prev.push(x),
            None => prev,
        }
    }
}

/// The value of a result, as [`spotify_result_of`] gives it.
pub open spec fn spotify_result_value(r: SpotifySearchResult) -> (Seq<char>, Seq<char>, Seq<Seq<char>>, Seq<char>, Option<u32>) {
    (r.id@, r.title@, r.artists.deep_view(), r.album@, r.duration_ms)
}

/// The artist names of `items`; see [`profile_names`].
fn names_of_profiles(items: &Vec<SpotifyArtist>) -> (r: Vec<String>)
    ensures
        r.deep_view() == profile_names(items@),
{
    let mut out: Vec<String> = Vec::new();
    let mut k: usize = 0;
    while k < items.len()
        invariant
            k <= items@.len(),
            out.deep_view() == profile_names(items@.take(k as int)),
        decreases items@.len() - k,
    {
        assert(items@.take(k + 1).drop_last() =~= items@.take(k as int));
        if let Some(p) = &items[k].profile {
            if let Some(n) = &p.name {
                let ghost before = out.deep_view();
                out.push(n.clone());
                assert(out.deep_view() =~= before.push(n@));
            }
        }
        k = k + 1;
    }
    assert(items@.take(k as int) =~= items@);
    out
}

/// The search result of one top result; see [`spotify_result_of`].
fn spotify_result(t: SpotifyTopResult) -> (r: Option<SpotifySearchResult>)
    ensures
        match spotify_result_of(t) {
            Some(x) => r matches Some(res) && spotify_result_value(res) == x && res.match_score == 0
                && res.trial is None && !res.is_trial,
            None => r is None,
        },
{
    let i = match t.item { Some(i) => i, None => return None };
    let d = match i.data { Some(d) => d, None => return None };
    let id = match d.id { Some(x) => x, None => return None };
    let title = match d.name { Some(x) => x, None => return None };
    let album = match d.album_of_track { Some(x) => x, None => return None };
    let album_name = match album.name { Some(x) => x, None => return None };
    let artist = match d.artists { Some(x) => x, None => return None };
    let items = match artist.items { Some(x) => x, None => return None };
    let artists = names_of_profiles(&items);
    let duration_ms = match d.duration {
        Some(du) => du.total_milliseconds,
        None => None,
    };
    Some(SpotifySearchResult {
        id,
        title,
        artists,
        album: album_name,
        duration_ms,
        match_score: 0,
        trial: None,
        is_trial: false,
    })
}

/// The results of a Spotify search for `query` whose reply lists the top results `tops` (none
/// when a level of the reply is missing, which is refused as no result); see
/// [`spotify_results_of`].
pub fn spotify_results(label: &str, query: &str, tops: Option<Vec<SpotifyTopResult>>) -> (r: LyrixResult<Vec<SpotifySearchResult>>)
    ensures
        match tops {
            None => r matches Err(LyrixError::Searcher(SearcherError::NoResults { label: l, query: q }))
                && l@ == label@ && q@ == query@,
            Some(v) => r matches Ok(out) && out@.len() == spotify_results_of(v@).len() && forall|i: int|
                0 <= i < out@.len() ==> spotify_result_value(#[trigger] out@[i]) == spotify_results_of(v@)[i]
                    && out@[i].match_score == 0 && out@[i].trial is None && !out@[i].is_trial,
        },
{
    let v = match tops {
        Some(v) => v,
        None => {
            return Err(
                LyrixError::Searcher(
                    SearcherError::NoResults { label: label.to_string(), query: query.to_string() },
                ),
            );
        },
    };
    let ghost all = v@;
    let mut out: Vec<SpotifySearchResult> = Vec::new();
    for t in it: v
        invariant
            it.seq() == all,
            out@.len() == spotify_results_of(all.take(it.index() as int)).len(),
            forall|i: int|
                0 <= i < out@.len() ==> spotify_result_value(#[trigger] out@[i])
                    == spotify_results_of(all.take(it.index() as int))[i] && out@[i].match_score == 0
                    && out@[i].trial is None && !out@[i].is_trial,
    {
        let ghost k = it.index() as int;
        assert(all.take(k + 1).drop_last() =~= all.take(k));
        assert(all.take(k + 1).last() == t);
        match spotify_result(t) {
            Some(res) => {
                out.push(res);
            },
            None => {},
        }
    }
    assert(all.take(all.len() as int) =~= all);
    Ok(out)
}

} // verus!
