//! QQ Music search results.

use vstd::prelude::*;
use crate::fetchers::qqmusic::QQMusicApi;
use crate::models::track_metadata::TrackMetadata;
use crate::searchers::scoring::{
    clean_title_string, default_score, default_score_fits, make_search_strings, remove_feat_string,
    score_default, trial_match,
};
use crate::searchers::{ISearchResult, ISearcher, SearchResultView, SearcherType};

verus! {

/// Searches QQ Music.
pub struct QQMusicSearcher {
    pub api: QQMusicApi,
}

impl QQMusicSearcher {
    /// A searcher over the default QQ Music endpoint.
    pub fn new() -> (r: Self)
        ensures
            r.api.base_url@ == crate::fetchers::qqmusic::qqmusic_base_url(),
    {
        QQMusicSearcher { api: QQMusicApi::new() }
    }

    /// The searcher's name.
    pub fn name(&self) -> (r: &'static str)
        ensures
            r@ == seq!['Q', 'Q', 'M', 'u', 's', 'i', 'c'],
    {
        proof {
            reveal_strlit("QQMusic");
        }
        "QQMusic"
    }

    /// The searcher's display name.
    pub fn display_name(&self) -> (r: &'static str)
        ensures
            r@ == seq!['Q', 'Q', ' ', 'M', 'u', 's', 'i', 'c'],
    {
        proof {
            reveal_strlit("QQ Music");
        }
        "QQ Music"
    }

    /// The source this searcher searches.
    pub fn searcher_type(&self) -> (r: SearcherType)
        ensures
            r == SearcherType::QQMusic,
    {
        SearcherType::QQMusic
    }
}

impl ISearcher for QQMusicSearcher {
    open spec fn track_score(&self, track: TrackMetadata, r: SearchResultView) -> int {
        default_score(track, r, '/')
    }

    open spec fn track_trial(&self, track: TrackMetadata, r: SearchResultView) -> bool {
        trial_match(track.duration_ms, r.trial)
    }

    /// Artists are separated by `/`.
    fn get_split_char(&self) -> (r: char)
        ensures
            r == '/',
    {
        '/'
    }

    fn min_score(&self) -> (r: i8)
        ensures
            r == 5,
    {
        5
    }

    fn wow_score(&self) -> (r: i8)
        ensures
            r == 7,
    {
        7
    }

    fn clean_title(&self, title: &str) -> (r: String) {
        clean_title_string(title)
    }

    fn remove_feat(&self, title: &str) -> (r: String) {
        remove_feat_string(title)
    }

    fn make_search_string(&self, track: &TrackMetadata) -> (r: Vec<String>) {
        make_search_strings(track)
    }

    fn compare_track<R: ISearchResult>(&self, track: &TrackMetadata, result: &R) -> (r: (
        i8,
        bool,
    )) {
        score_default(track, result, '/')
    }

    fn score_fits<R: ISearchResult>(&self, track: &TrackMetadata, result: &R) -> (r: bool) {
        default_score_fits(track, result, '/')
    }
}

/// A QQ Music search result.
#[derive(Debug, Clone)]
pub struct QQMusicSearchResult {
    pub mid: String,
    pub title: String,
    pub artists: Vec<String>,
    pub album: String,
    pub duration_ms: Option<i32>,
    pub match_score: i8,
}

/// A duration in milliseconds as a `u32`, absent when negative.
pub open spec fn nonnegative_ms(d: Option<i32>) -> Option<u32> {
    match d {
        Some(v) => if v >= 0 {
            Some(v as u32)
        } else {
            None
        },
        None => None,
    }
}

impl ISearchResult for QQMusicSearchResult {
    open spec fn result_view(&self) -> SearchResultView {
        SearchResultView {
            title: self.title@,
            artists: self.artists.deep_view(),
            album: self.album@,
            album_artists: None,
            duration_ms: nonnegative_ms(self.duration_ms),
            match_score: self.match_score,
            trial: None,
            is_trial: false,
        }
    }

    fn title(&self) -> (r: &str) {
        self.title.as_str()
    }

    fn artists(&self) -> (r: &[String]) {
        let r = self.artists.as_slice();
        assert(r.deep_view() =~= self.artists.deep_view());
        r
    }

    fn album(&self) -> (r: &str) {
        self.album.as_str()
    }

    fn album_artists(&self) -> (r: Option<&[String]>) {
        None
    }

    /// The duration, when it is not negative.
    fn duration_ms(&self) -> (r: Option<u32>) {
        match self.duration_ms {
            Some(d) => if d >= 0 {
                Some(d as u32)
            } else {
                None
            },
            None => None,
        }
    }

    fn match_score(&self) -> (r: i8) {
        self.match_score
    }

    fn set_match_score(&mut self, mt: i8)
        ensures
            *final(self) == (QQMusicSearchResult { match_score: mt, ..*old(self) }),
    {
        self.match_score = mt;
    }

    /// QQ Music results carry no trial cut.
    fn trial(&self) -> (r: Option<[u32; 2]>) {
        None
    }

    fn is_trial(&self) -> (r: bool) {
        false
    }

    /// QQ Music results are never trial cuts: this changes nothing.
    fn set_trial(&mut self, _i: bool)
        ensures
            *final(self) == *old(self),
    {
    }
}

} // verus!
