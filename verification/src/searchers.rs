//! Search results and how a result is scored against the track being played.

pub mod applemusic;
pub mod case_folding;
pub mod qqmusic;
pub mod scoring;
pub mod selection;
pub mod spotify;

use vstd::prelude::*;
use crate::models::track_metadata::{opt_text, TrackMetadata};
use crate::searchers::scoring::{clean_title_of, remove_feat_of, search_strings};

verus! {

/// A lyrics source that can be searched.
#[derive(Debug, Clone, Copy, PartialEq, Eq)]
pub enum SearcherType {
    Netease,
    QQMusic,
    Kugou,
    SodaMusic,
    Spotify,
}

/// The value of a search result.
pub struct SearchResultView {
    pub title: Seq<char>,
    pub artists: Seq<Seq<char>>,
    pub album: Seq<char>,
    pub album_artists: Option<Seq<Seq<char>>>,
    pub duration_ms: Option<u32>,
    pub match_score: i8,
    /// Start and length of the trial cut, in milliseconds.
    pub trial: Option<(u32, u32)>,
    pub is_trial: bool,
}

/// A track found by a search.
pub trait ISearchResult {
    /// The value of this result.
    spec fn result_view(&self) -> SearchResultView;

    fn title(&self) -> (r: &str)
        ensures
            r@ == self.result_view().title,
    ;

    fn artists(&self) -> (r: &[String])
        ensures
            r.deep_view() == self.result_view().artists,
    ;

    fn album(&self) -> (r: &str)
        ensures
            r@ == self.result_view().album,
    ;

    fn album_artists(&self) -> (r: Option<&[String]>)
        ensures
            match r {
                Some(v) => self.result_view().album_artists == Some(v.deep_view()),
                None => self.result_view().album_artists is None,
            },
    ;

    fn duration_ms(&self) -> (r: Option<u32>)
        ensures
            r == self.result_view().duration_ms,
    ;

    fn match_score(&self) -> (r: i8)
        ensures
            r == self.result_view().match_score,
    ;

    fn set_match_score(&mut self, mt: i8)
        ensures
            final(self).result_view() == (SearchResultView {
                match_score: mt,
                ..old(self).result_view()
            }),
    ;

    fn trial(&self) -> (r: Option<[u32; 2]>)
        ensures
            match r {
                Some(t) => self.result_view().trial == Some((t[0], t[1])),
                None => self.result_view().trial is None,
            },
    ;

    fn is_trial(&self) -> (r: bool)
        ensures
            r == self.result_view().is_trial,
    ;

    /// Marks the result as a trial cut or not, where the source has trial cuts.
    fn set_trial(&mut self, i: bool)
        ensures
            final(self).result_view() == (SearchResultView {
                is_trial: final(self).result_view().is_trial,
                ..old(self).result_view()
            }),
    ;
}


/// A lyrics source that is searched for the track being played.
pub trait ISearcher {
    /// The match score of a result for a track.
    spec fn track_score(&self, track: TrackMetadata, r: SearchResultView) -> int;

    /// Whether a result is a trial cut of the track.
    spec fn track_trial(&self, track: TrackMetadata, r: SearchResultView) -> bool;

    /// The character that separates the artists of a track.
    fn get_split_char(&self) -> char;

    /// Results that score lower are dropped.
    fn min_score(&self) -> i8;

    /// A result that scores higher is taken at once.
    fn wow_score(&self) -> i8;

    /// A title without brackets, dashes and marks; see [`clean_title_of`].
    fn clean_title(&self, title: &str) -> (r: String)
        ensures
            r@ == clean_title_of(title@),
    ;

    /// A title without a featured-artist suffix; see [`remove_feat_of`].
    fn remove_feat(&self, title: &str) -> (r: String)
        ensures
            r@ == remove_feat_of(title@),
    ;

    /// The search strings to try for a track, in order; see [`search_strings`].
    fn make_search_string(&self, track: &TrackMetadata) -> (r: Vec<String>)
        ensures
            r.deep_view() == search_strings(
                opt_text(track.title),
                opt_text(track.artist),
                opt_text(track.album),
            ),
    ;

    /// Whether the match score of `result` for `track` fits in an `i8`, as
    /// [`ISearcher::compare_track`] needs.
    fn score_fits<R: ISearchResult>(&self, track: &TrackMetadata, result: &R) -> (r: bool)
        ensures
            r == (self.track_score(*track, result.result_view()) <= i8::MAX),
    ;

    /// The match score of `result` for `track`, and whether it is a trial cut.
    fn compare_track<R: ISearchResult>(&self, track: &TrackMetadata, result: &R) -> (r: (
        i8,
        bool,
    ))
        requires
            self.track_score(*track, result.result_view()) <= i8::MAX,
        ensures
            r.0 == self.track_score(*track, result.result_view()),
            r.1 == self.track_trial(*track, result.result_view()),
    ;
}

} // verus!
