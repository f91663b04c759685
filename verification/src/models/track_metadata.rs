//! What is known of the track being played, and of the track a search matched.

use vstd::prelude::*;

verus! {

/// Metadata of a track.
#[derive(Debug, Clone, Default)]
pub struct TrackMetadata {
    pub title: Option<String>,
    pub artist: Option<String>,
    pub album: Option<String>,
    pub album_artist: Option<String>,
    pub duration_ms: Option<u32>,
    /// Match score of the search result this metadata was taken from.
    pub score: i8,
    /// The matched result is a trial (preview) cut of the track.
    pub is_trial: bool,
    /// Start and length, in milliseconds, of the trial cut.
    pub trial: Option<[u32; 2]>,
}

/// The text of an optional string, empty when absent (`unwrap_or_default`).
pub open spec fn opt_text(o: Option<String>) -> Seq<char> {
    match o {
        Some(s) => s@,
        None => seq![],
    }
}

/// A copy of `track` that keeps its title, artist, album, album artist and duration, with the
/// other fields at their defaults.
pub fn track_metadata_snapshot(track: &TrackMetadata) -> (r: TrackMetadata)
    ensures
        r.title == track.title,
        r.artist == track.artist,
        r.album == track.album,
        r.album_artist == track.album_artist,
        r.duration_ms == track.duration_ms,
        r.score == 0,
        !r.is_trial,
        r.trial is None,
{
    TrackMetadata {
        title: track.title.clone(),
        artist: track.artist.clone(),
        album: track.album.clone(),
        album_artist: track.album_artist.clone(),
        duration_ms: track.duration_ms,
        score: 0,
        is_trial: false,
        trial: None,
    }
}

} // verus!
