use lyrix::models::track_metadata::{track_metadata_snapshot, TrackMetadata};
use lyrix::searchers::applemusic::{ApplemusicSearchResult, ApplemusicSearcher};
use lyrix::searchers::qqmusic::QQMusicSearcher;
use lyrix::searchers::scoring::{clean_title_string, remove_feat_string};
use lyrix::searchers::spotify::{SpotifySearchResult, SpotifySearcher};
use lyrix::searchers::{ISearchResult, ISearcher};

#[test]
fn clean_title_drops_brackets_dashes_and_marks() {
    assert_eq!(clean_title_string("Song (Live) [2020]"), "Song");
    assert_eq!(clean_title_string("《Song》 - Remix"), "Song");
    assert_eq!(clean_title_string("Hello!?"), "Hello");
    assert_eq!(QQMusicSearcher::new().clean_title("a · b…"), "a  b");
}

#[test]
fn remove_feat_cuts_featured_artists() {
    assert_eq!(remove_feat_string("Song (feat. X)"), "Song");
    assert_eq!(remove_feat_string("Song - feat. X"), "Song");
    assert_eq!(remove_feat_string("Song"), "Song");
}

#[test]
fn apple_scoring_reads_album_after_dash() {
    let searcher = ApplemusicSearcher::new("token".to_string());
    let track = TrackMetadata {
        title: Some("Hello".to_string()),
        artist: Some("甲、乙—Album X".to_string()),
        duration_ms: Some(1_000),
        ..Default::default()
    };
    let result = ApplemusicSearchResult {
        id: "1".to_string(),
        title: "hello".to_string(),
        artists: vec!["甲".to_string(), "丙".to_string()],
        album: "Album X".to_string(),
        duration_ms: Some(1_400),
        has_lyrics: true,
        match_score: 0,
    };
    assert_eq!(searcher.compare_track(&track, &result), (8, false));
}

#[test]
fn spotify_trial_cut_is_recognized() {
    let searcher = SpotifySearcher { cookie: "c".to_string() };
    let track = TrackMetadata {
        title: Some("a".to_string()),
        artist: Some("x".to_string()),
        duration_ms: Some(30_050),
        ..Default::default()
    };
    let mut result = SpotifySearchResult {
        id: "1".to_string(),
        title: "A".to_string(),
        artists: vec!["X".to_string()],
        album: "B".to_string(),
        duration_ms: Some(200_000),
        match_score: 0,
        trial: Some([0, 30_000]),
        is_trial: false,
    };
    let (score, trial) = searcher.compare_track(&track, &result);
    assert_eq!((score, trial), (7, true));
    result.set_trial(trial);
    assert!(result.is_trial());
    assert_eq!(result.trial(), Some([0, 30_000]));
}

#[test]
fn snapshot_keeps_the_track_fields() {
    let track = TrackMetadata {
        title: Some("t".to_string()),
        album_artist: Some("aa".to_string()),
        duration_ms: Some(3),
        score: 9,
        is_trial: true,
        trial: Some([1, 2]),
        ..Default::default()
    };
    let s = track_metadata_snapshot(&track);
    assert_eq!(s.title.as_deref(), Some("t"));
    assert_eq!(s.album_artist.as_deref(), Some("aa"));
    assert_eq!(s.duration_ms, Some(3));
    assert_eq!(s.score, 0);
    assert!(!s.is_trial);
    assert_eq!(s.trial, None);
}

#[test]
fn scores_fit_in_an_i8() {
    let searcher = QQMusicSearcher::new();
    let track = TrackMetadata { title: Some("a".to_string()), ..Default::default() };
    let result = lyrix::fetchers::qqmusic::song_to_result(lyrix::fetchers::qqmusic::Song1::default());
    assert!(searcher.score_fits(&track, &result));
    let many: Vec<String> = (0..130).map(|i| format!("x{i}")).collect();
    let track = TrackMetadata { artist: Some(many.join("/")), ..Default::default() };
    let mut result = lyrix::fetchers::qqmusic::song_to_result(lyrix::fetchers::qqmusic::Song1::default());
    result.artists = vec!["x".to_string()];
    assert!(!searcher.score_fits(&track, &result));
}

#[test]
fn scoring_ignores_ascii_case() {
    let searcher = SpotifySearcher { cookie: "c".to_string() };
    let meta = |t: &str, a: &str, al: &str| TrackMetadata {
        title: Some(t.to_string()),
        artist: Some(a.to_string()),
        album: Some(al.to_string()),
        duration_ms: Some(200_000),
        ..Default::default()
    };
    let found = |t: &str, a: &str, al: &str| SpotifySearchResult {
        id: "1".to_string(),
        title: t.to_string(),
        artists: vec![a.to_string()],
        album: al.to_string(),
        duration_ms: Some(200_500),
        match_score: 0,
        trial: None,
        is_trial: false,
    };
    let base = searcher.compare_track(&meta("Hello World", "Foo Bar", "Best Of"), &found("hello world", "foo", "best of"));
    let varied = searcher.compare_track(&meta("HELLO world", "fOO bAR", "BEST OF"), &found("Hello World", "FOO", "Best Of"));
    assert_eq!(base, varied);
    assert!(base.0 > 0);
}
