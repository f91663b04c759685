use lyrix::error::searcher::SearcherError;
use lyrix::error::LyrixError;
use lyrix::parsers::spotify::{LyricData, RawLine, SpotifyParser};
use lyrix::searchers::applemusic::{apple_results, AppleSong, AppleSongAttributes, ApplemusicSearcher};
use lyrix::searchers::spotify::{
    spotify_results, SpotifyAlbum, SpotifyArtist, SpotifyArtists, SpotifyDuration, SpotifyItem,
    SpotifyProfile, SpotifyTopResult, SpotifyTrack,
};

fn raw(st: Option<&str>, words: Option<&str>, et: Option<&str>) -> RawLine {
    RawLine {
        start_time_ms: st.map(str::to_string),
        words: words.map(str::to_string),
        end_time_ms: et.map(str::to_string),
    }
}

#[test]
fn spotify_lines_are_read() {
    let data = LyricData {
        sync_type: Some("LINE_SYNCED".to_string()),
        lines: Some(vec![
            raw(Some("1000"), Some("one"), Some("2500")),
            raw(Some("3000"), Some(""), Some("4000")),
            raw(None, Some("two"), None),
            raw(Some("5000"), Some("three"), Some("4000")),
            raw(Some("0"), Some("four"), Some("70000")),
        ]),
    };
    let lines = SpotifyParser.parse(data).unwrap();
    let got: Vec<(u32, u16, &str)> = lines.iter().map(|l| (l.start_time, l.duration, l.text.as_str())).collect();
    assert_eq!(got, vec![(1000, 1500, "one"), (0, 0, "two"), (5000, 0, "three"), (0, 4464, "four")]);
}

#[test]
fn spotify_errors() {
    let data = LyricData { sync_type: Some("UNSYNCED".to_string()), lines: Some(vec![]) };
    assert_eq!(SpotifyParser.parse(data).unwrap_err(), "SpotifyParser: unknown sync_type: UNSYNCED");
    let data = LyricData { sync_type: None, lines: Some(vec![]) };
    assert_eq!(SpotifyParser.parse(data).unwrap_err(), "SpotifyParser: unknown sync_type: ");
    let data = LyricData { sync_type: Some("LINE_SYNCED".to_string()), lines: None };
    assert_eq!(SpotifyParser.parse_without_st(data).unwrap_err(), "SpotifyParser: missing lines");
    let data = LyricData {
        sync_type: Some("LINE_SYNCED".to_string()),
        lines: Some(vec![raw(Some("x"), Some("w"), None)]),
    };
    assert_eq!(SpotifyParser.parse(data).unwrap_err(), "SpotifyParser: invalid startTimeMs");
    let data = LyricData {
        sync_type: Some("LINE_SYNCED".to_string()),
        lines: Some(vec![raw(Some("1"), Some("w"), Some("-1"))]),
    };
    assert_eq!(SpotifyParser.parse(data).unwrap_err(), "SpotifyParser: invalid endTimeMs");
}

fn top(id: Option<&str>, album: Option<&str>) -> SpotifyTopResult {
    SpotifyTopResult {
        item: Some(SpotifyItem {
            data: Some(SpotifyTrack {
                id: id.map(str::to_string),
                name: Some("Title".to_string()),
                album_of_track: Some(SpotifyAlbum { name: album.map(str::to_string) }),
                artists: Some(SpotifyArtists {
                    items: Some(vec![
                        SpotifyArtist { profile: Some(SpotifyProfile { name: Some("A".to_string()) }) },
                        SpotifyArtist { profile: None },
                    ]),
                }),
                duration: Some(SpotifyDuration { total_milliseconds: Some(123) }),
            }),
        }),
    }
}

#[test]
fn spotify_results_skip_incomplete_items() {
    let out = spotify_results("Spotify", "q", Some(vec![top(Some("1"), Some("Al")), top(None, Some("Al")), top(Some("3"), None)])).unwrap();
    assert_eq!(out.len(), 1);
    assert_eq!(out[0].id, "1");
    assert_eq!(out[0].title, "Title");
    assert_eq!(out[0].artists, vec!["A".to_string()]);
    assert_eq!(out[0].album, "Al");
    assert_eq!(out[0].duration_ms, Some(123));
    match spotify_results("Spotify", "q", None) {
        Err(LyrixError::Searcher(SearcherError::NoResults { label, query })) => {
            assert_eq!((label.as_str(), query.as_str()), ("Spotify", "q"))
        }
        other => panic!("unexpected {:?}", other),
    }
}

#[test]
fn apple_results_split_artists() {
    let song = AppleSong {
        id: Some("77".to_string()),
        attributes: Some(AppleSongAttributes {
            name: Some("T".to_string()),
            artist_name: Some(" 甲 、乙、 ".to_string()),
            album_name: None,
            duration_in_millis: Some(4_294_967_297),
            has_lyrics: None,
        }),
    };
    let out = apple_results("applemusic", "q", Some(vec![song])).unwrap();
    assert_eq!(out[0].id, "77");
    assert_eq!(out[0].artists, vec!["甲".to_string(), "乙".to_string()]);
    assert_eq!(out[0].album, "");
    assert_eq!(out[0].duration_ms, Some(1));
    assert!(!out[0].has_lyrics);
    assert_eq!(ApplemusicSearcher::new("t".to_string()).label(), "applemusic");
}

#[test]
fn apple_song_without_attributes_fails_the_search() {
    let songs = vec![AppleSong { id: Some("9".to_string()), attributes: None }];
    match apple_results("applemusic", "q", Some(songs)) {
        Err(LyrixError::Searcher(SearcherError::MissingField { label, field })) => {
            assert_eq!(label, "applemusic");
            assert_eq!(field, "attributes for id=9");
        }
        other => panic!("unexpected {:?}", other),
    }
}
