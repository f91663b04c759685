use lyrix::error::fetcher::{AuthError, FetcherError};
use lyrix::error::general::GeneralError;
use lyrix::error::searcher::SearcherError;
use lyrix::error::LyrixError;
use lyrix::fetchers::qqmusic::LyricResult1;
use lyrix::models::line_info::LineInfo;
use lyrix::models::music_player::MusicPlayer;
use lyrix::models::session::Session;
use lyrix::models::track_metadata::TrackMetadata;
use lyrix::providers::{
    lyrics_from_lines, message_text, moekoe_lyrics, network_raw_lyrics, parse_route, plan_fetch,
    qq_lyric_choice, qq_qrc_choice, request_track, require_match, FetchRoute, ParseRoute,
    WsMessage,
};
use lyrix::searchers::spotify::SpotifySearchResult;

#[test]
fn plan_fetch_routes_players() {
    let session = Session::default();
    assert_eq!(plan_fetch(&MusicPlayer::Netease, &session).unwrap(), FetchRoute::Netease);
    assert_eq!(plan_fetch(&MusicPlayer::QQMusic, &session).unwrap(), FetchRoute::QQMusic);
    assert_eq!(plan_fetch(&MusicPlayer::Kugou, &session).unwrap(), FetchRoute::Kugou);
    assert_eq!(plan_fetch(&MusicPlayer::SodaMusic, &session).unwrap(), FetchRoute::SodaMusic);
}

#[test]
fn plan_fetch_needs_credentials() {
    let session = Session::default();
    match plan_fetch(&MusicPlayer::Spotify, &session) {
        Err(LyrixError::Fetcher(FetcherError::Auth(AuthError::MissingCredential { provider, field }))) => {
            assert_eq!(provider, "Spotify");
            assert_eq!(field, "spotify_cookie");
        }
        other => panic!("unexpected {:?}", other),
    }
    match plan_fetch(&MusicPlayer::AppleMusic, &session) {
        Err(LyrixError::Fetcher(FetcherError::Auth(AuthError::MissingCredential { provider, field }))) => {
            assert_eq!(provider, "AppleMusic");
            assert_eq!(field, "applemusic_token");
        }
        other => panic!("unexpected {:?}", other),
    }
    let session = Session {
        applemusic_token: Some("tok".to_string()),
        spotify_cookie: Some("cookie".to_string()),
    };
    assert_eq!(
        plan_fetch(&MusicPlayer::Spotify, &session).unwrap(),
        FetchRoute::Spotify { cookie: "cookie".to_string() }
    );
    assert_eq!(
        plan_fetch(&MusicPlayer::AppleMusic, &session).unwrap(),
        FetchRoute::AppleMusic { token: "tok".to_string() }
    );
}

#[test]
fn plan_fetch_refuses_players_without_source() {
    match plan_fetch(&MusicPlayer::LXMusic, &Session::default()) {
        Err(LyrixError::General(GeneralError::UnsupportedPlayer { name })) => assert_eq!(name, "落雪音乐"),
        other => panic!("unexpected {:?}", other),
    }
    match parse_route(&MusicPlayer::AnyListen) {
        Err(LyrixError::General(GeneralError::UnsupportedPlayer { name })) => assert_eq!(name, "Any Listen"),
        other => panic!("unexpected {:?}", other),
    }
    assert_eq!(parse_route(&MusicPlayer::AppleMusic).unwrap(), ParseRoute::AppleMusic);
}

#[test]
fn require_match_names_source_and_title() {
    let track = request_track("Song", None, None, None, 1000);
    assert_eq!(require_match(Some(3), "QQ音乐", &track).unwrap(), 3);
    match require_match::<i32>(None, "QQ音乐", &track) {
        Err(LyrixError::Searcher(SearcherError::NoMatch { label, title })) => {
            assert_eq!(label, "QQ音乐");
            assert_eq!(title, "Song");
        }
        other => panic!("unexpected {:?}", other),
    }
}

#[test]
fn network_raw_lyrics_keeps_result_metadata() {
    let best = SpotifySearchResult {
        id: "id1".to_string(),
        title: "Title".to_string(),
        artists: vec!["A".to_string(), "B".to_string()],
        album: "Album".to_string(),
        duration_ms: Some(180_000),
        match_score: 9,
        trial: Some([1_000, 30_000]),
        is_trial: true,
    };
    let raw = network_raw_lyrics("content".to_string(), &best);
    assert_eq!(raw.content, "content");
    let m = raw.track_metadata.unwrap();
    assert_eq!(m.title.as_deref(), Some("Title"));
    assert_eq!(m.artist.as_deref(), Some("A, B"));
    assert_eq!(m.album.as_deref(), Some("Album"));
    assert_eq!(m.album_artist, None);
    assert_eq!(m.duration_ms, Some(180_000));
    assert_eq!(m.score, 9);
    assert!(m.is_trial);
    assert_eq!(m.trial, Some([1_000, 30_000]));
}

#[test]
fn lyrics_from_lines_refuses_empty_lyrics() {
    match lyrics_from_lines(&MusicPlayer::QQMusic, vec![], None) {
        Err(LyrixError::General(GeneralError::MissingField { field })) => {
            assert_eq!(field, "QQ音乐: no lyrics content")
        }
        other => panic!("unexpected {:?}", other),
    }
    let line = LineInfo { start_time: 5, duration: 1, text: "x".to_string(), syllables: vec![] };
    let data = lyrics_from_lines(&MusicPlayer::QQMusic, vec![line], Some(TrackMetadata::default())).unwrap();
    assert_eq!(data.lines.len(), 1);
    assert!(data.track_metadata.is_some());
}

#[test]
fn qq_lyrics_choices() {
    assert_eq!(qq_qrc_choice(Some("qrc".to_string())), Some("qrc".to_string()));
    assert_eq!(qq_qrc_choice(Some(String::new())), None);
    assert_eq!(qq_qrc_choice(None), None);
    let reply = LyricResult1 { code: Some(0), lyric: Some("[00:01]x".to_string()), trans: None };
    assert_eq!(qq_lyric_choice(Some(reply)).unwrap(), "[00:01]x");
    match qq_lyric_choice(None) {
        Err(LyrixError::General(GeneralError::MissingField { field })) => assert_eq!(field, "QQ音乐: 获取歌词失败"),
        other => panic!("unexpected {:?}", other),
    }
    let empty = LyricResult1 { code: Some(0), lyric: Some(String::new()), trans: None };
    match qq_lyric_choice(Some(empty)) {
        Err(LyrixError::General(GeneralError::MissingField { field })) => {
            assert_eq!(field, "QQ音乐: 未获取到歌词内容")
        }
        other => panic!("unexpected {:?}", other),
    }
}

#[test]
fn moekoe_messages() {
    assert_eq!(message_text(WsMessage::Text("t".to_string())).unwrap(), Some("t".to_string()));
    assert_eq!(message_text(WsMessage::Binary(b"bin".to_vec())).unwrap(), Some("bin".to_string()));
    assert_eq!(message_text(WsMessage::Binary(vec![0xff, 0xfe])).unwrap(), None);
    assert_eq!(message_text(WsMessage::Ping).unwrap(), None);
    match message_text(WsMessage::Close) {
        Err(LyrixError::General(GeneralError::Internal { detail })) => {
            assert_eq!(detail, "MoeKoe websocket closed before lyrics arrived")
        }
        other => panic!("unexpected {:?}", other),
    }
}

#[test]
fn moekoe_lyrics_payloads() {
    assert_eq!(moekoe_lyrics("status", Ok(Some("x".to_string()))).unwrap(), None);
    assert_eq!(moekoe_lyrics("lyrics", Ok(Some("x".to_string()))).unwrap(), Some("x".to_string()));
    match moekoe_lyrics("lyrics", Ok(Some(String::new()))) {
        Err(LyrixError::General(GeneralError::MissingField { field })) => assert_eq!(field, "MoeKoe lyricsData"),
        other => panic!("unexpected {:?}", other),
    }
    match moekoe_lyrics("lyrics", Err("bad json".to_string())) {
        Err(LyrixError::General(GeneralError::Internal { detail })) => {
            assert_eq!(detail, "MoeKoe lyrics payload parse failed: bad json")
        }
        other => panic!("unexpected {:?}", other),
    }
}

#[test]
fn request_track_fills_given_fields() {
    let t = request_track("T", Some("A"), None, Some("AA"), 42);
    assert_eq!(t.title.as_deref(), Some("T"));
    assert_eq!(t.artist.as_deref(), Some("A"));
    assert_eq!(t.album, None);
    assert_eq!(t.album_artist.as_deref(), Some("AA"));
    assert_eq!(t.duration_ms, Some(42));
    assert_eq!(t.score, 0);
    assert!(!t.is_trial);
    assert_eq!(t.trial, None);
}
