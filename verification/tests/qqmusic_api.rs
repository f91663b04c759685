use lyrix::error::searcher::SearcherError;
use lyrix::error::LyrixError;
use lyrix::fetchers::qqmusic::{
    lyrics_qrc_from_reply, resolve_resp_json, results_from_reply, scan_qrc_reply, song_to_result,
    Album1, LyricResult1, MusicFcgApiResult1, MusicFcgReq11, MusicFcgReq1Data1,
    MusicFcgReq1DataBody1, QQMusicApi, QrcScan, Singer1, Song1, SongList1,
};
use lyrix::searchers::qqmusic::{QQMusicSearchResult, QQMusicSearcher};
use lyrix::searchers::{ISearchResult, ISearcher};
use lyrix::models::track_metadata::TrackMetadata;

#[test]
fn api_endpoint() {
    assert_eq!(QQMusicApi::new().base_url, "https://c.y.qq.com/");
    assert_eq!(QQMusicSearcher::new().api.base_url, "https://c.y.qq.com/");
}

#[test]
fn jsonp_payload_is_unwrapped() {
    let cb = "MusicJsonCallback_lrc";
    assert_eq!(resolve_resp_json(cb, "MusicJsonCallback_lrc({\"code\":0})"), "{\"code\":0}");
    assert_eq!(resolve_resp_json(cb, "other({\"code\":0})"), "");
    assert_eq!(resolve_resp_json(cb, "MusicJsonCallback_lrc{\"a\":1}"), "MusicJsonCallback_lrc{\"a\":1}");
}

#[test]
fn qrc_reply_gives_cdata_content() {
    let reply = "<?xml version=\"1.0\"?><QrcInfos><LyricInfo><Lyric_1 LyricContent=\"<![CDATA[ABCDEF0123]]>\"/></LyricInfo></QrcInfos>";
    assert_eq!(lyrics_qrc_from_reply(reply, "42").unwrap(), "ABCDEF0123");
    assert!(matches!(scan_qrc_reply(reply), QrcScan::Found { .. }));
}

#[test]
fn qrc_reply_without_cdata_is_no_result() {
    match lyrics_qrc_from_reply("<a>[b]</a>", "42") {
        Err(LyrixError::Searcher(SearcherError::NoResults { label, query })) => {
            assert_eq!(label, "QQMusic");
            assert_eq!(query, "qrc id=42");
        }
        other => panic!("unexpected {:?}", other),
    }
    assert_eq!(scan_qrc_reply("[CDATA[abc"), QrcScan::NotFound);
}

#[test]
fn qrc_reply_cut_inside_a_character_is_unsliceable() {
    assert_eq!(scan_qrc_reply("[CDAT\u{6211}"), QrcScan::Unsliceable);
}

#[test]
fn lyric_reply_is_base64_decoded() {
    let mut r = LyricResult1 {
        code: Some(0),
        lyric: Some("5L2g5aW9IGx5cmljcw==".to_string()),
        trans: Some("not base64!".to_string()),
    };
    r.decode();
    assert_eq!(r.lyric.as_deref(), Some("你好 lyrics"));
    assert_eq!(r.trans.as_deref(), Some("not base64!"));
    assert_eq!(r.code, Some(0));
}

#[test]
fn lyric_reply_with_non_utf8_bytes_loses_the_field() {
    let mut r = LyricResult1 { code: None, lyric: Some("//79".to_string()), trans: None };
    r.decode();
    assert_eq!(r.lyric, None);
}

fn song() -> Song1 {
    Song1 {
        album: Some(Album1 { name: Some("Alb".to_string()), ..Default::default() }),
        interval: Some(200),
        mid: Some("mid1".to_string()),
        name: None,
        title: Some("Song".to_string()),
        singer: Some(vec![
            Singer1 { name: Some("A".to_string()), ..Default::default() },
            Singer1 { name: None, ..Default::default() },
            Singer1 { name: Some("B".to_string()), ..Default::default() },
        ]),
        ..Default::default()
    }
}

#[test]
fn song_becomes_search_result() {
    let r = song_to_result(song());
    assert_eq!(r.title, "Song");
    assert_eq!(r.artists, vec!["A".to_string(), "B".to_string()]);
    assert_eq!(r.album, "Alb");
    assert_eq!(r.duration_ms, Some(200_000));
    assert_eq!(r.mid, "mid1");
    assert_eq!(r.match_score, 0);
}

#[test]
fn reply_lists_its_songs() {
    let reply = MusicFcgApiResult1 {
        code: Some(0),
        req_1: Some(MusicFcgReq11 {
            code: Some(0),
            data: Some(MusicFcgReq1Data1 {
                body: Some(MusicFcgReq1DataBody1 { song: Some(SongList1 { list: Some(vec![song(), song()]) }) }),
            }),
        }),
    };
    assert_eq!(results_from_reply(Some(reply)).len(), 2);
    assert_eq!(results_from_reply(None).len(), 0);
}

#[test]
fn qq_result_scores_against_track() {
    let searcher = QQMusicSearcher::new();
    let track = TrackMetadata {
        title: Some("Song".to_string()),
        artist: Some("A/B".to_string()),
        album: Some("alb".to_string()),
        duration_ms: Some(200_000),
        ..Default::default()
    };
    let mut r: QQMusicSearchResult = song_to_result(song());
    assert_eq!(searcher.compare_track(&track, &r), (11, false));
    r.set_match_score(11);
    assert_eq!(r.match_score(), 11);
    assert_eq!(r.duration_ms(), Some(200_000));
}

#[test]
fn qq_search_strings() {
    let searcher = QQMusicSearcher::new();
    let track = TrackMetadata {
        title: Some(" Song (Live) ".to_string()),
        artist: Some("A".to_string()),
        album: None,
        ..Default::default()
    };
    assert_eq!(
        searcher.make_search_string(&track),
        vec![
            "Song (Live) A".to_string(),
            "Song A".to_string(),
            "Song (Live) A".to_string(),
            "Song A".to_string(),
            "Song (Live)".to_string(),
            "Song".to_string(),
            "Song (Live)".to_string(),
            "Song".to_string(),
        ]
    );
}

#[test]
fn reply_fits_checks_song_lengths() {
    let mut long = song();
    long.interval = Some(3_000_000);
    let reply = MusicFcgApiResult1 {
        code: Some(0),
        req_1: Some(MusicFcgReq11 {
            code: Some(0),
            data: Some(MusicFcgReq1Data1 {
                body: Some(MusicFcgReq1DataBody1 { song: Some(SongList1 { list: Some(vec![song(), long]) }) }),
            }),
        }),
    };
    assert!(!lyrix::fetchers::qqmusic::reply_fits(&Some(reply)));
    assert!(lyrix::fetchers::qqmusic::reply_fits(&None));
}

#[test]
fn qq_searcher_identity() {
    let s = QQMusicSearcher::new();
    assert_eq!(s.name(), "QQMusic");
    assert_eq!(s.display_name(), "QQ Music");
    assert_eq!(s.searcher_type(), lyrix::searchers::SearcherType::QQMusic);
    assert_eq!(s.get_split_char(), '/');
    assert_eq!((s.min_score(), s.wow_score()), (5, 7));
}
