use lyrix::error::general::GeneralError;
use lyrix::error::LyrixError;
use lyrix::models::line_info::LineInfo;
use lyrix::models::lyrics_types::LyricsTypes;
use lyrix::models::music_player::{id2player, MusicPlayer};
use lyrix::parsers::soda_music::SodaParser;
use lyrix::error::parser::{ParseError, ParserError};
use lyrix::ws_client::WsClient;

#[test]
fn app_ids_name_players() {
    assert_eq!(id2player("cloudmusic.exe").unwrap(), MusicPlayer::Netease);
    assert_eq!(id2player("qqmusic.exe").unwrap(), MusicPlayer::QQMusic);
    assert_eq!(id2player("kugou").unwrap(), MusicPlayer::Kugou);
    assert_eq!(id2player("汽水音乐").unwrap(), MusicPlayer::SodaMusic);
    assert_eq!(id2player("AppleInc.AppleMusicWin_nzyj5cx40ttqa!App").unwrap(), MusicPlayer::AppleMusic);
    assert_eq!(id2player("Spotify.exe").unwrap(), MusicPlayer::Spotify);
    assert_eq!(id2player("cn.toside.music.desktop").unwrap(), MusicPlayer::LXMusic);
    assert_eq!(id2player("cn.toside.anylisten.desktop").unwrap(), MusicPlayer::AnyListen);
}

#[test]
fn unknown_app_id_is_refused() {
    match id2player("foo.exe") {
        Err(LyrixError::General(GeneralError::UnsupportedPlayer { name })) => {
            assert_eq!(name, "Unsupported appid: foo.exe")
        }
        other => panic!("unexpected {:?}", other),
    }
}

#[test]
fn display_names() {
    assert_eq!(MusicPlayer::Netease.display_name(), "网易云音乐");
    assert_eq!(MusicPlayer::QQMusic.display_name(), "QQ音乐");
    assert_eq!(MusicPlayer::Kugou.display_name(), "酷狗音乐");
    assert_eq!(MusicPlayer::AnyListen.display_name(), "Any Listen");
}

#[test]
fn line_emptiness() {
    let l = LineInfo { start_time: 0, duration: 1, text: "x".to_string(), syllables: vec![] };
    assert!(l.is_empty());
    let l = LineInfo { start_time: 5, duration: 1, text: "x".to_string(), syllables: vec![] };
    assert!(l.is_empty());
}

#[test]
fn lyrics_type_default() {
    assert_eq!(LyricsTypes::default(), LyricsTypes::Unknown);
    let _client: WsClient = WsClient::new();
}

#[test]
fn soda_offsets() {
    let p = SodaParser;
    assert_eq!(p.get_offset_time(100, 65_535).unwrap(), 65_535);
    match p.get_offset_time(7, 70_000) {
        Err(LyrixError::Parser(ParserError::Parse(ParseError::OffsetOverflow { t1, t2 }))) => {
            assert_eq!((t1, t2), (7, 70_000))
        }
        other => panic!("unexpected {:?}", other),
    }
}

#[test]
fn moekoe_music_is_supported() {
    assert_eq!(id2player("cn.MoeKoe.Music").unwrap(), MusicPlayer::MoeKoe);
    assert_eq!(MusicPlayer::MoeKoe.display_name(), "MoeKoe Music");
    let session = lyrix::models::session::Session::default();
    assert_eq!(
        lyrix::providers::plan_fetch(&MusicPlayer::MoeKoe, &session).unwrap(),
        lyrix::providers::FetchRoute::MoeKoe
    );
    assert_eq!(
        lyrix::providers::parse_route(&MusicPlayer::MoeKoe).unwrap(),
        lyrix::providers::ParseRoute::KugouPlain
    );
}
