use lyrix::error::general::GeneralError;
use lyrix::error::LyrixError;
use lyrix::providers::race::{RaceAction, RaceEvent, RaceState, RawLyricsSource};
use lyrix::providers::RawLyrics;

fn lyrics(s: &str) -> RawLyrics {
    RawLyrics { content: s.to_string(), track_metadata: None }
}

#[test]
fn local_hit_is_delivered_at_once() {
    let mut state = RaceState::new();
    match state.on_event(RaceEvent::Local(Ok(lyrics("local")))) {
        RaceAction::Deliver(l, RawLyricsSource::Local) => assert_eq!(l.content, "local"),
        other => panic!("unexpected {:?}", other),
    }
}

#[test]
fn network_hit_waits_for_local_read() {
    let mut state = RaceState::new();
    assert!(matches!(state.on_event(RaceEvent::Network(Ok(lyrics("net")))), RaceAction::Wait));
    match state.on_event(RaceEvent::Local(Ok(lyrics("local")))) {
        RaceAction::Deliver(l, RawLyricsSource::Local) => assert_eq!(l.content, "local"),
        other => panic!("unexpected {:?}", other),
    }
}

#[test]
fn held_network_hit_is_delivered_when_local_fails() {
    let mut state = RaceState::new();
    assert!(matches!(state.on_event(RaceEvent::Network(Ok(lyrics("net")))), RaceAction::Wait));
    match state.on_event(RaceEvent::Local(Err("no file".to_string()))) {
        RaceAction::Deliver(l, RawLyricsSource::Network) => assert_eq!(l.content, "net"),
        other => panic!("unexpected {:?}", other),
    }
}

#[test]
fn network_hit_after_local_failure_is_delivered() {
    let mut state = RaceState::new();
    assert!(matches!(state.on_event(RaceEvent::Local(Err("no file".to_string()))), RaceAction::Wait));
    match state.on_event(RaceEvent::Network(Ok(lyrics("net")))) {
        RaceAction::Deliver(l, RawLyricsSource::Network) => assert_eq!(l.content, "net"),
        other => panic!("unexpected {:?}", other),
    }
}

#[test]
fn both_failures_stop_and_name_each_error() {
    let mut state = RaceState::new();
    assert!(matches!(state.on_event(RaceEvent::JoinFailed("panicked".to_string())), RaceAction::Wait));
    assert!(matches!(state.on_event(RaceEvent::Network(Err("http".to_string()))), RaceAction::Wait));
    assert!(matches!(state.on_event(RaceEvent::Local(Err("no file".to_string()))), RaceAction::Stop));
    match state.finish("QQ音乐") {
        Err(LyrixError::General(GeneralError::MissingField { field })) => assert_eq!(
            field,
            "QQ音乐: no lyrics content; local: no file; network: http; join: panicked"
        ),
        other => panic!("unexpected {:?}", other),
    }
}

#[test]
fn finish_hands_back_held_network_hit() {
    let mut state = RaceState::new();
    assert!(matches!(state.on_event(RaceEvent::Network(Ok(lyrics("net")))), RaceAction::Wait));
    assert_eq!(state.finish("x").unwrap().content, "net");
}

#[test]
fn finish_without_errors_names_only_the_source() {
    let state = RaceState::new();
    match state.finish("src") {
        Err(LyrixError::General(GeneralError::MissingField { field })) => {
            assert_eq!(field, "src: no lyrics content")
        }
        other => panic!("unexpected {:?}", other),
    }
}
