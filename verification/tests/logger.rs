use lyrix::logger::{level_to_u8, LogLevel, LoggerState};

#[test]
fn levels_by_name_and_number() {
    assert_eq!(LogLevel::from_str("debug"), LogLevel::Debug);
    assert_eq!(LogLevel::from_str("WaRn"), LogLevel::Warn);
    assert_eq!(LogLevel::from_str("ERROR"), LogLevel::Error);
    assert_eq!(LogLevel::from_str("verbose"), LogLevel::Info);
    assert_eq!(LogLevel::from_u8(0), LogLevel::Debug);
    assert_eq!(LogLevel::from_u8(3), LogLevel::Error);
    assert_eq!(LogLevel::from_u8(9), LogLevel::Info);
    assert_eq!(level_to_u8("warn"), 2);
    assert_eq!(LogLevel::Warn.as_str_lower(), "warn");
    assert_eq!(LogLevel::Error.name(), "ERROR");
}

#[test]
fn level_round_trip() {
    for l in [LogLevel::Debug, LogLevel::Info, LogLevel::Warn, LogLevel::Error] {
        assert_eq!(LogLevel::from_u8(l.as_u8()), l);
        assert_eq!(LogLevel::from_str(l.as_str_lower()), l);
    }
}

#[test]
fn set_level_reads_back() {
    let mut s = LoggerState::new();
    assert_eq!(s.get_level(), "info");
    s.set_level("DEBUG");
    assert_eq!(s.get_level(), "debug");
    s.set_level("nonsense");
    assert_eq!(s.get_level(), "info");
}

#[test]
fn filter_is_normalized() {
    let mut s = LoggerState::new();
    s.set_filter(vec![" a ".to_string(), "".to_string(), "  ".to_string(), "b".to_string()], true);
    assert_eq!(s.get_filter_tags(), vec!["a".to_string(), "b".to_string()]);
    assert!(s.get_filter_invert());
}

#[test]
fn should_log_by_level_and_filter() {
    let mut s = LoggerState::new();
    assert!(!s.should_log("x", LogLevel::Debug));
    assert!(s.should_log("x", LogLevel::Info));
    s.set_filter(vec!["noisy".to_string()], false);
    assert!(!s.should_log("noisy", LogLevel::Error));
    assert!(s.should_log("quiet", LogLevel::Error));
    s.set_filter(vec!["only".to_string()], true);
    assert!(s.should_log("only", LogLevel::Warn));
    assert!(!s.should_log("other", LogLevel::Warn));
}

#[test]
fn upper_case_names_give_their_level() {
    for l in [LogLevel::Debug, LogLevel::Info, LogLevel::Warn, LogLevel::Error] {
        assert_eq!(LogLevel::from_str(l.name()), l);
    }
    assert_eq!(LogLevel::from_str(" warn"), LogLevel::Info);
    assert_eq!(LogLevel::from_str("warn "), LogLevel::Info);
    assert_eq!(LogLevel::from_str(""), LogLevel::Info);
}

#[test]
fn lower_name_is_the_lowercased_display_name() {
    for l in [LogLevel::Debug, LogLevel::Info, LogLevel::Warn, LogLevel::Error] {
        assert_eq!(l.as_str_lower(), l.name().to_ascii_lowercase());
        assert_eq!(l.as_str_lower(), l.name().to_lowercase());
    }
}
