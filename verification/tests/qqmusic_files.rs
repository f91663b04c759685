use lyrix::error::general::GeneralError;
use lyrix::error::LyrixError;
use lyrix::files::qqmusic::{
    collect_matching_qrc_files, ensure_windows, find_qqmusic_qrc_path_by_metadata_in_dir,
    find_qqmusic_qrc_path_in_dir, is_qqmusic_qrc_filename, is_qqmusic_qrc_path, is_qrc_file,
    parse_qqmusic_qrc_filename, parse_webkit_cache_path, track_fields,
};
use lyrix::models::track_metadata::TrackMetadata;
use lyrix::readers::qqmusic::QQMusicReaders;

fn track(title: &str, artist: &str, album: &str) -> TrackMetadata {
    TrackMetadata {
        title: Some(title.to_string()),
        artist: Some(artist.to_string()),
        album: Some(album.to_string()),
        ..Default::default()
    }
}

#[test]
fn parses_qrc_file_name() {
    let info = parse_qqmusic_qrc_filename(" Artist A - Some Title - 303 - The Album_qm.qrc ").unwrap();
    assert_eq!(info.artist, "Artist A");
    assert_eq!(info.title, "Some Title");
    assert_eq!(info.index, "303");
    assert_eq!(info.album, "The Album");
}

#[test]
fn extra_separators_stay_in_the_artist() {
    let info = parse_qqmusic_qrc_filename("A - B - T - 1 - Al_qm.qrc").unwrap();
    assert_eq!(info.artist, "A - B");
    assert_eq!(info.title, "T");
    assert_eq!(info.index, "1");
    assert_eq!(info.album, "Al");
}

#[test]
fn rejects_bad_qrc_file_names() {
    assert!(parse_qqmusic_qrc_filename("A - T - 1 - Al.qrc").is_none());
    assert!(parse_qqmusic_qrc_filename("T - 1 - Al_qm.qrc").is_none());
    assert!(parse_qqmusic_qrc_filename("A - T - x1 - Al_qm.qrc").is_none());
    assert!(parse_qqmusic_qrc_filename("A -  - 1 - Al_qm.qrc").is_none());
    assert!(!is_qqmusic_qrc_filename("notes.txt"));
    assert!(is_qqmusic_qrc_filename("A - T - 1 - Al_qm.qrc"));
    assert!(is_qqmusic_qrc_path("A - T - 1 - Al_qm.qrc"));
}

#[test]
fn reader_splits_artists() {
    let info = lyrix::readers::qqmusic::parse_qqmusic_qrc_filename("A_B - T - 1 - Al_qm.qrc").unwrap();
    assert_eq!(info.artist, vec!["A".to_string(), "B".to_string()]);
    assert_eq!(info.title, "T");
    assert!(lyrix::readers::qqmusic::is_qqmusic_qrc_filename("A_B - T - 1 - Al_qm.qrc"));
    assert_eq!(QQMusicReaders::label(), "QQMusic");
}

#[test]
fn qrc_extension_in_any_case() {
    assert!(is_qrc_file("a.qrc"));
    assert!(is_qrc_file("a.QRC"));
    assert!(!is_qrc_file(".qrc"));
    assert!(!is_qrc_file("qrc"));
    assert!(!is_qrc_file("a.qrcx"));
    assert!(!is_qrc_file(".."));
}

#[test]
fn webkit_cache_path_from_ini() {
    let ini = "\u{feff}[General]\r\nOther=1\r\n path = \"C:\\Users\\me\\QQMusicCache\" \r\n";
    assert_eq!(parse_webkit_cache_path(ini).unwrap(), "C:\\Users\\me\\QQMusicCache");
}

#[test]
fn webkit_cache_path_missing_or_empty() {
    for ini in ["[General]\nOther=1\n", "Path=\"\"\n"] {
        match parse_webkit_cache_path(ini) {
            Err(LyrixError::General(GeneralError::MissingField { field })) => {
                assert_eq!(field, "WebkitCachePath.ini Path")
            }
            other => panic!("unexpected {:?}", other),
        }
    }
}

#[test]
fn only_windows_is_supported() {
    assert!(ensure_windows("windows").is_ok());
    match ensure_windows("linux") {
        Err(LyrixError::General(GeneralError::Platform { platform })) => assert_eq!(platform, "linux"),
        other => panic!("unexpected {:?}", other),
    }
}

#[test]
fn track_fields_are_required() {
    let t = TrackMetadata { title: Some("T".to_string()), ..Default::default() };
    match track_fields(&t) {
        Err(LyrixError::General(GeneralError::MissingField { field })) => {
            assert_eq!(field, "track_metadata.artist")
        }
        other => panic!("unexpected {:?}", other),
    }
    let (a, b, c) = track_fields(&track(" T ", "A", "Al ")).unwrap();
    assert_eq!((a.as_str(), b.as_str(), c.as_str()), ("T", "A", "Al"));
}

#[test]
fn finds_files_by_metadata() {
    let names = vec![
        None,
        Some("readme.txt".to_string()),
        Some("B - T - 1 - Al_qm.qrc".to_string()),
        Some("A - T - 2 - Al_qm.qrc".to_string()),
    ];
    assert_eq!(find_qqmusic_qrc_path_by_metadata_in_dir(&names, &track("T", "A", "Al")).unwrap(), Some(3));
    assert_eq!(
        lyrix::readers::qqmusic::find_qqmusic_qrc_path_by_metadata_in_dir(&names, &track("T", "A", "Al")).unwrap(),
        Some(2)
    );
    assert_eq!(find_qqmusic_qrc_path_by_metadata_in_dir(&names, &track("X", "A", "Al")).unwrap(), None);
}

#[test]
fn finds_file_by_name() {
    let names = vec![Some("x.txt".to_string()), Some("A - T - 1 - Al_qm.qrc".to_string())];
    assert_eq!(find_qqmusic_qrc_path_in_dir(&names, " A - T - 1 - Al_qm.qrc "), Some(1));
    assert_eq!(find_qqmusic_qrc_path_in_dir(&names, "x.txt"), None);
    assert_eq!(collect_matching_qrc_files(&names), vec![1]);
}

#[test]
fn formatted_names_parse_back() {
    let cases = [
        ("周杰伦", "晴天", "42", "叶惠美"),
        ("A - B", "Title", "0007", "Album"),
        ("x", "y", "1", "z"),
    ];
    for (a, t, i, al) in cases {
        let name = format!("{a} - {t} - {i} - {al}_qm.qrc");
        let info = parse_qqmusic_qrc_filename(&name).unwrap();
        assert_eq!(
            (info.artist.as_str(), info.title.as_str(), info.index.as_str(), info.album.as_str()),
            (a, t, i, al)
        );
    }
}

#[test]
fn missing_track_fields_are_named() {
    let names = vec![Some("A - T - 1 - Al_qm.qrc".to_string())];
    let cases = [
        (TrackMetadata { artist: Some("A".to_string()), album: Some("Al".to_string()), ..Default::default() }, "track_metadata.title"),
        (TrackMetadata { title: Some("T".to_string()), album: Some("Al".to_string()), ..Default::default() }, "track_metadata.artist"),
        (TrackMetadata { title: Some("T".to_string()), artist: Some("A".to_string()), ..Default::default() }, "track_metadata.album"),
    ];
    for (t, name) in cases {
        for r in [
            find_qqmusic_qrc_path_by_metadata_in_dir(&names, &t),
            lyrix::readers::qqmusic::find_qqmusic_qrc_path_by_metadata_in_dir(&names, &t),
        ] {
            match r {
                Err(LyrixError::General(GeneralError::MissingField { field })) => assert_eq!(field, name),
                other => panic!("unexpected {:?}", other),
            }
        }
    }
}
