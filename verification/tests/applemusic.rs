use lyrix::parsers::applemusic::AppleMusicParser;

#[test]
fn parse_time_rejects_bad_input() {
    let parser = AppleMusicParser {};
    assert!(parser.parse_time("bad").is_err());
    assert!(parser.parse_time("01:02").is_err());
    assert!(parser.parse_time("01:02:03").is_err());
    assert!(parser.parse_time("01:xx:03.10").is_err());
}

#[test]
fn parse_time_accepts_valid_input() {
    let parser = AppleMusicParser {};
    assert_eq!(parser.parse_time("01:02:03.04").unwrap(), 3_723_040);
    assert_eq!(parser.parse_syllables_time("01:02.03").unwrap(), 62_003);
}

#[test]
fn parse_time_trims_white_space() {
    let parser = AppleMusicParser {};
    assert_eq!(parser.parse_time("  00:00:01.50 ").unwrap(), 1_500);
    assert_eq!(parser.parse_syllables_time(" 1.5 ").unwrap(), 1_005);
}

#[test]
fn parse_syllables_time_without_minutes() {
    let parser = AppleMusicParser {};
    assert_eq!(parser.parse_syllables_time("12.345").unwrap(), 12_345);
    assert!(parser.parse_syllables_time("12").is_err());
    assert!(parser.parse_syllables_time("a:1.0").is_err());
}

#[test]
fn parse_line_synced_lyrics() {
    let parser = AppleMusicParser {};
    let ttml = "<tt><body><div><p begin=\"00:00:01.50\" end=\"00:00:03.00\">Hello</p>\
                <p begin=\"00:00:03.00\" end=\"00:00:05.25\">World</p></div></body></tt>"
        .to_string();
    let lines = parser.parse(ttml).unwrap();
    assert_eq!(lines.len(), 2);
    assert_eq!(lines[0].start_time, 1_500);
    assert_eq!(lines[0].duration, 1_500);
    assert_eq!(lines[0].text, "Hello");
    assert!(lines[0].syllables.is_empty());
    assert_eq!(lines[1].start_time, 3_000);
    assert_eq!(lines[1].duration, 2_250);
    assert_eq!(lines[1].text, "World");
}

#[test]
fn parse_syllable_synced_lyrics() {
    let parser = AppleMusicParser {};
    let ttml = "<tt><body><div><p begin=\"1.0\" end=\"3.0\"><span begin=\"1.0\" end=\"1.5\">Hel</span>\
                <span begin=\"1.5\" end=\"3.0\">lo</span></p></div></body></tt>"
        .to_string();
    let lines = parser.parse(ttml).unwrap();
    assert_eq!(lines.len(), 1);
    assert_eq!(lines[0].start_time, 1_000);
    assert_eq!(lines[0].duration, 2_000);
    assert_eq!(lines[0].text, "");
    assert_eq!(lines[0].syllables.len(), 2);
    assert_eq!(lines[0].syllables[0].start_time, 0);
    assert_eq!(lines[0].syllables[0].duration, 5);
    assert_eq!(lines[0].syllables[0].text, "Hel");
    assert_eq!(lines[0].syllables[1].start_time, 5);
    assert_eq!(lines[0].syllables[1].duration, 1_995);
    assert_eq!(lines[0].syllables[1].text, "lo");
}

#[test]
fn parse_rejects_lyrics_without_body() {
    let parser = AppleMusicParser {};
    assert!(parser.parse("<tt><p begin=\"00:00:01.00\">x</p></tt>".to_string()).is_err());
}

#[test]
fn parse_rejects_line_ending_before_start() {
    let parser = AppleMusicParser {};
    let ttml = "<div><p begin=\"00:00:03.00\" end=\"00:00:01.00\">x</p></div>".to_string();
    assert!(parser.parse(ttml).is_err());
}

#[test]
fn parse_checked_tells_overflow_apart() {
    let parser = AppleMusicParser {};
    let ttml = "<div><p begin=\"99999:00:00.00\" end=\"99999:00:00.00\">x</p></div>".to_string();
    assert!(parser.parse_checked(ttml).is_none());
    let ttml = "<div><p begin=\"00:00:01.00\" end=\"00:00:02.00\">x</p></div>".to_string();
    let lines = parser.parse_checked(ttml).unwrap().unwrap();
    assert_eq!(lines[0].start_time, 1_000);
    assert_eq!(lines[0].duration, 1_000);
    assert!(parser.parse_checked("no body".to_string()).unwrap().is_err());
}

#[test]
fn parse_parts_directly() {
    let parser = AppleMusicParser {};
    let line = parser
        .parse_syllables_line("<p begin=\"0.5\" end=\"0.9\"><span begin=\"0.5\" end=\"0.9\">a</span>")
        .unwrap();
    assert_eq!((line.start_time, line.duration), (5, 4));
    assert_eq!(line.syllables.len(), 1);
    assert!(parser.parse_syllables_line("<p end=\"1.0\">").is_err());
    let lines = parser.parse_syllables("<p begin=\"1.0\" end=\"1.1\"></p>".to_string()).unwrap();
    assert_eq!(lines.len(), 1);
    assert!(lines[0].syllables.is_empty());
    let lines = parser
        .parse_w("<div><p begin=\"00:00:00.10\" end=\"00:00:00.20\">x</p>".to_string())
        .unwrap();
    assert_eq!((lines[0].start_time, lines[0].duration, lines[0].text.as_str()), (100, 100, "x"));
}

#[test]
fn error_messages_name_the_problem() {
    let parser = AppleMusicParser {};
    assert_eq!(parser.parse_time(" bad ").unwrap_err(), "AppleMusic Parser: hours not found in \"bad\"");
    assert_eq!(
        parser.parse_syllables_time("a:1.0").unwrap_err(),
        "AppleMusic Parser: failed to parse minutes: ParseIntError { kind: InvalidDigit } raw=\"a\""
    );
    assert_eq!(parser.parse_syllables_time("1:").unwrap_err(), "AppleMusic Parser: seconds not found in \"1:\"");
    assert_eq!(
        parser.parse_syllables_line("<p begin=\"3.0\" end=\"1.0\">").unwrap_err(),
        "AppleMusic Parser: line end_time before start_time: 1000 < 3000"
    );
    let ttml = "<div><p begin=\"00:00:03.00\" end=\"00:00:01.00\">x</p></div>".to_string();
    assert_eq!(parser.parse(ttml).unwrap_err(), "AppleMusic Parsers: overflow (3000 1000)");
    let ttml = "<div><p begin=\"00:00:00.00\" end=\"00:01:10.00\">x</p></div>".to_string();
    assert_eq!(parser.parse(ttml).unwrap_err(), "AppleMusic Parsers: offset overflow(70000)");
}

#[test]
fn parsed_lines_have_one_shape() {
    let parser = AppleMusicParser {};
    let words = "<div><p begin=\"1.0\" end=\"2.0\"><span begin=\"1.0\" end=\"2.0\">a</span></p>\
                 <p begin=\"2.0\" end=\"3.0\"><span begin=\"2.0\" end=\"3.0\">b</span></p></div>"
        .to_string();
    let lines = parser.parse_without_st(words).unwrap();
    assert_eq!(lines.len(), 2);
    assert!(lines.iter().all(|l| l.text.is_empty() && !l.syllables.is_empty()));
    let plain = "<div><p begin=\"00:00:01.00\" end=\"00:00:02.00\">a</p>\
                 <p begin=\"00:00:02.00\" end=\"00:00:03.00\">b</p></div>"
        .to_string();
    let lines = parser.parse_without_st(plain).unwrap();
    assert_eq!(lines.len(), 2);
    assert!(lines.iter().all(|l| l.syllables.is_empty() && !l.text.is_empty()));
}

#[test]
fn pairing_and_body_errors_are_named() {
    let parser = AppleMusicParser {};
    let misordered = "</p><p begin=\"1.0\" end=\"2.0\"><span begin=\"1.0\" end=\"2.0\">a</span></p>".to_string();
    assert_eq!(parser.parse_syllables(misordered.clone()).unwrap_err(), "AppleMusic Parser: Unexpected error");
    assert_eq!(parser.parse(misordered).unwrap_err(), "AppleMusic Parser: Unexpected error");
    let no_body = "<p begin=\"00:00:01.00\" end=\"00:00:02.00\">a</p>".to_string();
    assert_eq!(parser.parse_w(no_body.clone()).unwrap_err(), "AppleMusic Parser: lyrics body not found");
    assert_eq!(parser.parse_checked(no_body).unwrap().unwrap_err(), "AppleMusic Parser: lyrics body not found");
}
