use lyrix::error::general::GeneralError;
use lyrix::error::LyrixError;
use lyrix::models::line_info::LineInfo;
use lyrix::models::lyrics_data::{get_trial_part, LyricsData};
use lyrix::models::track_metadata::TrackMetadata;

fn line(start: u32, text: &str) -> LineInfo {
    LineInfo { start_time: start, duration: 10, text: text.to_string(), syllables: vec![] }
}

#[test]
fn trial_part_keeps_lines_of_the_cut() {
    let raw = LyricsData {
        lines: vec![line(0, "a"), line(1_000, "b"), line(2_000, "c"), line(6_000, "d"), line(6_001, "e")],
        track_metadata: Some(TrackMetadata { trial: Some([1_000, 5_000]), ..Default::default() }),
    };
    let part = get_trial_part(raw).unwrap();
    let got: Vec<(u32, &str)> = part.lines.iter().map(|l| (l.start_time, l.text.as_str())).collect();
    assert_eq!(got, vec![(0, "b"), (1_000, "c"), (5_000, "d")]);
    assert_eq!(part.track_metadata.unwrap().trial, Some([1_000, 5_000]));
}

#[test]
fn trial_part_needs_trial_info() {
    let raw = LyricsData { lines: vec![], track_metadata: None };
    match get_trial_part(raw) {
        Err(LyrixError::General(GeneralError::MissingField { field })) => assert_eq!(field, "track_metadata"),
        other => panic!("unexpected {:?}", other),
    }
    let raw = LyricsData { lines: vec![], track_metadata: Some(TrackMetadata::default()) };
    match get_trial_part(raw) {
        Err(LyrixError::General(GeneralError::MissingField { field })) => assert_eq!(field, "trial info"),
        other => panic!("unexpected {:?}", other),
    }
}

#[test]
fn trial_part_fits_unless_the_end_overflows() {
    let raw = LyricsData {
        lines: vec![line(10, "a")],
        track_metadata: Some(TrackMetadata { trial: Some([5, u32::MAX]), ..Default::default() }),
    };
    assert!(!lyrix::models::lyrics_data::trial_part_fits(&raw));
    let raw = LyricsData {
        lines: vec![line(1, "a")],
        track_metadata: Some(TrackMetadata { trial: Some([5, u32::MAX]), ..Default::default() }),
    };
    assert!(lyrix::models::lyrics_data::trial_part_fits(&raw));
}
