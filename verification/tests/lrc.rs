use lyrics_status::lrc::{parse_lrc, parse_lrc_checked};
use lyrics_status::sources::{lyrics_from_lrc, lyrics_from_lrc_checked, SourceError};

fn times(input: &str) -> Vec<u64> {
    parse_lrc(input).lines.iter().map(|l| l.time).collect()
}

fn texts(input: &str) -> Vec<String> {
    parse_lrc(input).lines.iter().map(|l| l.text.clone()).collect()
}

#[test]
fn parses_multiple_timestamps_and_fractions() {
    let parsed = parse_lrc("[00:01.2][00:02.34]Hello\n[01:03.456]World");
    assert_eq!(parsed.lines.iter().map(|l| l.time).collect::<Vec<_>>(), vec![1200, 2340, 63456]);
}

#[test]
fn lrc_entries_are_ordered_by_time() {
    let parsed = parse_lrc("[00:05.00]B\n[00:01.00]A\n[00:03]C");
    assert_eq!(times("[00:05.00]B\n[00:01.00]A\n[00:03]C"), vec![1000, 3000, 5000]);
    assert_eq!(parsed.lines[0].text, "A");
    assert_eq!(parsed.lines[2].text, "B");
}

#[test]
fn lrc_equal_times_keep_written_order() {
    assert_eq!(texts("[00:01]X\n[00:01]Y\n[00:00]Z"), vec!["Z", "X", "Y"]);
}

#[test]
fn lrc_lines_without_text_are_skipped() {
    let parsed = parse_lrc("[00:01.00]\n[00:02.00]   hi there  \nplain text");
    assert_eq!(parsed.lines.len(), 1);
    assert_eq!(parsed.lines[0].time, 2000);
    assert_eq!(parsed.lines[0].text, "hi there");
    assert_eq!(parsed.lines[0].text_translated, None);
}

#[test]
fn lrc_colon_fraction_and_crlf() {
    assert_eq!(times("[00:01:5]a\r\n[00:02]b"), vec![1500, 2000]);
    assert_eq!(texts("[00:01:5]a\r\n[00:02]b"), vec!["a", "b"]);
}

#[test]
fn lrc_rejects_malformed_timestamps() {
    // Four digits of minutes, one digit of seconds, four digits of fraction.
    assert!(parse_lrc("[1234:56]x\n[00:5]y\n[00:01.1234]z").lines.is_empty());
}

#[test]
fn lrc_timestamps_inside_text_are_removed() {
    let parsed = parse_lrc("a[00:01]b");
    assert_eq!(parsed.lines.len(), 1);
    assert_eq!(parsed.lines[0].text, "ab");
    assert_eq!(parsed.lines[0].time, 1000);
}

#[test]
fn lrc_other_script_digits_match_but_count_zero() {
    let parsed = parse_lrc("[\u{661}\u{662}:\u{663}\u{664}]x");
    assert_eq!(parsed.lines.len(), 1);
    assert_eq!(parsed.lines[0].time, 0);
    assert_eq!(parsed.lines[0].text, "x");
}

#[test]
fn lrc_fraction_cut_inside_a_character_is_refused() {
    assert!(parse_lrc_checked("[00:00.\u{660}\u{660}]x").is_none());
    let one = parse_lrc_checked("[00:01.\u{660}]x").unwrap();
    assert_eq!(one.lines[0].time, 1000);
    // A line without text never reads its fractions.
    assert!(parse_lrc_checked("[00:00.\u{660}\u{660}]").is_some());
    assert_eq!(parse_lrc_checked("[00:01]a").unwrap().lines.len(), 1);
}

#[test]
fn lyrics_from_lrc_reports_empty_lyrics() {
    assert_eq!(lyrics_from_lrc("no timestamps here").unwrap_err(), SourceError::EmptyLyrics);
    assert_eq!(lyrics_from_lrc("[00:02]x").unwrap().lines[0].time, 2000);
    assert!(lyrics_from_lrc_checked("[00:00.\u{660}\u{660}]x").is_none());
    assert_eq!(lyrics_from_lrc_checked("").unwrap().unwrap_err(), SourceError::EmptyLyrics);
}

#[test]
fn lyrics_from_lrc_returns_lines_when_there_are_some() {
    let lyrics = lyrics_from_lrc_checked("[00:03]b\n[00:01]a").unwrap().unwrap();
    assert_eq!(lyrics.lines.len(), 2);
    assert_eq!(lyrics.lines[0].text, "a");
    assert_eq!(lyrics_from_lrc("[00:03]b").unwrap().lines[0].text, "b");
}
