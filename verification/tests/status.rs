use lyrics_status::models::{LyricsLine, PlaybackState, SongLyrics};
use lyrics_status::settings::Settings;
use lyrics_status::status::{
    build_status, cropped, format_seconds, letters_only, parse_emoji, truncate, AutoOffset,
    StatusTracker,
};

#[test]
fn parses_unicode_and_custom_emoji() {
    assert_eq!(parse_emoji("🎶"), (None, Some("🎶".into())));
    assert_eq!(parse_emoji("<a:dance:123>"), (Some("123".into()), Some("dance".into())));
}

#[test]
fn emoji_edge_cases() {
    assert_eq!(parse_emoji(""), (None, None));
    assert_eq!(parse_emoji("<:x:1>"), (Some("1".into()), Some("x".into())));
    assert_eq!(parse_emoji("<a:x:12a>"), (None, Some("<a:x:12a>".into())));
    assert_eq!(parse_emoji("<b:x:1>"), (None, Some("<b:x:1>".into())));
    assert_eq!(parse_emoji("<::1>"), (None, Some("<::1>".into())));
    assert_eq!(parse_emoji("<:x:>"), (None, Some("<:x:>".into())));
}

#[test]
fn builds_advanced_status_and_limits_characters() {
    let state = PlaybackState { song_name: "Title (Remix)".into(), song_author: "Artist".into(), ..Default::default() };
    let line = LyricsLine { time: 61_000, text: "Hello".into(), text_translated: None };
    let mut settings = Settings::default();
    settings.view.advanced.enabled = true;
    settings.view.advanced.custom_status = "{timestamp} {song_name_cropped}: {lyrics_upper}".into();
    assert_eq!(build_status(&state, &line, &settings), "1:01 Title : HELLO");
}

#[test]
fn simple_status_uses_label_timestamp_and_notes() {
    let state = PlaybackState::default();
    let settings = Settings::default();
    let line = LyricsLine { time: 61_499, text: "♪ la ♪".into(), text_translated: None };
    assert_eq!(build_status(&state, &line, &settings), "[1:01] Song lyrics - 🎶 la ♪");
    let line = LyricsLine { time: 61_500, text: "x".into(), text_translated: None };
    assert_eq!(build_status(&state, &line, &settings), "[1:02] Song lyrics - x");
    let mut plain = Settings::default();
    plain.view.timestamp = false;
    plain.view.label = false;
    assert_eq!(build_status(&state, &line, &plain), "x");
}

#[test]
fn status_is_limited_to_128_characters() {
    let state = PlaybackState::default();
    let line = LyricsLine { time: 0, text: "é".repeat(300), text_translated: None };
    let mut settings = Settings::default();
    assert_eq!(build_status(&state, &line, &settings).chars().count(), 128);
    settings.view.advanced.enabled = true;
    settings.view.advanced.custom_status = "{lyrics}{lyrics}".into();
    assert_eq!(build_status(&state, &line, &settings).chars().count(), 128);
}

#[test]
fn placeholders_are_filled_in_order() {
    let state = PlaybackState { song_name: "Name - Live".into(), song_author: "Ab".into(), ..Default::default() };
    let line = LyricsLine { time: 1_000, text: "It's \"ok\".".into(), text_translated: None };
    let mut settings = Settings::default();
    settings.view.advanced.enabled = true;
    settings.view.advanced.custom_status =
        "{lyrics_letters_only}|{lyrics_lower}|{song_name_upper_cropped}|{song_author_lower}|{song_author_upper}".into();
    assert_eq!(build_status(&state, &line, &settings), "Its ok|it's \"ok\".|NAME|ab|AB");
    // A value that looks like a later placeholder is filled in too.
    let line = LyricsLine { time: 0, text: "{song_author}".into(), text_translated: None };
    settings.view.advanced.custom_status = "{lyrics}".into();
    assert_eq!(build_status(&state, &line, &settings), "Ab");
}

#[test]
fn formats_seconds() {
    assert_eq!(format_seconds(61), "1:01");
    assert_eq!(format_seconds(0), "0:00");
    assert_eq!(format_seconds(3599), "59:59");
    assert_eq!(format_seconds(3600), "60:00");
}

#[test]
fn small_text_helpers() {
    assert_eq!(truncate(&"a".repeat(200)).len(), 128);
    assert_eq!(truncate("short"), "short");
    assert_eq!(letters_only("It's, \"ok\"."), "Its ok");
    assert_eq!(cropped("Title (Remix)"), "Title ");
    assert_eq!(cropped("Song - Live"), "Song");
    assert_eq!(cropped("A-B"), "A");
    assert_eq!(cropped("(x)"), "");
    assert_eq!(cropped("()"), "()");
    assert_eq!(cropped("a (b) c (d)"), "a ");
    assert_eq!(cropped("x -"), "x -");
    assert_eq!(cropped("a -\nb"), "a -\nb");
}

#[test]
fn auto_offset_keeps_limit_and_averages() {
    let mut offsets = AutoOffset::new();
    assert_eq!(offsets.average(), 0);
    offsets.set_limit(3);
    assert_eq!(offsets.average(), 0);
    offsets.add(300);
    assert_eq!(offsets.average(), 100);
    offsets.add(600);
    assert_eq!(offsets.average(), 300);
    offsets.set_limit(0);
    assert_eq!(offsets.average(), 600);
    offsets.set_limit(2);
    assert_eq!(offsets.average(), 300);
}

fn playing_state(song: &str, progress: u64) -> PlaybackState {
    PlaybackState {
        song_id: song.into(),
        song_progress: progress,
        song_duration: 100_000,
        is_playing: true,
        lyrics: Some(SongLyrics {
            lines: vec![
                LyricsLine { time: 500, text: "one".into(), text_translated: None },
                LyricsLine { time: 1_200, text: "".into(), text_translated: None },
                LyricsLine { time: 1_400, text: "two".into(), text_translated: None },
                LyricsLine { time: 9_000, text: "three".into(), text_translated: None },
            ],
        }),
        ..Default::default()
    }
}

#[test]
fn tracker_sends_each_line_once_per_song() {
    let mut settings = Settings::default();
    settings.credentials.token = "token".into();
    settings.timings.enable_autooffset = false;
    settings.timings.send_time_offset = 500;
    let mut tracker = StatusTracker::new();
    assert!(tracker.offset_fits(&settings));
    let line = tracker.select_line(&playing_state("a", 1_000), &settings).unwrap();
    assert_eq!(line.time, 1_400);
    assert_eq!(line.text, "two");
    tracker.record_sent(line.time, 80);
    assert!(tracker.select_line(&playing_state("a", 1_000), &settings).is_none());
    let again = tracker.select_line(&playing_state("b", 1_000), &settings).unwrap();
    assert_eq!(again.time, 1_400);
}

#[test]
fn tracker_waits_for_token_playback_and_lyrics() {
    let mut settings = Settings::default();
    settings.timings.enable_autooffset = false;
    let mut tracker = StatusTracker::new();
    assert!(tracker.select_line(&playing_state("a", 1_000), &settings).is_none());
    settings.credentials.token = "t".into();
    let mut paused = playing_state("a", 1_000);
    paused.is_playing = false;
    assert!(tracker.select_line(&paused, &settings).is_none());
    let mut ended = playing_state("a", 200_000);
    ended.song_duration = 100_000;
    assert!(tracker.select_line(&ended, &settings).is_none());
    let mut none = playing_state("a", 1_000);
    none.lyrics = None;
    assert!(tracker.select_line(&none, &settings).is_none());
    settings.timings.send_time_offset = -1_000;
    assert!(tracker.select_line(&playing_state("a", 1_000), &settings).is_none());
}

#[test]
fn tracker_uses_average_latency_plus_100() {
    let mut settings = Settings::default();
    settings.credentials.token = "t".into();
    settings.timings.autooffset = 1;
    let mut tracker = StatusTracker::new();
    // No latency yet: the offset is 100, so at 1_300 the line at 1_400 waits.
    let first = tracker.select_line(&playing_state("a", 1_300), &settings).unwrap();
    assert_eq!(first.time, 500);
    tracker.record_sent(first.time, 200);
    // Latency 200: the offset is 300.
    let next = tracker.select_line(&playing_state("a", 1_300), &settings).unwrap();
    assert_eq!(next.time, 1_400);
}

#[test]
fn tracker_can_select_checks_offset_only_when_needed() {
    let mut settings = Settings::default();
    settings.credentials.token = "t".into();
    let tracker = StatusTracker::new();
    assert!(tracker.can_select(&playing_state("a", 1_000), &settings));
    let mut stopped = playing_state("a", 1_000);
    stopped.is_playing = false;
    assert!(tracker.can_select(&stopped, &settings));
}

#[test]
fn format_seconds_reads_back() {
    for total in [0u64, 59, 60, 61, 599, 3600, 123_456] {
        let text = format_seconds(total);
        let (m, s) = text.split_once(':').unwrap();
        assert_eq!(s.len(), 2);
        assert!(s.parse::<u64>().unwrap() < 60);
        assert_eq!(m.parse::<u64>().unwrap() * 60 + s.parse::<u64>().unwrap(), total);
    }
}
