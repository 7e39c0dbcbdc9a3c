use lyrics_status::models::{LyricsLine, PlaybackState, SongLyrics};
use lyrics_status::spotify::{
    classify_player_status, clean_track_name, find_spotify_token, first_artist, lyrics_key,
    Connection, PlayerResponse, PollAction, SpotifyPoller,
};

#[test]
fn finds_first_spotify_connection() {
    let conns = vec![
        Connection { kind: "github".into(), access_token: Some("g".into()) },
        Connection { kind: "spotify".into(), access_token: Some("s1".into()) },
        Connection { kind: "spotify".into(), access_token: Some("s2".into()) },
    ];
    assert_eq!(find_spotify_token(&conns), Some("s1".into()));
    let no_token = vec![Connection { kind: "spotify".into(), access_token: None }];
    assert_eq!(find_spotify_token(&no_token), None);
    assert_eq!(find_spotify_token(&vec![]), None);
}

#[test]
fn classifies_player_status() {
    assert_eq!(classify_player_status(401, false), PlayerResponse::Unauthorized);
    assert_eq!(classify_player_status(401, true), PlayerResponse::Stopped);
    assert_eq!(classify_player_status(204, false), PlayerResponse::Stopped);
    assert_eq!(classify_player_status(500, false), PlayerResponse::Stopped);
    assert_eq!(classify_player_status(200, true), PlayerResponse::Playing);
}

#[test]
fn cleans_track_names() {
    assert_eq!(clean_track_name("Song (Live) x"), "Song x");
    assert_eq!(clean_track_name("Title (A) (B)"), "Title");
    assert_eq!(clean_track_name("Title(A)"), "Title(A)");
    assert_eq!(clean_track_name("T ()"), "T ()");
    assert_eq!(first_artist(&vec!["A".into(), "B".into()]), "A");
    assert_eq!(first_artist(&vec![]), "");
    assert_eq!(lyrics_key("n", "a"), "n\0a");
}

#[test]
fn track_change_resets_lyrics() {
    let mut state = PlaybackState {
        song_id: "1".into(),
        song_name: "old".into(),
        lyrics: Some(SongLyrics::default()),
        current_line: Some(LyricsLine::default()),
        ..Default::default()
    };
    state.apply_track("1".into(), "new".into(), "b".into(), 10, 5, 2, true);
    assert_eq!(state.song_name, "old");
    assert!(state.lyrics.is_some());
    assert_eq!(state.song_progress, 7);
    assert!(state.is_playing);
    state.apply_track("2".into(), "new".into(), "b".into(), 10, u64::MAX, 2, false);
    assert_eq!(state.song_name, "new");
    assert_eq!(state.song_author, "b");
    assert!(state.lyrics.is_none() && state.current_line.is_none());
    assert_eq!(state.song_progress, u64::MAX);
    assert!(state.is_current("new", "b"));
    assert!(!state.is_current("new", "c"));
}

#[test]
fn playback_ends_and_advances() {
    let mut state = PlaybackState { song_duration: 100, song_progress: 100, is_playing: true, ..Default::default() };
    assert!(!state.ended());
    state.advance(1);
    assert!(state.ended());
    state.is_playing = false;
    state.advance(50);
    assert_eq!(state.song_progress, 101);
    let unknown = PlaybackState { song_duration: 0, song_progress: 5, ..Default::default() };
    assert!(!unknown.ended());
}

#[test]
fn lyrics_are_looked_up_once_per_key() {
    let mut memory = lyrics_status::spotify::LyricsKeyMemory::new();
    assert!(memory.changed("a\0b".into()));
    assert!(!memory.changed("a\0b".into()));
    assert!(memory.changed("c\0b".into()));
}

#[test]
fn poller_token_flow() {
    let mut poller = SpotifyPoller::new();
    assert_eq!(poller.on_tick(), PollAction::FetchToken);
    assert_eq!(poller.on_token(None), PollAction::MarkStopped);
    assert_eq!(poller.on_tick(), PollAction::FetchToken);
    assert_eq!(poller.on_token(Some("t1".into())), PollAction::QueryPlayer);
    assert_eq!(poller.access_token(), "t1");
    assert_eq!(poller.on_tick(), PollAction::QueryPlayer);
    assert_eq!(poller.on_player_status(401, false), PollAction::RefreshToken);
    assert_eq!(poller.on_player_status(401, true), PollAction::MarkStopped);
    assert_eq!(poller.on_player_status(204, false), PollAction::MarkStopped);
    assert_eq!(poller.on_player_status(200, false), PollAction::ReadPlayer);
    assert_eq!(poller.on_refreshed_token(Some("t2".into())), PollAction::RetryPlayer);
    assert_eq!(poller.access_token(), "t2");
    assert_eq!(poller.on_refreshed_token(None), PollAction::Skip);
    assert_eq!(poller.on_tick(), PollAction::FetchToken);
    assert_eq!(poller.on_player_item(false), PollAction::MarkStopped);
    assert_eq!(poller.on_player_item(true), PollAction::ApplyTrack);
}
