use lyrics_status::sources::{
    lrclib_raw, netease_lyrics_url, netease_raw, netease_song_id, qqmusic_raw, qqmusic_song_mid,
    search_query, SourceError,
};

#[test]
fn search_query_joins_track_and_artist() {
    assert_eq!(search_query("Song", "Band"), "Song-Band");
}

#[test]
fn lrclib_needs_synced_lyrics() {
    assert_eq!(lrclib_raw(None).unwrap_err(), SourceError::NoSyncedLyrics);
    assert_eq!(lrclib_raw(Some("  \n ".into())).unwrap_err(), SourceError::NoSyncedLyrics);
    assert_eq!(lrclib_raw(Some(" [00:01]x".into())).unwrap(), " [00:01]x");
}

#[test]
fn netease_picks_first_song() {
    assert_eq!(netease_song_id(0, Some(vec![1])).unwrap_err(), SourceError::SongNotFound);
    assert_eq!(netease_song_id(2, Some(vec![7, 8])).unwrap(), 7);
    assert_eq!(netease_song_id(1, None).unwrap_err(), SourceError::SongNotFound);
    assert_eq!(netease_song_id(1, Some(vec![])).unwrap_err(), SourceError::SongNotFound);
    assert_eq!(netease_raw(Some("".into())).unwrap_err(), SourceError::LyricsNotFound);
    assert_eq!(netease_raw(None).unwrap_err(), SourceError::LyricsNotFound);
    assert_eq!(netease_raw(Some("x".into())).unwrap(), "x");
    assert_eq!(
        netease_lyrics_url(42),
        "https://music.163.com/api/song/lyric?tv=-1&kv=-1&lv=-1&os=pc&id=42"
    );
}

#[test]
fn qqmusic_picks_first_song_and_decodes() {
    assert_eq!(qqmusic_song_mid(1, &vec!["abc".into()]).unwrap(), "abc");
    assert_eq!(qqmusic_song_mid(0, &vec!["abc".into()]).unwrap_err(), SourceError::SongNotFound);
    assert_eq!(qqmusic_song_mid(3, &vec![]).unwrap_err(), SourceError::SongNotFound);
    assert_eq!(qqmusic_raw("WzAwOjAxXSZhbXA7eA==").unwrap(), "[00:01]&x");
    assert_eq!(qqmusic_raw("!!!").unwrap_err(), SourceError::InvalidBase64);
    assert_eq!(qqmusic_raw("/w==").unwrap_err(), SourceError::InvalidUtf8);
}
