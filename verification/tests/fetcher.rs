use lyrics_status::lyrics_fetcher::{CacheEntry, FetchStep, LyricsFetcher};
use lyrics_status::models::{LyricsLine, SongLyrics};

fn fetcher() -> LyricsFetcher {
    LyricsFetcher::new(
        "cache".into(),
        vec!["LrcLib".into(), "NetEase Music".into(), "QQMusic".into()],
    )
}

fn one_line() -> Vec<LyricsLine> {
    vec![LyricsLine { time: 1, text: "x".into(), text_translated: None }]
}

#[test]
fn cache_file_names_are_sha256_hex() {
    assert_eq!(
        LyricsFetcher::cache_file_name("t", "a"),
        "bc6f9628ae35013a85e6690988f42959a083d5c67d20dddc7b3c41f76222d69b.json"
    );
    let name = LyricsFetcher::cache_file_name("../../etc/passwd", "/");
    assert_eq!(name.len(), 69);
    assert!(name[..64].chars().all(|c| c.is_ascii_hexdigit() && !c.is_ascii_uppercase()));
}

#[test]
fn cache_hit_asks_no_provider() {
    let f = fetcher();
    assert_eq!(f.cache_dir(), "cache");
    assert_eq!(f.source_count(), 3);
    match f.start(Some(CacheEntry { app_name: "LrcLib".into(), lines: one_line() })) {
        FetchStep::Cached(l, label) => {
            assert_eq!(l.lines.len(), 1);
            assert_eq!(label, "Cache (LrcLib)");
        }
        other => panic!("unexpected {other:?}"),
    }
    assert!(matches!(f.start(Some(CacheEntry { app_name: "x".into(), lines: vec![] })), FetchStep::Query(0)));
    assert!(matches!(f.start(None), FetchStep::Query(0)));
    assert!(matches!(LyricsFetcher::new("c".into(), vec![]).start(None), FetchStep::NotFound));
}

#[test]
fn providers_are_asked_in_order() {
    let f = fetcher();
    assert!(matches!(f.after_source(0, None), FetchStep::Query(1)));
    assert!(matches!(f.after_source(1, Some(SongLyrics::default())), FetchStep::Query(2)));
    assert!(matches!(f.after_source(2, None), FetchStep::NotFound));
    match f.after_source(1, Some(SongLyrics { lines: one_line() })) {
        FetchStep::Found(l, name) => {
            assert_eq!(l.lines[0].text, "x");
            assert_eq!(name, "NetEase Music");
        }
        other => panic!("unexpected {other:?}"),
    }
}

#[test]
fn cache_names_stay_safe_for_hostile_input() {
    for (track, artist) in [("..", "/"), ("a/b\\c", "\0"), ("", ""), ("名前", "x")] {
        let name = LyricsFetcher::cache_file_name(track, artist);
        assert_eq!(name.chars().count(), 69);
        assert!(name.ends_with(".json"));
        assert!(name[..64].chars().all(|c| c.is_ascii_digit() || ('a'..='f').contains(&c)));
    }
}
