use lyrics_status::settings::{update_available, Settings};
use lyrics_status::translation::{
    accepted_translation, eq_ignore_ascii_case, joined_translation, needs_translation,
    translation_key, TranslationCache,
};

#[test]
fn translation_decisions() {
    assert!(!needs_translation("  \t"));
    assert!(needs_translation(" a "));
    assert_eq!(translation_key("en-US", "hola"), "en-US\0hola");
    assert_eq!(joined_translation(&vec![Some(" Hola".into()), None, Some(" mundo ".into())]), "Hola mundo");
    assert!(!accepted_translation(" Hello ", "hello"));
    assert!(accepted_translation("Hello", "Hola"));
    assert!(!accepted_translation("x", ""));
    assert!(eq_ignore_ascii_case("ÀbC", "Àbc"));
    assert!(!eq_ignore_ascii_case("à", "À"));
}

#[test]
fn translation_cache_reads_back_writes() {
    let mut cache = TranslationCache::new();
    assert_eq!(cache.get("k"), None);
    cache.insert("k".into(), "v1".into());
    cache.insert("j".into(), "w".into());
    assert_eq!(cache.get("k"), Some("v1".into()));
    cache.insert("k".into(), "v2".into());
    assert_eq!(cache.get("k"), Some("v2".into()));
    assert_eq!(cache.get("j"), Some("w".into()));
}

#[test]
fn default_settings() {
    let s = Settings::default();
    assert!(s.view.timestamp && s.view.label && !s.view.advanced.enabled);
    assert_eq!(s.view.advanced.custom_emoji, "🎶");
    assert_eq!(s.view.advanced.custom_status, "[{timestamp}] [{lyrics}]");
    assert_eq!(s.translation.translation_language, "en-US");
    assert!(!s.translation.enable_translation);
    assert_eq!(s.timings.send_time_offset, 500);
    assert!(s.timings.enable_autooffset);
    assert_eq!(s.timings.autooffset, 3);
    assert!(!s.update.enable_autoupdate);
    assert!(s.credentials.token.is_empty() && s.credentials.uuid.is_empty());
}

#[test]
fn update_check_ignores_surrounding_space() {
    assert!(!update_available("1.0.0\n", " 1.0.0"));
    assert!(update_available("1.0.0", "1.0.1"));
}
