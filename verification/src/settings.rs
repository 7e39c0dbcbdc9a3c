//! The user's configuration, with the defaults that a missing or partial
//! settings file falls back on.

use vstd::prelude::*;
use crate::text::{same_text, trim, trim_string};

verus! {

/// The whole configuration.
#[derive(Clone, Debug)]
pub struct Settings {
    pub credentials: Credentials,
    pub view: ViewSettings,
    pub translation: TranslationSettings,
    pub timings: TimingSettings,
    pub update: UpdateSettings,
}

/// The Discord token and the local identifier of this installation.
#[derive(Clone, Debug)]
pub struct Credentials {
    pub token: String,
    pub uuid: String,
}

/// How the status is composed.
#[derive(Clone, Debug)]
pub struct ViewSettings {
    pub timestamp: bool,
    pub label: bool,
    pub advanced: AdvancedView,
}

/// The template mode of the status.
#[derive(Clone, Debug)]
pub struct AdvancedView {
    pub enabled: bool,
    pub custom_emoji: String,
    pub custom_status: String,
}

/// Optional translation of the status.
#[derive(Clone, Debug)]
pub struct TranslationSettings {
    pub enable_translation: bool,
    pub translation_language: String,
}

/// When a line is sent relative to the playback position.
#[derive(Clone, Debug)]
pub struct TimingSettings {
    pub send_time_offset: i64,
    pub enable_autooffset: bool,
    pub autooffset: usize,
}

/// Whether the program looks for a newer version.
#[derive(Clone, Debug)]
pub struct UpdateSettings {
    pub enable_autoupdate: bool,
}

impl Default for Credentials {
    fn default() -> (r: Self)
        ensures
            r.token@ == Seq::<char>::empty(),
            r.uuid@ == Seq::<char>::empty(),
    {
        Credentials { token: String::new(), uuid: String::new() }
    }
}

impl Default for AdvancedView {
    fn default() -> (r: Self)
        ensures
            !r.enabled,
            r.custom_emoji@ == "🎶"@,
            r.custom_status@ == "[{timestamp}] [{lyrics}]"@,
    {
        AdvancedView {
            enabled: false,
            custom_emoji: "🎶".to_owned(),
            custom_status: "[{timestamp}] [{lyrics}]".to_owned(),
        }
    }
}

impl Default for ViewSettings {
    fn default() -> (r: Self)
        ensures
            r.timestamp,
            r.label,
            !r.advanced.enabled,
            r.advanced.custom_emoji@ == "🎶"@,
            r.advanced.custom_status@ == "[{timestamp}] [{lyrics}]"@,
    {
        ViewSettings { timestamp: true, label: true, advanced: AdvancedView::default() }
    }
}

impl Default for TranslationSettings {
    fn default() -> (r: Self)
        ensures
            !r.enable_translation,
            r.translation_language@ == "en-US"@,
    {
        TranslationSettings { enable_translation: false, translation_language: "en-US".to_owned() }
    }
}

impl Default for TimingSettings {
    fn default() -> (r: Self)
        ensures
            r.send_time_offset == 500,
            r.enable_autooffset,
            r.autooffset == 3,
    {
        TimingSettings { send_time_offset: 500, enable_autooffset: true, autooffset: 3 }
    }
}

impl Default for UpdateSettings {
    fn default() -> (r: Self)
        ensures
            !r.enable_autoupdate,
    {
        UpdateSettings { enable_autoupdate: false }
    }
}

/// Whether `s` holds the default configuration.
pub open spec fn is_default_settings(s: Settings) -> bool {
    &&& s.credentials.token@ == Seq::<char>::empty()
    &&& s.credentials.uuid@ == Seq::<char>::empty()
    &&& s.view.timestamp
    &&& s.view.label
    &&& !s.view.advanced.enabled
    &&& s.view.advanced.custom_emoji@ == "🎶"@
    &&& s.view.advanced.custom_status@ == "[{timestamp}] [{lyrics}]"@
    &&& !s.translation.enable_translation
    &&& s.translation.translation_language@ == "en-US"@
    &&& s.timings.send_time_offset == 500
    &&& s.timings.enable_autooffset
    &&& s.timings.autooffset == 3
    &&& !s.update.enable_autoupdate
}

impl Default for Settings {
    fn default() -> (r: Self)
        ensures
            is_default_settings(r),
    {
        Settings {
            credentials: Credentials::default(),
            view: ViewSettings::default(),
            translation: TranslationSettings::default(),
            timings: TimingSettings::default(),
            update: UpdateSettings::default(),
        }
    }
}

/// Whether the published version differs from the local one, surrounding
/// white space aside.
pub fn update_available(local: &str, remote: &str) -> (r: bool)
    ensures
        r == (trim(local@) != trim(remote@)),
{
    let a = trim_string(local);
    let b = trim_string(remote);
    !same_text(a.as_str(), b.as_str())
}

} // verus!
