//! The lyrics providers: what each one's answers must hold to give lyrics,
//! and how its raw lyrics become synchronised lines.

use vstd::prelude::*;
use vstd::utf8::{decode_utf8, valid_utf8};
use crate::lrc::{lrc_is_clean, parse_lrc, parse_lrc_checked, parsed_lrc};
use crate::models::SongLyrics;
use crate::text::{chars_of, join_with, push_decimal, string_of, trim, trim_string};

verus! {

/// Why a provider gave no lyrics.
#[derive(Clone, Copy, Debug, PartialEq, Eq)]
pub enum SourceError {
    /// The answer holds no synchronised lyrics.
    NoSyncedLyrics,
    /// The synchronised lyrics hold no line with text.
    EmptyLyrics,
    /// The search found no song.
    SongNotFound,
    /// The song has no lyrics.
    LyricsNotFound,
    /// The lyrics are not valid base64.
    InvalidBase64,
    /// The decoded lyrics are not valid UTF-8.
    InvalidUtf8,
}

// ---------------------------------------------------------------------------
// Shared steps
// ---------------------------------------------------------------------------

/// The search text of a track: track, `-`, artist.
pub fn search_query(track: &str, artist: &str) -> (r: String)
    ensures
        r@ == track@ + seq!['-'] + artist@,
{
    join_with(track, '-', artist)
}

/// Lyrics from LRC text: the parsed lines, or `EmptyLyrics` when there are
/// none.
pub fn lyrics_from_lrc(raw: &str) -> (r: Result<SongLyrics, SourceError>)
    requires
        lrc_is_clean(raw@),
    ensures
        parsed_lrc(raw@).len() == 0 ==> r == Err::<SongLyrics, SourceError>(
            SourceError::EmptyLyrics,
        ),
        parsed_lrc(raw@).len() > 0 ==> (r matches Ok(l) && l@ == parsed_lrc(raw@)),
{
    let lyrics = parse_lrc(raw);
    if lyrics.lines.len() == 0 {
        return Err(SourceError::EmptyLyrics);
    }
    Ok(lyrics)
}

/// [`lyrics_from_lrc`] on any text: `None` exactly for the text it leaves out.
pub fn lyrics_from_lrc_checked(raw: &str) -> (r: Option<Result<SongLyrics, SourceError>>)
    ensures
        r is None <==> !lrc_is_clean(raw@),
        r matches Some(res) ==> {
            &&& parsed_lrc(raw@).len() == 0 ==> res == Err::<SongLyrics, SourceError>(
                SourceError::EmptyLyrics,
            )
            &&& parsed_lrc(raw@).len() > 0 ==> (res matches Ok(l) && l@ == parsed_lrc(raw@))
        },
{
    match parse_lrc_checked(raw) {
        None => None,
        Some(lyrics) => {
            if lyrics.lines.len() == 0 {
                Some(Err(SourceError::EmptyLyrics))
            } else {
                Some(Ok(lyrics))
            }
        },
    }
}

// ---------------------------------------------------------------------------
// LrcLib
// ---------------------------------------------------------------------------

/// The synchronised lyrics of an LrcLib answer: absent or blank ones are
/// `NoSyncedLyrics`.
pub fn lrclib_raw(synced: Option<String>) -> (r: Result<String, SourceError>)
    ensures
        match synced {
            Some(s) => if trim(s@).len() > 0 {
                r matches Ok(t) && t@ == s@
            } else {
                r == Err::<String, SourceError>(SourceError::NoSyncedLyrics)
            },
            None => r == Err::<String, SourceError>(SourceError::NoSyncedLyrics),
        },
{
    match synced {
        Some(s) => {
            let t = trim_string(s.as_str());
            if t.as_str().is_empty() {
                Err(SourceError::NoSyncedLyrics)
            } else {
                Ok(s)
            }
        },
        None => Err(SourceError::NoSyncedLyrics),
    }
}

// ---------------------------------------------------------------------------
// NetEase Music
// ---------------------------------------------------------------------------

/// The song a NetEase search found: none when the count is zero or the list
/// is absent or empty, else the first.
pub open spec fn netease_first_song(song_count: u64, songs: Option<Vec<u64>>) -> Option<u64> {
    if song_count == 0 {
        None
    } else {
        match songs {
            Some(v) => if v@.len() > 0 {
                Some(v@[0])
            } else {
                None
            },
            None => None,
        }
    }
}

/// The song a NetEase search found, or `SongNotFound`.
pub fn netease_song_id(song_count: u64, songs: Option<Vec<u64>>) -> (r: Result<u64, SourceError>)
    ensures
        match netease_first_song(song_count, songs) {
            Some(id) => r == Ok::<u64, SourceError>(id),
            None => r == Err::<u64, SourceError>(SourceError::SongNotFound),
        },
{
    if song_count == 0 {
        return Err(SourceError::SongNotFound);
    }
    match songs {
        Some(v) => {
            if v.len() > 0 {
                Ok(v[0])
            } else {
                Err(SourceError::SongNotFound)
            }
        },
        None => Err(SourceError::SongNotFound),
    }
}

/// The LRC text of a NetEase answer: absent or empty is `LyricsNotFound`.
pub fn netease_raw(lrc: Option<String>) -> (r: Result<String, SourceError>)
    ensures
        match lrc {
            Some(s) => if s@.len() > 0 {
                r matches Ok(t) && t@ == s@
            } else {
                r == Err::<String, SourceError>(SourceError::LyricsNotFound)
            },
            None => r == Err::<String, SourceError>(SourceError::LyricsNotFound),
        },
{
    match lrc {
        Some(s) => {
            if s.as_str().is_empty() {
                Err(SourceError::LyricsNotFound)
            } else {
                Ok(s)
            }
        },
        None => Err(SourceError::LyricsNotFound),
    }
}

/// The address of the lyrics of NetEase song `id`.
pub fn netease_lyrics_url(id: u64) -> (r: String)
    ensures
        r@ == "https://music.163.com/api/song/lyric?tv=-1&kv=-1&lv=-1&os=pc&id="@
            + crate::text::decimal(id as nat),
{
    let mut v = chars_of("https://music.163.com/api/song/lyric?tv=-1&kv=-1&lv=-1&os=pc&id=");
    push_decimal(&mut v, id);
    string_of(&v)
}

// ---------------------------------------------------------------------------
// QQ Music
// ---------------------------------------------------------------------------

/// The song a QQ Music search found: none when the count is zero or the list
/// is empty, else the first.
pub fn qqmusic_song_mid(count: u64, mids: &Vec<String>) -> (r: Result<String, SourceError>)
    ensures
        match r {
            Ok(mid) => count != 0 && mids@.len() > 0 && mid@ == mids@[0]@,
            Err(e) => e == SourceError::SongNotFound && (count == 0 || mids@.len() == 0),
        },
{
    if count == 0 || mids.len() == 0 {
        return Err(SourceError::SongNotFound);
    }
    Ok(mids[0].clone())
}

/// What base64 decoding with the standard alphabet and padding gives for the
/// text `input`, or `None` when it is refused.
pub uninterp spec fn base64_standard_decode(input: Seq<char>) -> Option<Seq<u8>>;

/// The text with HTML character references decoded, as
/// `html_escape::decode_html_entities` gives it.
pub uninterp spec fn html_entities_decoded(text: Seq<char>) -> Seq<char>;

/// `base64::DecodeError`, carried only to tell a refused input apart.
#[verifier::external_type_specification]
#[verifier::external_body]
pub struct ExDecodeError(base64::DecodeError);

/// `std::string::FromUtf8Error`, carried only to tell invalid UTF-8 apart.
#[verifier::external_type_specification]
#[verifier::external_body]
pub struct ExFromUtf8Error(std::string::FromUtf8Error);

/// `base64::engine::general_purpose::STANDARD.decode`: claims only that the
/// outcome is the named result for `input`.
#[verifier::external_body]
fn base64_decode(input: &str) -> (r: Result<Vec<u8>, base64::DecodeError>)
    ensures
        match r {
            Ok(bytes) => base64_standard_decode(input@) == Some(bytes@),
            Err(_) => base64_standard_decode(input@) is None,
        },
{
    base64::Engine::decode(&base64::engine::general_purpose::STANDARD, input)
}

/// `String::from_utf8`: succeeds exactly on valid UTF-8 and then holds the
/// characters it encodes.
#[verifier::external_body]
fn utf8_string(bytes: Vec<u8>) -> (r: Result<String, std::string::FromUtf8Error>)
    ensures
        r is Ok <==> valid_utf8(bytes@),
        r matches Ok(s) ==> s@ == decode_utf8(bytes@),
{
    String::from_utf8(bytes)
}

/// `html_escape::decode_html_entities`: claims only that the result is the
/// named result for `text`.
#[verifier::external_body]
fn decode_entities(text: &str) -> (r: String)
    ensures
        r@ == html_entities_decoded(text@),
{
    html_escape::decode_html_entities(text).into_owned()
}

/// The LRC text of a QQ Music answer: base64, then UTF-8, then HTML
/// character references decoded.
pub fn qqmusic_raw(encoded: &str) -> (r: Result<String, SourceError>)
    ensures
        match base64_standard_decode(encoded@) {
            None => r == Err::<String, SourceError>(SourceError::InvalidBase64),
            Some(bytes) => if valid_utf8(bytes) {
                r matches Ok(t) && t@ == html_entities_decoded(decode_utf8(bytes))
            } else {
                r == Err::<String, SourceError>(SourceError::InvalidUtf8)
            },
        },
{
    let bytes = match base64_decode(encoded) {
        Ok(b) => b,
        Err(_) => {
            return Err(SourceError::InvalidBase64);
        },
    };
    let text = match utf8_string(bytes) {
        Ok(t) => t,
        Err(_) => {
            return Err(SourceError::InvalidUtf8);
        },
    };
    Ok(decode_entities(text.as_str()))
}

} // verus!
