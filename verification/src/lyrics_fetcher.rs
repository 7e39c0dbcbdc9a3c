//! Finding lyrics: the cache first, then the providers in order until one
//! gives lines. Cache files are named by the SHA-256 of track and artist.

use vstd::prelude::*;
use vstd::utf8::encode_utf8;
use crate::models::{LyricsLine, SongLyrics, line_views};
use crate::text::{chars_of, extend_chars, join_with, string_of};

verus! {

/// A cached answer: the provider that gave the lines, and the lines.
#[derive(Clone, Debug)]
pub struct CacheEntry {
    pub app_name: String,
    pub lines: Vec<LyricsLine>,
}

/// What the SHA-256 digest of `data` is.
pub uninterp spec fn sha256(data: Seq<u8>) -> Seq<u8>;

/// `sha2::Sha256::digest`: the named digest of `data`, 32 bytes long.
#[verifier::external_body]
fn sha256_digest(data: &[u8]) -> (r: Vec<u8>)
    ensures
        r@ == sha256(data@),
        r@.len() == 32,
{
    <sha2::Sha256 as sha2::Digest>::digest(data).as_slice().to_vec()
}

/// The lower-case hexadecimal digit for `d`, which is below sixteen.
pub open spec fn hex_digit(d: nat) -> char {
    if d < 10 {
        (48 + d) as char
    } else {
        (87 + d) as char
    }
}

/// `bytes` in lower-case hexadecimal, two digits per byte.
pub open spec fn hex_lower(bytes: Seq<u8>) -> Seq<char>
    decreases bytes.len(),
{
    if bytes.len() == 0 {
        seq![]
    } else {
        hex_lower(bytes.drop_last()) + seq![
            hex_digit((bytes.last() / 16) as nat),
            hex_digit((bytes.last() % 16) as nat),
        ]
    }
}

/// The key of a track in the cache: track, NUL, artist.
pub open spec fn cache_key(track: Seq<char>, artist: Seq<char>) -> Seq<char> {
    track + seq!['\0'] + artist
}

/// The cache file name of a track: the SHA-256 of the UTF-8 key in
/// hexadecimal, then `.json`.
pub open spec fn cache_file_name_spec(track: Seq<char>, artist: Seq<char>) -> Seq<char> {
    hex_lower(sha256(encode_utf8(cache_key(track, artist)))) + ".json"@
}

/// The lower-case hexadecimal digit for `d`.
fn hex_char(d: u8) -> (r: char)
    requires
        d < 16,
    ensures
        r == hex_digit(d as nat),
{
    if d < 10 {
        (48u8 + d) as char
    } else {
        (87u8 + d) as char
    }
}

/// Whether `c` is a lower-case hexadecimal digit.
pub open spec fn is_hex_lower(c: char) -> bool {
    ('0' <= c <= '9') || ('a' <= c <= 'f')
}

proof fn lemma_hex_shape(bytes: Seq<u8>)
    ensures
        hex_lower(bytes).len() == 2 * bytes.len(),
        forall|i: int| 0 <= i < hex_lower(bytes).len() ==> is_hex_lower(#[trigger] hex_lower(bytes)[i]),
    decreases bytes.len(),
{
    if bytes.len() > 0 {
        lemma_hex_shape(bytes.drop_last());
        let a = hex_lower(bytes.drop_last());
        let b = seq![
            hex_digit((bytes.last() / 16) as nat),
            hex_digit((bytes.last() % 16) as nat),
        ];
        assert forall|i: int| 0 <= i < (a + b).len() implies is_hex_lower(#[trigger] (a + b)[i]) by {
            if i >= a.len() {
                assert((a + b)[i] == b[i - a.len()]);
            }
        }
    }
}

/// Whether `name` is a safe cache file name: 64 lower-case hexadecimal
/// digits and `.json`, so no separator or `..` can appear in it.
pub open spec fn is_safe_cache_name(name: Seq<char>) -> bool {
    &&& name.len() == 69
    &&& name.subrange(64, 69) == ".json"@
    &&& forall|i: int| 0 <= i < 64 ==> is_hex_lower(#[trigger] name[i])
}

/// Cache files have safe names whatever the track and the artist: the name
/// is 64 lower-case hexadecimal digits and `.json` whenever the digest of the
/// key has its 32 bytes, which [`LyricsFetcher::cache_file_name`] ensures.
pub proof fn law_cache_name_is_safe(track: Seq<char>, artist: Seq<char>)
    requires
        sha256(encode_utf8(cache_key(track, artist))).len() == 32,
    ensures
        is_safe_cache_name(cache_file_name_spec(track, artist)),
{
    let digest = sha256(encode_utf8(cache_key(track, artist)));
    lemma_hex_shape(digest);
    reveal_strlit(".json");
    let h = hex_lower(digest);
    assert(cache_file_name_spec(track, artist) == h + ".json"@);
    assert((h + ".json"@).subrange(64, 69) =~= ".json"@);
    assert forall|i: int| 0 <= i < 64 implies is_hex_lower(
        #[trigger] cache_file_name_spec(track, artist)[i],
    ) by {
        assert((h + ".json"@)[i] == h[i]);
    }
}

/// Where the lyrics come from: the cache directory and the providers' names,
/// in the order in which they are asked.
pub struct FetcherView {
    pub cache_dir: Seq<char>,
    pub sources: Seq<Seq<char>>,
}

/// The next thing to do while looking for lyrics.
#[derive(Debug)]
pub enum FetchStep {
    /// The cache held lyrics: return them with this label.
    Cached(SongLyrics, String),
    /// Ask the provider with this index.
    Query(usize),
    /// A provider gave lyrics: store them under its name and return them.
    Found(SongLyrics, String),
    /// No provider gave lyrics.
    NotFound,
}

/// Looks for lyrics in a cache directory and then in providers, in order.
pub struct LyricsFetcher {
    cache_dir: String,
    source_names: Vec<String>,
}

impl View for LyricsFetcher {
    type V = FetcherView;

    closed spec fn view(&self) -> FetcherView {
        FetcherView {
            cache_dir: self.cache_dir@,
            sources: self.source_names@.map_values(|s: String| s@),
        }
    }
}

/// The label of lyrics read from the cache: `Cache (` provider `)`.
pub open spec fn cache_label(app_name: Seq<char>) -> Seq<char> {
    "Cache ("@ + app_name + ")"@
}

impl LyricsFetcher {
    /// A fetcher over `cache_dir` and the providers named `source_names`.
    pub fn new(cache_dir: String, source_names: Vec<String>) -> (r: Self)
        ensures
            r@.cache_dir == cache_dir@,
            r@.sources == source_names@.map_values(|s: String| s@),
    {
        LyricsFetcher { cache_dir, source_names }
    }

    /// The cache directory.
    pub fn cache_dir(&self) -> (r: String)
        ensures
            r@ == self@.cache_dir,
    {
        self.cache_dir.clone()
    }

    /// The number of providers.
    pub fn source_count(&self) -> (r: usize)
        ensures
            r == self@.sources.len(),
    {
        self.source_names.len()
    }

    /// The cache file name of a track.
    pub fn cache_file_name(track: &str, artist: &str) -> (r: String)
        ensures
            r@ == cache_file_name_spec(track@, artist@),
            sha256(encode_utf8(cache_key(track@, artist@))).len() == 32,
            is_safe_cache_name(r@),
    {
        let key = join_with(track, '\0', artist);
        let digest = sha256_digest(key.as_str().as_bytes());
        let mut out: Vec<char> = Vec::new();
        let mut i: usize = 0;
        while i < digest.len()
            invariant
                i <= digest.len(),
                out@ == hex_lower(digest@.take(i as int)),
            decreases digest.len() - i,
        {
            let b = digest[i];
            assert(digest@.take(i + 1).drop_last() =~= digest@.take(i as int));
            out.push(hex_char(b / 16));
            out.push(hex_char(b % 16));
            assert(out@ =~= hex_lower(digest@.take(i + 1)));
            i += 1;
        }
        assert(digest@.take(i as int) =~= digest@);
        let suffix = chars_of(".json");
        extend_chars(&mut out, &suffix);
        proof {
            law_cache_name_is_safe(track@, artist@);
        }
        string_of(&out)
    }

    /// The first step: lyrics from a cache entry that has lines, else the
    /// first provider, else nothing.
    pub fn start(&self, cached: Option<CacheEntry>) -> (r: FetchStep)
        ensures
            match cached {
                Some(e) if e.lines@.len() > 0 => match r {
                    FetchStep::Cached(l, label) => l@ == line_views(e.lines@) && label@
                        == cache_label(e.app_name@),
                    _ => false,
                },
                _ => if self@.sources.len() > 0 {
                    r matches FetchStep::Query(i) && i == 0
                } else {
                    r is NotFound
                },
            },
    {
        match cached {
            Some(e) => {
                if e.lines.len() > 0 {
                    let mut label = chars_of("Cache (");
                    let name = chars_of(e.app_name.as_str());
                    extend_chars(&mut label, &name);
                    let close = chars_of(")");
                    extend_chars(&mut label, &close);
                    return FetchStep::Cached(SongLyrics { lines: e.lines }, string_of(&label));
                }
            },
            None => {},
        }
        if self.source_names.len() > 0 {
            FetchStep::Query(0)
        } else {
            FetchStep::NotFound
        }
    }

    /// The step after provider `index` answered: its lyrics if it gave
    /// lines, else the next provider, else nothing.
    pub fn after_source(&self, index: usize, result: Option<SongLyrics>) -> (r: FetchStep)
        requires
            index < self@.sources.len(),
        ensures
            match result {
                Some(l) if l@.len() > 0 => match r {
                    FetchStep::Found(found, name) => found@ == l@ && name@ == self@.sources[index as int],
                    _ => false,
                },
                _ => if index + 1 < self@.sources.len() {
                    r matches FetchStep::Query(i) && i == index + 1
                } else {
                    r is NotFound
                },
            },
    {
        assert(self@.sources.len() == self.source_names@.len());
        assert(index < self.source_names.len());
        match result {
            Some(l) => {
                if l.lines.len() > 0 {
                    return FetchStep::Found(l, self.source_names[index].clone());
                }
            },
            None => {},
        }
        if index + 1 < self.source_names.len() {
            FetchStep::Query(index + 1)
        } else {
            FetchStep::NotFound
        }
    }
}

} // verus!
