//! Decisions of the playback poller: which token to use, how to read the
//! player's answer, how a track updates the playback state.

use vstd::prelude::*;
use crate::models::{PlaybackState, opt_view, saturating_add_spec};
use crate::text::{
    chars_of, join_with, last_close, last_close_from, line_end, line_end_from, same_text,
    string_of,
};

verus! {

/// One account connected to Discord: its kind and, for some, an access token.
#[derive(Clone, Debug)]
pub struct Connection {
    pub kind: String,
    pub access_token: Option<String>,
}

/// The first connection of kind `spotify`, if any.
pub open spec fn first_spotify(conns: Seq<Connection>) -> Option<Connection>
    decreases conns.len(),
{
    if conns.len() == 0 {
        None
    } else if conns[0].kind@ == "spotify"@ {
        Some(conns[0])
    } else {
        first_spotify(conns.drop_first())
    }
}

/// The access token of the first Spotify connection; `None` when there is no
/// such connection or it carries no token.
pub fn find_spotify_token(connections: &Vec<Connection>) -> (r: Option<String>)
    ensures
        match first_spotify(connections@) {
            Some(c) => opt_view(r) == opt_view(c.access_token),
            None => r is None,
        },
{
    let ghost all = connections@;
    let mut i: usize = 0;
    assert(all.skip(0) =~= all);
    while i < connections.len()
        invariant
            i <= connections.len(),
            all == connections@,
            first_spotify(all) == first_spotify(all.skip(i as int)),
        decreases connections.len() - i,
    {
        let c = &connections[i];
        assert(all.skip(i as int)[0] == *c);
        if same_text(c.kind.as_str(), "spotify") {
            return match &c.access_token {
                Some(t) => Some(t.clone()),
                None => None,
            };
        }
        assert(all.skip(i as int).drop_first() =~= all.skip(i + 1));
        i += 1;
    }
    assert(all.skip(i as int).len() == 0);
    None
}

/// How the poller treats a status code of the player endpoint.
#[derive(Clone, Copy, Debug, PartialEq, Eq)]
pub enum PlayerResponse {
    /// The access token was refused: fetch a new one and ask again.
    Unauthorized,
    /// Nothing is playing (no content, or an error).
    Stopped,
    /// The answer describes the playback.
    Playing,
}

/// The treatment of status `code`; `retried` tells whether the request was
/// already repeated with a fresh token.
pub open spec fn player_response_spec(code: u16, retried: bool) -> PlayerResponse {
    if code == 401 && !retried {
        PlayerResponse::Unauthorized
    } else if code == 204 || !(200 <= code <= 299) {
        PlayerResponse::Stopped
    } else {
        PlayerResponse::Playing
    }
}

/// The treatment of status `code` of the player endpoint.
pub fn classify_player_status(code: u16, retried: bool) -> (r: PlayerResponse)
    ensures
        r == player_response_spec(code, retried),
{
    if code == 401 && !retried {
        PlayerResponse::Unauthorized
    } else if code == 204 || !(200 <= code && code <= 299) {
        PlayerResponse::Stopped
    } else {
        PlayerResponse::Playing
    }
}

// ---------------------------------------------------------------------------
// Track names: ` (...)` up to the last closing parenthesis of the line is
// removed, as the pattern ` \(.+\)` does.
// ---------------------------------------------------------------------------

/// The length of the parenthesised suffix at the start of `t`, or 0.
pub open spec fn paren_match_len(t: Seq<char>) -> nat {
    let e = line_end(t) as int;
    if t.len() > 1 && t[0] == ' ' && t[1] == '(' && last_close(t, 3, e) >= 3 {
        (last_close(t, 3, e) + 1) as nat
    } else {
        0
    }
}

/// `s` with every parenthesised part removed, from left to right.
pub open spec fn clean_name(s: Seq<char>) -> Seq<char>
    decreases s.len(),
{
    if s.len() == 0 {
        s
    } else if 0 < paren_match_len(s) <= s.len() {
        clean_name(s.skip(paren_match_len(s) as int))
    } else {
        seq![s[0]] + clean_name(s.drop_first())
    }
}

/// `paren_match_len(v[i..])`.
fn paren_match_at(v: &Vec<char>, i: usize) -> (r: usize)
    requires
        i < v.len(),
    ensures
        r == paren_match_len(v@.skip(i as int)),
        i + r <= v.len(),
{
    let ghost t = v@.skip(i as int);
    assert(t[0] == v@[i as int]);
    if v[i] != ' ' || i + 1 >= v.len() || v[i + 1] != '(' {
        if i + 1 < v.len() {
            assert(t[1] == v@[i + 1]);
        }
        return 0;
    }
    assert(t[1] == v@[i + 1]);
    let e = line_end_from(v, i) - i;
    match last_close_from(v, i, 3, e) {
        Some(j) => j + 1,
        None => 0,
    }
}

/// The track name without parenthesised parts such as ` (Remastered)`.
pub fn clean_track_name(name: &str) -> (r: String)
    ensures
        r@ == clean_name(name@),
{
    let v = chars_of(name);
    let mut out: Vec<char> = Vec::new();
    let mut i: usize = 0;
    assert(v@.skip(0) =~= v@);
    while i < v.len()
        invariant
            i <= v.len(),
            out@ + clean_name(v@.skip(i as int)) == clean_name(v@),
        decreases v.len() - i,
    {
        let ghost t = v@.skip(i as int);
        let n = paren_match_at(&v, i);
        if n > 0 {
            assert(t.skip(n as int) =~= v@.skip(i + n));
            i = i + n;
        } else {
            assert(t.drop_first() =~= v@.skip(i + 1));
            assert(t[0] == v@[i as int]);
            out.push(v[i]);
            assert(out@ + clean_name(v@.skip(i + 1)) =~= out@.drop_last() + clean_name(t));
            i += 1;
        }
    }
    assert(out@ + clean_name(v@.skip(i as int)) =~= out@);
    string_of(&out)
}

/// The name of the first artist, or an empty string.
pub fn first_artist(names: &Vec<String>) -> (r: String)
    ensures
        names.len() > 0 ==> r@ == names@[0]@,
        names.len() == 0 ==> r@ == Seq::<char>::empty(),
{
    if names.len() > 0 {
        names[0].clone()
    } else {
        String::new()
    }
}

/// The key under which a track's lyrics are looked up: name, NUL, artist.
pub fn lyrics_key(name: &str, artist: &str) -> (r: String)
    ensures
        r@ == name@ + seq!['\0'] + artist@,
{
    join_with(name, '\0', artist)
}

impl PlaybackState {
    /// Takes in what the player reports: position `progress_ms` plus the
    /// `elapsed` milliseconds of the request, duration and whether it plays;
    /// a different track id also replaces the track and forgets its lyrics
    /// and current line.
    pub fn apply_track(
        &mut self,
        id: String,
        name: String,
        artist: String,
        duration_ms: u64,
        progress_ms: u64,
        elapsed: u64,
        is_playing: bool,
    )
        ensures
            final(self).is_playing == is_playing,
            final(self).song_progress == saturating_add_spec(progress_ms, elapsed),
            final(self).song_duration == duration_ms,
            old(self).song_id@ != id@ ==> {
                &&& final(self).song_id@ == id@
                &&& final(self).song_name@ == name@
                &&& final(self).song_author@ == artist@
                &&& final(self).lyrics is None
                &&& final(self).current_line is None
            },
            old(self).song_id@ == id@ ==> {
                &&& final(self).song_id == old(self).song_id
                &&& final(self).song_name == old(self).song_name
                &&& final(self).song_author == old(self).song_author
                &&& final(self).lyrics == old(self).lyrics
                &&& final(self).current_line == old(self).current_line
            },
    {
        let changed = !same_text(self.song_id.as_str(), id.as_str());
        self.is_playing = is_playing;
        self.song_progress = progress_ms.saturating_add(elapsed);
        self.song_duration = duration_ms;
        if changed {
            self.song_id = id;
            self.song_name = name;
            self.song_author = artist;
            self.lyrics = None;
            self.current_line = None;
        }
    }

    /// Whether the track named `name` by `artist` is still the one playing.
    pub fn is_current(&self, name: &str, artist: &str) -> (r: bool)
        ensures
            r == (self.song_name@ == name@ && self.song_author@ == artist@),
    {
        same_text(self.song_name.as_str(), name) && same_text(self.song_author.as_str(), artist)
    }
}

/// The lyrics key of the last track the poller looked up.
pub struct LyricsKeyMemory {
    last: String,
}

impl View for LyricsKeyMemory {
    type V = Seq<char>;

    closed spec fn view(&self) -> Seq<char> {
        self.last@
    }
}

impl LyricsKeyMemory {
    /// No track looked up yet.
    pub fn new() -> (r: Self)
        ensures
            r@ == Seq::<char>::empty(),
    {
        LyricsKeyMemory { last: String::new() }
    }

    /// Remembers `key`; tells whether it differs from the one before, that
    /// is, whether the track's lyrics must be looked up.
    pub fn changed(&mut self, key: String) -> (r: bool)
        ensures
            r == (old(self)@ != key@),
            final(self)@ == key@,
    {
        let differs = !same_text(self.last.as_str(), key.as_str());
        self.last = key;
        differs
    }
}

/// What the poller does next.
#[derive(Clone, Copy, Debug, PartialEq, Eq)]
pub enum PollAction {
    /// Ask Discord for a Spotify access token.
    FetchToken,
    /// Ask the player with the access token held.
    QueryPlayer,
    /// The token was refused: ask Discord for a fresh one.
    RefreshToken,
    /// Ask the player again with the fresh token.
    RetryPlayer,
    /// Mark the playback as stopped and wait for the next tick.
    MarkStopped,
    /// Wait for the next tick.
    Skip,
    /// Read the answer of the player.
    ReadPlayer,
    /// Take in the track the answer describes.
    ApplyTrack,
}

/// The action for a treatment of the player's status.
pub open spec fn action_for_response(r: PlayerResponse) -> PollAction {
    match r {
        PlayerResponse::Unauthorized => PollAction::RefreshToken,
        PlayerResponse::Stopped => PollAction::MarkStopped,
        PlayerResponse::Playing => PollAction::ReadPlayer,
    }
}

/// The poller's memory between ticks: the Spotify access token, empty when
/// there is none yet.
pub struct SpotifyPoller {
    access_token: String,
}

impl View for SpotifyPoller {
    type V = Seq<char>;

    closed spec fn view(&self) -> Seq<char> {
        self.access_token@
    }
}

impl SpotifyPoller {
    /// No token yet.
    pub fn new() -> (r: Self)
        ensures
            r@ == Seq::<char>::empty(),
    {
        SpotifyPoller { access_token: String::new() }
    }

    /// The access token held.
    pub fn access_token(&self) -> (r: String)
        ensures
            r@ == self@,
    {
        self.access_token.clone()
    }

    /// The start of a tick: fetch a token when none is held, else ask the
    /// player.
    pub fn on_tick(&self) -> (r: PollAction)
        ensures
            r == if self@.len() == 0 {
                PollAction::FetchToken
            } else {
                PollAction::QueryPlayer
            },
    {
        if self.access_token.as_str().is_empty() {
            PollAction::FetchToken
        } else {
            PollAction::QueryPlayer
        }
    }

    /// After fetching a token at the start of a tick: without one the
    /// playback is stopped; with one it is held and the player is asked.
    pub fn on_token(&mut self, token: Option<String>) -> (r: PollAction)
        ensures
            match token {
                None => r == PollAction::MarkStopped && final(self)@ == old(self)@,
                Some(t) => r == PollAction::QueryPlayer && final(self)@ == t@,
            },
    {
        match token {
            None => PollAction::MarkStopped,
            Some(t) => {
                self.access_token = t;
                PollAction::QueryPlayer
            },
        }
    }

    /// After the player answered with `code`; `retried` tells whether this
    /// was the repeated request.
    pub fn on_player_status(&self, code: u16, retried: bool) -> (r: PollAction)
        ensures
            r == action_for_response(player_response_spec(code, retried)),
    {
        match classify_player_status(code, retried) {
            PlayerResponse::Unauthorized => PollAction::RefreshToken,
            PlayerResponse::Stopped => PollAction::MarkStopped,
            PlayerResponse::Playing => PollAction::ReadPlayer,
        }
    }

    /// After fetching a fresh token: it replaces the refused one (none counts
    /// as empty); an empty token waits for the next tick, else the player is
    /// asked again.
    pub fn on_refreshed_token(&mut self, token: Option<String>) -> (r: PollAction)
        ensures
            final(self)@ == match token {
                Some(t) => t@,
                None => Seq::<char>::empty(),
            },
            r == if final(self)@.len() == 0 {
                PollAction::Skip
            } else {
                PollAction::RetryPlayer
            },
    {
        self.access_token = match token {
            Some(t) => t,
            None => String::new(),
        };
        if self.access_token.as_str().is_empty() {
            PollAction::Skip
        } else {
            PollAction::RetryPlayer
        }
    }

    /// After reading the answer: without a track the playback is stopped,
    /// else the track is taken in.
    pub fn on_player_item(&self, has_item: bool) -> (r: PollAction)
        ensures
            r == if has_item {
                PollAction::ApplyTrack
            } else {
                PollAction::MarkStopped
            },
    {
        if has_item {
            PollAction::ApplyTrack
        } else {
            PollAction::MarkStopped
        }
    }
}

/// The player's status codes are read as HTTP says: only a success code
/// (200 to 299) other than 204 describes a playback, only a first 401 asks
/// for a fresh token, and every other code means nothing is playing.
pub proof fn law_player_status_classes(code: u16, retried: bool)
    ensures
        (player_response_spec(code, retried) == PlayerResponse::Playing) <==> (200 <= code <= 299
            && code != 204),
        (player_response_spec(code, retried) == PlayerResponse::Unauthorized) <==> (code == 401
            && !retried),
        !(200 <= code <= 299) && !(code == 401 && !retried) ==> player_response_spec(code, retried)
            == PlayerResponse::Stopped,
{
}

/// Whether `s` holds a space directly followed by `(`.
pub open spec fn has_space_paren(s: Seq<char>) -> bool {
    exists|i: int| 0 <= i && i + 1 < s.len() && s[i] == ' ' && #[trigger] s[i + 1] == '('
}

/// Cleaning removes only parts that start with ` (`: a name without a space
/// followed by an opening parenthesis (one with a hyphen, say) comes back
/// unchanged.
pub proof fn law_clean_keeps_names_without_space_paren(s: Seq<char>)
    requires
        !has_space_paren(s),
    ensures
        clean_name(s) == s,
    decreases s.len(),
{
    if s.len() > 0 {
        if s.len() > 1 && s[0] == ' ' && s[1] == '(' {
            assert(s[0int + 1] == '(');
        }
        assert(paren_match_len(s) == 0);
        let d = s.drop_first();
        assert(!has_space_paren(d)) by {
            if has_space_paren(d) {
                let i = choose|i: int| 0 <= i && i + 1 < d.len() && d[i] == ' ' && #[trigger] d[i + 1] == '(';
                assert(s[i + 1] == ' ' && s[(i + 1) + 1] == '(');
            }
        }
        law_clean_keeps_names_without_space_paren(d);
        assert(seq![s[0]] + d =~= s);
    }
}

proof fn lemma_line_without_break(t: Seq<char>)
    requires
        forall|i: int| 0 <= i < t.len() ==> #[trigger] t[i] != '\n',
    ensures
        line_end(t) == t.len(),
    decreases t.len(),
{
    if t.len() > 0 {
        let d = t.drop_first();
        assert forall|i: int| 0 <= i < d.len() implies #[trigger] d[i] != '\n' by {
            assert(d[i] == t[i + 1]);
        }
        assert(t[0] != '\n');
        lemma_line_without_break(d);
    }
}

proof fn lemma_clean_keeps_prefix(a: Seq<char>, r: Seq<char>)
    requires
        !has_space_paren(a),
        r.len() > 0,
        r[0] == ' ',
    ensures
        clean_name(a + r) == a + clean_name(r),
    decreases a.len(),
{
    if a.len() == 0 {
        assert(a + r =~= r);
        assert(a + clean_name(r) =~= clean_name(r));
    } else {
        let s = a + r;
        if a.len() > 1 && a[0] == ' ' && a[1] == '(' {
            assert(a[0int + 1] == '(');
        }
        assert(s[0] == a[0]);
        assert(s.len() > 1 && s[0] == ' ' ==> s[1] != '(') by {
            if a.len() > 1 {
                assert(s[1] == a[1]);
            } else {
                assert(s[1] == r[0]);
            }
        }
        assert(paren_match_len(s) == 0);
        let d = a.drop_first();
        assert(!has_space_paren(d)) by {
            if has_space_paren(d) {
                let i = choose|i: int| 0 <= i && i + 1 < d.len() && d[i] == ' ' && #[trigger] d[i + 1] == '(';
                assert(a[i + 1] == ' ' && a[(i + 1) + 1] == '(');
            }
        }
        lemma_clean_keeps_prefix(d, r);
        assert(s.drop_first() =~= d + r);
        assert(seq![a[0]] + (d + clean_name(r)) =~= a + clean_name(r));
    }
}

/// A part ` (…)` that closes the line is dropped whole: a name holding no
/// ` (` of its own, followed by ` (`, any text on the same line (brackets
/// too) and `)`, cleans to that name.
pub proof fn law_clean_drops_trailing_part(a: Seq<char>, b: Seq<char>)
    requires
        !has_space_paren(a),
        b.len() > 0,
        forall|i: int| 0 <= i < b.len() ==> #[trigger] b[i] != '\n',
    ensures
        clean_name(a + seq![' ', '('] + b + seq![')']) == a,
{
    let t = seq![' ', '('] + b + seq![')'];
    assert forall|i: int| 0 <= i < t.len() implies #[trigger] t[i] != '\n' by {
        if 2 <= i < t.len() - 1 {
            assert(t[i] == b[i - 2]);
        }
    }
    lemma_line_without_break(t);
    let e = t.len() as int;
    assert(t[e - 1] == ')');
    assert(last_close(t, 3, e) == e - 1);
    assert(paren_match_len(t) == t.len());
    assert(t.skip(t.len() as int) =~= Seq::<char>::empty());
    assert(clean_name(Seq::<char>::empty()) == Seq::<char>::empty());
    assert(clean_name(t) == clean_name(t.skip(paren_match_len(t) as int)));
    lemma_clean_keeps_prefix(a, t);
    assert(a + seq![' ', '('] + b + seq![')'] =~= a + t);
    assert(a + Seq::<char>::empty() =~= a);
}

} // verus!
