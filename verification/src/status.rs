//! The Discord status: how a lyrics line becomes status text, the emoji
//! syntax, and the decisions of the loop that keeps the status in step with
//! the song.

use vstd::prelude::*;
use crate::models::{LineView, LyricsLine, PlaybackState, line_views, opt_view};
use crate::settings::{Settings, TimingSettings};
use crate::lrc::{all_ascii_digits, ascii_value};
use std::collections::{HashSet, VecDeque};
use crate::text::{
    chars_of, decimal, digit, digit_char, occurs_at, extend_chars, is_decimal_digit, last_close,
    last_close_from, line_end, line_end_from, lowercase, lower_chars, push_decimal, replace_all,
    replace_all_chars, replace_first, replace_first_chars, string_of, string_of_range,
    take_at_most, take_chars, uppercase, upper_chars, char_is_decimal_digit,
};

verus! {

/// The longest status Discord accepts, in characters.
pub const MAX_STATUS_LENGTH: usize = 128;

// ---------------------------------------------------------------------------
// Small text transformations
// ---------------------------------------------------------------------------

/// `total` seconds as minutes, a colon and two digits of seconds.
pub open spec fn format_seconds_spec(total: nat) -> Seq<char> {
    decimal(total / 60) + seq![':', digit_char((total % 60) / 10), digit_char(total % 10)]
}

/// `total` seconds written as `m:ss`.
pub fn format_seconds(total: u64) -> (r: String)
    ensures
        r@ == format_seconds_spec(total as nat),
{
    let mut out: Vec<char> = Vec::new();
    push_decimal(&mut out, total / 60);
    out.push(':');
    out.push(digit((total % 60) / 10));
    out.push(digit(total % 10));
    assert(total % 60 % 10 == total % 10);
    assert(out@ =~= format_seconds_spec(total as nat));
    string_of(&out)
}

/// The first `MAX_STATUS_LENGTH` characters of a status.
pub open spec fn truncate_spec(s: Seq<char>) -> Seq<char> {
    take_at_most(s, MAX_STATUS_LENGTH as nat)
}

/// At most the first `MAX_STATUS_LENGTH` characters of `value`.
pub fn truncate(value: &str) -> (r: String)
    ensures
        r@ == truncate_spec(value@),
        r@.len() <= MAX_STATUS_LENGTH,
{
    let v = chars_of(value);
    let t = take_chars(&v, MAX_STATUS_LENGTH);
    string_of(&t)
}

/// The characters that `letters_only` drops.
pub open spec fn is_dropped_punctuation(c: char) -> bool {
    c == '\'' || c == '"' || c == ',' || c == '.'
}

/// `s` without apostrophes, double quotes, commas and full stops.
pub open spec fn letters_only_spec(s: Seq<char>) -> Seq<char>
    decreases s.len(),
{
    if s.len() == 0 {
        s
    } else if is_dropped_punctuation(s[0]) {
        letters_only_spec(s.drop_first())
    } else {
        seq![s[0]] + letters_only_spec(s.drop_first())
    }
}

/// `letters_only_spec` of the characters `v`.
fn letters_only_chars(v: &Vec<char>) -> (r: Vec<char>)
    ensures
        r@ == letters_only_spec(v@),
{
    let mut out: Vec<char> = Vec::new();
    let mut i: usize = 0;
    assert(v@.skip(0) =~= v@);
    while i < v.len()
        invariant
            i <= v.len(),
            out@ + letters_only_spec(v@.skip(i as int)) == letters_only_spec(v@),
        decreases v.len() - i,
    {
        assert(v@.skip(i as int).drop_first() =~= v@.skip(i + 1));
        assert(v@.skip(i as int)[0] == v@[i as int]);
        let c = v[i];
        if !(c == '\'' || c == '"' || c == ',' || c == '.') {
            out.push(c);
            assert(out@ + letters_only_spec(v@.skip(i + 1)) =~= out@.drop_last() + letters_only_spec(
                v@.skip(i as int),
            ));
        }
        i += 1;
    }
    assert(out@ + letters_only_spec(v@.skip(i as int)) =~= out@);
    out
}

/// `value` without apostrophes, double quotes, commas and full stops.
pub fn letters_only(value: &str) -> (r: String)
    ensures
        r@ == letters_only_spec(value@),
{
    let v = chars_of(value);
    let out = letters_only_chars(&v);
    string_of(&out)
}

// ---------------------------------------------------------------------------
// Cropping a song name: removes ` - ...` / `- ...` to the end of the line and
// `(...)` up to the last closing parenthesis of the line, as the pattern
// `( ?- ?.+)|(\(.+\))` does.
// ---------------------------------------------------------------------------

/// The length of the part that cropping removes at the start of `t`, or 0.
pub open spec fn crop_match_len(t: Seq<char>) -> nat {
    let e = line_end(t) as int;
    if t.len() > 0 && t[0] == '-' && e >= 2 {
        e as nat
    } else if t.len() > 1 && t[0] == ' ' && t[1] == '-' && e >= 3 {
        e as nat
    } else if t.len() > 0 && t[0] == '(' && last_close(t, 2, e) >= 2 {
        (last_close(t, 2, e) + 1) as nat
    } else {
        0
    }
}

/// `s` with every cropped part removed, from left to right.
pub open spec fn crop(s: Seq<char>) -> Seq<char>
    decreases s.len(),
{
    if s.len() == 0 {
        s
    } else if 0 < crop_match_len(s) <= s.len() {
        crop(s.skip(crop_match_len(s) as int))
    } else {
        seq![s[0]] + crop(s.drop_first())
    }
}

/// `crop_match_len(v[i..])`.
fn crop_match_at(v: &Vec<char>, i: usize) -> (r: usize)
    requires
        i < v.len(),
    ensures
        r == crop_match_len(v@.skip(i as int)),
        i + r <= v.len(),
{
    let ghost t = v@.skip(i as int);
    assert(t[0] == v@[i as int]);
    let c = v[i];
    if c != '-' && c != ' ' && c != '(' {
        return 0;
    }
    let e = line_end_from(v, i) - i;
    if c == '-' && e >= 2 {
        return e;
    }
    if c == ' ' {
        if i + 1 < v.len() && v[i + 1] == '-' && e >= 3 {
            assert(t[1] == v@[i + 1]);
            return e;
        }
        if i + 1 < v.len() {
            assert(t[1] == v@[i + 1]);
        }
        return 0;
    }
    if c == '(' {
        match last_close_from(v, i, 2, e) {
            Some(j) => {
                return j + 1;
            },
            None => {
                return 0;
            },
        }
    }
    0
}

/// `crop` of the characters `v`.
fn crop_chars(v: &Vec<char>) -> (r: Vec<char>)
    ensures
        r@ == crop(v@),
{
    let mut out: Vec<char> = Vec::new();
    let mut i: usize = 0;
    assert(v@.skip(0) =~= v@);
    while i < v.len()
        invariant
            i <= v.len(),
            out@ + crop(v@.skip(i as int)) == crop(v@),
        decreases v.len() - i,
    {
        let ghost t = v@.skip(i as int);
        let n = crop_match_at(v, i);
        if n > 0 {
            assert(t.skip(n as int) =~= v@.skip(i + n));
            i = i + n;
        } else {
            assert(t.drop_first() =~= v@.skip(i + 1));
            assert(t[0] == v@[i as int]);
            out.push(v[i]);
            assert(out@ + crop(v@.skip(i + 1)) =~= out@.drop_last() + crop(t));
            i += 1;
        }
    }
    assert(out@ + crop(v@.skip(i as int)) =~= out@);
    out
}

/// `value` with ` - ...` tails and parenthesised parts removed.
pub fn cropped(value: &str) -> (r: String)
    ensures
        r@ == crop(value@),
{
    let v = chars_of(value);
    let out = crop_chars(&v);
    string_of(&out)
}

// ---------------------------------------------------------------------------
// Emoji: `<:name:id>` or `<a:name:id>` names a custom emoji; anything else
// non-empty is a Unicode emoji.
// ---------------------------------------------------------------------------

/// Where the name of a custom emoji starts: after `<:` or `<a:`, else 0.
pub open spec fn emoji_name_start(s: Seq<char>) -> nat {
    if s.len() >= 3 && s[0] == '<' && s[1] == 'a' && s[2] == ':' {
        3
    } else if s.len() >= 2 && s[0] == '<' && s[1] == ':' {
        2
    } else {
        0
    }
}

/// The length of the run of characters other than `:` at the start of `s`.
pub open spec fn non_colon_run(s: Seq<char>) -> nat
    decreases s.len(),
{
    if s.len() > 0 && s[0] != ':' {
        1 + non_colon_run(s.drop_first())
    } else {
        0
    }
}

/// Whether every character of `s` is a `\d` digit.
pub open spec fn all_decimal_digits(s: Seq<char>) -> bool {
    forall|i: int| 0 <= i < s.len() ==> is_decimal_digit(#[trigger] s[i])
}

/// The id and the name of the custom emoji written `s`, if it is one.
pub open spec fn custom_emoji(s: Seq<char>) -> Option<(Seq<char>, Seq<char>)> {
    let a = emoji_name_start(s) as int;
    let k = a + non_colon_run(s.skip(a)) as int;
    if a > 0 && k > a && k + 2 < s.len() && s[k] == ':' && s.last() == '>'
        && all_decimal_digits(s.subrange(k + 1, s.len() - 1)) {
        Some((s.subrange(k + 1, s.len() - 1), s.subrange(a, k)))
    } else {
        None
    }
}

/// The id and the name of an emoji: both absent for an empty string, id and
/// name for a custom emoji, the whole text as name otherwise.
pub fn parse_emoji(emoji: &str) -> (r: (Option<String>, Option<String>))
    ensures
        emoji@.len() == 0 ==> r.0 is None && r.1 is None,
        emoji@.len() > 0 ==> match custom_emoji(emoji@) {
            Some((id, name)) => opt_view(r.0) == Some(id) && opt_view(r.1) == Some(name),
            None => r.0 is None && opt_view(r.1) == Some(emoji@),
        },
{
    let v = chars_of(emoji);
    let len = v.len();
    if len == 0 {
        return (None, None);
    }
    let ghost s = v@;
    let mut a: usize = 0;
    if len >= 3 && v[0] == '<' && v[1] == 'a' && v[2] == ':' {
        a = 3;
    } else if len >= 2 && v[0] == '<' && v[1] == ':' {
        a = 2;
    }
    if a == 0 {
        return (None, Some(string_of(&v)));
    }
    let mut k = a;
    while k < len && v[k] != ':'
        invariant
            a <= k <= len,
            len == v.len(),
            s == v@,
            s == emoji@,
            non_colon_run(s.skip(a as int)) == (k - a) + non_colon_run(s.skip(k as int)),
        decreases len - k,
    {
        assert(s.skip(k as int).drop_first() =~= s.skip(k + 1));
        assert(s.skip(k as int)[0] == s[k as int]);
        k += 1;
    }
    if k < len {
        assert(s.skip(k as int)[0] == s[k as int]);
    }
    assert(k == a + non_colon_run(s.skip(a as int)));
    if !(k > a && k < len && len - k > 2 && v[k] == ':' && v[len - 1] == '>') {
        return (None, Some(string_of(&v)));
    }
    let mut j = k + 1;
    while j < len - 1
        invariant
            k + 1 <= j <= len - 1,
            len == v.len(),
            s == v@,
            s == emoji@,
            k > a > 0,
            k + 2 < len,
            k == a + non_colon_run(s.skip(a as int)),
            a == emoji_name_start(s),
            s[k as int] == ':',
            s.last() == '>',
            forall|x: int| k + 1 <= x < j ==> is_decimal_digit(#[trigger] s[x]),
        decreases len - 1 - j,
    {
        if !char_is_decimal_digit(v[j]) {
            assert(s.subrange(k + 1, len - 1)[j - (k + 1)] == s[j as int]);
            assert(!all_decimal_digits(s.subrange(k + 1, len - 1)));
            return (None, Some(string_of(&v)));
        }
        j += 1;
    }
    assert(all_decimal_digits(s.subrange(k + 1, len - 1))) by {
        assert forall|x: int| 0 <= x < s.subrange(k + 1, len - 1).len() implies is_decimal_digit(
            #[trigger] s.subrange(k + 1, len - 1)[x],
        ) by {
            assert(s.subrange(k + 1, len - 1)[x] == s[k + 1 + x]);
        }
    }
    (Some(string_of_range(&v, k + 1, len - 1)), Some(string_of_range(&v, a, k)))
}

// ---------------------------------------------------------------------------
// Status text
// ---------------------------------------------------------------------------

/// `ms` milliseconds rounded to the nearest second, halves rounded up.
pub open spec fn rounded_seconds(ms: u64) -> nat {
    (ms / 1000) as nat + if ms % 1000 >= 500 {
        1nat
    } else {
        0nat
    }
}

/// The timestamp shown for a line.
pub open spec fn status_timestamp(line: LineView) -> Seq<char> {
    format_seconds_spec(rounded_seconds(line.time))
}

/// The first `♪` of `s` turned into `🎶`.
pub open spec fn with_notes(s: Seq<char>) -> Seq<char> {
    replace_first(s, '♪', "🎶"@)
}

/// The plain status: `[m:ss] ` when timestamps are shown, `Song lyrics - `
/// when the label is shown, then the line.
pub open spec fn simple_status(line: LineView, timestamp: bool, label: bool) -> Seq<char> {
    let ts = if timestamp {
        seq!['['] + status_timestamp(line) + seq![']', ' ']
    } else {
        Seq::<char>::empty()
    };
    let lb = if label {
        "Song lyrics -"@ + seq![' ']
    } else {
        Seq::<char>::empty()
    };
    truncate_spec(ts + lb + with_notes(line.text))
}

/// A status template with its placeholders filled in, one placeholder after
/// the other in this order, each replacing all its occurrences in the text
/// produced so far.
pub open spec fn fill_template(t: Seq<char>, state: PlaybackState, line: LineView) -> Seq<char> {
    let text = line.text;
    let name = state.song_name@;
    let author = state.song_author@;
    let s1 = replace_all(t, "{lyrics}"@, text);
    let s2 = replace_all(s1, "{lyrics_upper}"@, uppercase(text));
    let s3 = replace_all(s2, "{lyrics_lower}"@, lowercase(text));
    let s4 = replace_all(s3, "{lyrics_letters_only}"@, letters_only_spec(text));
    let s5 = replace_all(s4, "{lyrics_upper_letters_only}"@, letters_only_spec(uppercase(text)));
    let s6 = replace_all(s5, "{lyrics_lower_letters_only}"@, letters_only_spec(lowercase(text)));
    let s7 = replace_all(s6, "{timestamp}"@, status_timestamp(line));
    let s8 = replace_all(s7, "{song_name}"@, name);
    let s9 = replace_all(s8, "{song_name_upper}"@, uppercase(name));
    let s10 = replace_all(s9, "{song_name_lower}"@, lowercase(name));
    let s11 = replace_all(s10, "{song_name_cropped}"@, crop(name));
    let s12 = replace_all(s11, "{song_name_upper_cropped}"@, crop(uppercase(name)));
    let s13 = replace_all(s12, "{song_name_lower_cropped}"@, crop(lowercase(name)));
    let s14 = replace_all(s13, "{song_author}"@, author);
    let s15 = replace_all(s14, "{song_author_upper}"@, uppercase(author));
    replace_all(s15, "{song_author_lower}"@, lowercase(author))
}

/// The status for `line` of the song in `state` under `settings`.
pub open spec fn status_text(state: PlaybackState, line: LineView, settings: Settings) -> Seq<char> {
    if !settings.view.advanced.enabled {
        simple_status(line, settings.view.timestamp, settings.view.label)
    } else {
        truncate_spec(
            with_notes(fill_template(settings.view.advanced.custom_status@, state, line)),
        )
    }
}

/// The characters of `status_timestamp(line)`.
fn timestamp_chars(time: u64) -> (r: Vec<char>)
    ensures
        r@ == format_seconds_spec(rounded_seconds(time)),
{
    let secs = time / 1000 + if time % 1000 >= 500 {
        1
    } else {
        0
    };
    let s = format_seconds(secs);
    chars_of(s.as_str())
}

/// `with_notes` of the characters `v`.
fn with_notes_chars(v: &Vec<char>) -> (r: Vec<char>)
    ensures
        r@ == with_notes(v@),
{
    let notes = chars_of("🎶");
    replace_first_chars(v, '♪', &notes)
}

/// Every occurrence of the placeholder `pat` in `cur` replaced by `value`.
fn fill(cur: &Vec<char>, pat: &str, value: &Vec<char>) -> (r: Vec<char>)
    requires
        pat@.len() > 0,
    ensures
        r@ == replace_all(cur@, pat@, value@),
{
    let p = chars_of(pat);
    replace_all_chars(cur, &p, value)
}

/// The status text for `line` of the song in `state`: the plain form, or the
/// template of the advanced view with its placeholders filled in; `♪` turned
/// into `🎶` once; at most `MAX_STATUS_LENGTH` characters.
pub fn build_status(state: &PlaybackState, line: &LyricsLine, settings: &Settings) -> (r: String)
    ensures
        r@ == status_text(*state, line@, *settings),
        r@.len() <= MAX_STATUS_LENGTH,
{
    let ts = timestamp_chars(line.time);
    let text = chars_of(line.text.as_str());
    if !settings.view.advanced.enabled {
        let mut out: Vec<char> = Vec::new();
        if settings.view.timestamp {
            out.push('[');
            extend_chars(&mut out, &ts);
            out.push(']');
            out.push(' ');
        }
        if settings.view.label {
            let label = chars_of("Song lyrics -");
            extend_chars(&mut out, &label);
            out.push(' ');
        }
        let noted = with_notes_chars(&text);
        let ghost prefix = out@;
        extend_chars(&mut out, &noted);
        let ghost tsv = if settings.view.timestamp {
            seq!['['] + status_timestamp(line@) + seq![']', ' ']
        } else {
            Seq::<char>::empty()
        };
        let ghost lbv = if settings.view.label {
            "Song lyrics -"@ + seq![' ']
        } else {
            Seq::<char>::empty()
        };
        assert(prefix =~= tsv + lbv);
        let t = take_chars(&out, MAX_STATUS_LENGTH);
        return string_of(&t);
    }
    proof {
        reveal_strlit("{lyrics}");
        reveal_strlit("{lyrics_upper}");
        reveal_strlit("{lyrics_lower}");
        reveal_strlit("{lyrics_letters_only}");
        reveal_strlit("{lyrics_upper_letters_only}");
        reveal_strlit("{lyrics_lower_letters_only}");
        reveal_strlit("{timestamp}");
        reveal_strlit("{song_name}");
        reveal_strlit("{song_name_upper}");
        reveal_strlit("{song_name_lower}");
        reveal_strlit("{song_name_cropped}");
        reveal_strlit("{song_name_upper_cropped}");
        reveal_strlit("{song_name_lower_cropped}");
        reveal_strlit("{song_author}");
        reveal_strlit("{song_author_upper}");
        reveal_strlit("{song_author_lower}");
    }
    let name = chars_of(state.song_name.as_str());
    let author = chars_of(state.song_author.as_str());
    let text_upper = upper_chars(&text);
    let text_lower = lower_chars(&text);
    let name_upper = upper_chars(&name);
    let name_lower = lower_chars(&name);
    let template = chars_of(settings.view.advanced.custom_status.as_str());
    let s1 = fill(&template, "{lyrics}", &text);
    let s2 = fill(&s1, "{lyrics_upper}", &text_upper);
    let s3 = fill(&s2, "{lyrics_lower}", &text_lower);
    let s4 = fill(&s3, "{lyrics_letters_only}", &letters_only_chars(&text));
    let s5 = fill(&s4, "{lyrics_upper_letters_only}", &letters_only_chars(&text_upper));
    let s6 = fill(&s5, "{lyrics_lower_letters_only}", &letters_only_chars(&text_lower));
    let s7 = fill(&s6, "{timestamp}", &ts);
    let s8 = fill(&s7, "{song_name}", &name);
    let s9 = fill(&s8, "{song_name_upper}", &name_upper);
    let s10 = fill(&s9, "{song_name_lower}", &name_lower);
    let s11 = fill(&s10, "{song_name_cropped}", &crop_chars(&name));
    let s12 = fill(&s11, "{song_name_upper_cropped}", &crop_chars(&name_upper));
    let s13 = fill(&s12, "{song_name_lower_cropped}", &crop_chars(&name_lower));
    let s14 = fill(&s13, "{song_author}", &author);
    let s15 = fill(&s14, "{song_author_upper}", &upper_chars(&author));
    let s16 = fill(&s15, "{song_author_lower}", &lower_chars(&author));
    let noted = with_notes_chars(&s16);
    let t = take_chars(&noted, MAX_STATUS_LENGTH);
    string_of(&t)
}

// ---------------------------------------------------------------------------
// Automatic offset: the latest send latencies, newest first
// ---------------------------------------------------------------------------

/// The sum of `s`.
pub open spec fn seq_sum(s: Seq<u64>) -> nat
    decreases s.len(),
{
    if s.len() == 0 {
        0
    } else {
        seq_sum(s.drop_last()) + s.last() as nat
    }
}

/// `n` zeros.
pub open spec fn zeros(n: nat) -> Seq<u64> {
    Seq::new(n, |i: int| 0u64)
}

/// The samples cut or padded with zeros at the back to `max(limit, 1)`.
pub open spec fn set_limit_spec(s: Seq<u64>, limit: usize) -> Seq<u64> {
    let l = if limit < 1 {
        1nat
    } else {
        limit as nat
    };
    if s.len() >= l {
        s.take(l as int)
    } else {
        s + zeros((l - s.len()) as nat)
    }
}

/// A new sample in front, the oldest one dropped.
pub open spec fn add_sample_spec(s: Seq<u64>, value: u64) -> Seq<u64> {
    seq![value] + if s.len() > 0 {
        s.drop_last()
    } else {
        s
    }
}

/// The mean of the samples, rounded down; 0 when there are none.
pub open spec fn average_spec(s: Seq<u64>) -> nat {
    if s.len() == 0 {
        0
    } else {
        seq_sum(s) / s.len()
    }
}

/// Padding with zeros leaves the sum unchanged.
pub proof fn lemma_sum_zeros(s: Seq<u64>, n: nat)
    ensures
        seq_sum(s + zeros(n)) == seq_sum(s),
    decreases n,
{
    if n > 0 {
        assert((s + zeros(n)).drop_last() =~= s + zeros((n - 1) as nat));
        lemma_sum_zeros(s, (n - 1) as nat);
    } else {
        assert(s + zeros(0) =~= s);
    }
}

/// A prefix sums to no more than the whole.
pub proof fn lemma_sum_take(s: Seq<u64>, k: int)
    requires
        0 <= k <= s.len(),
    ensures
        seq_sum(s.take(k)) <= seq_sum(s),
    decreases s.len() - k,
{
    if k < s.len() {
        lemma_sum_take(s, k + 1);
        assert(s.take(k + 1).drop_last() =~= s.take(k));
    } else {
        assert(s.take(k) =~= s);
    }
}

/// The latest send latencies, newest first.
pub struct AutoOffset {
    samples: VecDeque<u64>,
}

impl View for AutoOffset {
    type V = Seq<u64>;

    closed spec fn view(&self) -> Seq<u64> {
        self.samples@
    }
}

impl AutoOffset {
    /// No samples.
    pub fn new() -> (r: Self)
        ensures
            r@ == Seq::<u64>::empty(),
    {
        AutoOffset { samples: VecDeque::new() }
    }

    /// Keeps `max(limit, 1)` samples: the newest ones, or all of them and
    /// zeros behind.
    pub fn set_limit(&mut self, limit: usize)
        ensures
            final(self)@ == set_limit_spec(old(self)@, limit),
    {
        let l = if limit < 1 {
            1
        } else {
            limit
        };
        let ghost s = self.samples@;
        let n0 = self.samples.len();
        while self.samples.len() > l
            invariant
                l >= 1,
                n0 == s.len(),
                n0 >= l ==> self.samples@.len() >= l,
                n0 < l ==> self.samples@ == s,
                s.len() >= self.samples@.len(),
                self.samples@ == s.take(self.samples@.len() as int),
            decreases self.samples@.len(),
        {
            self.samples.pop_back();
            assert(s.take(self.samples@.len() as int) =~= self.samples@);
        }
        if n0 >= l {
            assert(self.samples@ =~= s.take(l as int));
            return;
        }
        assert(self.samples@ =~= s + zeros(0));
        while self.samples.len() < l
            invariant
                s.len() < l,
                s.len() <= self.samples@.len() <= l,
                self.samples@ == s + zeros((self.samples@.len() - s.len()) as nat),
            decreases l - self.samples@.len(),
        {
            let ghost before = self.samples@;
            self.samples.push_back(0);
            assert(self.samples@ =~= s + zeros((self.samples@.len() - s.len()) as nat));
        }
    }

    /// Puts `value` in front and drops the oldest sample.
    pub fn add(&mut self, value: u64)
        ensures
            final(self)@ == add_sample_spec(old(self)@, value),
    {
        self.samples.pop_back();
        self.samples.push_front(value);
    }

    /// The mean of the samples, rounded down; 0 when there are none.
    pub fn average(&self) -> (r: u64)
        requires
            seq_sum(self@) <= u64::MAX,
        ensures
            r == average_spec(self@),
    {
        let n = self.samples.len();
        if n == 0 {
            return 0;
        }
        let mut acc: u64 = 0;
        let mut i: usize = 0;
        while i < n
            invariant
                n == self.samples@.len(),
                i <= n,
                seq_sum(self.samples@) <= u64::MAX,
                acc == seq_sum(self.samples@.take(i as int)),
            decreases n - i,
        {
            proof {
                lemma_sum_take(self.samples@, i + 1);
                assert(self.samples@.take(i + 1).drop_last() =~= self.samples@.take(i as int));
            }
            acc = acc + self.samples[i];
            i += 1;
        }
        assert(self.samples@.take(n as int) =~= self.samples@);
        acc / (n as u64)
    }
}

// ---------------------------------------------------------------------------
// Choosing the line to send
// ---------------------------------------------------------------------------

/// `a + b`, held within `0..=u64::MAX`.
pub open spec fn saturating_add_signed_spec(a: u64, b: i64) -> u64 {
    if a + b < 0 {
        0
    } else if a + b > u64::MAX {
        u64::MAX
    } else {
        (a + b) as u64
    }
}

/// The last line of `lines` that has text and starts before `threshold`.
pub open spec fn last_line_before(lines: Seq<LineView>, threshold: u64) -> Option<LineView>
    decreases lines.len(),
{
    if lines.len() == 0 {
        None
    } else if lines.last().time < threshold && lines.last().text.len() > 0 {
        Some(lines.last())
    } else {
        last_line_before(lines.drop_last(), threshold)
    }
}

/// What the status loop remembers between ticks.
pub struct TrackerView {
    pub last_song: Seq<char>,
    pub sent: Set<u64>,
    pub samples: Seq<u64>,
}

/// How far ahead of the position lines are sent: the mean latency plus 100
/// milliseconds, or the configured offset.
pub open spec fn send_offset(samples: Seq<u64>, timings: TimingSettings) -> int {
    if timings.enable_autooffset {
        ((average_spec(samples) as u64) as i64) + 100
    } else {
        timings.send_time_offset as int
    }
}

/// Whether computing the offset from the samples stays within the integer
/// types (the mean's sum fits a `u64`, the mean plus 100 an `i64`).
pub open spec fn offset_fits(v: TrackerView, config: Settings) -> bool {
    let s = set_limit_spec(v.samples, config.timings.autooffset);
    config.timings.enable_autooffset ==> seq_sum(s) <= u64::MAX && ((average_spec(s) as u64) as i64)
        + 100 <= i64::MAX
}

/// Whether a tick on `snapshot` reaches the computation of the offset: the
/// song plays, has not ended, a token is set and lyrics are known.
pub open spec fn offset_needed(snapshot: PlaybackState, config: Settings) -> bool {
    &&& snapshot.is_playing
    &&& !snapshot.has_ended()
    &&& config.credentials.token@.len() > 0
    &&& snapshot.lyrics is Some
}

/// The memory after a tick: the samples limited as configured, and the sent
/// lines forgotten when the song changed.
pub open spec fn tick_view(v: TrackerView, snapshot: PlaybackState, config: Settings) -> TrackerView {
    TrackerView {
        last_song: snapshot.song_id@,
        sent: if snapshot.song_id@ != v.last_song {
            Set::empty()
        } else {
            v.sent
        },
        samples: set_limit_spec(v.samples, config.timings.autooffset),
    }
}

/// The line to send, given the memory after the tick: none unless the song
/// plays, has not ended, lyrics are known and a token is set; else the last
/// line with text that starts before the position plus the offset, unless it
/// was already sent for this song.
pub open spec fn line_to_send(v: TrackerView, snapshot: PlaybackState, config: Settings) -> Option<
    LineView,
> {
    if !snapshot.is_playing || snapshot.has_ended() || config.credentials.token@.len() == 0 {
        None
    } else {
        match snapshot.lyrics {
            None => None,
            Some(lyrics) => {
                let threshold = saturating_add_signed_spec(
                    snapshot.song_progress,
                    send_offset(v.samples, config.timings) as i64,
                );
                match last_line_before(lyrics@, threshold) {
                    Some(line) => if v.sent.contains(line.time) {
                        None
                    } else {
                        Some(line)
                    },
                    None => None,
                }
            },
        }
    }
}

/// The memory after a line at `time` was sent with `latency` milliseconds.
pub open spec fn recorded_view(v: TrackerView, time: u64, latency: u64) -> TrackerView {
    TrackerView {
        last_song: v.last_song,
        sent: v.sent.insert(time),
        samples: add_sample_spec(v.samples, latency),
    }
}

/// `a + b`, held within `0..=u64::MAX`.
fn saturating_add_signed(a: u64, b: i64) -> (r: u64)
    ensures
        r == saturating_add_signed_spec(a, b),
{
    let t: i128 = (a as i128) + (b as i128);
    if t < 0 {
        0
    } else if t > (u64::MAX as i128) {
        u64::MAX
    } else {
        t as u64
    }
}

/// The index of the last line of `lines` that has text and starts before
/// `threshold`.
fn last_line_before_exec(lines: &Vec<LyricsLine>, threshold: u64) -> (r: Option<usize>)
    ensures
        match r {
            Some(i) => i < lines.len() && last_line_before(line_views(lines@), threshold) == Some(
                lines@[i as int]@,
            ),
            None => last_line_before(line_views(lines@), threshold) is None,
        },
{
    let ghost all = line_views(lines@);
    let mut i = lines.len();
    assert(all.take(i as int) =~= all);
    while i > 0
        invariant
            i <= lines.len(),
            all == line_views(lines@),
            last_line_before(all, threshold) == last_line_before(all.take(i as int), threshold),
        decreases i,
    {
        let l = &lines[i - 1];
        assert(all.take(i as int).last() == l@);
        assert(all.take(i as int).drop_last() =~= all.take(i - 1));
        if l.time < threshold && !l.text.as_str().is_empty() {
            return Some(i - 1);
        }
        i -= 1;
    }
    None
}

/// What the status loop remembers between ticks: the song of the last tick,
/// the times of the lines already sent for it, and the latest latencies.
pub struct StatusTracker {
    last_song: String,
    sent: HashSet<u64>,
    offsets: AutoOffset,
}

impl View for StatusTracker {
    type V = TrackerView;

    closed spec fn view(&self) -> TrackerView {
        TrackerView { last_song: self.last_song@, sent: self.sent@, samples: self.offsets@ }
    }
}

impl StatusTracker {
    /// Nothing sent, no song, no samples.
    pub fn new() -> (r: Self)
        ensures
            r@.last_song == Seq::<char>::empty(),
            r@.sent == Set::<u64>::empty(),
            r@.samples == Seq::<u64>::empty(),
    {
        StatusTracker { last_song: String::new(), sent: HashSet::new(), offsets: AutoOffset::new() }
    }

    /// Whether [`StatusTracker::select_line`] can compute its offset.
    pub fn offset_fits(&self, config: &Settings) -> (r: bool)
        ensures
            r == offset_fits(self@, *config),
    {
        broadcast use vstd::std_specs::hash::group_hash_axioms;

        if !config.timings.enable_autooffset {
            return true;
        }
        let ghost s = self.offsets@;
        let l = if config.timings.autooffset < 1 {
            1
        } else {
            config.timings.autooffset
        };
        let n = self.offsets.samples.len();
        let k = if n < l {
            n
        } else {
            l
        };
        let mut acc: u128 = 0;
        let mut i: usize = 0;
        while i < k
            invariant
                k <= n,
                n == s.len(),
                s == self.offsets.samples@,
                i <= k,
                acc == seq_sum(s.take(i as int)),
                acc <= i * 0xffff_ffff_ffff_ffffu128,
            decreases k - i,
        {
            assert(s.take(i + 1).drop_last() =~= s.take(i as int));
            acc = acc + (self.offsets.samples[i] as u128);
            i += 1;
        }
        let ghost limited = set_limit_spec(s, config.timings.autooffset);
        proof {
            if n >= l {
                assert(limited =~= s.take(l as int));
            } else {
                assert(s.take(n as int) =~= s);
                lemma_sum_zeros(s, (l - n) as nat);
            }
        }
        assert(seq_sum(limited) == acc);
        if acc > (u64::MAX as u128) {
            return false;
        }
        let avg: u64 = (acc as u64) / (l as u64);
        (avg as i64) <= i64::MAX - 100
    }

    /// Whether [`StatusTracker::select_line`] can run its tick on `snapshot`:
    /// the offset fits whenever the tick computes it.
    pub fn can_select(&self, snapshot: &PlaybackState, config: &Settings) -> (r: bool)
        ensures
            r == (offset_needed(*snapshot, *config) ==> offset_fits(self@, *config)),
    {
        let needed = snapshot.is_playing && !snapshot.ended()
            && !config.credentials.token.as_str().is_empty() && snapshot.lyrics.is_some();
        !needed || self.offset_fits(config)
    }

    /// One tick of the status loop on the playback `snapshot`: updates the
    /// memory and picks the line to send, if any.
    pub fn select_line(&mut self, snapshot: &PlaybackState, config: &Settings) -> (r: Option<
        LyricsLine,
    >)
        requires
            offset_needed(*snapshot, *config) ==> offset_fits(old(self)@, *config),
        ensures
            final(self)@ == tick_view(old(self)@, *snapshot, *config),
            match r {
                Some(l) => line_to_send(final(self)@, *snapshot, *config) == Some(l@),
                None => line_to_send(final(self)@, *snapshot, *config) is None,
            },
    {
        broadcast use vstd::std_specs::hash::group_hash_axioms;

        self.offsets.set_limit(config.timings.autooffset);
        if snapshot.song_id != self.last_song {
            self.last_song = snapshot.song_id.clone();
            self.sent.clear();
        }
        if !snapshot.is_playing || snapshot.ended() || config.credentials.token.as_str().is_empty() {
            return None;
        }
        let lyrics = match &snapshot.lyrics {
            Some(l) => l,
            None => {
                return None;
            },
        };
        let offset: i64 = if config.timings.enable_autooffset {
            (self.offsets.average() as i64) + 100
        } else {
            config.timings.send_time_offset
        };
        let threshold = saturating_add_signed(snapshot.song_progress, offset);
        match last_line_before_exec(&lyrics.lines, threshold) {
            Some(i) => {
                let line = &lyrics.lines[i];
                if self.sent.contains(&line.time) {
                    None
                } else {
                    Some(line.duplicate())
                }
            },
            None => None,
        }
    }

    /// Remembers that the line at `time` was sent, `latency` milliseconds
    /// after the request started.
    pub fn record_sent(&mut self, time: u64, latency: u64)
        ensures
            final(self)@ == recorded_view(old(self)@, time, latency),
    {
        broadcast use vstd::std_specs::hash::group_hash_axioms;

        self.offsets.add(latency);
        self.sent.insert(time);
    }
}

// ---------------------------------------------------------------------------
// Laws
// ---------------------------------------------------------------------------

/// A line sent for a song is not chosen again while that song stays the one
/// playing: after recording the line at `time`, the next tick on the same song
/// picks no line at that time.
pub proof fn law_sent_line_not_repeated(
    v: TrackerView,
    snapshot: PlaybackState,
    config: Settings,
    time: u64,
    latency: u64,
)
    requires
        v.last_song == snapshot.song_id@,
    ensures
        line_to_send(tick_view(recorded_view(v, time, latency), snapshot, config), snapshot, config)
            matches Some(l) ==> l.time != time,
{
}

/// After a song change every line of the new song can be sent again: the
/// memory of sent lines is empty.
pub proof fn law_song_change_forgets_sent(v: TrackerView, snapshot: PlaybackState, config: Settings)
    requires
        v.last_song != snapshot.song_id@,
    ensures
        tick_view(v, snapshot, config).sent == Set::<u64>::empty(),
{
}

/// The automatic offset keeps exactly `max(limit, 1)` samples.
pub proof fn law_limit_sets_length(s: Seq<u64>, limit: usize)
    ensures
        set_limit_spec(s, limit).len() == if limit < 1 {
            1
        } else {
            limit as int
        },
{
}

/// Adding a sample keeps the number of samples when there is at least one.
pub proof fn law_add_keeps_length(s: Seq<u64>, value: u64)
    requires
        s.len() > 0,
    ensures
        add_sample_spec(s, value).len() == s.len(),
        add_sample_spec(s, value)[0] == value,
{
}

/// The mean never exceeds the largest sample.
pub proof fn law_average_bounded(s: Seq<u64>, bound: u64)
    requires
        forall|i: int| 0 <= i < s.len() ==> #[trigger] s[i] <= bound,
    ensures
        average_spec(s) <= bound,
{
    lemma_sum_bounded(s, bound);
    if s.len() > 0 {
        lemma_div_bound(seq_sum(s), s.len(), bound as nat);
    }
}

proof fn lemma_sum_bounded(s: Seq<u64>, bound: u64)
    requires
        forall|i: int| 0 <= i < s.len() ==> #[trigger] s[i] <= bound,
    ensures
        seq_sum(s) <= s.len() * bound,
    decreases s.len(),
{
    if s.len() > 0 {
        assert forall|i: int| 0 <= i < s.drop_last().len() implies #[trigger] s.drop_last()[i]
            <= bound by {
            assert(s.drop_last()[i] == s[i]);
        }
        lemma_sum_bounded(s.drop_last(), bound);
        assert(s.last() == s[s.len() - 1]);
        assert((s.len() - 1) * bound + bound == s.len() * bound) by (nonlinear_arith);
    }
}

proof fn lemma_div_bound(sum: nat, n: nat, bound: nat)
    by (nonlinear_arith)
    requires
        n > 0,
        sum <= n * bound,
    ensures
        sum / n <= bound,
{
}

/// A status is cut only at its end: truncating keeps a prefix of at most
/// `MAX_STATUS_LENGTH` characters, leaves shorter text whole, and truncating
/// again changes nothing.
pub proof fn law_truncate_keeps_prefix(s: Seq<char>)
    ensures
        truncate_spec(s).len() <= MAX_STATUS_LENGTH,
        s.len() <= MAX_STATUS_LENGTH ==> truncate_spec(s) == s,
        truncate_spec(s) == s.take(truncate_spec(s).len() as int),
        truncate_spec(truncate_spec(s)) == truncate_spec(s),
{
    if s.len() <= MAX_STATUS_LENGTH {
        assert(s.take(s.len() as int) =~= s);
    }
}

proof fn lemma_digit_char(d: nat)
    requires
        d < 10,
    ensures
        '0' <= digit_char(d) <= '9',
        (digit_char(d) as int) - 48 == d,
{
}

/// The decimal notation of `n` is a non-empty run of ASCII digits that
/// reads back as `n`.
pub proof fn lemma_decimal_reads_back(n: nat)
    ensures
        decimal(n).len() > 0,
        all_ascii_digits(decimal(n)),
        ascii_value(decimal(n)) == n,
    decreases n,
{
    lemma_digit_char(n % 10);
    let s = decimal(n);
    if n < 10 {
        assert(s.drop_last() =~= Seq::<char>::empty());
        assert(s.last() == digit_char(n));
        assert(ascii_value(s.drop_last()) == 0);
        assert(ascii_value(s) == ascii_value(s.drop_last()) * 10 + ((s.last() as int) - 48) as nat);
    } else {
        lemma_decimal_reads_back(n / 10);
        let d = decimal(n / 10);
        assert(s.drop_last() =~= d);
        assert(s.last() == digit_char(n % 10));
        assert(ascii_value(s) == ascii_value(s.drop_last()) * 10 + ((s.last() as int) - 48) as nat);
        assert forall|i: int| 0 <= i < decimal(n).len() implies '0' <= #[trigger] decimal(n)[i]
            <= '9' by {
            if i < d.len() {
                assert(decimal(n)[i] == d[i]);
            }
        }
    }
}

/// The text of `format_seconds` reads back as the number of seconds: decimal
/// minutes, a colon, and two ASCII digits of seconds below sixty.
pub proof fn law_format_seconds_reads_back(total: nat)
    ensures
        ({
            let r = format_seconds_spec(total);
            let m = decimal(total / 60);
            let sec = r.subrange(m.len() as int + 1, r.len() as int);
            &&& r == m + seq![':'] + sec
            &&& m.len() > 0
            &&& all_ascii_digits(m)
            &&& sec.len() == 2
            &&& all_ascii_digits(sec)
            &&& ascii_value(sec) < 60
            &&& ascii_value(m) * 60 + ascii_value(sec) == total
        }),
{
    let r = format_seconds_spec(total);
    let m = decimal(total / 60);
    lemma_decimal_reads_back(total / 60);
    let a = (total % 60) / 10;
    let b = total % 10;
    lemma_digit_char(a);
    lemma_digit_char(b);
    let sec = r.subrange(m.len() as int + 1, r.len() as int);
    assert(sec =~= seq![digit_char(a), digit_char(b)]);
    assert(r =~= m + seq![':'] + sec);
    assert(sec.drop_last() =~= seq![digit_char(a)]);
    assert(sec.drop_last().drop_last() =~= Seq::<char>::empty());
    assert(ascii_value(sec.drop_last().drop_last()) == 0);
    assert(ascii_value(sec.drop_last()) == ascii_value(sec.drop_last().drop_last()) * 10 + ((
    sec.drop_last().last() as int) - 48) as nat);
    assert(sec.drop_last().last() == digit_char(a));
    assert(sec.last() == digit_char(b));
    assert(ascii_value(sec) == ascii_value(sec.drop_last()) * 10 + ((sec.last() as int) - 48) as nat);
    assert(ascii_value(sec) == a * 10 + b);
    assert(total % 60 % 10 == total % 10);
    assert(ascii_value(sec) == total % 60);
}

/// One event in the life of the status loop's memory: a tick on a playback
/// snapshot, or a line at some time sent with some latency.
pub enum TrackerStep {
    Tick(PlaybackState, Settings),
    Sent(u64, u64),
}

/// The memory after one event.
pub open spec fn apply_step(v: TrackerView, step: TrackerStep) -> TrackerView {
    match step {
        TrackerStep::Tick(snapshot, config) => tick_view(v, snapshot, config),
        TrackerStep::Sent(time, latency) => recorded_view(v, time, latency),
    }
}

/// The memory after a sequence of events, in order.
pub open spec fn apply_steps(v: TrackerView, steps: Seq<TrackerStep>) -> TrackerView
    decreases steps.len(),
{
    if steps.len() == 0 {
        v
    } else {
        apply_step(apply_steps(v, steps.drop_last()), steps.last())
    }
}

/// Whether every tick among `steps` sees the song `song`.
pub open spec fn ticks_on_song(steps: Seq<TrackerStep>, song: Seq<char>) -> bool {
    forall|i: int|
        0 <= i < steps.len() ==> match #[trigger] steps[i] {
            TrackerStep::Tick(snapshot, _) => snapshot.song_id@ == song,
            TrackerStep::Sent(_, _) => true,
        }
}

proof fn lemma_sent_kept(v: TrackerView, steps: Seq<TrackerStep>, song: Seq<char>, time: u64)
    requires
        v.last_song == song,
        v.sent.contains(time),
        ticks_on_song(steps, song),
    ensures
        apply_steps(v, steps).last_song == song,
        apply_steps(v, steps).sent.contains(time),
    decreases steps.len(),
{
    if steps.len() > 0 {
        assert forall|i: int| 0 <= i < steps.drop_last().len() implies match #[trigger] steps.drop_last()[i] {
            TrackerStep::Tick(snapshot, _) => snapshot.song_id@ == song,
            TrackerStep::Sent(_, _) => true,
        } by {
            assert(steps.drop_last()[i] == steps[i]);
        }
        lemma_sent_kept(v, steps.drop_last(), song, time);
        assert(steps.last() == steps[steps.len() - 1]);
    }
}

/// While one song stays current, a line sent for it is never chosen again:
/// after the line at `time` is recorded, any number of ticks on that song and
/// further sends leave a memory from which no tick on the song picks a line
/// at `time`.
pub proof fn law_no_repeat_while_song_stays(
    v: TrackerView,
    time: u64,
    latency: u64,
    steps: Seq<TrackerStep>,
    snapshot: PlaybackState,
    config: Settings,
)
    requires
        v.last_song == snapshot.song_id@,
        ticks_on_song(steps, snapshot.song_id@),
    ensures
        apply_steps(recorded_view(v, time, latency), steps).sent.contains(time),
        line_to_send(
            tick_view(apply_steps(recorded_view(v, time, latency), steps), snapshot, config),
            snapshot,
            config,
        ) matches Some(l) ==> l.time != time,
{
    lemma_sent_kept(recorded_view(v, time, latency), steps, snapshot.song_id@, time);
}

/// The text of a custom emoji: `<`, `a` when animated, `:`, the name, `:`,
/// the id, `>`.
pub open spec fn emoji_text(animated: bool, name: Seq<char>, id: Seq<char>) -> Seq<char> {
    seq!['<'] + (if animated {
        seq!['a']
    } else {
        Seq::<char>::empty()
    }) + seq![':'] + name + seq![':'] + id + seq!['>']
}

proof fn lemma_non_colon_run(name: Seq<char>, rest: Seq<char>)
    requires
        forall|i: int| 0 <= i < name.len() ==> #[trigger] name[i] != ':',
        rest.len() > 0,
        rest[0] == ':',
    ensures
        non_colon_run(name + rest) == name.len(),
    decreases name.len(),
{
    if name.len() == 0 {
        assert(name + rest =~= rest);
    } else {
        assert((name + rest)[0] == name[0]);
        assert((name + rest).drop_first() =~= name.drop_first() + rest);
        assert forall|i: int| 0 <= i < name.drop_first().len() implies #[trigger] name.drop_first()[i]
            != ':' by {
            assert(name.drop_first()[i] == name[i + 1]);
        }
        lemma_non_colon_run(name.drop_first(), rest);
    }
}

/// Every custom emoji is read as one: for any non-empty name without `:`
/// (whatever else it holds) and any non-empty run of `\d` digits, the text
/// `<:name:id>` or `<a:name:id>` gives exactly that id and that name.
pub proof fn law_custom_emoji_read(animated: bool, name: Seq<char>, id: Seq<char>)
    requires
        name.len() > 0,
        forall|i: int| 0 <= i < name.len() ==> #[trigger] name[i] != ':',
        id.len() > 0,
        all_decimal_digits(id),
    ensures
        custom_emoji(emoji_text(animated, name, id)) == Some((id, name)),
{
    let s = emoji_text(animated, name, id);
    let a: int = if animated {
        3
    } else {
        2
    };
    let rest = seq![':'] + id + seq!['>'];
    assert(s =~= s.take(a) + name + rest);
    assert(s.skip(a) =~= name + rest);
    if animated {
        assert(s[0] == '<' && s[1] == 'a' && s[2] == ':');
    } else {
        assert(s[0] == '<' && s[1] == ':');
    }
    assert(emoji_name_start(s) == a);
    lemma_non_colon_run(name, rest);
    let k = a + name.len();
    assert(s[k] == ':');
    assert(s.len() == k + id.len() + 2);
    assert(s.last() == '>');
    assert(s.subrange(k + 1, s.len() - 1) =~= id);
    assert(s.subrange(a, k) =~= name);
}

proof fn lemma_non_colon_prefix(t: Seq<char>)
    ensures
        non_colon_run(t) <= t.len(),
        forall|i: int| 0 <= i < non_colon_run(t) ==> #[trigger] t[i] != ':',
        non_colon_run(t) < t.len() ==> t[non_colon_run(t) as int] == ':',
    decreases t.len(),
{
    if t.len() > 0 && t[0] != ':' {
        lemma_non_colon_prefix(t.drop_first());
        assert forall|i: int| 0 <= i < non_colon_run(t) implies #[trigger] t[i] != ':' by {
            if i > 0 {
                assert(t[i] == t.drop_first()[i - 1]);
            }
        }
    }
}

/// Whatever is read as a custom emoji has the form `<:name:id>` or
/// `<a:name:id>`, with a non-empty name without `:` and a non-empty run of
/// `\d` digits as id.
pub proof fn law_custom_emoji_form(s: Seq<char>)
    ensures
        custom_emoji(s) matches Some((id, name)) ==> {
            &&& s == emoji_text(s[1] == 'a', name, id)
            &&& name.len() > 0
            &&& forall|i: int| 0 <= i < name.len() ==> #[trigger] name[i] != ':'
            &&& id.len() > 0
            &&& all_decimal_digits(id)
        },
{
    if let Some((id, name)) = custom_emoji(s) {
        let a = emoji_name_start(s) as int;
        lemma_non_colon_prefix(s.skip(a));
        let k = a + non_colon_run(s.skip(a)) as int;
        assert forall|i: int| 0 <= i < name.len() implies #[trigger] name[i] != ':' by {
            assert(name[i] == s.skip(a)[i]);
        }
        if s[1] == 'a' {
            assert(a == 3);
        } else {
            assert(a == 2);
        }
        assert(s =~= emoji_text(s[1] == 'a', name, id));
    }
}

/// Whether `s` is a placeholder: `{`, characters other than braces, `}`.
pub open spec fn is_placeholder(s: Seq<char>) -> bool {
    &&& s.len() >= 2
    &&& s[0] == '{'
    &&& s.last() == '}'
    &&& forall|i: int| 0 < i < s.len() - 1 ==> #[trigger] s[i] != '{' && s[i] != '}'
}

/// Whether `s` holds no opening brace.
pub open spec fn no_open_brace(s: Seq<char>) -> bool {
    forall|i: int| 0 <= i < s.len() ==> #[trigger] s[i] != '{'
}

/// Replacing a placeholder leaves text without an opening brace unchanged.
proof fn lemma_replace_in_braceless(s: Seq<char>, pat: Seq<char>, rep: Seq<char>)
    requires
        no_open_brace(s),
        pat.len() > 0,
        pat[0] == '{',
    ensures
        replace_all(s, pat, rep) == s,
    decreases s.len(),
{
    if s.len() > 0 {
        if occurs_at(s, 0, pat) {
            assert(s.subrange(0, pat.len() as int)[0] == s[0]);
        }
        let d = s.drop_first();
        assert(no_open_brace(d)) by {
            assert forall|i: int| 0 <= i < d.len() implies #[trigger] d[i] != '{' by {
                assert(d[i] == s[i + 1]);
            }
        }
        lemma_replace_in_braceless(d, pat, rep);
        assert(seq![s[0]] + d =~= s);
    }
}

/// Replacing one placeholder leaves a different placeholder unchanged.
proof fn lemma_replace_other_placeholder(q: Seq<char>, p: Seq<char>, rep: Seq<char>)
    requires
        is_placeholder(q),
        is_placeholder(p),
        p != q,
    ensures
        replace_all(q, p, rep) == q,
{
    if occurs_at(q, 0, p) {
        let n = p.len() as int;
        assert(q.subrange(0, n)[n - 1] == p[n - 1]);
        if n < q.len() {
            assert(q[n - 1] != '}');
        }
        assert(q.subrange(0, n) =~= q);
    }
    let d = q.drop_first();
    assert(no_open_brace(d)) by {
        assert forall|i: int| 0 <= i < d.len() implies #[trigger] d[i] != '{' by {
            assert(d[i] == q[i + 1]);
            if i + 1 < q.len() - 1 {
                assert(q[i + 1] != '{');
            } else {
                assert(q[i + 1] == q.last());
            }
        }
    }
    lemma_replace_in_braceless(d, p, rep);
    assert(seq![q[0]] + d =~= q);
}

/// Replacing a text by itself as pattern gives the replacement.
proof fn lemma_replace_whole(p: Seq<char>, rep: Seq<char>)
    requires
        p.len() > 0,
    ensures
        replace_all(p, p, rep) == rep,
{
    assert(p.subrange(0, p.len() as int) =~= p);
    assert(occurs_at(p, 0, p));
    assert(p.skip(p.len() as int) =~= Seq::<char>::empty());
    assert(replace_all(p.skip(p.len() as int), p, rep) == Seq::<char>::empty());
    assert(replace_all(p, p, rep) == rep + replace_all(p.skip(p.len() as int), p, rep));
    assert(rep + Seq::<char>::empty() =~= rep);
}

/// The template `{lyrics}` alone becomes its value.
proof fn lemma_fill_lyrics(state: PlaybackState, line: LineView)
    requires
        no_open_brace(line.text),
    ensures
        fill_template("{lyrics}"@, state, line) == line.text,
{
    reveal_strlit("{lyrics}");
    reveal_strlit("{lyrics_upper}");
    reveal_strlit("{lyrics_lower}");
    reveal_strlit("{lyrics_letters_only}");
    reveal_strlit("{lyrics_upper_letters_only}");
    reveal_strlit("{lyrics_lower_letters_only}");
    reveal_strlit("{timestamp}");
    reveal_strlit("{song_name}");
    reveal_strlit("{song_name_upper}");
    reveal_strlit("{song_name_lower}");
    reveal_strlit("{song_name_cropped}");
    reveal_strlit("{song_name_upper_cropped}");
    reveal_strlit("{song_name_lower_cropped}");
    reveal_strlit("{song_author}");
    reveal_strlit("{song_author_upper}");
    reveal_strlit("{song_author_lower}");
    let text = line.text;
    let name = state.song_name@;
    let author = state.song_author@;
    assert(is_placeholder("{lyrics}"@));
    lemma_replace_whole("{lyrics}"@, text);
    lemma_replace_in_braceless(text, "{lyrics_upper}"@, uppercase(text));
    lemma_replace_in_braceless(text, "{lyrics_lower}"@, lowercase(text));
    lemma_replace_in_braceless(text, "{lyrics_letters_only}"@, letters_only_spec(text));
    lemma_replace_in_braceless(text, "{lyrics_upper_letters_only}"@, letters_only_spec(uppercase(text)));
    lemma_replace_in_braceless(text, "{lyrics_lower_letters_only}"@, letters_only_spec(lowercase(text)));
    lemma_replace_in_braceless(text, "{timestamp}"@, status_timestamp(line));
    lemma_replace_in_braceless(text, "{song_name}"@, name);
    lemma_replace_in_braceless(text, "{song_name_upper}"@, uppercase(name));
    lemma_replace_in_braceless(text, "{song_name_lower}"@, lowercase(name));
    lemma_replace_in_braceless(text, "{song_name_cropped}"@, crop(name));
    lemma_replace_in_braceless(text, "{song_name_upper_cropped}"@, crop(uppercase(name)));
    lemma_replace_in_braceless(text, "{song_name_lower_cropped}"@, crop(lowercase(name)));
    lemma_replace_in_braceless(text, "{song_author}"@, author);
    lemma_replace_in_braceless(text, "{song_author_upper}"@, uppercase(author));
    lemma_replace_in_braceless(text, "{song_author_lower}"@, lowercase(author));
}

/// The template `{lyrics_upper}` alone becomes its value.
proof fn lemma_fill_lyrics_upper(state: PlaybackState, line: LineView)
    requires
        no_open_brace(uppercase(line.text)),
    ensures
        fill_template("{lyrics_upper}"@, state, line) == uppercase(line.text),
{
    reveal_strlit("{lyrics}");
    reveal_strlit("{lyrics_upper}");
    reveal_strlit("{lyrics_lower}");
    reveal_strlit("{lyrics_letters_only}");
    reveal_strlit("{lyrics_upper_letters_only}");
    reveal_strlit("{lyrics_lower_letters_only}");
    reveal_strlit("{timestamp}");
    reveal_strlit("{song_name}");
    reveal_strlit("{song_name_upper}");
    reveal_strlit("{song_name_lower}");
    reveal_strlit("{song_name_cropped}");
    reveal_strlit("{song_name_upper_cropped}");
    reveal_strlit("{song_name_lower_cropped}");
    reveal_strlit("{song_author}");
    reveal_strlit("{song_author_upper}");
    reveal_strlit("{song_author_lower}");
    let text = line.text;
    let name = state.song_name@;
    let author = state.song_author@;
    assert(is_placeholder("{lyrics_upper}"@));
    assert(is_placeholder("{lyrics}"@));
    assert("{lyrics}"@.len() != "{lyrics_upper}"@.len());
    lemma_replace_other_placeholder("{lyrics_upper}"@, "{lyrics}"@, text);
    lemma_replace_whole("{lyrics_upper}"@, uppercase(text));
    lemma_replace_in_braceless(uppercase(text), "{lyrics_lower}"@, lowercase(text));
    lemma_replace_in_braceless(uppercase(text), "{lyrics_letters_only}"@, letters_only_spec(text));
    lemma_replace_in_braceless(uppercase(text), "{lyrics_upper_letters_only}"@, letters_only_spec(uppercase(text)));
    lemma_replace_in_braceless(uppercase(text), "{lyrics_lower_letters_only}"@, letters_only_spec(lowercase(text)));
    lemma_replace_in_braceless(uppercase(text), "{timestamp}"@, status_timestamp(line));
    lemma_replace_in_braceless(uppercase(text), "{song_name}"@, name);
    lemma_replace_in_braceless(uppercase(text), "{song_name_upper}"@, uppercase(name));
    lemma_replace_in_braceless(uppercase(text), "{song_name_lower}"@, lowercase(name));
    lemma_replace_in_braceless(uppercase(text), "{song_name_cropped}"@, crop(name));
    lemma_replace_in_braceless(uppercase(text), "{song_name_upper_cropped}"@, crop(uppercase(name)));
    lemma_replace_in_braceless(uppercase(text), "{song_name_lower_cropped}"@, crop(lowercase(name)));
    lemma_replace_in_braceless(uppercase(text), "{song_author}"@, author);
    lemma_replace_in_braceless(uppercase(text), "{song_author_upper}"@, uppercase(author));
    lemma_replace_in_braceless(uppercase(text), "{song_author_lower}"@, lowercase(author));
}

/// The template `{lyrics_lower}` alone becomes its value.
proof fn lemma_fill_lyrics_lower(state: PlaybackState, line: LineView)
    requires
        no_open_brace(lowercase(line.text)),
    ensures
        fill_template("{lyrics_lower}"@, state, line) == lowercase(line.text),
{
    reveal_strlit("{lyrics}");
    reveal_strlit("{lyrics_upper}");
    reveal_strlit("{lyrics_lower}");
    reveal_strlit("{lyrics_letters_only}");
    reveal_strlit("{lyrics_upper_letters_only}");
    reveal_strlit("{lyrics_lower_letters_only}");
    reveal_strlit("{timestamp}");
    reveal_strlit("{song_name}");
    reveal_strlit("{song_name_upper}");
    reveal_strlit("{song_name_lower}");
    reveal_strlit("{song_name_cropped}");
    reveal_strlit("{song_name_upper_cropped}");
    reveal_strlit("{song_name_lower_cropped}");
    reveal_strlit("{song_author}");
    reveal_strlit("{song_author_upper}");
    reveal_strlit("{song_author_lower}");
    let text = line.text;
    let name = state.song_name@;
    let author = state.song_author@;
    assert(is_placeholder("{lyrics_lower}"@));
    assert(is_placeholder("{lyrics}"@));
    assert("{lyrics}"@.len() != "{lyrics_lower}"@.len());
    lemma_replace_other_placeholder("{lyrics_lower}"@, "{lyrics}"@, text);
    assert(is_placeholder("{lyrics_upper}"@));
    assert("{lyrics_upper}"@[8] != "{lyrics_lower}"@[8]);
    lemma_replace_other_placeholder("{lyrics_lower}"@, "{lyrics_upper}"@, uppercase(text));
    lemma_replace_whole("{lyrics_lower}"@, lowercase(text));
    lemma_replace_in_braceless(lowercase(text), "{lyrics_letters_only}"@, letters_only_spec(text));
    lemma_replace_in_braceless(lowercase(text), "{lyrics_upper_letters_only}"@, letters_only_spec(uppercase(text)));
    lemma_replace_in_braceless(lowercase(text), "{lyrics_lower_letters_only}"@, letters_only_spec(lowercase(text)));
    lemma_replace_in_braceless(lowercase(text), "{timestamp}"@, status_timestamp(line));
    lemma_replace_in_braceless(lowercase(text), "{song_name}"@, name);
    lemma_replace_in_braceless(lowercase(text), "{song_name_upper}"@, uppercase(name));
    lemma_replace_in_braceless(lowercase(text), "{song_name_lower}"@, lowercase(name));
    lemma_replace_in_braceless(lowercase(text), "{song_name_cropped}"@, crop(name));
    lemma_replace_in_braceless(lowercase(text), "{song_name_upper_cropped}"@, crop(uppercase(name)));
    lemma_replace_in_braceless(lowercase(text), "{song_name_lower_cropped}"@, crop(lowercase(name)));
    lemma_replace_in_braceless(lowercase(text), "{song_author}"@, author);
    lemma_replace_in_braceless(lowercase(text), "{song_author_upper}"@, uppercase(author));
    lemma_replace_in_braceless(lowercase(text), "{song_author_lower}"@, lowercase(author));
}

/// The template `{lyrics_letters_only}` alone becomes its value.
proof fn lemma_fill_lyrics_letters_only(state: PlaybackState, line: LineView)
    requires
        no_open_brace(letters_only_spec(line.text)),
    ensures
        fill_template("{lyrics_letters_only}"@, state, line) == letters_only_spec(line.text),
{
    reveal_strlit("{lyrics}");
    reveal_strlit("{lyrics_upper}");
    reveal_strlit("{lyrics_lower}");
    reveal_strlit("{lyrics_letters_only}");
    reveal_strlit("{lyrics_upper_letters_only}");
    reveal_strlit("{lyrics_lower_letters_only}");
    reveal_strlit("{timestamp}");
    reveal_strlit("{song_name}");
    reveal_strlit("{song_name_upper}");
    reveal_strlit("{song_name_lower}");
    reveal_strlit("{song_name_cropped}");
    reveal_strlit("{song_name_upper_cropped}");
    reveal_strlit("{song_name_lower_cropped}");
    reveal_strlit("{song_author}");
    reveal_strlit("{song_author_upper}");
    reveal_strlit("{song_author_lower}");
    let text = line.text;
    let name = state.song_name@;
    let author = state.song_author@;
    assert(is_placeholder("{lyrics_letters_only}"@));
    assert(is_placeholder("{lyrics}"@));
    assert("{lyrics}"@.len() != "{lyrics_letters_only}"@.len());
    lemma_replace_other_placeholder("{lyrics_letters_only}"@, "{lyrics}"@, text);
    assert(is_placeholder("{lyrics_upper}"@));
    assert("{lyrics_upper}"@.len() != "{lyrics_letters_only}"@.len());
    lemma_replace_other_placeholder("{lyrics_letters_only}"@, "{lyrics_upper}"@, uppercase(text));
    assert(is_placeholder("{lyrics_lower}"@));
    assert("{lyrics_lower}"@.len() != "{lyrics_letters_only}"@.len());
    lemma_replace_other_placeholder("{lyrics_letters_only}"@, "{lyrics_lower}"@, lowercase(text));
    lemma_replace_whole("{lyrics_letters_only}"@, letters_only_spec(text));
    lemma_replace_in_braceless(letters_only_spec(text), "{lyrics_upper_letters_only}"@, letters_only_spec(uppercase(text)));
    lemma_replace_in_braceless(letters_only_spec(text), "{lyrics_lower_letters_only}"@, letters_only_spec(lowercase(text)));
    lemma_replace_in_braceless(letters_only_spec(text), "{timestamp}"@, status_timestamp(line));
    lemma_replace_in_braceless(letters_only_spec(text), "{song_name}"@, name);
    lemma_replace_in_braceless(letters_only_spec(text), "{song_name_upper}"@, uppercase(name));
    lemma_replace_in_braceless(letters_only_spec(text), "{song_name_lower}"@, lowercase(name));
    lemma_replace_in_braceless(letters_only_spec(text), "{song_name_cropped}"@, crop(name));
    lemma_replace_in_braceless(letters_only_spec(text), "{song_name_upper_cropped}"@, crop(uppercase(name)));
    lemma_replace_in_braceless(letters_only_spec(text), "{song_name_lower_cropped}"@, crop(lowercase(name)));
    lemma_replace_in_braceless(letters_only_spec(text), "{song_author}"@, author);
    lemma_replace_in_braceless(letters_only_spec(text), "{song_author_upper}"@, uppercase(author));
    lemma_replace_in_braceless(letters_only_spec(text), "{song_author_lower}"@, lowercase(author));
}

/// The template `{lyrics_upper_letters_only}` alone becomes its value.
proof fn lemma_fill_lyrics_upper_letters_only(state: PlaybackState, line: LineView)
    requires
        no_open_brace(letters_only_spec(uppercase(line.text))),
    ensures
        fill_template("{lyrics_upper_letters_only}"@, state, line) == letters_only_spec(uppercase(line.text)),
{
    reveal_strlit("{lyrics}");
    reveal_strlit("{lyrics_upper}");
    reveal_strlit("{lyrics_lower}");
    reveal_strlit("{lyrics_letters_only}");
    reveal_strlit("{lyrics_upper_letters_only}");
    reveal_strlit("{lyrics_lower_letters_only}");
    reveal_strlit("{timestamp}");
    reveal_strlit("{song_name}");
    reveal_strlit("{song_name_upper}");
    reveal_strlit("{song_name_lower}");
    reveal_strlit("{song_name_cropped}");
    reveal_strlit("{song_name_upper_cropped}");
    reveal_strlit("{song_name_lower_cropped}");
    reveal_strlit("{song_author}");
    reveal_strlit("{song_author_upper}");
    reveal_strlit("{song_author_lower}");
    let text = line.text;
    let name = state.song_name@;
    let author = state.song_author@;
    assert(is_placeholder("{lyrics_upper_letters_only}"@));
    assert(is_placeholder("{lyrics}"@));
    assert("{lyrics}"@.len() != "{lyrics_upper_letters_only}"@.len());
    lemma_replace_other_placeholder("{lyrics_upper_letters_only}"@, "{lyrics}"@, text);
    assert(is_placeholder("{lyrics_upper}"@));
    assert("{lyrics_upper}"@.len() != "{lyrics_upper_letters_only}"@.len());
    lemma_replace_other_placeholder("{lyrics_upper_letters_only}"@, "{lyrics_upper}"@, uppercase(text));
    assert(is_placeholder("{lyrics_lower}"@));
    assert("{lyrics_lower}"@.len() != "{lyrics_upper_letters_only}"@.len());
    lemma_replace_other_placeholder("{lyrics_upper_letters_only}"@, "{lyrics_lower}"@, lowercase(text));
    assert(is_placeholder("{lyrics_letters_only}"@));
    assert("{lyrics_letters_only}"@.len() != "{lyrics_upper_letters_only}"@.len());
    lemma_replace_other_placeholder("{lyrics_upper_letters_only}"@, "{lyrics_letters_only}"@, letters_only_spec(text));
    lemma_replace_whole("{lyrics_upper_letters_only}"@, letters_only_spec(uppercase(text)));
    lemma_replace_in_braceless(letters_only_spec(uppercase(text)), "{lyrics_lower_letters_only}"@, letters_only_spec(lowercase(text)));
    lemma_replace_in_braceless(letters_only_spec(uppercase(text)), "{timestamp}"@, status_timestamp(line));
    lemma_replace_in_braceless(letters_only_spec(uppercase(text)), "{song_name}"@, name);
    lemma_replace_in_braceless(letters_only_spec(uppercase(text)), "{song_name_upper}"@, uppercase(name));
    lemma_replace_in_braceless(letters_only_spec(uppercase(text)), "{song_name_lower}"@, lowercase(name));
    lemma_replace_in_braceless(letters_only_spec(uppercase(text)), "{song_name_cropped}"@, crop(name));
    lemma_replace_in_braceless(letters_only_spec(uppercase(text)), "{song_name_upper_cropped}"@, crop(uppercase(name)));
    lemma_replace_in_braceless(letters_only_spec(uppercase(text)), "{song_name_lower_cropped}"@, crop(lowercase(name)));
    lemma_replace_in_braceless(letters_only_spec(uppercase(text)), "{song_author}"@, author);
    lemma_replace_in_braceless(letters_only_spec(uppercase(text)), "{song_author_upper}"@, uppercase(author));
    lemma_replace_in_braceless(letters_only_spec(uppercase(text)), "{song_author_lower}"@, lowercase(author));
}

/// The template `{lyrics_lower_letters_only}` alone becomes its value.
proof fn lemma_fill_lyrics_lower_letters_only(state: PlaybackState, line: LineView)
    requires
        no_open_brace(letters_only_spec(lowercase(line.text))),
    ensures
        fill_template("{lyrics_lower_letters_only}"@, state, line) == letters_only_spec(lowercase(line.text)),
{
    reveal_strlit("{lyrics}");
    reveal_strlit("{lyrics_upper}");
    reveal_strlit("{lyrics_lower}");
    reveal_strlit("{lyrics_letters_only}");
    reveal_strlit("{lyrics_upper_letters_only}");
    reveal_strlit("{lyrics_lower_letters_only}");
    reveal_strlit("{timestamp}");
    reveal_strlit("{song_name}");
    reveal_strlit("{song_name_upper}");
    reveal_strlit("{song_name_lower}");
    reveal_strlit("{song_name_cropped}");
    reveal_strlit("{song_name_upper_cropped}");
    reveal_strlit("{song_name_lower_cropped}");
    reveal_strlit("{song_author}");
    reveal_strlit("{song_author_upper}");
    reveal_strlit("{song_author_lower}");
    let text = line.text;
    let name = state.song_name@;
    let author = state.song_author@;
    assert(is_placeholder("{lyrics_lower_letters_only}"@));
    assert(is_placeholder("{lyrics}"@));
    assert("{lyrics}"@.len() != "{lyrics_lower_letters_only}"@.len());
    lemma_replace_other_placeholder("{lyrics_lower_letters_only}"@, "{lyrics}"@, text);
    assert(is_placeholder("{lyrics_upper}"@));
    assert("{lyrics_upper}"@.len() != "{lyrics_lower_letters_only}"@.len());
    lemma_replace_other_placeholder("{lyrics_lower_letters_only}"@, "{lyrics_upper}"@, uppercase(text));
    assert(is_placeholder("{lyrics_lower}"@));
    assert("{lyrics_lower}"@.len() != "{lyrics_lower_letters_only}"@.len());
    lemma_replace_other_placeholder("{lyrics_lower_letters_only}"@, "{lyrics_lower}"@, lowercase(text));
    assert(is_placeholder("{lyrics_letters_only}"@));
    assert("{lyrics_letters_only}"@.len() != "{lyrics_lower_letters_only}"@.len());
    lemma_replace_other_placeholder("{lyrics_lower_letters_only}"@, "{lyrics_letters_only}"@, letters_only_spec(text));
    assert(is_placeholder("{lyrics_upper_letters_only}"@));
    assert("{lyrics_upper_letters_only}"@[8] != "{lyrics_lower_letters_only}"@[8]);
    lemma_replace_other_placeholder("{lyrics_lower_letters_only}"@, "{lyrics_upper_letters_only}"@, letters_only_spec(uppercase(text)));
    lemma_replace_whole("{lyrics_lower_letters_only}"@, letters_only_spec(lowercase(text)));
    lemma_replace_in_braceless(letters_only_spec(lowercase(text)), "{timestamp}"@, status_timestamp(line));
    lemma_replace_in_braceless(letters_only_spec(lowercase(text)), "{song_name}"@, name);
    lemma_replace_in_braceless(letters_only_spec(lowercase(text)), "{song_name_upper}"@, uppercase(name));
    lemma_replace_in_braceless(letters_only_spec(lowercase(text)), "{song_name_lower}"@, lowercase(name));
    lemma_replace_in_braceless(letters_only_spec(lowercase(text)), "{song_name_cropped}"@, crop(name));
    lemma_replace_in_braceless(letters_only_spec(lowercase(text)), "{song_name_upper_cropped}"@, crop(uppercase(name)));
    lemma_replace_in_braceless(letters_only_spec(lowercase(text)), "{song_name_lower_cropped}"@, crop(lowercase(name)));
    lemma_replace_in_braceless(letters_only_spec(lowercase(text)), "{song_author}"@, author);
    lemma_replace_in_braceless(letters_only_spec(lowercase(text)), "{song_author_upper}"@, uppercase(author));
    lemma_replace_in_braceless(letters_only_spec(lowercase(text)), "{song_author_lower}"@, lowercase(author));
}

/// The template `{timestamp}` alone becomes its value.
proof fn lemma_fill_timestamp(state: PlaybackState, line: LineView)
    requires
        true,
    ensures
        fill_template("{timestamp}"@, state, line) == status_timestamp(line),
{
    lemma_timestamp_braceless(line);
    reveal_strlit("{lyrics}");
    reveal_strlit("{lyrics_upper}");
    reveal_strlit("{lyrics_lower}");
    reveal_strlit("{lyrics_letters_only}");
    reveal_strlit("{lyrics_upper_letters_only}");
    reveal_strlit("{lyrics_lower_letters_only}");
    reveal_strlit("{timestamp}");
    reveal_strlit("{song_name}");
    reveal_strlit("{song_name_upper}");
    reveal_strlit("{song_name_lower}");
    reveal_strlit("{song_name_cropped}");
    reveal_strlit("{song_name_upper_cropped}");
    reveal_strlit("{song_name_lower_cropped}");
    reveal_strlit("{song_author}");
    reveal_strlit("{song_author_upper}");
    reveal_strlit("{song_author_lower}");
    let text = line.text;
    let name = state.song_name@;
    let author = state.song_author@;
    assert(is_placeholder("{timestamp}"@));
    assert(is_placeholder("{lyrics}"@));
    assert("{lyrics}"@.len() != "{timestamp}"@.len());
    lemma_replace_other_placeholder("{timestamp}"@, "{lyrics}"@, text);
    assert(is_placeholder("{lyrics_upper}"@));
    assert("{lyrics_upper}"@.len() != "{timestamp}"@.len());
    lemma_replace_other_placeholder("{timestamp}"@, "{lyrics_upper}"@, uppercase(text));
    assert(is_placeholder("{lyrics_lower}"@));
    assert("{lyrics_lower}"@.len() != "{timestamp}"@.len());
    lemma_replace_other_placeholder("{timestamp}"@, "{lyrics_lower}"@, lowercase(text));
    assert(is_placeholder("{lyrics_letters_only}"@));
    assert("{lyrics_letters_only}"@.len() != "{timestamp}"@.len());
    lemma_replace_other_placeholder("{timestamp}"@, "{lyrics_letters_only}"@, letters_only_spec(text));
    assert(is_placeholder("{lyrics_upper_letters_only}"@));
    assert("{lyrics_upper_letters_only}"@.len() != "{timestamp}"@.len());
    lemma_replace_other_placeholder("{timestamp}"@, "{lyrics_upper_letters_only}"@, letters_only_spec(uppercase(text)));
    assert(is_placeholder("{lyrics_lower_letters_only}"@));
    assert("{lyrics_lower_letters_only}"@.len() != "{timestamp}"@.len());
    lemma_replace_other_placeholder("{timestamp}"@, "{lyrics_lower_letters_only}"@, letters_only_spec(lowercase(text)));
    lemma_replace_whole("{timestamp}"@, status_timestamp(line));
    lemma_replace_in_braceless(status_timestamp(line), "{song_name}"@, name);
    lemma_replace_in_braceless(status_timestamp(line), "{song_name_upper}"@, uppercase(name));
    lemma_replace_in_braceless(status_timestamp(line), "{song_name_lower}"@, lowercase(name));
    lemma_replace_in_braceless(status_timestamp(line), "{song_name_cropped}"@, crop(name));
    lemma_replace_in_braceless(status_timestamp(line), "{song_name_upper_cropped}"@, crop(uppercase(name)));
    lemma_replace_in_braceless(status_timestamp(line), "{song_name_lower_cropped}"@, crop(lowercase(name)));
    lemma_replace_in_braceless(status_timestamp(line), "{song_author}"@, author);
    lemma_replace_in_braceless(status_timestamp(line), "{song_author_upper}"@, uppercase(author));
    lemma_replace_in_braceless(status_timestamp(line), "{song_author_lower}"@, lowercase(author));
}

/// The template `{song_name}` alone becomes its value.
proof fn lemma_fill_song_name(state: PlaybackState, line: LineView)
    requires
        no_open_brace(state.song_name@),
    ensures
        fill_template("{song_name}"@, state, line) == state.song_name@,
{
    reveal_strlit("{lyrics}");
    reveal_strlit("{lyrics_upper}");
    reveal_strlit("{lyrics_lower}");
    reveal_strlit("{lyrics_letters_only}");
    reveal_strlit("{lyrics_upper_letters_only}");
    reveal_strlit("{lyrics_lower_letters_only}");
    reveal_strlit("{timestamp}");
    reveal_strlit("{song_name}");
    reveal_strlit("{song_name_upper}");
    reveal_strlit("{song_name_lower}");
    reveal_strlit("{song_name_cropped}");
    reveal_strlit("{song_name_upper_cropped}");
    reveal_strlit("{song_name_lower_cropped}");
    reveal_strlit("{song_author}");
    reveal_strlit("{song_author_upper}");
    reveal_strlit("{song_author_lower}");
    let text = line.text;
    let name = state.song_name@;
    let author = state.song_author@;
    assert(is_placeholder("{song_name}"@));
    assert(is_placeholder("{lyrics}"@));
    assert("{lyrics}"@.len() != "{song_name}"@.len());
    lemma_replace_other_placeholder("{song_name}"@, "{lyrics}"@, text);
    assert(is_placeholder("{lyrics_upper}"@));
    assert("{lyrics_upper}"@.len() != "{song_name}"@.len());
    lemma_replace_other_placeholder("{song_name}"@, "{lyrics_upper}"@, uppercase(text));
    assert(is_placeholder("{lyrics_lower}"@));
    assert("{lyrics_lower}"@.len() != "{song_name}"@.len());
    lemma_replace_other_placeholder("{song_name}"@, "{lyrics_lower}"@, lowercase(text));
    assert(is_placeholder("{lyrics_letters_only}"@));
    assert("{lyrics_letters_only}"@.len() != "{song_name}"@.len());
    lemma_replace_other_placeholder("{song_name}"@, "{lyrics_letters_only}"@, letters_only_spec(text));
    assert(is_placeholder("{lyrics_upper_letters_only}"@));
    assert("{lyrics_upper_letters_only}"@.len() != "{song_name}"@.len());
    lemma_replace_other_placeholder("{song_name}"@, "{lyrics_upper_letters_only}"@, letters_only_spec(uppercase(text)));
    assert(is_placeholder("{lyrics_lower_letters_only}"@));
    assert("{lyrics_lower_letters_only}"@.len() != "{song_name}"@.len());
    lemma_replace_other_placeholder("{song_name}"@, "{lyrics_lower_letters_only}"@, letters_only_spec(lowercase(text)));
    assert(is_placeholder("{timestamp}"@));
    assert("{timestamp}"@[1] != "{song_name}"@[1]);
    lemma_replace_other_placeholder("{song_name}"@, "{timestamp}"@, status_timestamp(line));
    lemma_replace_whole("{song_name}"@, name);
    lemma_replace_in_braceless(name, "{song_name_upper}"@, uppercase(name));
    lemma_replace_in_braceless(name, "{song_name_lower}"@, lowercase(name));
    lemma_replace_in_braceless(name, "{song_name_cropped}"@, crop(name));
    lemma_replace_in_braceless(name, "{song_name_upper_cropped}"@, crop(uppercase(name)));
    lemma_replace_in_braceless(name, "{song_name_lower_cropped}"@, crop(lowercase(name)));
    lemma_replace_in_braceless(name, "{song_author}"@, author);
    lemma_replace_in_braceless(name, "{song_author_upper}"@, uppercase(author));
    lemma_replace_in_braceless(name, "{song_author_lower}"@, lowercase(author));
}

/// The template `{song_name_upper}` alone becomes its value.
proof fn lemma_fill_song_name_upper(state: PlaybackState, line: LineView)
    requires
        no_open_brace(uppercase(state.song_name@)),
    ensures
        fill_template("{song_name_upper}"@, state, line) == uppercase(state.song_name@),
{
    reveal_strlit("{lyrics}");
    reveal_strlit("{lyrics_upper}");
    reveal_strlit("{lyrics_lower}");
    reveal_strlit("{lyrics_letters_only}");
    reveal_strlit("{lyrics_upper_letters_only}");
    reveal_strlit("{lyrics_lower_letters_only}");
    reveal_strlit("{timestamp}");
    reveal_strlit("{song_name}");
    reveal_strlit("{song_name_upper}");
    reveal_strlit("{song_name_lower}");
    reveal_strlit("{song_name_cropped}");
    reveal_strlit("{song_name_upper_cropped}");
    reveal_strlit("{song_name_lower_cropped}");
    reveal_strlit("{song_author}");
    reveal_strlit("{song_author_upper}");
    reveal_strlit("{song_author_lower}");
    let text = line.text;
    let name = state.song_name@;
    let author = state.song_author@;
    assert(is_placeholder("{song_name_upper}"@));
    assert(is_placeholder("{lyrics}"@));
    assert("{lyrics}"@.len() != "{song_name_upper}"@.len());
    lemma_replace_other_placeholder("{song_name_upper}"@, "{lyrics}"@, text);
    assert(is_placeholder("{lyrics_upper}"@));
    assert("{lyrics_upper}"@.len() != "{song_name_upper}"@.len());
    lemma_replace_other_placeholder("{song_name_upper}"@, "{lyrics_upper}"@, uppercase(text));
    assert(is_placeholder("{lyrics_lower}"@));
    assert("{lyrics_lower}"@.len() != "{song_name_upper}"@.len());
    lemma_replace_other_placeholder("{song_name_upper}"@, "{lyrics_lower}"@, lowercase(text));
    assert(is_placeholder("{lyrics_letters_only}"@));
    assert("{lyrics_letters_only}"@.len() != "{song_name_upper}"@.len());
    lemma_replace_other_placeholder("{song_name_upper}"@, "{lyrics_letters_only}"@, letters_only_spec(text));
    assert(is_placeholder("{lyrics_upper_letters_only}"@));
    assert("{lyrics_upper_letters_only}"@.len() != "{song_name_upper}"@.len());
    lemma_replace_other_placeholder("{song_name_upper}"@, "{lyrics_upper_letters_only}"@, letters_only_spec(uppercase(text)));
    assert(is_placeholder("{lyrics_lower_letters_only}"@));
    assert("{lyrics_lower_letters_only}"@.len() != "{song_name_upper}"@.len());
    lemma_replace_other_placeholder("{song_name_upper}"@, "{lyrics_lower_letters_only}"@, letters_only_spec(lowercase(text)));
    assert(is_placeholder("{timestamp}"@));
    assert("{timestamp}"@.len() != "{song_name_upper}"@.len());
    lemma_replace_other_placeholder("{song_name_upper}"@, "{timestamp}"@, status_timestamp(line));
    assert(is_placeholder("{song_name}"@));
    assert("{song_name}"@.len() != "{song_name_upper}"@.len());
    lemma_replace_other_placeholder("{song_name_upper}"@, "{song_name}"@, name);
    lemma_replace_whole("{song_name_upper}"@, uppercase(name));
    lemma_replace_in_braceless(uppercase(name), "{song_name_lower}"@, lowercase(name));
    lemma_replace_in_braceless(uppercase(name), "{song_name_cropped}"@, crop(name));
    lemma_replace_in_braceless(uppercase(name), "{song_name_upper_cropped}"@, crop(uppercase(name)));
    lemma_replace_in_braceless(uppercase(name), "{song_name_lower_cropped}"@, crop(lowercase(name)));
    lemma_replace_in_braceless(uppercase(name), "{song_author}"@, author);
    lemma_replace_in_braceless(uppercase(name), "{song_author_upper}"@, uppercase(author));
    lemma_replace_in_braceless(uppercase(name), "{song_author_lower}"@, lowercase(author));
}

/// The template `{song_name_lower}` alone becomes its value.
proof fn lemma_fill_song_name_lower(state: PlaybackState, line: LineView)
    requires
        no_open_brace(lowercase(state.song_name@)),
    ensures
        fill_template("{song_name_lower}"@, state, line) == lowercase(state.song_name@),
{
    reveal_strlit("{lyrics}");
    reveal_strlit("{lyrics_upper}");
    reveal_strlit("{lyrics_lower}");
    reveal_strlit("{lyrics_letters_only}");
    reveal_strlit("{lyrics_upper_letters_only}");
    reveal_strlit("{lyrics_lower_letters_only}");
    reveal_strlit("{timestamp}");
    reveal_strlit("{song_name}");
    reveal_strlit("{song_name_upper}");
    reveal_strlit("{song_name_lower}");
    reveal_strlit("{song_name_cropped}");
    reveal_strlit("{song_name_upper_cropped}");
    reveal_strlit("{song_name_lower_cropped}");
    reveal_strlit("{song_author}");
    reveal_strlit("{song_author_upper}");
    reveal_strlit("{song_author_lower}");
    let text = line.text;
    let name = state.song_name@;
    let author = state.song_author@;
    assert(is_placeholder("{song_name_lower}"@));
    assert(is_placeholder("{lyrics}"@));
    assert("{lyrics}"@.len() != "{song_name_lower}"@.len());
    lemma_replace_other_placeholder("{song_name_lower}"@, "{lyrics}"@, text);
    assert(is_placeholder("{lyrics_upper}"@));
    assert("{lyrics_upper}"@.len() != "{song_name_lower}"@.len());
    lemma_replace_other_placeholder("{song_name_lower}"@, "{lyrics_upper}"@, uppercase(text));
    assert(is_placeholder("{lyrics_lower}"@));
    assert("{lyrics_lower}"@.len() != "{song_name_lower}"@.len());
    lemma_replace_other_placeholder("{song_name_lower}"@, "{lyrics_lower}"@, lowercase(text));
    assert(is_placeholder("{lyrics_letters_only}"@));
    assert("{lyrics_letters_only}"@.len() != "{song_name_lower}"@.len());
    lemma_replace_other_placeholder("{song_name_lower}"@, "{lyrics_letters_only}"@, letters_only_spec(text));
    assert(is_placeholder("{lyrics_upper_letters_only}"@));
    assert("{lyrics_upper_letters_only}"@.len() != "{song_name_lower}"@.len());
    lemma_replace_other_placeholder("{song_name_lower}"@, "{lyrics_upper_letters_only}"@, letters_only_spec(uppercase(text)));
    assert(is_placeholder("{lyrics_lower_letters_only}"@));
    assert("{lyrics_lower_letters_only}"@.len() != "{song_name_lower}"@.len());
    lemma_replace_other_placeholder("{song_name_lower}"@, "{lyrics_lower_letters_only}"@, letters_only_spec(lowercase(text)));
    assert(is_placeholder("{timestamp}"@));
    assert("{timestamp}"@.len() != "{song_name_lower}"@.len());
    lemma_replace_other_placeholder("{song_name_lower}"@, "{timestamp}"@, status_timestamp(line));
    assert(is_placeholder("{song_name}"@));
    assert("{song_name}"@.len() != "{song_name_lower}"@.len());
    lemma_replace_other_placeholder("{song_name_lower}"@, "{song_name}"@, name);
    assert(is_placeholder("{song_name_upper}"@));
    assert("{song_name_upper}"@[11] != "{song_name_lower}"@[11]);
    lemma_replace_other_placeholder("{song_name_lower}"@, "{song_name_upper}"@, uppercase(name));
    lemma_replace_whole("{song_name_lower}"@, lowercase(name));
    lemma_replace_in_braceless(lowercase(name), "{song_name_cropped}"@, crop(name));
    lemma_replace_in_braceless(lowercase(name), "{song_name_upper_cropped}"@, crop(uppercase(name)));
    lemma_replace_in_braceless(lowercase(name), "{song_name_lower_cropped}"@, crop(lowercase(name)));
    lemma_replace_in_braceless(lowercase(name), "{song_author}"@, author);
    lemma_replace_in_braceless(lowercase(name), "{song_author_upper}"@, uppercase(author));
    lemma_replace_in_braceless(lowercase(name), "{song_author_lower}"@, lowercase(author));
}

/// The template `{song_name_cropped}` alone becomes its value.
proof fn lemma_fill_song_name_cropped(state: PlaybackState, line: LineView)
    requires
        no_open_brace(crop(state.song_name@)),
    ensures
        fill_template("{song_name_cropped}"@, state, line) == crop(state.song_name@),
{
    reveal_strlit("{lyrics}");
    reveal_strlit("{lyrics_upper}");
    reveal_strlit("{lyrics_lower}");
    reveal_strlit("{lyrics_letters_only}");
    reveal_strlit("{lyrics_upper_letters_only}");
    reveal_strlit("{lyrics_lower_letters_only}");
    reveal_strlit("{timestamp}");
    reveal_strlit("{song_name}");
    reveal_strlit("{song_name_upper}");
    reveal_strlit("{song_name_lower}");
    reveal_strlit("{song_name_cropped}");
    reveal_strlit("{song_name_upper_cropped}");
    reveal_strlit("{song_name_lower_cropped}");
    reveal_strlit("{song_author}");
    reveal_strlit("{song_author_upper}");
    reveal_strlit("{song_author_lower}");
    let text = line.text;
    let name = state.song_name@;
    let author = state.song_author@;
    assert(is_placeholder("{song_name_cropped}"@));
    assert(is_placeholder("{lyrics}"@));
    assert("{lyrics}"@.len() != "{song_name_cropped}"@.len());
    lemma_replace_other_placeholder("{song_name_cropped}"@, "{lyrics}"@, text);
    assert(is_placeholder("{lyrics_upper}"@));
    assert("{lyrics_upper}"@.len() != "{song_name_cropped}"@.len());
    lemma_replace_other_placeholder("{song_name_cropped}"@, "{lyrics_upper}"@, uppercase(text));
    assert(is_placeholder("{lyrics_lower}"@));
    assert("{lyrics_lower}"@.len() != "{song_name_cropped}"@.len());
    lemma_replace_other_placeholder("{song_name_cropped}"@, "{lyrics_lower}"@, lowercase(text));
    assert(is_placeholder("{lyrics_letters_only}"@));
    assert("{lyrics_letters_only}"@.len() != "{song_name_cropped}"@.len());
    lemma_replace_other_placeholder("{song_name_cropped}"@, "{lyrics_letters_only}"@, letters_only_spec(text));
    assert(is_placeholder("{lyrics_upper_letters_only}"@));
    assert("{lyrics_upper_letters_only}"@.len() != "{song_name_cropped}"@.len());
    lemma_replace_other_placeholder("{song_name_cropped}"@, "{lyrics_upper_letters_only}"@, letters_only_spec(uppercase(text)));
    assert(is_placeholder("{lyrics_lower_letters_only}"@));
    assert("{lyrics_lower_letters_only}"@.len() != "{song_name_cropped}"@.len());
    lemma_replace_other_placeholder("{song_name_cropped}"@, "{lyrics_lower_letters_only}"@, letters_only_spec(lowercase(text)));
    assert(is_placeholder("{timestamp}"@));
    assert("{timestamp}"@.len() != "{song_name_cropped}"@.len());
    lemma_replace_other_placeholder("{song_name_cropped}"@, "{timestamp}"@, status_timestamp(line));
    assert(is_placeholder("{song_name}"@));
    assert("{song_name}"@.len() != "{song_name_cropped}"@.len());
    lemma_replace_other_placeholder("{song_name_cropped}"@, "{song_name}"@, name);
    assert(is_placeholder("{song_name_upper}"@));
    assert("{song_name_upper}"@.len() != "{song_name_cropped}"@.len());
    lemma_replace_other_placeholder("{song_name_cropped}"@, "{song_name_upper}"@, uppercase(name));
    assert(is_placeholder("{song_name_lower}"@));
    assert("{song_name_lower}"@.len() != "{song_name_cropped}"@.len());
    lemma_replace_other_placeholder("{song_name_cropped}"@, "{song_name_lower}"@, lowercase(name));
    lemma_replace_whole("{song_name_cropped}"@, crop(name));
    lemma_replace_in_braceless(crop(name), "{song_name_upper_cropped}"@, crop(uppercase(name)));
    lemma_replace_in_braceless(crop(name), "{song_name_lower_cropped}"@, crop(lowercase(name)));
    lemma_replace_in_braceless(crop(name), "{song_author}"@, author);
    lemma_replace_in_braceless(crop(name), "{song_author_upper}"@, uppercase(author));
    lemma_replace_in_braceless(crop(name), "{song_author_lower}"@, lowercase(author));
}

/// The template `{song_name_upper_cropped}` alone becomes its value.
proof fn lemma_fill_song_name_upper_cropped(state: PlaybackState, line: LineView)
    requires
        no_open_brace(crop(uppercase(state.song_name@))),
    ensures
        fill_template("{song_name_upper_cropped}"@, state, line) == crop(uppercase(state.song_name@)),
{
    reveal_strlit("{lyrics}");
    reveal_strlit("{lyrics_upper}");
    reveal_strlit("{lyrics_lower}");
    reveal_strlit("{lyrics_letters_only}");
    reveal_strlit("{lyrics_upper_letters_only}");
    reveal_strlit("{lyrics_lower_letters_only}");
    reveal_strlit("{timestamp}");
    reveal_strlit("{song_name}");
    reveal_strlit("{song_name_upper}");
    reveal_strlit("{song_name_lower}");
    reveal_strlit("{song_name_cropped}");
    reveal_strlit("{song_name_upper_cropped}");
    reveal_strlit("{song_name_lower_cropped}");
    reveal_strlit("{song_author}");
    reveal_strlit("{song_author_upper}");
    reveal_strlit("{song_author_lower}");
    let text = line.text;
    let name = state.song_name@;
    let author = state.song_author@;
    assert(is_placeholder("{song_name_upper_cropped}"@));
    assert(is_placeholder("{lyrics}"@));
    assert("{lyrics}"@.len() != "{song_name_upper_cropped}"@.len());
    lemma_replace_other_placeholder("{song_name_upper_cropped}"@, "{lyrics}"@, text);
    assert(is_placeholder("{lyrics_upper}"@));
    assert("{lyrics_upper}"@.len() != "{song_name_upper_cropped}"@.len());
    lemma_replace_other_placeholder("{song_name_upper_cropped}"@, "{lyrics_upper}"@, uppercase(text));
    assert(is_placeholder("{lyrics_lower}"@));
    assert("{lyrics_lower}"@.len() != "{song_name_upper_cropped}"@.len());
    lemma_replace_other_placeholder("{song_name_upper_cropped}"@, "{lyrics_lower}"@, lowercase(text));
    assert(is_placeholder("{lyrics_letters_only}"@));
    assert("{lyrics_letters_only}"@.len() != "{song_name_upper_cropped}"@.len());
    lemma_replace_other_placeholder("{song_name_upper_cropped}"@, "{lyrics_letters_only}"@, letters_only_spec(text));
    assert(is_placeholder("{lyrics_upper_letters_only}"@));
    assert("{lyrics_upper_letters_only}"@.len() != "{song_name_upper_cropped}"@.len());
    lemma_replace_other_placeholder("{song_name_upper_cropped}"@, "{lyrics_upper_letters_only}"@, letters_only_spec(uppercase(text)));
    assert(is_placeholder("{lyrics_lower_letters_only}"@));
    assert("{lyrics_lower_letters_only}"@.len() != "{song_name_upper_cropped}"@.len());
    lemma_replace_other_placeholder("{song_name_upper_cropped}"@, "{lyrics_lower_letters_only}"@, letters_only_spec(lowercase(text)));
    assert(is_placeholder("{timestamp}"@));
    assert("{timestamp}"@.len() != "{song_name_upper_cropped}"@.len());
    lemma_replace_other_placeholder("{song_name_upper_cropped}"@, "{timestamp}"@, status_timestamp(line));
    assert(is_placeholder("{song_name}"@));
    assert("{song_name}"@.len() != "{song_name_upper_cropped}"@.len());
    lemma_replace_other_placeholder("{song_name_upper_cropped}"@, "{song_name}"@, name);
    assert(is_placeholder("{song_name_upper}"@));
    assert("{song_name_upper}"@.len() != "{song_name_upper_cropped}"@.len());
    lemma_replace_other_placeholder("{song_name_upper_cropped}"@, "{song_name_upper}"@, uppercase(name));
    assert(is_placeholder("{song_name_lower}"@));
    assert("{song_name_lower}"@.len() != "{song_name_upper_cropped}"@.len());
    lemma_replace_other_placeholder("{song_name_upper_cropped}"@, "{song_name_lower}"@, lowercase(name));
    assert(is_placeholder("{song_name_cropped}"@));
    assert("{song_name_cropped}"@.len() != "{song_name_upper_cropped}"@.len());
    lemma_replace_other_placeholder("{song_name_upper_cropped}"@, "{song_name_cropped}"@, crop(name));
    lemma_replace_whole("{song_name_upper_cropped}"@, crop(uppercase(name)));
    lemma_replace_in_braceless(crop(uppercase(name)), "{song_name_lower_cropped}"@, crop(lowercase(name)));
    lemma_replace_in_braceless(crop(uppercase(name)), "{song_author}"@, author);
    lemma_replace_in_braceless(crop(uppercase(name)), "{song_author_upper}"@, uppercase(author));
    lemma_replace_in_braceless(crop(uppercase(name)), "{song_author_lower}"@, lowercase(author));
}

/// The template `{song_name_lower_cropped}` alone becomes its value.
proof fn lemma_fill_song_name_lower_cropped(state: PlaybackState, line: LineView)
    requires
        no_open_brace(crop(lowercase(state.song_name@))),
    ensures
        fill_template("{song_name_lower_cropped}"@, state, line) == crop(lowercase(state.song_name@)),
{
    reveal_strlit("{lyrics}");
    reveal_strlit("{lyrics_upper}");
    reveal_strlit("{lyrics_lower}");
    reveal_strlit("{lyrics_letters_only}");
    reveal_strlit("{lyrics_upper_letters_only}");
    reveal_strlit("{lyrics_lower_letters_only}");
    reveal_strlit("{timestamp}");
    reveal_strlit("{song_name}");
    reveal_strlit("{song_name_upper}");
    reveal_strlit("{song_name_lower}");
    reveal_strlit("{song_name_cropped}");
    reveal_strlit("{song_name_upper_cropped}");
    reveal_strlit("{song_name_lower_cropped}");
    reveal_strlit("{song_author}");
    reveal_strlit("{song_author_upper}");
    reveal_strlit("{song_author_lower}");
    let text = line.text;
    let name = state.song_name@;
    let author = state.song_author@;
    assert(is_placeholder("{song_name_lower_cropped}"@));
    assert(is_placeholder("{lyrics}"@));
    assert("{lyrics}"@.len() != "{song_name_lower_cropped}"@.len());
    lemma_replace_other_placeholder("{song_name_lower_cropped}"@, "{lyrics}"@, text);
    assert(is_placeholder("{lyrics_upper}"@));
    assert("{lyrics_upper}"@.len() != "{song_name_lower_cropped}"@.len());
    lemma_replace_other_placeholder("{song_name_lower_cropped}"@, "{lyrics_upper}"@, uppercase(text));
    assert(is_placeholder("{lyrics_lower}"@));
    assert("{lyrics_lower}"@.len() != "{song_name_lower_cropped}"@.len());
    lemma_replace_other_placeholder("{song_name_lower_cropped}"@, "{lyrics_lower}"@, lowercase(text));
    assert(is_placeholder("{lyrics_letters_only}"@));
    assert("{lyrics_letters_only}"@.len() != "{song_name_lower_cropped}"@.len());
    lemma_replace_other_placeholder("{song_name_lower_cropped}"@, "{lyrics_letters_only}"@, letters_only_spec(text));
    assert(is_placeholder("{lyrics_upper_letters_only}"@));
    assert("{lyrics_upper_letters_only}"@.len() != "{song_name_lower_cropped}"@.len());
    lemma_replace_other_placeholder("{song_name_lower_cropped}"@, "{lyrics_upper_letters_only}"@, letters_only_spec(uppercase(text)));
    assert(is_placeholder("{lyrics_lower_letters_only}"@));
    assert("{lyrics_lower_letters_only}"@.len() != "{song_name_lower_cropped}"@.len());
    lemma_replace_other_placeholder("{song_name_lower_cropped}"@, "{lyrics_lower_letters_only}"@, letters_only_spec(lowercase(text)));
    assert(is_placeholder("{timestamp}"@));
    assert("{timestamp}"@.len() != "{song_name_lower_cropped}"@.len());
    lemma_replace_other_placeholder("{song_name_lower_cropped}"@, "{timestamp}"@, status_timestamp(line));
    assert(is_placeholder("{song_name}"@));
    assert("{song_name}"@.len() != "{song_name_lower_cropped}"@.len());
    lemma_replace_other_placeholder("{song_name_lower_cropped}"@, "{song_name}"@, name);
    assert(is_placeholder("{song_name_upper}"@));
    assert("{song_name_upper}"@.len() != "{song_name_lower_cropped}"@.len());
    lemma_replace_other_placeholder("{song_name_lower_cropped}"@, "{song_name_upper}"@, uppercase(name));
    assert(is_placeholder("{song_name_lower}"@));
    assert("{song_name_lower}"@.len() != "{song_name_lower_cropped}"@.len());
    lemma_replace_other_placeholder("{song_name_lower_cropped}"@, "{song_name_lower}"@, lowercase(name));
    assert(is_placeholder("{song_name_cropped}"@));
    assert("{song_name_cropped}"@.len() != "{song_name_lower_cropped}"@.len());
    lemma_replace_other_placeholder("{song_name_lower_cropped}"@, "{song_name_cropped}"@, crop(name));
    assert(is_placeholder("{song_name_upper_cropped}"@));
    assert("{song_name_upper_cropped}"@[11] != "{song_name_lower_cropped}"@[11]);
    lemma_replace_other_placeholder("{song_name_lower_cropped}"@, "{song_name_upper_cropped}"@, crop(uppercase(name)));
    lemma_replace_whole("{song_name_lower_cropped}"@, crop(lowercase(name)));
    lemma_replace_in_braceless(crop(lowercase(name)), "{song_author}"@, author);
    lemma_replace_in_braceless(crop(lowercase(name)), "{song_author_upper}"@, uppercase(author));
    lemma_replace_in_braceless(crop(lowercase(name)), "{song_author_lower}"@, lowercase(author));
}

/// The template `{song_author}` alone becomes its value.
proof fn lemma_fill_song_author(state: PlaybackState, line: LineView)
    requires
        no_open_brace(state.song_author@),
    ensures
        fill_template("{song_author}"@, state, line) == state.song_author@,
{
    reveal_strlit("{lyrics}");
    reveal_strlit("{lyrics_upper}");
    reveal_strlit("{lyrics_lower}");
    reveal_strlit("{lyrics_letters_only}");
    reveal_strlit("{lyrics_upper_letters_only}");
    reveal_strlit("{lyrics_lower_letters_only}");
    reveal_strlit("{timestamp}");
    reveal_strlit("{song_name}");
    reveal_strlit("{song_name_upper}");
    reveal_strlit("{song_name_lower}");
    reveal_strlit("{song_name_cropped}");
    reveal_strlit("{song_name_upper_cropped}");
    reveal_strlit("{song_name_lower_cropped}");
    reveal_strlit("{song_author}");
    reveal_strlit("{song_author_upper}");
    reveal_strlit("{song_author_lower}");
    let text = line.text;
    let name = state.song_name@;
    let author = state.song_author@;
    assert(is_placeholder("{song_author}"@));
    assert(is_placeholder("{lyrics}"@));
    assert("{lyrics}"@.len() != "{song_author}"@.len());
    lemma_replace_other_placeholder("{song_author}"@, "{lyrics}"@, text);
    assert(is_placeholder("{lyrics_upper}"@));
    assert("{lyrics_upper}"@.len() != "{song_author}"@.len());
    lemma_replace_other_placeholder("{song_author}"@, "{lyrics_upper}"@, uppercase(text));
    assert(is_placeholder("{lyrics_lower}"@));
    assert("{lyrics_lower}"@.len() != "{song_author}"@.len());
    lemma_replace_other_placeholder("{song_author}"@, "{lyrics_lower}"@, lowercase(text));
    assert(is_placeholder("{lyrics_letters_only}"@));
    assert("{lyrics_letters_only}"@.len() != "{song_author}"@.len());
    lemma_replace_other_placeholder("{song_author}"@, "{lyrics_letters_only}"@, letters_only_spec(text));
    assert(is_placeholder("{lyrics_upper_letters_only}"@));
    assert("{lyrics_upper_letters_only}"@.len() != "{song_author}"@.len());
    lemma_replace_other_placeholder("{song_author}"@, "{lyrics_upper_letters_only}"@, letters_only_spec(uppercase(text)));
    assert(is_placeholder("{lyrics_lower_letters_only}"@));
    assert("{lyrics_lower_letters_only}"@.len() != "{song_author}"@.len());
    lemma_replace_other_placeholder("{song_author}"@, "{lyrics_lower_letters_only}"@, letters_only_spec(lowercase(text)));
    assert(is_placeholder("{timestamp}"@));
    assert("{timestamp}"@.len() != "{song_author}"@.len());
    lemma_replace_other_placeholder("{song_author}"@, "{timestamp}"@, status_timestamp(line));
    assert(is_placeholder("{song_name}"@));
    assert("{song_name}"@.len() != "{song_author}"@.len());
    lemma_replace_other_placeholder("{song_author}"@, "{song_name}"@, name);
    assert(is_placeholder("{song_name_upper}"@));
    assert("{song_name_upper}"@.len() != "{song_author}"@.len());
    lemma_replace_other_placeholder("{song_author}"@, "{song_name_upper}"@, uppercase(name));
    assert(is_placeholder("{song_name_lower}"@));
    assert("{song_name_lower}"@.len() != "{song_author}"@.len());
    lemma_replace_other_placeholder("{song_author}"@, "{song_name_lower}"@, lowercase(name));
    assert(is_placeholder("{song_name_cropped}"@));
    assert("{song_name_cropped}"@.len() != "{song_author}"@.len());
    lemma_replace_other_placeholder("{song_author}"@, "{song_name_cropped}"@, crop(name));
    assert(is_placeholder("{song_name_upper_cropped}"@));
    assert("{song_name_upper_cropped}"@.len() != "{song_author}"@.len());
    lemma_replace_other_placeholder("{song_author}"@, "{song_name_upper_cropped}"@, crop(uppercase(name)));
    assert(is_placeholder("{song_name_lower_cropped}"@));
    assert("{song_name_lower_cropped}"@.len() != "{song_author}"@.len());
    lemma_replace_other_placeholder("{song_author}"@, "{song_name_lower_cropped}"@, crop(lowercase(name)));
    lemma_replace_whole("{song_author}"@, author);
    lemma_replace_in_braceless(author, "{song_author_upper}"@, uppercase(author));
    lemma_replace_in_braceless(author, "{song_author_lower}"@, lowercase(author));
}

/// The template `{song_author_upper}` alone becomes its value.
proof fn lemma_fill_song_author_upper(state: PlaybackState, line: LineView)
    requires
        no_open_brace(uppercase(state.song_author@)),
    ensures
        fill_template("{song_author_upper}"@, state, line) == uppercase(state.song_author@),
{
    reveal_strlit("{lyrics}");
    reveal_strlit("{lyrics_upper}");
    reveal_strlit("{lyrics_lower}");
    reveal_strlit("{lyrics_letters_only}");
    reveal_strlit("{lyrics_upper_letters_only}");
    reveal_strlit("{lyrics_lower_letters_only}");
    reveal_strlit("{timestamp}");
    reveal_strlit("{song_name}");
    reveal_strlit("{song_name_upper}");
    reveal_strlit("{song_name_lower}");
    reveal_strlit("{song_name_cropped}");
    reveal_strlit("{song_name_upper_cropped}");
    reveal_strlit("{song_name_lower_cropped}");
    reveal_strlit("{song_author}");
    reveal_strlit("{song_author_upper}");
    reveal_strlit("{song_author_lower}");
    let text = line.text;
    let name = state.song_name@;
    let author = state.song_author@;
    assert(is_placeholder("{song_author_upper}"@));
    assert(is_placeholder("{lyrics}"@));
    assert("{lyrics}"@.len() != "{song_author_upper}"@.len());
    lemma_replace_other_placeholder("{song_author_upper}"@, "{lyrics}"@, text);
    assert(is_placeholder("{lyrics_upper}"@));
    assert("{lyrics_upper}"@.len() != "{song_author_upper}"@.len());
    lemma_replace_other_placeholder("{song_author_upper}"@, "{lyrics_upper}"@, uppercase(text));
    assert(is_placeholder("{lyrics_lower}"@));
    assert("{lyrics_lower}"@.len() != "{song_author_upper}"@.len());
    lemma_replace_other_placeholder("{song_author_upper}"@, "{lyrics_lower}"@, lowercase(text));
    assert(is_placeholder("{lyrics_letters_only}"@));
    assert("{lyrics_letters_only}"@.len() != "{song_author_upper}"@.len());
    lemma_replace_other_placeholder("{song_author_upper}"@, "{lyrics_letters_only}"@, letters_only_spec(text));
    assert(is_placeholder("{lyrics_upper_letters_only}"@));
    assert("{lyrics_upper_letters_only}"@.len() != "{song_author_upper}"@.len());
    lemma_replace_other_placeholder("{song_author_upper}"@, "{lyrics_upper_letters_only}"@, letters_only_spec(uppercase(text)));
    assert(is_placeholder("{lyrics_lower_letters_only}"@));
    assert("{lyrics_lower_letters_only}"@.len() != "{song_author_upper}"@.len());
    lemma_replace_other_placeholder("{song_author_upper}"@, "{lyrics_lower_letters_only}"@, letters_only_spec(lowercase(text)));
    assert(is_placeholder("{timestamp}"@));
    assert("{timestamp}"@.len() != "{song_author_upper}"@.len());
    lemma_replace_other_placeholder("{song_author_upper}"@, "{timestamp}"@, status_timestamp(line));
    assert(is_placeholder("{song_name}"@));
    assert("{song_name}"@.len() != "{song_author_upper}"@.len());
    lemma_replace_other_placeholder("{song_author_upper}"@, "{song_name}"@, name);
    assert(is_placeholder("{song_name_upper}"@));
    assert("{song_name_upper}"@.len() != "{song_author_upper}"@.len());
    lemma_replace_other_placeholder("{song_author_upper}"@, "{song_name_upper}"@, uppercase(name));
    assert(is_placeholder("{song_name_lower}"@));
    assert("{song_name_lower}"@.len() != "{song_author_upper}"@.len());
    lemma_replace_other_placeholder("{song_author_upper}"@, "{song_name_lower}"@, lowercase(name));
    assert(is_placeholder("{song_name_cropped}"@));
    assert("{song_name_cropped}"@[6] != "{song_author_upper}"@[6]);
    lemma_replace_other_placeholder("{song_author_upper}"@, "{song_name_cropped}"@, crop(name));
    assert(is_placeholder("{song_name_upper_cropped}"@));
    assert("{song_name_upper_cropped}"@.len() != "{song_author_upper}"@.len());
    lemma_replace_other_placeholder("{song_author_upper}"@, "{song_name_upper_cropped}"@, crop(uppercase(name)));
    assert(is_placeholder("{song_name_lower_cropped}"@));
    assert("{song_name_lower_cropped}"@.len() != "{song_author_upper}"@.len());
    lemma_replace_other_placeholder("{song_author_upper}"@, "{song_name_lower_cropped}"@, crop(lowercase(name)));
    assert(is_placeholder("{song_author}"@));
    assert("{song_author}"@.len() != "{song_author_upper}"@.len());
    lemma_replace_other_placeholder("{song_author_upper}"@, "{song_author}"@, author);
    lemma_replace_whole("{song_author_upper}"@, uppercase(author));
    lemma_replace_in_braceless(uppercase(author), "{song_author_lower}"@, lowercase(author));
}

/// The template `{song_author_lower}` alone becomes its value.
proof fn lemma_fill_song_author_lower(state: PlaybackState, line: LineView)
    requires
        no_open_brace(lowercase(state.song_author@)),
    ensures
        fill_template("{song_author_lower}"@, state, line) == lowercase(state.song_author@),
{
    reveal_strlit("{lyrics}");
    reveal_strlit("{lyrics_upper}");
    reveal_strlit("{lyrics_lower}");
    reveal_strlit("{lyrics_letters_only}");
    reveal_strlit("{lyrics_upper_letters_only}");
    reveal_strlit("{lyrics_lower_letters_only}");
    reveal_strlit("{timestamp}");
    reveal_strlit("{song_name}");
    reveal_strlit("{song_name_upper}");
    reveal_strlit("{song_name_lower}");
    reveal_strlit("{song_name_cropped}");
    reveal_strlit("{song_name_upper_cropped}");
    reveal_strlit("{song_name_lower_cropped}");
    reveal_strlit("{song_author}");
    reveal_strlit("{song_author_upper}");
    reveal_strlit("{song_author_lower}");
    let text = line.text;
    let name = state.song_name@;
    let author = state.song_author@;
    assert(is_placeholder("{song_author_lower}"@));
    assert(is_placeholder("{lyrics}"@));
    assert("{lyrics}"@.len() != "{song_author_lower}"@.len());
    lemma_replace_other_placeholder("{song_author_lower}"@, "{lyrics}"@, text);
    assert(is_placeholder("{lyrics_upper}"@));
    assert("{lyrics_upper}"@.len() != "{song_author_lower}"@.len());
    lemma_replace_other_placeholder("{song_author_lower}"@, "{lyrics_upper}"@, uppercase(text));
    assert(is_placeholder("{lyrics_lower}"@));
    assert("{lyrics_lower}"@.len() != "{song_author_lower}"@.len());
    lemma_replace_other_placeholder("{song_author_lower}"@, "{lyrics_lower}"@, lowercase(text));
    assert(is_placeholder("{lyrics_letters_only}"@));
    assert("{lyrics_letters_only}"@.len() != "{song_author_lower}"@.len());
    lemma_replace_other_placeholder("{song_author_lower}"@, "{lyrics_letters_only}"@, letters_only_spec(text));
    assert(is_placeholder("{lyrics_upper_letters_only}"@));
    assert("{lyrics_upper_letters_only}"@.len() != "{song_author_lower}"@.len());
    lemma_replace_other_placeholder("{song_author_lower}"@, "{lyrics_upper_letters_only}"@, letters_only_spec(uppercase(text)));
    assert(is_placeholder("{lyrics_lower_letters_only}"@));
    assert("{lyrics_lower_letters_only}"@.len() != "{song_author_lower}"@.len());
    lemma_replace_other_placeholder("{song_author_lower}"@, "{lyrics_lower_letters_only}"@, letters_only_spec(lowercase(text)));
    assert(is_placeholder("{timestamp}"@));
    assert("{timestamp}"@.len() != "{song_author_lower}"@.len());
    lemma_replace_other_placeholder("{song_author_lower}"@, "{timestamp}"@, status_timestamp(line));
    assert(is_placeholder("{song_name}"@));
    assert("{song_name}"@.len() != "{song_author_lower}"@.len());
    lemma_replace_other_placeholder("{song_author_lower}"@, "{song_name}"@, name);
    assert(is_placeholder("{song_name_upper}"@));
    assert("{song_name_upper}"@.len() != "{song_author_lower}"@.len());
    lemma_replace_other_placeholder("{song_author_lower}"@, "{song_name_upper}"@, uppercase(name));
    assert(is_placeholder("{song_name_lower}"@));
    assert("{song_name_lower}"@.len() != "{song_author_lower}"@.len());
    lemma_replace_other_placeholder("{song_author_lower}"@, "{song_name_lower}"@, lowercase(name));
    assert(is_placeholder("{song_name_cropped}"@));
    assert("{song_name_cropped}"@[6] != "{song_author_lower}"@[6]);
    lemma_replace_other_placeholder("{song_author_lower}"@, "{song_name_cropped}"@, crop(name));
    assert(is_placeholder("{song_name_upper_cropped}"@));
    assert("{song_name_upper_cropped}"@.len() != "{song_author_lower}"@.len());
    lemma_replace_other_placeholder("{song_author_lower}"@, "{song_name_upper_cropped}"@, crop(uppercase(name)));
    assert(is_placeholder("{song_name_lower_cropped}"@));
    assert("{song_name_lower_cropped}"@.len() != "{song_author_lower}"@.len());
    lemma_replace_other_placeholder("{song_author_lower}"@, "{song_name_lower_cropped}"@, crop(lowercase(name)));
    assert(is_placeholder("{song_author}"@));
    assert("{song_author}"@.len() != "{song_author_lower}"@.len());
    lemma_replace_other_placeholder("{song_author_lower}"@, "{song_author}"@, author);
    assert(is_placeholder("{song_author_upper}"@));
    assert("{song_author_upper}"@[13] != "{song_author_lower}"@[13]);
    lemma_replace_other_placeholder("{song_author_lower}"@, "{song_author_upper}"@, uppercase(author));
    lemma_replace_whole("{song_author_lower}"@, lowercase(author));
}

/// Each placeholder of the advanced template stands for its own value: a
/// template made of one placeholder gives that value (its first `♪` turned
/// into `🎶`, cut to `MAX_STATUS_LENGTH` characters), whenever the value holds
/// no `{` that a later placeholder could match. `{lyrics}` is the line,
/// `_upper` and `_lower` its case mappings, `_letters_only` without
/// punctuation, `{timestamp}` the rounded time, `{song_name}` and
/// `{song_author}` the track's, `_cropped` without tails and parentheses.
pub proof fn law_template_placeholder_values(state: PlaybackState, line: LineView, settings: Settings)
    ensures
        settings.view.advanced.enabled && settings.view.advanced.custom_status@ == "{lyrics}"@ && no_open_brace(line.text)
            ==> status_text(state, line, settings) == truncate_spec(with_notes(line.text)),
        settings.view.advanced.enabled && settings.view.advanced.custom_status@ == "{lyrics_upper}"@ && no_open_brace(uppercase(line.text))
            ==> status_text(state, line, settings) == truncate_spec(with_notes(uppercase(line.text))),
        settings.view.advanced.enabled && settings.view.advanced.custom_status@ == "{lyrics_lower}"@ && no_open_brace(lowercase(line.text))
            ==> status_text(state, line, settings) == truncate_spec(with_notes(lowercase(line.text))),
        settings.view.advanced.enabled && settings.view.advanced.custom_status@ == "{lyrics_letters_only}"@ && no_open_brace(letters_only_spec(line.text))
            ==> status_text(state, line, settings) == truncate_spec(with_notes(letters_only_spec(line.text))),
        settings.view.advanced.enabled && settings.view.advanced.custom_status@ == "{lyrics_upper_letters_only}"@ && no_open_brace(letters_only_spec(uppercase(line.text)))
            ==> status_text(state, line, settings) == truncate_spec(with_notes(letters_only_spec(uppercase(line.text)))),
        settings.view.advanced.enabled && settings.view.advanced.custom_status@ == "{lyrics_lower_letters_only}"@ && no_open_brace(letters_only_spec(lowercase(line.text)))
            ==> status_text(state, line, settings) == truncate_spec(with_notes(letters_only_spec(lowercase(line.text)))),
        settings.view.advanced.enabled && settings.view.advanced.custom_status@ == "{timestamp}"@
            ==> status_text(state, line, settings) == truncate_spec(with_notes(status_timestamp(line))),
        settings.view.advanced.enabled && settings.view.advanced.custom_status@ == "{song_name}"@ && no_open_brace(state.song_name@)
            ==> status_text(state, line, settings) == truncate_spec(with_notes(state.song_name@)),
        settings.view.advanced.enabled && settings.view.advanced.custom_status@ == "{song_name_upper}"@ && no_open_brace(uppercase(state.song_name@))
            ==> status_text(state, line, settings) == truncate_spec(with_notes(uppercase(state.song_name@))),
        settings.view.advanced.enabled && settings.view.advanced.custom_status@ == "{song_name_lower}"@ && no_open_brace(lowercase(state.song_name@))
            ==> status_text(state, line, settings) == truncate_spec(with_notes(lowercase(state.song_name@))),
        settings.view.advanced.enabled && settings.view.advanced.custom_status@ == "{song_name_cropped}"@ && no_open_brace(crop(state.song_name@))
            ==> status_text(state, line, settings) == truncate_spec(with_notes(crop(state.song_name@))),
        settings.view.advanced.enabled && settings.view.advanced.custom_status@ == "{song_name_upper_cropped}"@ && no_open_brace(crop(uppercase(state.song_name@)))
            ==> status_text(state, line, settings) == truncate_spec(with_notes(crop(uppercase(state.song_name@)))),
        settings.view.advanced.enabled && settings.view.advanced.custom_status@ == "{song_name_lower_cropped}"@ && no_open_brace(crop(lowercase(state.song_name@)))
            ==> status_text(state, line, settings) == truncate_spec(with_notes(crop(lowercase(state.song_name@)))),
        settings.view.advanced.enabled && settings.view.advanced.custom_status@ == "{song_author}"@ && no_open_brace(state.song_author@)
            ==> status_text(state, line, settings) == truncate_spec(with_notes(state.song_author@)),
        settings.view.advanced.enabled && settings.view.advanced.custom_status@ == "{song_author_upper}"@ && no_open_brace(uppercase(state.song_author@))
            ==> status_text(state, line, settings) == truncate_spec(with_notes(uppercase(state.song_author@))),
        settings.view.advanced.enabled && settings.view.advanced.custom_status@ == "{song_author_lower}"@ && no_open_brace(lowercase(state.song_author@))
            ==> status_text(state, line, settings) == truncate_spec(with_notes(lowercase(state.song_author@))),
{
    if settings.view.advanced.enabled && settings.view.advanced.custom_status@ == "{lyrics}"@ && no_open_brace(line.text) {
        lemma_fill_lyrics(state, line);
    }
    if settings.view.advanced.enabled && settings.view.advanced.custom_status@ == "{lyrics_upper}"@ && no_open_brace(uppercase(line.text)) {
        lemma_fill_lyrics_upper(state, line);
    }
    if settings.view.advanced.enabled && settings.view.advanced.custom_status@ == "{lyrics_lower}"@ && no_open_brace(lowercase(line.text)) {
        lemma_fill_lyrics_lower(state, line);
    }
    if settings.view.advanced.enabled && settings.view.advanced.custom_status@ == "{lyrics_letters_only}"@ && no_open_brace(letters_only_spec(line.text)) {
        lemma_fill_lyrics_letters_only(state, line);
    }
    if settings.view.advanced.enabled && settings.view.advanced.custom_status@ == "{lyrics_upper_letters_only}"@ && no_open_brace(letters_only_spec(uppercase(line.text))) {
        lemma_fill_lyrics_upper_letters_only(state, line);
    }
    if settings.view.advanced.enabled && settings.view.advanced.custom_status@ == "{lyrics_lower_letters_only}"@ && no_open_brace(letters_only_spec(lowercase(line.text))) {
        lemma_fill_lyrics_lower_letters_only(state, line);
    }
    if settings.view.advanced.enabled && settings.view.advanced.custom_status@ == "{timestamp}"@ {
        lemma_fill_timestamp(state, line);
    }
    if settings.view.advanced.enabled && settings.view.advanced.custom_status@ == "{song_name}"@ && no_open_brace(state.song_name@) {
        lemma_fill_song_name(state, line);
    }
    if settings.view.advanced.enabled && settings.view.advanced.custom_status@ == "{song_name_upper}"@ && no_open_brace(uppercase(state.song_name@)) {
        lemma_fill_song_name_upper(state, line);
    }
    if settings.view.advanced.enabled && settings.view.advanced.custom_status@ == "{song_name_lower}"@ && no_open_brace(lowercase(state.song_name@)) {
        lemma_fill_song_name_lower(state, line);
    }
    if settings.view.advanced.enabled && settings.view.advanced.custom_status@ == "{song_name_cropped}"@ && no_open_brace(crop(state.song_name@)) {
        lemma_fill_song_name_cropped(state, line);
    }
    if settings.view.advanced.enabled && settings.view.advanced.custom_status@ == "{song_name_upper_cropped}"@ && no_open_brace(crop(uppercase(state.song_name@))) {
        lemma_fill_song_name_upper_cropped(state, line);
    }
    if settings.view.advanced.enabled && settings.view.advanced.custom_status@ == "{song_name_lower_cropped}"@ && no_open_brace(crop(lowercase(state.song_name@))) {
        lemma_fill_song_name_lower_cropped(state, line);
    }
    if settings.view.advanced.enabled && settings.view.advanced.custom_status@ == "{song_author}"@ && no_open_brace(state.song_author@) {
        lemma_fill_song_author(state, line);
    }
    if settings.view.advanced.enabled && settings.view.advanced.custom_status@ == "{song_author_upper}"@ && no_open_brace(uppercase(state.song_author@)) {
        lemma_fill_song_author_upper(state, line);
    }
    if settings.view.advanced.enabled && settings.view.advanced.custom_status@ == "{song_author_lower}"@ && no_open_brace(lowercase(state.song_author@)) {
        lemma_fill_song_author_lower(state, line);
    }
}

/// The timestamp shown holds digits and one colon, no brace.
proof fn lemma_timestamp_braceless(line: LineView)
    ensures
        no_open_brace(status_timestamp(line)),
{
    let n = rounded_seconds(line.time);
    lemma_decimal_reads_back(n / 60);
    lemma_digit_char((n % 60) / 10);
    lemma_digit_char(n % 10);
    let d = decimal(n / 60);
    let t = status_timestamp(line);
    assert forall|i: int| 0 <= i < t.len() implies #[trigger] t[i] != '{' by {
        if i < d.len() {
            assert(t[i] == d[i]);
            assert('0' <= d[i] <= '9');
        }
    }
}

/// A template without `{` is shown as written (its first `♪` turned into
/// `🎶`, cut to `MAX_STATUS_LENGTH` characters): no placeholder is found in it.
pub proof fn law_template_without_placeholders(state: PlaybackState, line: LineView, settings: Settings)
    requires
        settings.view.advanced.enabled,
        no_open_brace(settings.view.advanced.custom_status@),
    ensures
        status_text(state, line, settings) == truncate_spec(with_notes(settings.view.advanced.custom_status@)),
{
    reveal_strlit("{lyrics}");
    reveal_strlit("{lyrics_upper}");
    reveal_strlit("{lyrics_lower}");
    reveal_strlit("{lyrics_letters_only}");
    reveal_strlit("{lyrics_upper_letters_only}");
    reveal_strlit("{lyrics_lower_letters_only}");
    reveal_strlit("{timestamp}");
    reveal_strlit("{song_name}");
    reveal_strlit("{song_name_upper}");
    reveal_strlit("{song_name_lower}");
    reveal_strlit("{song_name_cropped}");
    reveal_strlit("{song_name_upper_cropped}");
    reveal_strlit("{song_name_lower_cropped}");
    reveal_strlit("{song_author}");
    reveal_strlit("{song_author_upper}");
    reveal_strlit("{song_author_lower}");
    let t = settings.view.advanced.custom_status@;
    let text = line.text;
    let name = state.song_name@;
    let author = state.song_author@;
    lemma_replace_in_braceless(t, "{lyrics}"@, text);
    lemma_replace_in_braceless(t, "{lyrics_upper}"@, uppercase(text));
    lemma_replace_in_braceless(t, "{lyrics_lower}"@, lowercase(text));
    lemma_replace_in_braceless(t, "{lyrics_letters_only}"@, letters_only_spec(text));
    lemma_replace_in_braceless(t, "{lyrics_upper_letters_only}"@, letters_only_spec(uppercase(text)));
    lemma_replace_in_braceless(t, "{lyrics_lower_letters_only}"@, letters_only_spec(lowercase(text)));
    lemma_replace_in_braceless(t, "{timestamp}"@, status_timestamp(line));
    lemma_replace_in_braceless(t, "{song_name}"@, name);
    lemma_replace_in_braceless(t, "{song_name_upper}"@, uppercase(name));
    lemma_replace_in_braceless(t, "{song_name_lower}"@, lowercase(name));
    lemma_replace_in_braceless(t, "{song_name_cropped}"@, crop(name));
    lemma_replace_in_braceless(t, "{song_name_upper_cropped}"@, crop(uppercase(name)));
    lemma_replace_in_braceless(t, "{song_name_lower_cropped}"@, crop(lowercase(name)));
    lemma_replace_in_braceless(t, "{song_author}"@, author);
    lemma_replace_in_braceless(t, "{song_author_upper}"@, uppercase(author));
    lemma_replace_in_braceless(t, "{song_author_lower}"@, lowercase(author));
}

/// `letters_only` drops exactly the apostrophes, double quotes, commas and
/// full stops: none is left, and text without them comes back unchanged.
pub proof fn law_letters_only(s: Seq<char>)
    ensures
        forall|i: int|
            0 <= i < letters_only_spec(s).len() ==> !is_dropped_punctuation(
                #[trigger] letters_only_spec(s)[i],
            ),
        (forall|i: int| 0 <= i < s.len() ==> !is_dropped_punctuation(#[trigger] s[i]))
            ==> letters_only_spec(s) == s,
        letters_only_spec(s).len() <= s.len(),
    decreases s.len(),
{
    if s.len() > 0 {
        let d = s.drop_first();
        law_letters_only(d);
        if (forall|i: int| 0 <= i < s.len() ==> !is_dropped_punctuation(#[trigger] s[i])) {
            assert forall|i: int| 0 <= i < d.len() implies !is_dropped_punctuation(#[trigger] d[i]) by {
                assert(d[i] == s[i + 1]);
            }
            assert(!is_dropped_punctuation(s[0]));
            assert(seq![s[0]] + d =~= s);
        }
        if !is_dropped_punctuation(s[0]) {
            let r = seq![s[0]] + letters_only_spec(d);
            assert forall|i: int| 0 <= i < r.len() implies !is_dropped_punctuation(#[trigger] r[i]) by {
                if i > 0 {
                    assert(r[i] == letters_only_spec(d)[i - 1]);
                }
            }
        }
    }
}

/// Cropping removes only parts that start with `-` or `(`: a name holding
/// neither comes back unchanged.
pub proof fn law_crop_keeps_plain_names(s: Seq<char>)
    requires
        forall|i: int| 0 <= i < s.len() ==> #[trigger] s[i] != '-' && s[i] != '(',
    ensures
        crop(s) == s,
    decreases s.len(),
{
    if s.len() > 0 {
        if s.len() > 1 {
            assert(s[1] != '-');
        }
        assert(crop_match_len(s) == 0);
        let d = s.drop_first();
        assert forall|i: int| 0 <= i < d.len() implies #[trigger] d[i] != '-' && d[i] != '(' by {
            assert(d[i] == s[i + 1]);
        }
        law_crop_keeps_plain_names(d);
        assert(seq![s[0]] + d =~= s);
    }
}

/// Only the first `♪` becomes `🎶`: text before it is kept, the rest after it
/// too, and text without `♪` is unchanged.
pub proof fn law_notes_first_only(a: Seq<char>, b: Seq<char>)
    requires
        forall|i: int| 0 <= i < a.len() ==> #[trigger] a[i] != '♪',
    ensures
        with_notes(a + seq!['♪'] + b) == a + "🎶"@ + b,
        with_notes(a) == a,
    decreases a.len(),
{
    if a.len() == 0 {
        assert(a + seq!['♪'] + b =~= seq!['♪'] + b);
        assert((seq!['♪'] + b).drop_first() =~= b);
        assert(a + "🎶"@ + b =~= "🎶"@ + b);
    } else {
        let d = a.drop_first();
        assert forall|i: int| 0 <= i < d.len() implies #[trigger] d[i] != '♪' by {
            assert(d[i] == a[i + 1]);
        }
        law_notes_first_only(d, b);
        assert((a + seq!['♪'] + b).drop_first() =~= d + seq!['♪'] + b);
        assert((a + seq!['♪'] + b)[0] == a[0]);
        assert(seq![a[0]] + (d + "🎶"@ + b) =~= a + "🎶"@ + b);
        assert(seq![a[0]] + d =~= a);
    }
}

/// The timestamp shown is the nearest whole second: within half a second of
/// the line's time, and a half second rounds up.
pub proof fn law_rounded_seconds(ms: u64)
    ensures
        rounded_seconds(ms) * 1000 <= ms + 500,
        ms < rounded_seconds(ms) * 1000 + 500,
{
}

/// The line sent is the last line with text that starts before the
/// threshold: it has text, starts before the threshold, and every line after
/// it in the lyrics has no text or starts later; when none is chosen, no line
/// qualifies.
pub proof fn law_last_line_before(lines: Seq<LineView>, threshold: u64)
    ensures
        last_line_before(lines, threshold) matches Some(l) ==> exists|i: int|
            #![trigger lines[i]]
            0 <= i < lines.len() && lines[i] == l && l.time < threshold && l.text.len() > 0 && (
            forall|j: int|
                i < j < lines.len() ==> !(#[trigger] lines[j].time < threshold && lines[j].text.len()
                    > 0)),
        last_line_before(lines, threshold) is None ==> forall|j: int|
            0 <= j < lines.len() ==> !(#[trigger] lines[j].time < threshold && lines[j].text.len()
                > 0),
    decreases lines.len(),
{
    if lines.len() > 0 {
        let d = lines.drop_last();
        law_last_line_before(d, threshold);
        let n = lines.len() - 1;
        assert(lines.last() == lines[n]);
        if lines.last().time < threshold && lines.last().text.len() > 0 {
            assert(lines[n] == lines.last());
        } else {
            if let Some(l) = last_line_before(d, threshold) {
                let i = choose|i: int|
                    #![trigger d[i]]
                    0 <= i < d.len() && d[i] == l && l.time < threshold && l.text.len() > 0 && (
                    forall|j: int|
                        i < j < d.len() ==> !(#[trigger] d[j].time < threshold && d[j].text.len()
                            > 0));
                assert(lines[i] == d[i]);
                assert forall|j: int| i < j < lines.len() implies !(#[trigger] lines[j].time
                    < threshold && lines[j].text.len() > 0) by {
                    if j < n {
                        assert(lines[j] == d[j]);
                    }
                }
            } else {
                assert forall|j: int| 0 <= j < lines.len() implies !(#[trigger] lines[j].time
                    < threshold && lines[j].text.len() > 0) by {
                    if j < n {
                        assert(lines[j] == d[j]);
                    }
                }
            }
        }
    }
}

/// Limiting keeps the newest samples in their order and pads only with
/// zeros.
pub proof fn law_limit_keeps_newest(s: Seq<u64>, limit: usize)
    ensures
        forall|i: int|
            0 <= i < set_limit_spec(s, limit).len() ==> #[trigger] set_limit_spec(s, limit)[i] == if i
                < s.len() {
                s[i]
            } else {
                0
            },
{
}

/// The plain status is the line's text after an optional `[m:ss] `, the
/// line's time rounded to the second, and an optional `Song lyrics - `
/// label, in that order; nothing else is added, and only the end is cut.
pub proof fn law_plain_status_layout(state: PlaybackState, line: LineView, settings: Settings)
    requires
        !settings.view.advanced.enabled,
        forall|i: int| 0 <= i < line.text.len() ==> #[trigger] line.text[i] != '♪',
    ensures
        ({
            let stamp = if settings.view.timestamp {
                "["@ + format_seconds_spec(rounded_seconds(line.time)) + "] "@
            } else {
                Seq::<char>::empty()
            };
            let label = if settings.view.label {
                "Song lyrics - "@
            } else {
                Seq::<char>::empty()
            };
            let shown = stamp + label + line.text;
            &&& status_text(state, line, settings) == truncate_spec(shown)
            &&& shown.len() <= MAX_STATUS_LENGTH ==> status_text(state, line, settings) == shown
        }),
{
    reveal_strlit("[");
    reveal_strlit("] ");
    reveal_strlit("Song lyrics - ");
    reveal_strlit("Song lyrics -");
    let fs = format_seconds_spec(rounded_seconds(line.time));
    law_format_seconds_reads_back(rounded_seconds(line.time));
    let m = decimal(rounded_seconds(line.time) / 60);
    let sec = fs.subrange(m.len() as int + 1, fs.len() as int);
    assert forall|i: int| 0 <= i < fs.len() implies #[trigger] fs[i] != '♪' by {
        if i < m.len() {
            assert(fs[i] == m[i]);
        } else if i > m.len() {
            assert(fs[i] == sec[i - m.len() - 1]);
        }
    }
    let stamp = if settings.view.timestamp {
        "["@ + fs + "] "@
    } else {
        Seq::<char>::empty()
    };
    let label = if settings.view.label {
        "Song lyrics - "@
    } else {
        Seq::<char>::empty()
    };
    let shown = stamp + label + line.text;
    let ts = if settings.view.timestamp {
        seq!['['] + status_timestamp(line) + seq![']', ' ']
    } else {
        Seq::<char>::empty()
    };
    let lb = if settings.view.label {
        "Song lyrics -"@ + seq![' ']
    } else {
        Seq::<char>::empty()
    };
    assert(ts =~= stamp);
    assert(lb =~= label);
    assert forall|i: int| 0 <= i < shown.len() implies #[trigger] shown[i] != '♪' by {
        let k = stamp.len() + label.len();
        if i < stamp.len() {
            if settings.view.timestamp && 1 <= i < 1 + fs.len() {
                assert(shown[i] == fs[i - 1]);
            }
        } else if i < k {
        } else {
            assert(shown[i] == line.text[i - k]);
        }
    }
    law_notes_first_only(line.text, Seq::<char>::empty());
    law_notes_first_only(shown, Seq::<char>::empty());
    law_truncate_keeps_prefix(shown);
}

} // verus!
