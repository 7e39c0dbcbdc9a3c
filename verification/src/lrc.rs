//! The LRC format: lines of text preceded by timestamps such as `[01:23.45]`.
//!
//! A timestamp is `[`, one to three digits of minutes, `:`, two digits of
//! seconds, optionally `.` or `:` and one to three digits of fraction, and `]`.
//! Digits are those of the class `\d` (decimal digits of any script). A line
//! may carry several timestamps; each gives one entry with the line's text,
//! which is the line without its timestamps, trimmed. Lines whose text is empty
//! give nothing. The entries come out ordered by time, entries of equal time in
//! the order in which they were written.

use vstd::prelude::*;
use crate::models::{LineView, LyricsLine, SongLyrics, line_views};
use crate::text::{line_end, is_decimal_digit, trim, char_is_decimal_digit, chars_of, trim_range, string_of_range};

verus! {

// ---------------------------------------------------------------------------
// Lines (`str::lines`)
// ---------------------------------------------------------------------------

/// `l` without one final carriage return.
pub open spec fn strip_cr(l: Seq<char>) -> Seq<char> {
    if l.len() > 0 && l.last() == '\r' {
        l.drop_last()
    } else {
        l
    }
}

/// The lines of `s` as `str::lines` gives them: split at each `'\n'`, a
/// `'\r'` before the `'\n'` removed, no line after a final `'\n'`.
pub open spec fn text_lines(s: Seq<char>) -> Seq<Seq<char>>
    decreases s.len(),
{
    if s.len() == 0 {
        seq![]
    } else if line_end(s) < s.len() {
        seq![strip_cr(s.take(line_end(s) as int))] + text_lines(s.skip(line_end(s) as int + 1))
    } else {
        seq![s]
    }
}

// ---------------------------------------------------------------------------
// Timestamps
// ---------------------------------------------------------------------------

/// One timestamp found at the start of a text: how many characters it spans
/// and the digits of its three fields.
pub struct Stamp {
    pub len: nat,
    pub minutes: Seq<char>,
    pub seconds: Seq<char>,
    pub fraction: Option<Seq<char>>,
}

/// The length of the run of `\d` digits at the start of `s`.
pub open spec fn digit_run(s: Seq<char>) -> nat
    decreases s.len(),
{
    if s.len() > 0 && is_decimal_digit(s[0]) {
        1 + digit_run(s.drop_first())
    } else {
        0
    }
}

/// The timestamp at the start of `t`, if one is there.
pub open spec fn stamp_at(t: Seq<char>) -> Option<Stamp> {
    let m = digit_run(t.skip(1)) as int;
    let p = 1 + m;
    let q = p + 3;
    if t.len() > 0 && t[0] == '[' && 1 <= m <= 3 && q < t.len() && t[p] == ':'
        && is_decimal_digit(t[p + 1]) && is_decimal_digit(t[p + 2]) {
        let minutes = t.subrange(1, p);
        let seconds = t.subrange(p + 1, q);
        if t[q] == ']' {
            Some(Stamp { len: (q + 1) as nat, minutes, seconds, fraction: None })
        } else if t[q] == '.' || t[q] == ':' {
            let f = digit_run(t.skip(q + 1)) as int;
            if 1 <= f <= 3 && q + 1 + f < t.len() && t[q + 1 + f] == ']' {
                Some(
                    Stamp {
                        len: (q + 2 + f) as nat,
                        minutes,
                        seconds,
                        fraction: Some(t.subrange(q + 1, q + 1 + f)),
                    },
                )
            } else {
                None
            }
        } else {
            None
        }
    } else {
        None
    }
}

/// The length of the timestamp at the start of `t`, or zero.
pub open spec fn stamp_len(t: Seq<char>) -> nat {
    match stamp_at(t) {
        Some(st) => st.len,
        None => 0,
    }
}

/// `t` with every timestamp removed, as the regex crate's `replace_all`
/// removes the matches of the timestamp pattern.
pub open spec fn strip_stamps(t: Seq<char>) -> Seq<char>
    decreases t.len(),
{
    if t.len() == 0 {
        seq![]
    } else if 0 < stamp_len(t) <= t.len() {
        strip_stamps(t.skip(stamp_len(t) as int))
    } else {
        seq![t[0]] + strip_stamps(t.drop_first())
    }
}

/// The timestamps of `t`, from left to right.
pub open spec fn stamps_in(t: Seq<char>) -> Seq<Stamp>
    decreases t.len(),
{
    if t.len() == 0 {
        seq![]
    } else if 0 < stamp_len(t) <= t.len() {
        seq![stamp_at(t).unwrap()] + stamps_in(t.skip(stamp_len(t) as int))
    } else {
        stamps_in(t.drop_first())
    }
}

// ---------------------------------------------------------------------------
// Milliseconds
// ---------------------------------------------------------------------------

/// Whether every character of `s` is an ASCII digit.
pub open spec fn all_ascii_digits(s: Seq<char>) -> bool {
    forall|i: int| 0 <= i < s.len() ==> '0' <= #[trigger] s[i] <= '9'
}

/// The number written by the ASCII digits `s`.
pub open spec fn ascii_value(s: Seq<char>) -> nat
    decreases s.len(),
{
    if s.len() == 0 {
        0
    } else {
        ascii_value(s.drop_last()) * 10 + ((s.last() as int) - 48) as nat
    }
}

/// `s.parse::<u64>().unwrap_or(0)` for a non-empty run of digits: only ASCII
/// digits parse.
pub open spec fn parsed_or_zero(s: Seq<char>) -> nat {
    if s.len() > 0 && all_ascii_digits(s) {
        ascii_value(s)
    } else {
        0
    }
}

/// The number of bytes in the UTF-8 encoding of `c`.
pub open spec fn utf8_width(c: char) -> nat {
    if (c as u32) < 0x80 {
        1
    } else if (c as u32) < 0x800 {
        2
    } else if (c as u32) < 0x10000 {
        3
    } else {
        4
    }
}

/// The number of bytes in the UTF-8 encoding of `s`.
pub open spec fn utf8_len(s: Seq<char>) -> nat
    decreases s.len(),
{
    if s.len() == 0 {
        0
    } else {
        utf8_width(s[0]) + utf8_len(s.drop_first())
    }
}

/// How many leading characters of `s` fill exactly its first `n` bytes, or
/// `None` when byte `n` falls inside a character.
pub open spec fn chars_in_bytes(s: Seq<char>, n: nat) -> Option<nat>
    decreases s.len(),
{
    if n == 0 {
        Some(0)
    } else if s.len() == 0 || utf8_width(s[0]) > n {
        None
    } else {
        match chars_in_bytes(s.drop_first(), (n - utf8_width(s[0])) as nat) {
            Some(k) => Some(k + 1),
            None => None,
        }
    }
}

/// Milliseconds of a fraction, read by the byte length of its UTF-8 text: one
/// byte gives tenths of a second, two bytes hundredths, three or more bytes
/// the number written in the first three bytes. What does not parse counts 0.
pub open spec fn fraction_millis(f: Seq<char>) -> nat {
    let n = utf8_len(f);
    if n == 1 {
        parsed_or_zero(f) * 100
    } else if n == 2 {
        parsed_or_zero(f) * 10
    } else {
        match chars_in_bytes(f, 3) {
            Some(k) => parsed_or_zero(f.take(k as int)),
            None => 0,
        }
    }
}

/// Whether the first three bytes of a fraction of three or more bytes end on
/// a character boundary, so that they can be cut off as text.
pub open spec fn fraction_cut_clean(f: Seq<char>) -> bool {
    utf8_len(f) >= 3 ==> chars_in_bytes(f, 3) is Some
}

/// The time a timestamp stands for, in milliseconds.
pub open spec fn stamp_millis(st: Stamp) -> nat {
    (parsed_or_zero(st.minutes) * 60 + parsed_or_zero(st.seconds)) * 1000 + match st.fraction {
        Some(f) => fraction_millis(f),
        None => 0,
    }
}

// ---------------------------------------------------------------------------
// Entries
// ---------------------------------------------------------------------------

/// The text of a line: without its timestamps, trimmed.
pub open spec fn line_text(line: Seq<char>) -> Seq<char> {
    trim(strip_stamps(line))
}

/// The entries one line gives: one per timestamp when its text is not empty.
pub open spec fn line_entries(line: Seq<char>) -> Seq<LineView> {
    if line_text(line).len() == 0 {
        seq![]
    } else {
        stamps_in(line).map_values(
            |st: Stamp|
                LineView {
                    time: stamp_millis(st) as u64,
                    text: line_text(line),
                    text_translated: None,
                },
        )
    }
}

/// The entries of a sequence of lines, in the order written.
pub open spec fn entries_of_lines(ls: Seq<Seq<char>>) -> Seq<LineView>
    decreases ls.len(),
{
    if ls.len() == 0 {
        seq![]
    } else {
        entries_of_lines(ls.drop_last()) + line_entries(ls.last())
    }
}

/// Whether the fraction of a timestamp, if any, can be cut after three bytes.
pub open spec fn stamp_clean(st: Stamp) -> bool {
    match st.fraction {
        Some(f) => fraction_cut_clean(f),
        None => true,
    }
}

/// Whether no line with text holds a timestamp whose fraction cannot be cut
/// after three bytes.
pub open spec fn line_is_clean(line: Seq<char>) -> bool {
    line_text(line).len() > 0 ==> forall|i: int|
        0 <= i < stamps_in(line).len() ==> stamp_clean(#[trigger] stamps_in(line)[i])
}

/// Whether every line of `input` is clean.
pub open spec fn lrc_is_clean(input: Seq<char>) -> bool {
    forall|i: int| 0 <= i < text_lines(input).len() ==> line_is_clean(#[trigger] text_lines(input)[i])
}

// ---------------------------------------------------------------------------
// Ordering
// ---------------------------------------------------------------------------

/// `x` placed into the time-ordered `s` after every entry not later than it.
pub open spec fn insert_by_time(s: Seq<LineView>, x: LineView) -> Seq<LineView>
    decreases s.len(),
{
    if s.len() == 0 {
        seq![x]
    } else if s.last().time <= x.time {
        s.push(x)
    } else {
        insert_by_time(s.drop_last(), x).push(s.last())
    }
}

/// `s` stably sorted by time: ordered by time, entries of equal time in their
/// order in `s`.
pub open spec fn sort_by_time(s: Seq<LineView>) -> Seq<LineView>
    decreases s.len(),
{
    if s.len() == 0 {
        seq![]
    } else {
        insert_by_time(sort_by_time(s.drop_last()), s.last())
    }
}

/// Whether the times of `s` never decrease.
pub open spec fn time_ordered(s: Seq<LineView>) -> bool {
    forall|i: int, j: int| 0 <= i <= j < s.len() ==> s[i].time <= s[j].time
}

/// What `parse_lrc` gives for `input`.
pub open spec fn parsed_lrc(input: Seq<char>) -> Seq<LineView> {
    sort_by_time(entries_of_lines(text_lines(input)))
}

// ---------------------------------------------------------------------------
// Facts about the definitions
// ---------------------------------------------------------------------------

/// Ten to the power `n`.
pub open spec fn pow10(n: nat) -> nat
    decreases n,
{
    if n == 0 {
        1
    } else {
        10 * pow10((n - 1) as nat)
    }
}

proof fn lemma_digit_step(acc: nat, d: nat, p: nat)
    by (nonlinear_arith)
    requires
        acc < p,
        d < 10,
    ensures
        acc * 10 + d < p * 10,
{
}

proof fn lemma_insert_ordered(s: Seq<LineView>, x: LineView)
    requires
        time_ordered(s),
    ensures
        time_ordered(insert_by_time(s, x)),
        insert_by_time(s, x).len() == s.len() + 1,
        forall|i: int|
            0 <= i < insert_by_time(s, x).len() ==> #[trigger] insert_by_time(s, x)[i] == x || s.contains(
                insert_by_time(s, x)[i],
            ),
    decreases s.len(),
{
    if s.len() == 0 {
    } else if s.last().time <= x.time {
    } else {
        let r = insert_by_time(s.drop_last(), x);
        assert(time_ordered(s.drop_last()));
        lemma_insert_ordered(s.drop_last(), x);
        assert forall|i: int| 0 <= i < r.len() implies #[trigger] r[i].time <= s.last().time by {
            if r[i] == x {
            } else {
                assert(s.drop_last().contains(r[i]));
                let k = choose|k: int| 0 <= k < s.drop_last().len() && s.drop_last()[k] == r[i];
                assert(s[k] == r[i]);
            }
        }
        assert forall|i: int| 0 <= i < r.push(s.last()).len() implies #[trigger] r.push(
            s.last(),
        )[i] == x || s.contains(r.push(s.last())[i]) by {
            if i < r.len() {
                if r[i] != x {
                    let k = choose|k: int| 0 <= k < s.drop_last().len() && s.drop_last()[k] == r[i];
                    assert(s[k] == r[i]);
                }
            } else {
                assert(s[s.len() - 1] == s.last());
            }
        }
    }
}

/// Sorting by time yields entries ordered by time.
pub proof fn lemma_sort_ordered(s: Seq<LineView>)
    ensures
        time_ordered(sort_by_time(s)),
        sort_by_time(s).len() == s.len(),
    decreases s.len(),
{
    if s.len() > 0 {
        lemma_sort_ordered(s.drop_last());
        lemma_insert_ordered(sort_by_time(s.drop_last()), s.last());
    }
}

// ---------------------------------------------------------------------------
// Scanning
// ---------------------------------------------------------------------------

/// `min(digit_run(v[i..hi]), cap)`.
fn digit_run_capped(v: &Vec<char>, i: usize, hi: usize, cap: usize) -> (r: usize)
    requires
        i <= hi <= v.len(),
    ensures
        r as int == if digit_run(v@.subrange(i as int, hi as int)) <= cap {
            digit_run(v@.subrange(i as int, hi as int)) as int
        } else {
            cap as int
        },
        i + r <= hi,
{
    let mut k = i;
    while k < hi && k - i < cap && char_is_decimal_digit(v[k])
        invariant
            i <= k <= hi <= v.len(),
            k - i <= cap,
            digit_run(v@.subrange(i as int, hi as int)) == (k - i) + digit_run(
                v@.subrange(k as int, hi as int),
            ),
        decreases hi - k,
    {
        assert(v@.subrange(k as int, hi as int).drop_first() =~= v@.subrange(k + 1, hi as int));
        k += 1;
    }
    k - i
}

/// `parsed_or_zero(v[a..b])` for at most three characters.
fn parse_digits(v: &Vec<char>, a: usize, b: usize) -> (r: u64)
    requires
        a <= b <= v.len(),
        b - a <= 3,
    ensures
        r == parsed_or_zero(v@.subrange(a as int, b as int)),
        r < 1000,
{
    if a == b {
        return 0;
    }
    let mut acc: u64 = 0;
    let mut k = a;
    while k < b
        invariant
            a <= k <= b <= v.len(),
            b - a <= 3,
            all_ascii_digits(v@.subrange(a as int, k as int)),
            acc == ascii_value(v@.subrange(a as int, k as int)),
            acc < pow10((k - a) as nat),
        decreases b - k,
    {
        let c = v[k];
        if !('0' <= c && c <= '9') {
            assert(v@.subrange(a as int, b as int)[k - a] == c);
            return 0;
        }
        let d: u64 = (c as u64) - 48;
        let ghost s1 = v@.subrange(a as int, k + 1);
        assert(s1.drop_last() =~= v@.subrange(a as int, k as int));
        assert(s1.last() == c);
        proof {
            lemma_digit_step(acc as nat, d as nat, pow10((k - a) as nat));
            assert(pow10(0) == 1);
            assert(pow10(1) == 10);
            assert(pow10(2) == 100);
        }
        acc = acc * 10 + d;
        k += 1;
        assert(all_ascii_digits(v@.subrange(a as int, k as int))) by {
            assert forall|j: int| 0 <= j < s1.len() implies '0' <= #[trigger] s1[j] <= '9' by {
                if j < s1.len() - 1 {
                    assert(s1[j] == s1.drop_last()[j]);
                }
            }
        }
    }
    assert(pow10(3) == 1000) by {
        assert(pow10(0) == 1);
        assert(pow10(1) == 10);
        assert(pow10(2) == 100);
    }
    assert(pow10((b - a) as nat) <= 1000) by {
        assert(pow10(0) == 1);
        assert(pow10(1) == 10);
        assert(pow10(2) == 100);
    }
    acc
}

/// The number of bytes in the UTF-8 encoding of `c`.
fn width_of(c: char) -> (r: usize)
    ensures
        r == utf8_width(c),
{
    let u = c as u32;
    if u < 0x80 {
        1
    } else if u < 0x800 {
        2
    } else if u < 0x10000 {
        3
    } else {
        4
    }
}

/// `fraction_millis(v[a..b])` for one to three characters, and whether the
/// fraction can be cut after three bytes.
fn fraction_millis_of(v: &Vec<char>, a: usize, b: usize) -> (r: (u64, bool))
    requires
        a < b <= v.len(),
        b - a <= 3,
    ensures
        r.0 == fraction_millis(v@.subrange(a as int, b as int)),
        r.0 < 100000,
        r.1 == fraction_cut_clean(v@.subrange(a as int, b as int)),
{
    let ghost f = v@.subrange(a as int, b as int);
    let mut n: usize = 0;
    let mut k = a;
    while k < b
        invariant
            a <= k <= b <= v.len(),
            b - a <= 3,
            n <= 4 * (k - a),
            k > a ==> n >= 1,
            f == v@.subrange(a as int, b as int),
            n + utf8_len(v@.subrange(k as int, b as int)) == utf8_len(f),
        decreases b - k,
    {
        assert(v@.subrange(k as int, b as int).drop_first() =~= v@.subrange(k + 1, b as int));
        n = n + width_of(v[k]);
        k += 1;
    }
    assert(v@.subrange(b as int, b as int).len() == 0);
    if n == 1 {
        return (parse_digits(v, a, b) * 100, true);
    } else if n == 2 {
        return (parse_digits(v, a, b) * 10, true);
    }
    let mut budget: usize = 3;
    let mut k = a;
    assert(v@.subrange(a as int, b as int) =~= f);
    loop
        invariant
            a <= k <= b <= v.len(),
            b - a <= 3,
            budget <= 3,
            f == v@.subrange(a as int, b as int),
            chars_in_bytes(f, 3) == match chars_in_bytes(v@.subrange(k as int, b as int), budget as nat) {
                Some(x) => Some(x + (k - a) as nat),
                None => None::<nat>,
            },
            utf8_len(f) >= 3,
        decreases b - k,
    {
        let ghost t = v@.subrange(k as int, b as int);
        if budget == 0 {
            assert(chars_in_bytes(f, 3) == Some((k - a) as nat));
            assert(f.take((k - a) as int) =~= v@.subrange(a as int, k as int));
            return (parse_digits(v, a, k), true);
        }
        if k == b {
            assert(t.len() == 0);
            return (0, false);
        }
        assert(t[0] == v@[k as int]);
        let w = width_of(v[k]);
        if w > budget {
            return (0, false);
        }
        assert(t.drop_first() =~= v@.subrange(k + 1, b as int));
        budget = budget - w;
        k += 1;
    }
}

/// The timestamp at the start of `v[i..hi]`: its length, its milliseconds
/// and whether it is clean.
fn stamp_at_exec(v: &Vec<char>, i: usize, hi: usize) -> (r: Option<(usize, u64, bool)>)
    requires
        i <= hi <= v.len(),
    ensures
        match r {
            None => stamp_at(v@.subrange(i as int, hi as int)) is None,
            Some((n, ms, clean)) => stamp_at(v@.subrange(i as int, hi as int)) matches Some(st)
                && st.len == n && ms == stamp_millis(st) && clean == stamp_clean(st) && i + n <= hi,
        },
{
    let ghost t = v@.subrange(i as int, hi as int);
    if i >= hi || v[i] != '[' {
        return None;
    }
    assert(t.skip(1) =~= v@.subrange(i + 1, hi as int));
    let m = digit_run_capped(v, i + 1, hi, 4);
    if m < 1 || m > 3 {
        return None;
    }
    let p = i + 1 + m;
    if hi - p <= 3 {
        return None;
    }
    if v[p] != ':' || !char_is_decimal_digit(v[p + 1]) || !char_is_decimal_digit(v[p + 2]) {
        assert(t[(p - i) as int] == v@[p as int]);
        assert(t[(p - i) + 1] == v@[p + 1]);
        assert(t[(p - i) + 2] == v@[p + 2]);
        return None;
    }
    let q = p + 3;
    assert(t.subrange(1, (p - i) as int) =~= v@.subrange(i + 1, p as int));
    assert(t.subrange((p - i) + 1, (q - i) as int) =~= v@.subrange(p + 1, q as int));
    let minutes = parse_digits(v, i + 1, p);
    let seconds = parse_digits(v, p + 1, q);
    let base: u64 = (minutes * 60 + seconds) * 1000;
    if v[q] == ']' {
        return Some((q + 1 - i, base, true));
    }
    if v[q] == '.' || v[q] == ':' {
        assert(t.skip((q - i) + 1) =~= v@.subrange(q + 1, hi as int));
        let f = digit_run_capped(v, q + 1, hi, 4);
        if 1 <= f && f <= 3 && q + 1 + f < hi && v[q + 1 + f] == ']' {
            assert(t.subrange((q - i) + 1, (q - i) + 1 + f) =~= v@.subrange(
                q + 1,
                (q + 1 + f) as int,
            ));
            let (frac, clean) = fraction_millis_of(v, q + 1, q + 1 + f);
            return Some((q + 2 + f - i, base + frac, clean));
        }
        if q + 1 + f < hi {
            assert(t[(q - i) + 1 + f] == v@[q + 1 + f]);
        }
        return None;
    }
    None
}

/// The times of the timestamps of `t`, in milliseconds.
pub open spec fn stamp_times(t: Seq<char>) -> Seq<u64> {
    stamps_in(t).map_values(|st: Stamp| stamp_millis(st) as u64)
}

/// One line `v[lo..hi]` without its timestamps, the times of its timestamps,
/// and whether they are all clean.
fn scan_line(v: &Vec<char>, lo: usize, hi: usize) -> (r: (Vec<char>, Vec<u64>, bool))
    requires
        lo <= hi <= v.len(),
    ensures
        r.0@ == strip_stamps(v@.subrange(lo as int, hi as int)),
        r.1@ == stamp_times(v@.subrange(lo as int, hi as int)),
        r.2 == forall|j: int|
            0 <= j < stamps_in(v@.subrange(lo as int, hi as int)).len() ==> stamp_clean(
                #[trigger] stamps_in(v@.subrange(lo as int, hi as int))[j],
            ),
{
    let ghost line = v@.subrange(lo as int, hi as int);
    let mut out: Vec<char> = Vec::new();
    let mut times: Vec<u64> = Vec::new();
    let mut clean = true;
    let ghost mut seen: Seq<Stamp> = seq![];
    let mut i = lo;
    while i < hi
        invariant
            lo <= i <= hi <= v.len(),
            line == v@.subrange(lo as int, hi as int),
            out@ + strip_stamps(v@.subrange(i as int, hi as int)) == strip_stamps(line),
            seen + stamps_in(v@.subrange(i as int, hi as int)) == stamps_in(line),
            times@ == seen.map_values(|st: Stamp| stamp_millis(st) as u64),
            clean == forall|j: int| 0 <= j < seen.len() ==> stamp_clean(#[trigger] seen[j]),
        decreases hi - i,
    {
        let ghost t = v@.subrange(i as int, hi as int);
        match stamp_at_exec(v, i, hi) {
            Some((n, ms, c)) => {
                let ghost st = stamp_at(t).unwrap();
                assert(stamp_len(t) == n);
                assert(t.skip(n as int) =~= v@.subrange(i + n, hi as int));
                assert(stamps_in(t) == seq![st] + stamps_in(t.skip(n as int)));
                let ghost prev = seen;
                proof {
                    seen = seen.push(st);
                }
                assert(seen + stamps_in(v@.subrange(i + n, hi as int)) =~= prev + stamps_in(t));
                times.push(ms);
                assert(times@ =~= seen.map_values(|st: Stamp| stamp_millis(st) as u64));
                let ghost old_clean = clean;
                clean = clean && c;
                assert(clean == forall|j: int| 0 <= j < seen.len() ==> stamp_clean(#[trigger] seen[j]))
                    by {
                    if clean {
                        assert forall|j: int| 0 <= j < seen.len() implies stamp_clean(
                            #[trigger] seen[j],
                        ) by {
                            if j < prev.len() {
                                assert(seen[j] == prev[j]);
                            }
                        }
                    } else if !old_clean {
                        let j = choose|j: int| 0 <= j < prev.len() && !stamp_clean(#[trigger] prev[j]);
                        assert(seen[j] == prev[j]);
                    } else {
                        assert(seen[prev.len() as int] == st);
                    }
                }
                i = i + n;
            },
            None => {
                assert(stamp_len(t) == 0);
                assert(t.drop_first() =~= v@.subrange(i + 1, hi as int));
                assert(t[0] == v@[i as int]);
                out.push(v[i]);
                assert(out@ + strip_stamps(v@.subrange(i + 1, hi as int)) =~= (out@.drop_last() + (
                seq![t[0]] + strip_stamps(t.drop_first()))));
                i += 1;
            },
        }
    }
    assert(v@.subrange(hi as int, hi as int).len() == 0);
    assert(out@ =~= out@ + strip_stamps(v@.subrange(hi as int, hi as int)));
    assert(seen =~= seen + stamps_in(v@.subrange(hi as int, hi as int)));
    (out, times, clean)
}

/// Places `x` into the time-ordered `v` after every line not later than it.
fn insert_line(v: &mut Vec<LyricsLine>, x: LyricsLine)
    ensures
        line_views(final(v)@) == insert_by_time(line_views(old(v)@), x@),
{
    let ghost s = line_views(v@);
    let mut i = v.len();
    assert(s.take(i as int) =~= s);
    assert(s + s.skip(i as int) =~= s);
    while i > 0 && v[i - 1].time > x.time
        invariant
            i <= v.len(),
            v@ == old(v)@,
            s == line_views(v@),
            insert_by_time(s, x@) == insert_by_time(s.take(i as int), x@) + s.skip(i as int),
        decreases i,
    {
        assert(s.take(i as int).drop_last() =~= s.take(i - 1));
        assert(s.take(i as int).last() == s[i - 1]);
        assert(s.skip(i - 1) =~= seq![s[i - 1]] + s.skip(i as int));
        assert(insert_by_time(s.take(i - 1), x@).push(s[i - 1]) + s.skip(i as int)
            =~= insert_by_time(s.take(i - 1), x@) + s.skip(i - 1));
        i -= 1;
    }
    if i > 0 {
        assert(s.take(i as int).last() == s[i - 1]);
    } else {
        assert(s.take(0) =~= Seq::<LineView>::empty());
    }
    assert(insert_by_time(s.take(i as int), x@) =~= s.take(i as int).push(x@));
    v.insert(i, x);
    assert(line_views(v@) =~= s.take(i as int).push(x@) + s.skip(i as int));
}

/// Adds the entries of the line `v[lo..hi]` to the time-ordered `sorted`, and
/// tells whether the line is clean.
fn parse_line(
    v: &Vec<char>,
    lo: usize,
    hi: usize,
    sorted: &mut Vec<LyricsLine>,
    Ghost(before): Ghost<Seq<LineView>>,
) -> (clean: bool)
    requires
        lo <= hi <= v.len(),
        line_views(old(sorted)@) == sort_by_time(before),
    ensures
        line_views(final(sorted)@) == sort_by_time(
            before + line_entries(v@.subrange(lo as int, hi as int)),
        ),
        clean == line_is_clean(v@.subrange(lo as int, hi as int)),
{
    let ghost line = v@.subrange(lo as int, hi as int);
    let (out, times, all_clean) = scan_line(v, lo, hi);
    let (a, b) = trim_range(&out, 0, out.len());
    assert(out@.subrange(0, out.len() as int) =~= out@);
    if a == b {
        assert(line_entries(line) =~= Seq::<LineView>::empty());
        assert(before + line_entries(line) =~= before);
        return true;
    }
    let text = string_of_range(&out, a, b);
    let ghost entries = line_entries(line);
    assert(entries.len() == times.len());
    let mut j: usize = 0;
    assert(before + entries.take(0) =~= before);
    while j < times.len()
        invariant
            j <= times.len(),
            entries == line_entries(line),
            entries.len() == times.len(),
            times@ == stamp_times(line),
            text@ == line_text(line),
            line_text(line).len() > 0,
            line_views(sorted@) == sort_by_time(before + entries.take(j as int)),
        decreases times.len() - j,
    {
        let entry = LyricsLine { time: times[j], text: text.clone(), text_translated: None };
        assert(entry@ == entries[j as int]);
        let ghost prefix = before + entries.take(j as int);
        assert((before + entries.take(j + 1)).drop_last() =~= prefix);
        assert((before + entries.take(j + 1)).last() == entries[j as int]);
        insert_line(sorted, entry);
        j += 1;
    }
    assert(entries.take(j as int) =~= entries);
    all_clean
}

/// The entries of `input` ordered by time, and whether every line is clean.
fn parse_lrc_with_check(input: &str) -> (r: (SongLyrics, bool))
    ensures
        r.0@ == parsed_lrc(input@),
        r.1 == lrc_is_clean(input@),
{
    let v = chars_of(input);
    let mut sorted: Vec<LyricsLine> = Vec::new();
    let mut clean = true;
    let ghost mut done: Seq<Seq<char>> = seq![];
    let mut pos: usize = 0;
    assert(v@.skip(0) =~= v@);
    assert(line_views(sorted@) =~= Seq::<LineView>::empty());
    while pos < v.len()
        invariant
            pos <= v.len(),
            v@ == input@,
            done + text_lines(v@.skip(pos as int)) == text_lines(v@),
            line_views(sorted@) == sort_by_time(entries_of_lines(done)),
            clean == forall|i: int| 0 <= i < done.len() ==> line_is_clean(#[trigger] done[i]),
        decreases v.len() - pos,
    {
        let ghost rest = v@.skip(pos as int);
        let mut k = pos;
        while k < v.len() && v[k] != '\n'
            invariant
                pos <= k <= v.len(),
                rest == v@.skip(pos as int),
                line_end(rest) == (k - pos) + line_end(v@.skip(k as int)),
            decreases v.len() - k,
        {
            assert(v@.skip(k as int).drop_first() =~= v@.skip(k + 1));
            assert(v@.skip(k as int)[0] == v@[k as int]);
            k += 1;
        }
        if k < v.len() {
            assert(v@.skip(k as int)[0] == v@[k as int]);
        }
        assert(line_end(rest) == k - pos);
        let ghost prev_done = done;
        let ghost prev_entries = entries_of_lines(done);
        let mut e = k;
        if k < v.len() && k > pos && v[k - 1] == '\r' {
            e = k - 1;
        }
        let ghost line = v@.subrange(pos as int, e as int);
        let line_clean = parse_line(&v, pos, e, &mut sorted, Ghost(prev_entries));
        proof {
            done = done.push(line);
        }
        assert(done.drop_last() =~= prev_done);
        assert(entries_of_lines(done) == prev_entries + line_entries(line));
        let ghost old_clean = clean;
        clean = clean && line_clean;
        assert(clean == forall|i: int| 0 <= i < done.len() ==> line_is_clean(#[trigger] done[i]))
            by {
            if clean {
                assert forall|i: int| 0 <= i < done.len() implies line_is_clean(
                    #[trigger] done[i],
                ) by {
                    if i < prev_done.len() {
                        assert(done[i] == prev_done[i]);
                    }
                }
            } else if !old_clean {
                let i = choose|i: int| 0 <= i < prev_done.len() && !line_is_clean(
                    #[trigger] prev_done[i],
                );
                assert(done[i] == prev_done[i]);
            } else {
                assert(done[prev_done.len() as int] == line);
            }
        }
        if k < v.len() {
            assert(rest.take((k - pos) as int) =~= v@.subrange(pos as int, k as int));
            assert(strip_cr(rest.take((k - pos) as int)) =~= line);
            assert(rest.skip((k - pos) + 1) =~= v@.skip(k + 1));
            assert(text_lines(rest) == seq![line] + text_lines(v@.skip(k + 1)));
            assert(done + text_lines(v@.skip(k + 1)) =~= prev_done + text_lines(rest));
            pos = k + 1;
        } else {
            assert(rest =~= line);
            assert(v@.skip(k as int) =~= Seq::<char>::empty());
            assert(text_lines(rest) == seq![line]);
            assert(done + text_lines(v@.skip(k as int)) =~= prev_done + text_lines(rest));
            pos = k;
        }
    }
    assert(v@.skip(pos as int) =~= Seq::<char>::empty());
    assert(done =~= text_lines(v@));
    (SongLyrics { lines: sorted }, clean)
}

/// Reads LRC text: one entry per timestamp of each line with text, ordered
/// by time, entries of equal time in the order written.
///
/// Input holding a line with text and a timestamp whose fraction of three or
/// more bytes cannot be cut after its third byte is left out; see
/// [`parse_lrc_checked`].
pub fn parse_lrc(input: &str) -> (r: SongLyrics)
    requires
        lrc_is_clean(input@),
    ensures
        r@ == parsed_lrc(input@),
        time_ordered(r@),
{
    let (lyrics, _) = parse_lrc_with_check(input);
    proof {
        lemma_sort_ordered(entries_of_lines(text_lines(input@)));
    }
    lyrics
}

/// [`parse_lrc`] on any input: `None` exactly for the input it leaves out.
pub fn parse_lrc_checked(input: &str) -> (r: Option<SongLyrics>)
    ensures
        match r {
            Some(l) => lrc_is_clean(input@) && l@ == parsed_lrc(input@),
            None => !lrc_is_clean(input@),
        },
{
    let (lyrics, clean) = parse_lrc_with_check(input);
    if clean {
        Some(lyrics)
    } else {
        None
    }
}

/// Every element of a time-sorted sequence comes from the sequence sorted.
proof fn lemma_sort_elements(s: Seq<LineView>)
    ensures
        forall|i: int| 0 <= i < sort_by_time(s).len() ==> s.contains(#[trigger] sort_by_time(s)[i]),
    decreases s.len(),
{
    if s.len() > 0 {
        lemma_sort_elements(s.drop_last());
        lemma_sort_ordered(s.drop_last());
        let r = sort_by_time(s.drop_last());
        lemma_insert_ordered(r, s.last());
        assert forall|i: int| 0 <= i < sort_by_time(s).len() implies s.contains(
            #[trigger] sort_by_time(s)[i],
        ) by {
            let e = sort_by_time(s)[i];
            if e == s.last() {
                assert(s[s.len() - 1] == e);
            } else {
                assert(r.contains(e));
                let k = choose|k: int| 0 <= k < r.len() && r[k] == e;
                assert(s.drop_last().contains(r[k]));
                let m = choose|m: int| 0 <= m < s.drop_last().len() && s.drop_last()[m] == e;
                assert(s[m] == e);
            }
        }
    }
}

proof fn lemma_entries_have_text(ls: Seq<Seq<char>>)
    ensures
        forall|i: int|
            0 <= i < entries_of_lines(ls).len() ==> (#[trigger] entries_of_lines(ls)[i]).text.len()
                > 0,
    decreases ls.len(),
{
    if ls.len() > 0 {
        lemma_entries_have_text(ls.drop_last());
        let a = entries_of_lines(ls.drop_last());
        let b = line_entries(ls.last());
        assert forall|i: int| 0 <= i < (a + b).len() implies (#[trigger] (a + b)[i]).text.len()
            > 0 by {
            if i >= a.len() {
                assert((a + b)[i] == b[i - a.len()]);
            }
        }
    }
}

/// Every entry read from LRC text has non-empty text.
pub proof fn law_parsed_entries_have_text(input: Seq<char>)
    ensures
        forall|i: int|
            0 <= i < parsed_lrc(input).len() ==> (#[trigger] parsed_lrc(input)[i]).text.len() > 0,
{
    let e = entries_of_lines(text_lines(input));
    lemma_entries_have_text(text_lines(input));
    lemma_sort_elements(e);
    assert forall|i: int| 0 <= i < parsed_lrc(input).len() implies (
    #[trigger] parsed_lrc(input)[i]).text.len() > 0 by {
        let k = choose|k: int| 0 <= k < e.len() && e[k] == parsed_lrc(input)[i];
    }
}

/// Reading LRC text yields entries ordered by time.
pub proof fn law_parsed_entries_ordered(input: Seq<char>)
    ensures
        time_ordered(parsed_lrc(input)),
        parsed_lrc(input).len() == entries_of_lines(text_lines(input)).len(),
{
    lemma_sort_ordered(entries_of_lines(text_lines(input)));
}

proof fn lemma_digit_run_stops(d: Seq<char>, rest: Seq<char>)
    requires
        forall|i: int| 0 <= i < d.len() ==> is_decimal_digit(#[trigger] d[i]),
        rest.len() > 0,
        !is_decimal_digit(rest[0]),
    ensures
        digit_run(d + rest) == d.len(),
    decreases d.len(),
{
    if d.len() == 0 {
        assert(d + rest =~= rest);
    } else {
        assert((d + rest)[0] == d[0]);
        assert((d + rest).drop_first() =~= d.drop_first() + rest);
        assert forall|i: int| 0 <= i < d.drop_first().len() implies is_decimal_digit(
            #[trigger] d.drop_first()[i],
        ) by {
            assert(d.drop_first()[i] == d[i + 1]);
        }
        lemma_digit_run_stops(d.drop_first(), rest);
    }
}

proof fn lemma_ascii_utf8_len(f: Seq<char>)
    requires
        all_ascii_digits(f),
    ensures
        utf8_len(f) == f.len(),
    decreases f.len(),
{
    if f.len() > 0 {
        assert('0' <= f[0] <= '9');
        assert(all_ascii_digits(f.drop_first())) by {
            assert forall|i: int| 0 <= i < f.drop_first().len() implies '0' <= #[trigger] f.drop_first()[i]
                <= '9' by {
                assert(f.drop_first()[i] == f[i + 1]);
            }
        }
        lemma_ascii_utf8_len(f.drop_first());
    }
}

proof fn lemma_ascii_chars_in_bytes(f: Seq<char>, n: nat)
    requires
        all_ascii_digits(f),
        n <= f.len(),
    ensures
        chars_in_bytes(f, n) == Some(n),
    decreases f.len(),
{
    if n > 0 {
        assert('0' <= f[0] <= '9');
        assert(all_ascii_digits(f.drop_first())) by {
            assert forall|i: int| 0 <= i < f.drop_first().len() implies '0' <= #[trigger] f.drop_first()[i]
                <= '9' by {
                assert(f.drop_first()[i] == f[i + 1]);
            }
        }
        lemma_ascii_chars_in_bytes(f.drop_first(), (n - 1) as nat);
    }
}

/// A timestamp `[m:ss]` is read wherever it starts: for one to three digits
/// of minutes and two of seconds, all ASCII (and so `\d`) digits, it spans
/// its characters and stands for `(m * 60 + ss) * 1000` milliseconds.
pub proof fn law_stamp_read(m: Seq<char>, ss: Seq<char>, rest: Seq<char>)
    requires
        1 <= m.len() <= 3,
        ss.len() == 2,
        all_ascii_digits(m),
        all_ascii_digits(ss),
        forall|i: int| 0 <= i < m.len() ==> is_decimal_digit(#[trigger] m[i]),
        forall|i: int| 0 <= i < ss.len() ==> is_decimal_digit(#[trigger] ss[i]),
        !is_decimal_digit(':'),
    ensures
        stamp_at(seq!['['] + m + seq![':'] + ss + seq![']'] + rest) == Some(
            Stamp { len: m.len() + 5, minutes: m, seconds: ss, fraction: None },
        ),
        stamp_millis(Stamp { len: m.len() + 5, minutes: m, seconds: ss, fraction: None }) == (
        ascii_value(m) * 60 + ascii_value(ss)) * 1000,
{
    let t = seq!['['] + m + seq![':'] + ss + seq![']'] + rest;
    let after = seq![':'] + ss + seq![']'] + rest;
    assert(t.skip(1) =~= m + after);
    lemma_digit_run_stops(m, after);
    let p: int = 1 + m.len() as int;
    assert(t[p] == ':');
    assert(t[p + 1] == ss[0]);
    assert(t[p + 2] == ss[1]);
    assert(t[p + 3] == ']');
    assert(t.subrange(1, p) =~= m);
    assert(t.subrange(p + 1, p + 3) =~= ss);
}

/// A timestamp with a fraction, `[m:ss.f]` or `[m:ss:f]`, with one to three
/// ASCII digits of fraction: it spans its characters, and the fraction adds
/// tenths, hundredths or thousandths of a second by its number of digits.
pub proof fn law_stamp_with_fraction_read(
    m: Seq<char>,
    ss: Seq<char>,
    sep: char,
    f: Seq<char>,
    rest: Seq<char>,
)
    requires
        1 <= m.len() <= 3,
        ss.len() == 2,
        1 <= f.len() <= 3,
        sep == '.' || sep == ':',
        all_ascii_digits(m),
        all_ascii_digits(ss),
        all_ascii_digits(f),
        forall|i: int| 0 <= i < m.len() ==> is_decimal_digit(#[trigger] m[i]),
        forall|i: int| 0 <= i < ss.len() ==> is_decimal_digit(#[trigger] ss[i]),
        forall|i: int| 0 <= i < f.len() ==> is_decimal_digit(#[trigger] f[i]),
        !is_decimal_digit(':'),
        !is_decimal_digit(']'),
    ensures
        stamp_at(seq!['['] + m + seq![':'] + ss + seq![sep] + f + seq![']'] + rest) == Some(
            Stamp { len: m.len() + f.len() + 6, minutes: m, seconds: ss, fraction: Some(f) },
        ),
        stamp_millis(Stamp { len: m.len() + f.len() + 6, minutes: m, seconds: ss, fraction: Some(f) })
            == (ascii_value(m) * 60 + ascii_value(ss)) * 1000 + if f.len() == 1 {
            ascii_value(f) * 100
        } else if f.len() == 2 {
            ascii_value(f) * 10
        } else {
            ascii_value(f)
        },
{
    let t = seq!['['] + m + seq![':'] + ss + seq![sep] + f + seq![']'] + rest;
    let after = seq![':'] + ss + seq![sep] + f + seq![']'] + rest;
    assert(t.skip(1) =~= m + after);
    lemma_digit_run_stops(m, after);
    let p: int = 1 + m.len() as int;
    let q: int = p + 3;
    assert(t[p] == ':');
    assert(t[p + 1] == ss[0]);
    assert(t[p + 2] == ss[1]);
    assert(t[q] == sep);
    let tail = seq![']'] + rest;
    assert(t.skip(q + 1) =~= f + tail);
    lemma_digit_run_stops(f, tail);
    assert(t[q + 1 + f.len() as int] == ']');
    assert(t.subrange(1, p) =~= m);
    assert(t.subrange(p + 1, q) =~= ss);
    assert(t.subrange(q + 1, q + 1 + f.len() as int) =~= f);
    lemma_ascii_utf8_len(f);
    if f.len() == 3 {
        lemma_ascii_chars_in_bytes(f, 3);
        assert(f.take(3) =~= f);
    }
}

proof fn lemma_no_stamps(t: Seq<char>)
    requires
        forall|i: int| 0 <= i < t.len() ==> #[trigger] t[i] != '[',
    ensures
        strip_stamps(t) == t,
        stamps_in(t) == Seq::<Stamp>::empty(),
    decreases t.len(),
{
    if t.len() > 0 {
        assert(t[0] != '[');
        assert(stamp_len(t) == 0);
        let d = t.drop_first();
        assert forall|i: int| 0 <= i < d.len() implies #[trigger] d[i] != '[' by {
            assert(d[i] == t[i + 1]);
        }
        lemma_no_stamps(d);
        assert(seq![t[0]] + d =~= t);
    }
}

proof fn lemma_no_newline(t: Seq<char>)
    requires
        forall|i: int| 0 <= i < t.len() ==> #[trigger] t[i] != '\n',
    ensures
        line_end(t) == t.len(),
    decreases t.len(),
{
    if t.len() > 0 {
        let d = t.drop_first();
        assert forall|i: int| 0 <= i < d.len() implies #[trigger] d[i] != '\n' by {
            assert(d[i] == t[i + 1]);
        }
        assert(t[0] != '\n');
        lemma_no_newline(d);
    }
}

/// A one-line LRC text `[m:ss]text` gives exactly one entry: that text at
/// `(m * 60 + ss) * 1000` milliseconds, for one to three digits of minutes,
/// two of seconds, and a text with something in it, no `[`, no line break
/// and no surrounding white space.
pub proof fn law_single_line_read(m: Seq<char>, ss: Seq<char>, text: Seq<char>)
    requires
        1 <= m.len() <= 3,
        ss.len() == 2,
        all_ascii_digits(m),
        all_ascii_digits(ss),
        forall|i: int| 0 <= i < m.len() ==> is_decimal_digit(#[trigger] m[i]),
        forall|i: int| 0 <= i < ss.len() ==> is_decimal_digit(#[trigger] ss[i]),
        !is_decimal_digit(':'),
        text.len() > 0,
        trim(text) == text,
        forall|i: int| 0 <= i < text.len() ==> #[trigger] text[i] != '[' && text[i] != '\n',
    ensures
        parsed_lrc(seq!['['] + m + seq![':'] + ss + seq![']'] + text) == seq![
            LineView {
                time: ((ascii_value(m) * 60 + ascii_value(ss)) * 1000) as u64,
                text,
                text_translated: None,
            },
        ],
{
    let line = seq!['['] + m + seq![':'] + ss + seq![']'] + text;
    let st = Stamp { len: m.len() + 5, minutes: m, seconds: ss, fraction: None };
    law_stamp_read(m, ss, text);
    assert(stamp_len(line) == m.len() + 5);
    assert(line.skip(m.len() as int + 5) =~= text);
    assert forall|i: int| 0 <= i < text.len() implies #[trigger] text[i] != '[' by {}
    lemma_no_stamps(text);
    assert(strip_stamps(line) == text);
    assert(stamps_in(line) =~= seq![st]);
    assert(line_text(line) == text);
    let e = LineView {
        time: ((ascii_value(m) * 60 + ascii_value(ss)) * 1000) as u64,
        text,
        text_translated: None,
    };
    assert(line_entries(line) =~= seq![e]);
    assert forall|i: int| 0 <= i < line.len() implies #[trigger] line[i] != '\n' by {
        if i >= line.len() - text.len() {
            assert(line[i] == text[i - (line.len() - text.len())]);
        } else if i < 1 + m.len() {
            if i > 0 {
                assert(line[i] == m[i - 1]);
                assert('0' <= m[i - 1] <= '9');
            }
        } else if i > 1 + m.len() && i < 3 + m.len() + 1 {
            assert(line[i] == ss[i - 2 - m.len()]);
            assert('0' <= ss[i - 2 - m.len()] <= '9');
        }
    }
    lemma_no_newline(line);
    assert(text_lines(line) == seq![line]);
    let ls = seq![line];
    assert(ls.drop_last() =~= Seq::<Seq<char>>::empty());
    assert(ls.last() == line);
    assert(entries_of_lines(ls.drop_last()) == Seq::<LineView>::empty());
    assert(entries_of_lines(ls) == entries_of_lines(ls.drop_last()) + line_entries(ls.last()));
    assert(entries_of_lines(ls) =~= seq![e]);
    let es = seq![e];
    assert(es.drop_last() =~= Seq::<LineView>::empty());
    assert(es.last() == e);
    assert(sort_by_time(es.drop_last()) == Seq::<LineView>::empty());
    assert(sort_by_time(es) == insert_by_time(Seq::<LineView>::empty(), e));
}

} // verus!
