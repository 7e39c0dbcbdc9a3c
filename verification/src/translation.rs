//! Decisions of the translator: what is worth translating, how an answer is
//! read and accepted, and the memory of earlier translations.

use vstd::prelude::*;
use crate::text::{chars_of, extend_chars, join_with, same_text, string_of, trim, trim_string};

verus! {

/// Whether `text` has anything to translate: it is not blank.
pub fn needs_translation(text: &str) -> (r: bool)
    ensures
        r == (trim(text@).len() > 0),
{
    let t = trim_string(text);
    !t.as_str().is_empty()
}

/// The key of a translation: language, NUL, text.
pub fn translation_key(language: &str, text: &str) -> (r: String)
    ensures
        r@ == language@ + seq!['\0'] + text@,
{
    join_with(language, '\0', text)
}

/// The pieces of a translation answer that are text, joined.
pub open spec fn joined_parts(parts: Seq<Option<String>>) -> Seq<char>
    decreases parts.len(),
{
    if parts.len() == 0 {
        seq![]
    } else {
        joined_parts(parts.drop_last()) + match parts.last() {
            Some(s) => s@,
            None => Seq::<char>::empty(),
        }
    }
}

/// The translated text of an answer: its text pieces joined, trimmed.
pub fn joined_translation(parts: &Vec<Option<String>>) -> (r: String)
    ensures
        r@ == trim(joined_parts(parts@)),
{
    let mut out: Vec<char> = Vec::new();
    let mut i: usize = 0;
    while i < parts.len()
        invariant
            i <= parts.len(),
            out@ == joined_parts(parts@.take(i as int)),
        decreases parts.len() - i,
    {
        assert(parts@.take(i + 1).drop_last() =~= parts@.take(i as int));
        match &parts[i] {
            Some(s) => {
                let v = chars_of(s.as_str());
                extend_chars(&mut out, &v);
            },
            None => {
                assert(out@ =~= out@ + Seq::<char>::empty());
            },
        }
        i += 1;
    }
    assert(parts@.take(i as int) =~= parts@);
    let joined = string_of(&out);
    trim_string(joined.as_str())
}

/// `c` with ASCII upper-case letters made lower-case.
pub open spec fn ascii_lower(c: char) -> char {
    if 'A' <= c <= 'Z' {
        ((c as u32) + 32) as char
    } else {
        c
    }
}

/// Whether `a` and `b` are equal when ASCII letters are compared without case.
pub open spec fn eq_ignore_ascii_case_spec(a: Seq<char>, b: Seq<char>) -> bool {
    a.len() == b.len() && forall|i: int| 0 <= i < a.len() ==> ascii_lower(#[trigger] a[i]) == ascii_lower(b[i])
}

/// `c` with ASCII upper-case letters made lower-case.
fn lower_ascii(c: char) -> (r: char)
    ensures
        r == ascii_lower(c),
{
    if 'A' <= c && c <= 'Z' {
        ((c as u8) + 32) as char
    } else {
        c
    }
}

/// Whether `a` and `b` are equal when ASCII letters are compared without case.
pub fn eq_ignore_ascii_case(a: &str, b: &str) -> (r: bool)
    ensures
        r == eq_ignore_ascii_case_spec(a@, b@),
{
    let x = chars_of(a);
    let y = chars_of(b);
    if x.len() != y.len() {
        return false;
    }
    let mut i: usize = 0;
    while i < x.len()
        invariant
            x.len() == y.len(),
            x@ == a@,
            y@ == b@,
            i <= x.len(),
            forall|j: int| 0 <= j < i ==> ascii_lower(#[trigger] x@[j]) == ascii_lower(y@[j]),
        decreases x.len() - i,
    {
        if lower_ascii(x[i]) != lower_ascii(y[i]) {
            return false;
        }
        i += 1;
    }
    true
}

/// Whether a translation is kept: it is not empty and differs from the
/// trimmed original beyond ASCII case.
pub fn accepted_translation(text: &str, translated: &str) -> (r: bool)
    ensures
        r == (translated@.len() > 0 && !eq_ignore_ascii_case_spec(translated@, trim(text@))),
{
    if translated.is_empty() {
        return false;
    }
    let t = trim_string(text);
    !eq_ignore_ascii_case(translated, t.as_str())
}

/// The translations made so far, by key.
pub struct TranslationCache {
    entries: Vec<(String, String)>,
}

/// The map that a list of insertions leaves: later ones win.
pub open spec fn pairs_map(s: Seq<(String, String)>) -> Map<Seq<char>, Seq<char>>
    decreases s.len(),
{
    if s.len() == 0 {
        Map::empty()
    } else {
        pairs_map(s.drop_last()).insert(s.last().0@, s.last().1@)
    }
}

impl View for TranslationCache {
    type V = Map<Seq<char>, Seq<char>>;

    closed spec fn view(&self) -> Map<Seq<char>, Seq<char>> {
        pairs_map(self.entries@)
    }
}

impl TranslationCache {
    /// No translations.
    pub fn new() -> (r: Self)
        ensures
            r@ == Map::<Seq<char>, Seq<char>>::empty(),
    {
        TranslationCache { entries: Vec::new() }
    }

    /// The translation stored under `key`, if any.
    pub fn get(&self, key: &str) -> (r: Option<String>)
        ensures
            match r {
                Some(v) => self@.contains_key(key@) && self@[key@] == v@,
                None => !self@.contains_key(key@),
            },
    {
        let ghost s = self.entries@;
        let mut i = self.entries.len();
        assert(s.take(i as int) =~= s);
        while i > 0
            invariant
                i <= s.len(),
                s == self.entries@,
                pairs_map(s).contains_key(key@) == pairs_map(s.take(i as int)).contains_key(key@),
                pairs_map(s).contains_key(key@) ==> pairs_map(s)[key@] == pairs_map(
                    s.take(i as int),
                )[key@],
            decreases i,
        {
            let e = &self.entries[i - 1];
            assert(s.take(i as int).drop_last() =~= s.take(i - 1));
            assert(s.take(i as int).last() == *e);
            if same_text(e.0.as_str(), key) {
                return Some(e.1.clone());
            }
            i -= 1;
        }
        assert(s.take(0) =~= Seq::<(String, String)>::empty());
        None
    }

    /// Stores `value` under `key`, replacing what was there.
    pub fn insert(&mut self, key: String, value: String)
        ensures
            final(self)@ == old(self)@.insert(key@, value@),
    {
        let ghost s = self.entries@;
        self.entries.push((key, value));
        assert(self.entries@.drop_last() =~= s);
    }
}

/// A translation read back under its key is the one stored last under it;
/// storing under one key leaves the others as they were.
pub proof fn law_cache_read_after_write(
    m: Map<Seq<char>, Seq<char>>,
    key: Seq<char>,
    value: Seq<char>,
    other: Seq<char>,
)
    requires
        other != key,
    ensures
        m.insert(key, value).contains_key(key),
        m.insert(key, value)[key] == value,
        m.insert(key, value).contains_key(other) == m.contains_key(other),
        m.contains_key(other) ==> m.insert(key, value)[other] == m[other],
{
}

} // verus!
