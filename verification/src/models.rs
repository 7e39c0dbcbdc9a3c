//! The lyrics and playback data shared by every part of the program.

use vstd::prelude::*;

verus! {

/// One synchronised line: when it starts (milliseconds) and what it says.
#[derive(Clone, Debug, Default, PartialEq)]
pub struct LyricsLine {
    pub time: u64,
    pub text: String,
    pub text_translated: Option<String>,
}

/// The mathematical value of a [`LyricsLine`].
pub struct LineView {
    pub time: u64,
    pub text: Seq<char>,
    pub text_translated: Option<Seq<char>>,
}

/// The view of an optional string.
pub open spec fn opt_view(o: Option<String>) -> Option<Seq<char>> {
    match o {
        Some(s) => Some(s@),
        None => None,
    }
}

impl View for LyricsLine {
    type V = LineView;

    open spec fn view(&self) -> LineView {
        LineView { time: self.time, text: self.text@, text_translated: opt_view(self.text_translated) }
    }
}

/// The views of a sequence of lines.
pub open spec fn line_views(s: Seq<LyricsLine>) -> Seq<LineView> {
    s.map_values(|l: LyricsLine| l@)
}

/// The lines of one song, in the order in which they are sung.
#[derive(Clone, Debug, Default)]
pub struct SongLyrics {
    pub lines: Vec<LyricsLine>,
}

impl View for SongLyrics {
    type V = Seq<LineView>;

    open spec fn view(&self) -> Seq<LineView> {
        line_views(self.lines@)
    }
}

/// A copy of an optional string.
pub fn copy_opt_string(o: &Option<String>) -> (r: Option<String>)
    ensures
        opt_view(r) == opt_view(*o),
{
    match o {
        Some(s) => Some(s.clone()),
        None => None,
    }
}

impl LyricsLine {
    /// A copy of this line.
    pub fn duplicate(&self) -> (r: LyricsLine)
        ensures
            r@ == self@,
    {
        LyricsLine {
            time: self.time,
            text: self.text.clone(),
            text_translated: copy_opt_string(&self.text_translated),
        }
    }
}

impl SongLyrics {
    /// A copy of these lyrics.
    pub fn duplicate(&self) -> (r: SongLyrics)
        ensures
            r@ == self@,
    {
        let mut lines: Vec<LyricsLine> = Vec::new();
        let mut i: usize = 0;
        while i < self.lines.len()
            invariant
                i <= self.lines.len(),
                line_views(lines@) == line_views(self.lines@).take(i as int),
            decreases self.lines.len() - i,
        {
            let l = self.lines[i].duplicate();
            let ghost prev = lines@;
            lines.push(l);
            assert(line_views(lines@) =~= line_views(prev).push(l@));
            assert(line_views(self.lines@).take(i + 1) =~= line_views(self.lines@).take(
                i as int,
            ).push(self.lines@[i as int]@));
            i += 1;
        }
        assert(line_views(self.lines@).take(i as int) =~= line_views(self.lines@));
        SongLyrics { lines }
    }
}

/// What is playing and how far it has got.
#[derive(Clone, Debug, Default)]
pub struct PlaybackState {
    pub song_name: String,
    pub song_author: String,
    pub song_id: String,
    pub song_duration: u64,
    pub song_progress: u64,
    pub lyrics: Option<SongLyrics>,
    pub current_line: Option<LyricsLine>,
    pub is_playing: bool,
}

/// `a + b`, held at `u64::MAX`.
pub open spec fn saturating_add_spec(a: u64, b: u64) -> u64 {
    if a + b > u64::MAX {
        u64::MAX
    } else {
        (a + b) as u64
    }
}

impl PlaybackState {
    /// Whether the position has passed the end of a song of known length.
    pub open spec fn has_ended(&self) -> bool {
        self.song_duration > 0 && self.song_progress > self.song_duration
    }

    /// Whether the position has passed the end of a song of known length.
    pub fn ended(&self) -> (r: bool)
        ensures
            r == self.has_ended(),
    {
        self.song_duration > 0 && self.song_progress > self.song_duration
    }

    /// Moves the position on by `elapsed` milliseconds while the song plays.
    pub fn advance(&mut self, elapsed: u64)
        ensures
            final(self).song_progress == if old(self).is_playing {
                saturating_add_spec(old(self).song_progress, elapsed)
            } else {
                old(self).song_progress
            },
            final(self).song_name == old(self).song_name,
            final(self).song_author == old(self).song_author,
            final(self).song_id == old(self).song_id,
            final(self).song_duration == old(self).song_duration,
            final(self).lyrics == old(self).lyrics,
            final(self).current_line == old(self).current_line,
            final(self).is_playing == old(self).is_playing,
    {
        if self.is_playing {
            self.song_progress = self.song_progress.saturating_add(elapsed);
        }
    }
}

} // verus!
