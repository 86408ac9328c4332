//! The lyrics payload for one track, as decoded from the wire.

use vstd::prelude::*;

use crate::json::Json;
use crate::timefmt::MS_PER_DAY;

verus! {

/// One lyric entry: a start and an end time of day (milliseconds into the
/// day), the display text, and its syllable strings.
#[derive(Debug)]
pub struct Line {
    /// Start of the line, milliseconds into the day.
    pub start_time_ms: u64,
    /// Display text, emitted exactly as decoded.
    pub words: String,
    /// Syllable strings.
    pub syllables: Vec<String>,
    /// End of the line, milliseconds into the day.
    pub end_time_ms: u64,
}

/// The mathematical value of a `Line`.
pub ghost struct LineView {
    pub start_time_ms: int,
    pub words: Seq<char>,
    pub syllables: Seq<Seq<char>>,
    pub end_time_ms: int,
}

impl View for Line {
    type V = LineView;

    open spec fn view(&self) -> LineView {
        LineView {
            start_time_ms: self.start_time_ms as int,
            words: self.words@,
            syllables: self.syllables.deep_view(),
            end_time_ms: self.end_time_ms as int,
        }
    }
}

impl Line {
    /// Both times of a decoded line are times of day.
    pub open spec fn wf(self) -> bool {
        self.start_time_ms < MS_PER_DAY && self.end_time_ms < MS_PER_DAY
    }
}

/// The full lyrics payload for one track.
#[derive(Debug)]
pub struct Lyrics {
    pub sync_type: String,
    pub lines: Vec<Line>,
    pub provider: String,
    pub provider_lyrics_id: String,
    pub provider_display_name: String,
    pub sync_lyrics_uri: String,
    pub is_dense_typeface: bool,
    pub alternatives: Vec<String>,
    pub language: String,
    pub is_rtl_language: bool,
    pub cap_status: String,
    /// Preview-line values, opaque JSON passed through without
    /// interpretation.
    pub preview_lines: Vec<Json>,
}

/// The mathematical value of a `Lyrics`.
pub ghost struct LyricsView {
    pub sync_type: Seq<char>,
    pub lines: Seq<LineView>,
    pub provider: Seq<char>,
    pub provider_lyrics_id: Seq<char>,
    pub provider_display_name: Seq<char>,
    pub sync_lyrics_uri: Seq<char>,
    pub is_dense_typeface: bool,
    pub alternatives: Seq<Seq<char>>,
    pub language: Seq<char>,
    pub is_rtl_language: bool,
    pub cap_status: Seq<char>,
    pub preview_lines: Seq<Json>,
}

impl View for Lyrics {
    type V = LyricsView;

    open spec fn view(&self) -> LyricsView {
        LyricsView {
            sync_type: self.sync_type@,
            lines: self.lines@.map_values(|l: Line| l@),
            provider: self.provider@,
            provider_lyrics_id: self.provider_lyrics_id@,
            provider_display_name: self.provider_display_name@,
            sync_lyrics_uri: self.sync_lyrics_uri@,
            is_dense_typeface: self.is_dense_typeface,
            alternatives: self.alternatives.deep_view(),
            language: self.language@,
            is_rtl_language: self.is_rtl_language,
            cap_status: self.cap_status@,
            preview_lines: self.preview_lines@,
        }
    }
}

impl Lyrics {
    /// Every decoded line is well formed.
    pub open spec fn wf(self) -> bool {
        forall|i: int| 0 <= i < self.lines@.len() ==> (#[trigger] self.lines@[i]).wf()
    }
}

} // verus!
