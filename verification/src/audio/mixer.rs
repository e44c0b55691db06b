//! The player's copy of a pattern: the settings and cells it plays from.
use vstd::prelude::*;

use crate::project::pattern::{Cell, Pattern};

verus! {

/// How many samples the scope of each track keeps.
pub const SCOPE_SIZE: usize = 256;

/// The sample rate the player runs at.
pub const SAMPLE_RATE: u32 = 44100;

/// A pattern as the player sees it: its rows, tempo and note values, the rows of each
/// track, and the cells.
pub struct PatternSnapshot {
    pub rows: usize,
    pub bpm: u16,
    pub time_sig_denominator: u8,
    pub note_value: u8,
    pub track_rows: Vec<usize>,
    pub track_note_values: Vec<u8>,
    pub data: Vec<Vec<Vec<Cell>>>,
}

impl PatternSnapshot {
    /// The cells of the snapshot: track, voice, row.
    pub open spec fn grid(self) -> Seq<Seq<Seq<Cell>>> {
        self.data@.map_values(|ch: Vec<Vec<Cell>>| ch@.map_values(|v: Vec<Cell>| v@))
    }

    /// A snapshot of `pattern`: its settings, the current rows of each of its tracks, and
    /// a copy of its cells.
    pub fn from_pattern(pattern: &Pattern) -> (r: PatternSnapshot)
        ensures
            r.rows == pattern.rows,
            r.bpm == pattern.bpm,
            r.time_sig_denominator == pattern.time_sig_denominator,
            r.note_value == pattern.note_value,
            r.track_rows@ == Seq::new(
                pattern.data@.len(),
                |ch: int| pattern.track_rows_spec(ch) as usize,
            ),
            r.track_note_values@ == pattern.track_note_values@,
            r.grid() == pattern.grid(),
    {
        let mut track_rows: Vec<usize> = Vec::new();
        let mut ch: usize = 0;
        while ch < pattern.data.len()
            invariant
                ch <= pattern.data@.len(),
                track_rows@ == Seq::new(ch as nat, |c: int| pattern.track_rows_spec(c) as usize),
            decreases pattern.data@.len() - ch,
        {
            let r = pattern.track_rows(ch);
            track_rows.push(r);
            ch = ch + 1;
            assert(track_rows@ =~= Seq::new(ch as nat, |c: int| pattern.track_rows_spec(c) as usize));
        }
        let track_note_values = pattern.track_note_values.clone();
        assert(track_note_values@ =~= pattern.track_note_values@);
        PatternSnapshot {
            rows: pattern.rows,
            bpm: pattern.bpm,
            time_sig_denominator: pattern.time_sig_denominator,
            note_value: pattern.note_value,
            track_rows,
            track_note_values,
            data: pattern.copy_data(),
        }
    }
}

} // verus!
