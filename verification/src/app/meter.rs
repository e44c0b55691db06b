//! The pattern's meter as the header edits it: the time signature and measures, each
//! track's note value, and the names of the note values.
use vstd::prelude::*;

use crate::project::pattern::{lemma_same_settings_rows, resized_voices, Pattern};
use crate::text::{decimal, push_decimal};

verus! {

/// The name of a note value the menu offers: a fraction of a whole note, with "T" for
/// triplets and "·k" for other tuplets.
pub open spec fn subdivision_name(nv: u8) -> Option<Seq<char>> {
    if nv == 1 {
        Some("1/1"@)
    } else if nv == 2 {
        Some("1/2"@)
    } else if nv == 3 {
        Some("1/2T"@)
    } else if nv == 4 {
        Some("1/4"@)
    } else if nv == 5 {
        Some("1/4·5"@)
    } else if nv == 6 {
        Some("1/4T"@)
    } else if nv == 7 {
        Some("1/4·7"@)
    } else if nv == 8 {
        Some("1/8"@)
    } else if nv == 9 {
        Some("1/8·9"@)
    } else if nv == 10 {
        Some("1/8·5"@)
    } else if nv == 11 {
        Some("1/8·11"@)
    } else if nv == 12 {
        Some("1/8T"@)
    } else if nv == 14 {
        Some("1/8·7"@)
    } else if nv == 16 {
        Some("1/16"@)
    } else if nv == 18 {
        Some("1/16·9"@)
    } else if nv == 20 {
        Some("1/16·5"@)
    } else if nv == 22 {
        Some("1/16·11"@)
    } else if nv == 24 {
        Some("1/16T"@)
    } else if nv == 28 {
        Some("1/16·7"@)
    } else if nv == 32 {
        Some("1/32"@)
    } else if nv == 36 {
        Some("1/32·9"@)
    } else if nv == 40 {
        Some("1/32·5"@)
    } else if nv == 44 {
        Some("1/32·11"@)
    } else if nv == 48 {
        Some("1/32T"@)
    } else if nv == 56 {
        Some("1/32·7"@)
    } else if nv == 64 {
        Some("1/64"@)
    } else {
        None
    }
}

/// The name of a note value of the menu, as a literal.
fn subdivision_str(nv: u8) -> (r: Option<&'static str>)
    ensures
        match subdivision_name(nv) {
            Some(s) => r matches Some(t) && t@ == s,
            None => r is None,
        },
{
    proof {
        reveal_strlit("1/1");
        reveal_strlit("1/2");
        reveal_strlit("1/2T");
        reveal_strlit("1/4");
        reveal_strlit("1/4·5");
        reveal_strlit("1/4T");
        reveal_strlit("1/4·7");
        reveal_strlit("1/8");
        reveal_strlit("1/8·9");
        reveal_strlit("1/8·5");
        reveal_strlit("1/8·11");
        reveal_strlit("1/8T");
        reveal_strlit("1/8·7");
        reveal_strlit("1/16");
        reveal_strlit("1/16·9");
        reveal_strlit("1/16·5");
        reveal_strlit("1/16·11");
        reveal_strlit("1/16T");
        reveal_strlit("1/16·7");
        reveal_strlit("1/32");
        reveal_strlit("1/32·9");
        reveal_strlit("1/32·5");
        reveal_strlit("1/32·11");
        reveal_strlit("1/32T");
        reveal_strlit("1/32·7");
        reveal_strlit("1/64");
    }
    if nv == 1 {
        Some("1/1")
    } else if nv == 2 {
        Some("1/2")
    } else if nv == 3 {
        Some("1/2T")
    } else if nv == 4 {
        Some("1/4")
    } else if nv == 5 {
        Some("1/4·5")
    } else if nv == 6 {
        Some("1/4T")
    } else if nv == 7 {
        Some("1/4·7")
    } else if nv == 8 {
        Some("1/8")
    } else if nv == 9 {
        Some("1/8·9")
    } else if nv == 10 {
        Some("1/8·5")
    } else if nv == 11 {
        Some("1/8·11")
    } else if nv == 12 {
        Some("1/8T")
    } else if nv == 14 {
        Some("1/8·7")
    } else if nv == 16 {
        Some("1/16")
    } else if nv == 18 {
        Some("1/16·9")
    } else if nv == 20 {
        Some("1/16·5")
    } else if nv == 22 {
        Some("1/16·11")
    } else if nv == 24 {
        Some("1/16T")
    } else if nv == 28 {
        Some("1/16·7")
    } else if nv == 32 {
        Some("1/32")
    } else if nv == 36 {
        Some("1/32·9")
    } else if nv == 40 {
        Some("1/32·5")
    } else if nv == 44 {
        Some("1/32·11")
    } else if nv == 48 {
        Some("1/32T")
    } else if nv == 56 {
        Some("1/32·7")
    } else if nv == 64 {
        Some("1/64")
    } else {
        None
    }
}

/// How the header shows a note value: its name from the menu, or else its number.
pub open spec fn note_value_text(nv: u8) -> Seq<char> {
    match subdivision_name(nv) {
        Some(s) => s,
        None => decimal(nv as nat),
    }
}

/// The text the header shows for a note value (see `note_value_text`).
pub fn note_value_label(nv: u8) -> (r: String)
    ensures
        r@ == note_value_text(nv),
{
    match subdivision_str(nv) {
        Some(t) => String::from_str(t),
        None => {
            let mut s = String::new();
            push_decimal(&mut s, nv as u64);
            proof {
                assert(s@ =~= decimal(nv as nat));
            }
            s
        },
    }
}

/// The cursor's row once its track has `rows` rows: the last one if it was past them.
pub fn row_within(row: usize, rows: usize) -> (r: usize)
    ensures
        r == if row >= rows {
            if rows > 0 {
                rows - 1
            } else {
                0
            }
        } else {
            row as int
        },
{
    if row >= rows {
        if rows > 0 {
            rows - 1
        } else {
            0
        }
    } else {
        row
    }
}

/// The pattern with another time signature and number of measures, before its tracks
/// are resized.
pub open spec fn with_meter(p: Pattern, numerator: u8, denominator: u8, measures: u8) -> Pattern {
    Pattern { time_sig_numerator: numerator, time_sig_denominator: denominator, measures, ..p }
}

impl Pattern {
    /// Sets the time signature and the number of measures, then resizes every track to
    /// the rows they call for (see `resize`): the pattern gets as many rows as its longest
    /// track.
    pub fn set_meter(&mut self, numerator: u8, denominator: u8, measures: u8)
        requires
            denominator > 0,
        ensures
            ({
                let p = with_meter(*old(self), numerator, denominator, measures);
                &&& final(self).rows == p.computed_rows_spec()
                &&& final(self).time_sig_numerator == numerator
                &&& final(self).time_sig_denominator == denominator
                &&& final(self).measures == measures
                &&& final(self).name@ == old(self).name@
                &&& final(self).color == old(self).color
                &&& final(self).repeat == old(self).repeat
                &&& final(self).bpm == old(self).bpm
                &&& final(self).note_value == old(self).note_value
                &&& final(self).track_note_values@ == old(self).track_note_values@
                &&& final(self).grid().len() == old(self).grid().len()
                &&& forall|ch: int|
                    0 <= ch < old(self).grid().len() ==> #[trigger] final(self).grid()[ch] == resized_voices(
                        old(self).grid()[ch],
                        if ch < old(self).track_note_values@.len() {
                            p.rows_for_track(ch)
                        } else {
                            p.computed_rows_spec()
                        },
                    )
            }),
    {
        self.time_sig_numerator = numerator;
        self.time_sig_denominator = denominator;
        self.measures = measures;
        let rows = self.computed_rows();
        self.resize(rows);
    }

    /// Sets the note value of track `ch` and resizes that track to the rows it now calls
    /// for (see `resize_track`); the pattern gets as many rows as its longest track.
    pub fn set_track_note_value(&mut self, ch: usize, nv: u8)
        requires
            ch < old(self).data@.len(),
            ch < old(self).track_note_values@.len(),
            old(self).time_sig_denominator > 0,
        ensures
            final(self).track_note_values@ == old(self).track_note_values@.update(ch as int, nv),
            final(self).rows == final(self).computed_rows_spec(),
            final(self).name@ == old(self).name@,
            final(self).color == old(self).color,
            final(self).repeat == old(self).repeat,
            final(self).bpm == old(self).bpm,
            final(self).time_sig_numerator == old(self).time_sig_numerator,
            final(self).time_sig_denominator == old(self).time_sig_denominator,
            final(self).note_value == old(self).note_value,
            final(self).measures == old(self).measures,
            final(self).grid() == old(self).grid().update(
                ch as int,
                resized_voices(old(self).grid()[ch as int], final(self).rows_for_track(ch as int)),
            ),
    {
        self.track_note_values.set(ch, nv);
        let ghost mid = *self;
        self.resize_track(ch);
        proof {
            lemma_same_settings_rows(mid, *self, 0);
        }
    }
}

} // verus!
