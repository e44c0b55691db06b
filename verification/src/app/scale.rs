//! Musical scales for note input.
//!
//! To add a scale, extend `scale_at` and the two spec functions that describe it,
//! and raise `SCALE_COUNT`.
use vstd::prelude::*;

verus! {


/// A musical scale: a name and the semitone offsets of its degrees from the root,
/// within one octave.
#[derive(Debug, Clone, Copy)]
pub struct Scale {
    pub name: &'static str,
    pub intervals: &'static [u8],
}

/// The number of scales to choose from.
pub const SCALE_COUNT: usize = 19;

/// The intervals of scale `i`, in menu order.
pub open spec fn scale_intervals(i: int) -> Seq<u8> {
    if i == 0 {
        seq![0u8, 1, 2, 3, 4, 5, 6, 7, 8, 9, 10, 11]
    } else if i == 1 {
        seq![0u8, 2, 4, 5, 7, 9, 11]
    } else if i == 2 {
        seq![0u8, 2, 3, 5, 7, 8, 10]
    } else if i == 3 {
        seq![0u8, 2, 3, 5, 7, 8, 11]
    } else if i == 4 {
        seq![0u8, 2, 3, 5, 7, 9, 11]
    } else if i == 5 {
        seq![0u8, 2, 4, 5, 7, 8, 11]
    } else if i == 6 {
        seq![0u8, 1, 4, 5, 7, 8, 11]
    } else if i == 7 {
        seq![0u8, 1, 4, 5, 7, 8, 10]
    } else if i == 8 {
        seq![0u8, 2, 4, 6, 7, 9, 10]
    } else if i == 9 {
        seq![0u8, 2, 4, 6, 8, 10]
    } else if i == 10 {
        seq![0u8, 1, 3, 4, 6, 7, 9, 10]
    } else if i == 11 {
        seq![0u8, 3, 5, 6, 7, 10]
    } else if i == 12 {
        seq![0u8, 3, 5, 7, 10]
    } else if i == 13 {
        seq![0u8, 2, 4, 7, 9]
    } else if i == 14 {
        seq![0u8, 2, 3, 7, 8]
    } else if i == 15 {
        seq![0u8, 1, 5, 7, 10]
    } else if i == 16 {
        seq![0u8, 2, 3, 6, 7, 8, 11]
    } else if i == 17 {
        seq![0u8, 1, 4, 6, 8, 10, 11]
    } else {
        seq![0u8, 2, 4, 6, 9, 10]
    }
}

/// The name of scale `i`, in menu order.
pub open spec fn scale_name(i: int) -> Seq<char> {
    if i == 0 {
        "CHROMATIC"@
    } else if i == 1 {
        "MAJOR"@
    } else if i == 2 {
        "MINOR"@
    } else if i == 3 {
        "HARMONIC MIN"@
    } else if i == 4 {
        "MELODIC MIN"@
    } else if i == 5 {
        "HARMONIC MAJ"@
    } else if i == 6 {
        "DOUBLE HARMONIC"@
    } else if i == 7 {
        "PHRYGIAN DOMINANT"@
    } else if i == 8 {
        "LYDIAN DOMINANT"@
    } else if i == 9 {
        "WHOLE TONE"@
    } else if i == 10 {
        "DIMINISHED H-W"@
    } else if i == 11 {
        "BLUES"@
    } else if i == 12 {
        "MINOR PENTATONIC"@
    } else if i == 13 {
        "MAJOR PENTATONIC"@
    } else if i == 14 {
        "HIRAJOSHI"@
    } else if i == 15 {
        "IN SEN"@
    } else if i == 16 {
        "HUNGARIAN MINOR"@
    } else if i == 17 {
        "ENIGMATIC"@
    } else {
        "PROMETHEUS"@
    }
}

/// Scale `i` of the menu.
pub fn scale_at(i: usize) -> (s: Scale)
    requires
        i < SCALE_COUNT,
    ensures
        s.intervals@ == scale_intervals(i as int),
        s.name@ == scale_name(i as int),
{
    proof {
        reveal_strlit("CHROMATIC");
        reveal_strlit("MAJOR");
        reveal_strlit("MINOR");
        reveal_strlit("HARMONIC MIN");
        reveal_strlit("MELODIC MIN");
        reveal_strlit("HARMONIC MAJ");
        reveal_strlit("DOUBLE HARMONIC");
        reveal_strlit("PHRYGIAN DOMINANT");
        reveal_strlit("LYDIAN DOMINANT");
        reveal_strlit("WHOLE TONE");
        reveal_strlit("DIMINISHED H-W");
        reveal_strlit("BLUES");
        reveal_strlit("MINOR PENTATONIC");
        reveal_strlit("MAJOR PENTATONIC");
        reveal_strlit("HIRAJOSHI");
        reveal_strlit("IN SEN");
        reveal_strlit("HUNGARIAN MINOR");
        reveal_strlit("ENIGMATIC");
        reveal_strlit("PROMETHEUS");
    }
    match i {
        0 => Scale { name: "CHROMATIC", intervals: &[0, 1, 2, 3, 4, 5, 6, 7, 8, 9, 10, 11] },
        1 => Scale { name: "MAJOR", intervals: &[0, 2, 4, 5, 7, 9, 11] },
        2 => Scale { name: "MINOR", intervals: &[0, 2, 3, 5, 7, 8, 10] },
        3 => Scale { name: "HARMONIC MIN", intervals: &[0, 2, 3, 5, 7, 8, 11] },
        4 => Scale { name: "MELODIC MIN", intervals: &[0, 2, 3, 5, 7, 9, 11] },
        5 => Scale { name: "HARMONIC MAJ", intervals: &[0, 2, 4, 5, 7, 8, 11] },
        6 => Scale { name: "DOUBLE HARMONIC", intervals: &[0, 1, 4, 5, 7, 8, 11] },
        7 => Scale { name: "PHRYGIAN DOMINANT", intervals: &[0, 1, 4, 5, 7, 8, 10] },
        8 => Scale { name: "LYDIAN DOMINANT", intervals: &[0, 2, 4, 6, 7, 9, 10] },
        9 => Scale { name: "WHOLE TONE", intervals: &[0, 2, 4, 6, 8, 10] },
        10 => Scale { name: "DIMINISHED H-W", intervals: &[0, 1, 3, 4, 6, 7, 9, 10] },
        11 => Scale { name: "BLUES", intervals: &[0, 3, 5, 6, 7, 10] },
        12 => Scale { name: "MINOR PENTATONIC", intervals: &[0, 3, 5, 7, 10] },
        13 => Scale { name: "MAJOR PENTATONIC", intervals: &[0, 2, 4, 7, 9] },
        14 => Scale { name: "HIRAJOSHI", intervals: &[0, 2, 3, 7, 8] },
        15 => Scale { name: "IN SEN", intervals: &[0, 1, 5, 7, 10] },
        16 => Scale { name: "HUNGARIAN MINOR", intervals: &[0, 2, 3, 6, 7, 8, 11] },
        17 => Scale { name: "ENIGMATIC", intervals: &[0, 1, 4, 6, 8, 10, 11] },
        _ => Scale { name: "PROMETHEUS", intervals: &[0, 2, 4, 6, 9, 10] },
    }
}

/// Each scale, found by its name, has that scale's semitone steps from the root: the
/// major scale has a major third (4) and sixth (9), the natural minor a minor third (3),
/// sixth (8) and seventh (10), the harmonic minor raises the seventh (11), the melodic
/// minor also the sixth (9), and so on for the others.
pub proof fn lemma_scale_intervals_by_name(i: int)
    requires
        0 <= i < 19,
    ensures
        scale_name(i) == "CHROMATIC"@ ==> scale_intervals(i) == seq![0u8, 1, 2, 3, 4, 5, 6, 7, 8, 9, 10, 11],
        scale_name(i) == "MAJOR"@ ==> scale_intervals(i) == seq![0u8, 2, 4, 5, 7, 9, 11],
        scale_name(i) == "MINOR"@ ==> scale_intervals(i) == seq![0u8, 2, 3, 5, 7, 8, 10],
        scale_name(i) == "HARMONIC MIN"@ ==> scale_intervals(i) == seq![0u8, 2, 3, 5, 7, 8, 11],
        scale_name(i) == "MELODIC MIN"@ ==> scale_intervals(i) == seq![0u8, 2, 3, 5, 7, 9, 11],
        scale_name(i) == "HARMONIC MAJ"@ ==> scale_intervals(i) == seq![0u8, 2, 4, 5, 7, 8, 11],
        scale_name(i) == "DOUBLE HARMONIC"@ ==> scale_intervals(i) == seq![0u8, 1, 4, 5, 7, 8, 11],
        scale_name(i) == "PHRYGIAN DOMINANT"@ ==> scale_intervals(i) == seq![0u8, 1, 4, 5, 7, 8, 10],
        scale_name(i) == "LYDIAN DOMINANT"@ ==> scale_intervals(i) == seq![0u8, 2, 4, 6, 7, 9, 10],
        scale_name(i) == "WHOLE TONE"@ ==> scale_intervals(i) == seq![0u8, 2, 4, 6, 8, 10],
        scale_name(i) == "DIMINISHED H-W"@ ==> scale_intervals(i) == seq![0u8, 1, 3, 4, 6, 7, 9, 10],
        scale_name(i) == "BLUES"@ ==> scale_intervals(i) == seq![0u8, 3, 5, 6, 7, 10],
        scale_name(i) == "MINOR PENTATONIC"@ ==> scale_intervals(i) == seq![0u8, 3, 5, 7, 10],
        scale_name(i) == "MAJOR PENTATONIC"@ ==> scale_intervals(i) == seq![0u8, 2, 4, 7, 9],
        scale_name(i) == "HIRAJOSHI"@ ==> scale_intervals(i) == seq![0u8, 2, 3, 7, 8],
        scale_name(i) == "IN SEN"@ ==> scale_intervals(i) == seq![0u8, 1, 5, 7, 10],
        scale_name(i) == "HUNGARIAN MINOR"@ ==> scale_intervals(i) == seq![0u8, 2, 3, 6, 7, 8, 11],
        scale_name(i) == "ENIGMATIC"@ ==> scale_intervals(i) == seq![0u8, 1, 4, 6, 8, 10, 11],
        scale_name(i) == "PROMETHEUS"@ ==> scale_intervals(i) == seq![0u8, 2, 4, 6, 9, 10],
{
    reveal_strlit("CHROMATIC");
    reveal_strlit("MAJOR");
    reveal_strlit("MINOR");
    reveal_strlit("HARMONIC MIN");
    reveal_strlit("MELODIC MIN");
    reveal_strlit("HARMONIC MAJ");
    reveal_strlit("DOUBLE HARMONIC");
    reveal_strlit("PHRYGIAN DOMINANT");
    reveal_strlit("LYDIAN DOMINANT");
    reveal_strlit("WHOLE TONE");
    reveal_strlit("DIMINISHED H-W");
    reveal_strlit("BLUES");
    reveal_strlit("MINOR PENTATONIC");
    reveal_strlit("MAJOR PENTATONIC");
    reveal_strlit("HIRAJOSHI");
    reveal_strlit("IN SEN");
    reveal_strlit("HUNGARIAN MINOR");
    reveal_strlit("ENIGMATIC");
    reveal_strlit("PROMETHEUS");
    // The names differ pairwise in length, second letter or last letter.
    assert(scale_name(0).len() == 9 && scale_name(0)[1] == 'H' && scale_name(0)[8] == 'C');
    assert(scale_name(1).len() == 5 && scale_name(1)[1] == 'A' && scale_name(1)[4] == 'R');
    assert(scale_name(2).len() == 5 && scale_name(2)[1] == 'I' && scale_name(2)[4] == 'R');
    assert(scale_name(3).len() == 12 && scale_name(3)[1] == 'A' && scale_name(3)[11] == 'N');
    assert(scale_name(4).len() == 11 && scale_name(4)[1] == 'E' && scale_name(4)[10] == 'N');
    assert(scale_name(5).len() == 12 && scale_name(5)[1] == 'A' && scale_name(5)[11] == 'J');
    assert(scale_name(6).len() == 15 && scale_name(6)[1] == 'O' && scale_name(6)[14] == 'C');
    assert(scale_name(7).len() == 17 && scale_name(7)[1] == 'H' && scale_name(7)[16] == 'T');
    assert(scale_name(8).len() == 15 && scale_name(8)[1] == 'Y' && scale_name(8)[14] == 'T');
    assert(scale_name(9).len() == 10 && scale_name(9)[1] == 'H' && scale_name(9)[9] == 'E');
    assert(scale_name(10).len() == 14 && scale_name(10)[1] == 'I' && scale_name(10)[13] == 'W');
    assert(scale_name(11).len() == 5 && scale_name(11)[1] == 'L' && scale_name(11)[4] == 'S');
    assert(scale_name(12).len() == 16 && scale_name(12)[1] == 'I' && scale_name(12)[15] == 'C');
    assert(scale_name(13).len() == 16 && scale_name(13)[1] == 'A' && scale_name(13)[15] == 'C');
    assert(scale_name(14).len() == 9 && scale_name(14)[1] == 'I' && scale_name(14)[8] == 'I');
    assert(scale_name(15).len() == 6 && scale_name(15)[1] == 'N' && scale_name(15)[5] == 'N');
    assert(scale_name(16).len() == 15 && scale_name(16)[1] == 'U' && scale_name(16)[14] == 'R');
    assert(scale_name(17).len() == 9 && scale_name(17)[1] == 'N' && scale_name(17)[8] == 'C');
    assert(scale_name(18).len() == 10 && scale_name(18)[1] == 'R' && scale_name(18)[9] == 'S');
}

/// Every scale starts at its root and climbs within one octave: its first step is 0 and
/// its steps rise strictly, all below 12.
pub proof fn lemma_scale_intervals_ascending(i: int, j: int, k: int)
    requires
        0 <= i < 19,
        0 <= j < k < scale_intervals(i).len(),
    ensures
        scale_intervals(i)[0] == 0,
        scale_intervals(i)[j] < scale_intervals(i)[k] < 12,
{
}

/// The scale menu, in order.
pub proof fn lemma_scale_menu_order(i: int)
    requires
        0 <= i < 19,
    ensures
        scale_name(i) == seq![
            "CHROMATIC"@, "MAJOR"@, "MINOR"@, "HARMONIC MIN"@, "MELODIC MIN"@, "HARMONIC MAJ"@, "DOUBLE HARMONIC"@, "PHRYGIAN DOMINANT"@, "LYDIAN DOMINANT"@, "WHOLE TONE"@, "DIMINISHED H-W"@, "BLUES"@, "MINOR PENTATONIC"@, "MAJOR PENTATONIC"@, "HIRAJOSHI"@, "IN SEN"@, "HUNGARIAN MINOR"@, "ENIGMATIC"@, "PROMETHEUS"@
        ][i],
{
}

/// An index into the list of scales.
#[derive(Debug, Clone, Copy, PartialEq, Eq, Structural)]
pub struct ScaleIndex(pub usize);

impl Default for ScaleIndex {
    fn default() -> (r: ScaleIndex)
        ensures
            r.0 == 0,
    {
        ScaleIndex(0)
    }
}

impl ScaleIndex {
    /// The scale this index selects.
    pub fn scale(self) -> (s: Scale)
        requires
            self.0 < SCALE_COUNT,
        ensures
            s.intervals@ == scale_intervals(self.0 as int),
            s.name@ == scale_name(self.0 as int),
    {
        scale_at(self.0)
    }
}

/// The note a key of the note keyboard stands for: key `key_index` counts scale degrees
/// up from the root in octave `octave`, wrapping into the octaves above; the result is
/// transposed by `transpose` semitones, shifted up by one, and limited to 1..=96.
pub open spec fn key_note(key_index: int, octave: int, intervals: Seq<u8>, transpose: int) -> int {
    let len = intervals.len() as int;
    let raw = (octave + key_index / len) * 12 + intervals[key_index % len] as int + transpose + 1;
    if raw < 1 {
        1
    } else if raw > 96 {
        96
    } else {
        raw
    }
}

/// The key one scale's length further along plays the same degree an octave up.
pub proof fn lemma_key_note_next_octave(key_index: int, octave: int, intervals: Seq<u8>, transpose: int)
    requires
        0 <= key_index,
        intervals.len() > 0,
    ensures
        key_note(key_index + intervals.len(), octave, intervals, transpose) == key_note(
            key_index,
            octave + 1,
            intervals,
            transpose,
        ),
{
    let len = intervals.len() as int;
    vstd::arithmetic::div_mod::lemma_div_plus_one(key_index, len);
    vstd::arithmetic::div_mod::lemma_mod_add_multiples_vanish(key_index, len);
    assert(key_index + len == len + key_index);
}

/// Raising the transposition by a semitone raises the note by a semitone, away from the
/// ends of the range.
pub proof fn lemma_key_note_transpose(key_index: int, octave: int, intervals: Seq<u8>, transpose: int)
    requires
        1 < key_note(key_index, octave, intervals, transpose) < 96,
    ensures
        key_note(key_index, octave, intervals, transpose + 1) == key_note(
            key_index,
            octave,
            intervals,
            transpose,
        ) + 1,
{
}

/// In the chromatic scale the first twelve keys are the twelve semitones of the octave,
/// one after another: key `k` of octave `o` plays note 12 * `o` + `k` + 1.
pub proof fn lemma_chromatic_keys(k: int, octave: int)
    requires
        0 <= k < 12,
        0 <= octave,
        12 * octave + k + 1 <= 96,
    ensures
        key_note(k, octave, scale_intervals(0), 0) == 12 * octave + k + 1,
{
    let iv = scale_intervals(0);
    assert(iv[k] == k);
    assert(k / 12 == 0 && k % 12 == k);
}

/// The note a key of the note keyboard enters, in the given scale (see `key_note`).
pub fn map_key_index_to_note(key_index: u8, octave: u8, scale: &Scale, transpose: i8) -> (r: u8)
    requires
        0 < scale.intervals@.len() <= 255,
        octave as int + key_index as int / scale.intervals@.len() as int <= 255,
    ensures
        r == key_note(key_index as int, octave as int, scale.intervals@, transpose as int),
        1 <= r <= 96,
{
    let len = scale.intervals.len() as u8;
    let scale_octave = key_index / len;
    let scale_degree = key_index % len;
    let semitone = scale.intervals[scale_degree as usize];
    let oct: i16 = (octave + scale_octave) as i16;
    let note: i16 = oct * 12 + semitone as i16 + transpose as i16 + 1;
    if note < 1 {
        1
    } else if note > 96 {
        96
    } else {
        note as u8
    }
}

} // verus!
