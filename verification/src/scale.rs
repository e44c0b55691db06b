//! Musical scales of the terminal edition of the tracker.
//!
//! To add a scale, extend `scale_at` and the two spec functions that describe it,
//! and raise `SCALE_COUNT`.
use vstd::prelude::*;

verus! {


/// A musical scale: a name and the semitone offsets of its degrees from the root,
/// within one octave.
#[derive(Debug, Clone, Copy)]
pub struct Scale {
    pub name: &'static str,
    pub intervals: &'static [u8],
}

/// The number of scales to choose from.
pub const SCALE_COUNT: usize = 9;

/// The intervals of scale `i`, in menu order.
pub open spec fn scale_intervals(i: int) -> Seq<u8> {
    if i == 0 {
        seq![0u8, 2, 4, 5, 7, 9, 11]
    } else if i == 1 {
        seq![0u8, 2, 3, 5, 7, 8, 10]
    } else if i == 2 {
        seq![0u8, 1, 2, 3, 4, 5, 6, 7, 8, 9, 10, 11]
    } else if i == 3 {
        seq![0u8, 2, 3, 5, 7, 8, 11]
    } else if i == 4 {
        seq![0u8, 2, 3, 5, 7, 9, 11]
    } else if i == 5 {
        seq![0u8, 2, 4, 5, 7, 8, 11]
    } else if i == 6 {
        seq![0u8, 1, 4, 5, 7, 8, 11]
    } else if i == 7 {
        seq![0u8, 1, 4, 5, 7, 8, 10]
    } else {
        seq![0u8, 2, 4, 6, 7, 9, 10]
    }
}

/// The name of scale `i`, in menu order.
pub open spec fn scale_name(i: int) -> Seq<char> {
    if i == 0 {
        "MAJOR"@
    } else if i == 1 {
        "MINOR"@
    } else if i == 2 {
        "CHROMATIC"@
    } else if i == 3 {
        "HARM MIN"@
    } else if i == 4 {
        "MELO MIN"@
    } else if i == 5 {
        "HARM MAJ"@
    } else if i == 6 {
        "DBL HARM"@
    } else if i == 7 {
        "PHRY DOM"@
    } else {
        "LYD DOM"@
    }
}

/// Scale `i` of the menu.
pub fn scale_at(i: usize) -> (s: Scale)
    requires
        i < SCALE_COUNT,
    ensures
        s.intervals@ == scale_intervals(i as int),
        s.name@ == scale_name(i as int),
{
    proof {
        reveal_strlit("MAJOR");
        reveal_strlit("MINOR");
        reveal_strlit("CHROMATIC");
        reveal_strlit("HARM MIN");
        reveal_strlit("MELO MIN");
        reveal_strlit("HARM MAJ");
        reveal_strlit("DBL HARM");
        reveal_strlit("PHRY DOM");
        reveal_strlit("LYD DOM");
    }
    match i {
        0 => Scale { name: "MAJOR", intervals: &[0, 2, 4, 5, 7, 9, 11] },
        1 => Scale { name: "MINOR", intervals: &[0, 2, 3, 5, 7, 8, 10] },
        2 => Scale { name: "CHROMATIC", intervals: &[0, 1, 2, 3, 4, 5, 6, 7, 8, 9, 10, 11] },
        3 => Scale { name: "HARM MIN", intervals: &[0, 2, 3, 5, 7, 8, 11] },
        4 => Scale { name: "MELO MIN", intervals: &[0, 2, 3, 5, 7, 9, 11] },
        5 => Scale { name: "HARM MAJ", intervals: &[0, 2, 4, 5, 7, 8, 11] },
        6 => Scale { name: "DBL HARM", intervals: &[0, 1, 4, 5, 7, 8, 11] },
        7 => Scale { name: "PHRY DOM", intervals: &[0, 1, 4, 5, 7, 8, 10] },
        _ => Scale { name: "LYD DOM", intervals: &[0, 2, 4, 6, 7, 9, 10] },
    }
}

/// An index into the list of scales.
#[derive(Debug, Clone, Copy, PartialEq, Eq, Structural)]
pub struct ScaleIndex(pub usize);

impl Default for ScaleIndex {
    fn default() -> (r: ScaleIndex)
        ensures
            r.0 == 0,
    {
        ScaleIndex(0)
    }
}

impl ScaleIndex {
    /// The scale this index selects.
    pub fn scale(&self) -> (s: Scale)
        requires
            self.0 < SCALE_COUNT,
        ensures
            s.intervals@ == scale_intervals(self.0 as int),
            s.name@ == scale_name(self.0 as int),
    {
        scale_at(self.0)
    }

    /// The following scale, wrapping around after the last.
    pub fn next(&self) -> (r: ScaleIndex)
        requires
            self.0 < usize::MAX,
        ensures
            r.0 == (self.0 + 1) % (SCALE_COUNT as int),
    {
        ScaleIndex((self.0 + 1) % SCALE_COUNT)
    }

    /// The preceding scale, wrapping around before the first.
    pub fn prev(&self) -> (r: ScaleIndex)
        ensures
            r.0 == if self.0 == 0 {
                SCALE_COUNT - 1
            } else {
                self.0 - 1
            },
    {
        if self.0 == 0 {
            ScaleIndex(SCALE_COUNT - 1)
        } else {
            ScaleIndex(self.0 - 1)
        }
    }
}

/// The name of the root note `k` semitones above C.
pub open spec fn root_note_name(k: int) -> Seq<char> {
    if k == 0 {
        "C"@
    } else if k == 1 {
        "C#"@
    } else if k == 2 {
        "D"@
    } else if k == 3 {
        "D#"@
    } else if k == 4 {
        "E"@
    } else if k == 5 {
        "F"@
    } else if k == 6 {
        "F#"@
    } else if k == 7 {
        "G"@
    } else if k == 8 {
        "G#"@
    } else if k == 9 {
        "A"@
    } else if k == 10 {
        "A#"@
    } else {
        "B"@
    }
}

/// The name of the root note after transposing C by `transpose` semitones.
pub fn root_name(transpose: i8) -> (r: &'static str)
    ensures
        r@ == root_note_name((transpose as int) % 12),
{
    proof {
        reveal_strlit("C");
        reveal_strlit("C#");
        reveal_strlit("D");
        reveal_strlit("D#");
        reveal_strlit("E");
        reveal_strlit("F");
        reveal_strlit("F#");
        reveal_strlit("G");
        reveal_strlit("G#");
        reveal_strlit("A");
        reveal_strlit("A#");
        reveal_strlit("B");
    }
    let t: i16 = transpose as i16;
    let k: i16 = if t % 12 < 0 {
        t % 12 + 12
    } else {
        t % 12
    };
    match k {
        0 => "C",
        1 => "C#",
        2 => "D",
        3 => "D#",
        4 => "E",
        5 => "F",
        6 => "F#",
        7 => "G",
        8 => "G#",
        9 => "A",
        10 => "A#",
        _ => "B",
    }
}

/// The MIDI note a key of the note keyboard stands for: key `key_index` counts scale
/// degrees up from the root of octave `octave` (counted from octave -1), wrapping into the
/// octaves above, transposed by `transpose` semitones and limited to 0..=127.
pub open spec fn key_midi(key_index: int, octave: int, intervals: Seq<u8>, transpose: int) -> int {
    let len = intervals.len() as int % 256;
    let raw = (octave + key_index / len + 1) * 12 + intervals[key_index % len] as int + transpose;
    if raw < 0 {
        0
    } else if raw > 127 {
        127
    } else {
        raw
    }
}

/// The MIDI note a key of the note keyboard enters, in the given scale (see `key_midi`).
/// The scale's length is taken modulo 256.
pub fn map_key_index_to_midi(key_index: u8, octave: u8, scale: &Scale, transpose: i8) -> (r: u8)
    requires
        scale.intervals@.len() % 256 != 0,
        octave as int + key_index as int / (scale.intervals@.len() as int % 256) <= 255,
    ensures
        r == key_midi(key_index as int, octave as int, scale.intervals@, transpose as int),
        r <= 127,
{
    let len = (scale.intervals.len() % 256) as u8;
    let scale_octave = key_index / len;
    let scale_degree = key_index % len;
    assert(scale_degree < scale.intervals@.len());
    let semitone = scale.intervals[scale_degree as usize];
    let oct: i16 = (octave + scale_octave) as i16;
    let midi: i16 = (oct + 1) * 12 + semitone as i16 + transpose as i16;
    if midi < 0 {
        0
    } else if midi > 127 {
        127
    } else {
        midi as u8
    }
}

} // verus!
