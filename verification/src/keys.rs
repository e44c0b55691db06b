//! The note keys of a computer keyboard, laid out as two rows of a piano.
use vstd::prelude::*;

use crate::pattern::Note;

verus! {

/// The octave offset and semitone a key plays, if it is a note key: the bottom row
/// z..g covers one octave, the top rows h..p the next octave and two more semitones.
pub open spec fn key_semitone(key: char) -> Option<(u8, u8)> {
    if key == 'z' { Some((0u8, 0u8)) }
    else if key == 'x' { Some((0u8, 1u8)) }
    else if key == 'c' { Some((0u8, 2u8)) }
    else if key == 'v' { Some((0u8, 3u8)) }
    else if key == 'b' { Some((0u8, 4u8)) }
    else if key == 'n' { Some((0u8, 5u8)) }
    else if key == 'm' { Some((0u8, 6u8)) }
    else if key == 'a' { Some((0u8, 7u8)) }
    else if key == 's' { Some((0u8, 8u8)) }
    else if key == 'd' { Some((0u8, 9u8)) }
    else if key == 'f' { Some((0u8, 10u8)) }
    else if key == 'g' { Some((0u8, 11u8)) }
    else if key == 'h' { Some((1u8, 0u8)) }
    else if key == 'j' { Some((1u8, 1u8)) }
    else if key == 'k' { Some((1u8, 2u8)) }
    else if key == 'l' { Some((1u8, 3u8)) }
    else if key == 'q' { Some((1u8, 4u8)) }
    else if key == 'w' { Some((1u8, 5u8)) }
    else if key == 'e' { Some((1u8, 6u8)) }
    else if key == 'r' { Some((1u8, 7u8)) }
    else if key == 't' { Some((1u8, 8u8)) }
    else if key == 'y' { Some((1u8, 9u8)) }
    else if key == 'u' { Some((1u8, 10u8)) }
    else if key == 'i' { Some((1u8, 11u8)) }
    else if key == 'o' { Some((1u8, 12u8)) }
    else if key == 'p' { Some((1u8, 13u8)) }
    else { None }
}

/// The octave offset and semitone of a key (see `key_semitone`).
fn semitone_of(key: char) -> (r: Option<(u8, u8)>)
    ensures
        r == key_semitone(key),
{
    match key {
        'z' => Some((0, 0)),
        'x' => Some((0, 1)),
        'c' => Some((0, 2)),
        'v' => Some((0, 3)),
        'b' => Some((0, 4)),
        'n' => Some((0, 5)),
        'm' => Some((0, 6)),
        'a' => Some((0, 7)),
        's' => Some((0, 8)),
        'd' => Some((0, 9)),
        'f' => Some((0, 10)),
        'g' => Some((0, 11)),
        'h' => Some((1, 0)),
        'j' => Some((1, 1)),
        'k' => Some((1, 2)),
        'l' => Some((1, 3)),
        'q' => Some((1, 4)),
        'w' => Some((1, 5)),
        'e' => Some((1, 6)),
        'r' => Some((1, 7)),
        't' => Some((1, 8)),
        'y' => Some((1, 9)),
        'u' => Some((1, 10)),
        'i' => Some((1, 11)),
        'o' => Some((1, 12)),
        'p' => Some((1, 13)),
        _ => None,
    }
}

/// The MIDI number a key plays in `octave`: (octave + offset + 1) * 12 + semitone.
pub open spec fn key_midi_number(octave: u8, offset: u8, semi: u8) -> int {
    (octave + offset + 1) * 12 + semi
}

/// The note a key plays in `octave` (limited to the MIDI range), or none for a key that
/// is not a note key.
pub fn key_to_note(key: char, octave: u8) -> (r: Option<Note>)
    requires
        key_semitone(key) matches Some((o, s)) ==> key_midi_number(octave, o, s) <= 255,
    ensures
        match key_semitone(key) {
            Some((o, s)) => r == Some(
                Note {
                    pitch: if key_midi_number(octave, o, s) < 127 {
                        key_midi_number(octave, o, s) as u8
                    } else {
                        127u8
                    },
                },
            ),
            None => r is None,
        },
{
    match semitone_of(key) {
        Some((oct_offset, semi)) => {
            let midi = (octave + oct_offset + 1) * 12 + semi;
            Some(Note::new(midi))
        },
        None => None,
    }
}

} // verus!
