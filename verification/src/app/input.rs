//! The editor's keyboard: which command the pressed actions ask for, and the note keys,
//! two rows of keys counting scale degrees.
use vstd::prelude::*;

use crate::app::keybindings::Action;
use crate::app::scale::{key_note, map_key_index_to_note, Scale};
use crate::project::pattern::Note;

verus! {

/// The scale degree a key stands for: z..g are degrees 0 to 11 of the lower row, h..p
/// continue with 12 to 25.
pub open spec fn key_degree(key: char) -> Option<u8> {
    if key == 'z' { Some(0u8) }
    else if key == 'x' { Some(1u8) }
    else if key == 'c' { Some(2u8) }
    else if key == 'v' { Some(3u8) }
    else if key == 'b' { Some(4u8) }
    else if key == 'n' { Some(5u8) }
    else if key == 'm' { Some(6u8) }
    else if key == 'a' { Some(7u8) }
    else if key == 's' { Some(8u8) }
    else if key == 'd' { Some(9u8) }
    else if key == 'f' { Some(10u8) }
    else if key == 'g' { Some(11u8) }
    else if key == 'h' { Some(12u8) }
    else if key == 'j' { Some(13u8) }
    else if key == 'k' { Some(14u8) }
    else if key == 'l' { Some(15u8) }
    else if key == 'q' { Some(16u8) }
    else if key == 'w' { Some(17u8) }
    else if key == 'e' { Some(18u8) }
    else if key == 'r' { Some(19u8) }
    else if key == 't' { Some(20u8) }
    else if key == 'y' { Some(21u8) }
    else if key == 'u' { Some(22u8) }
    else if key == 'i' { Some(23u8) }
    else if key == 'o' { Some(24u8) }
    else if key == 'p' { Some(25u8) }
    else { None }
}

/// The note keys in keyboard order: the bottom row, then the home row, then the top row.
pub open spec fn note_keys() -> Seq<char> {
    seq!['z', 'x', 'c', 'v', 'b', 'n', 'm', 'a', 's', 'd', 'f', 'g', 'h', 'j', 'k', 'l', 'q', 'w', 'e', 'r', 't', 'y', 'u', 'i', 'o', 'p']
}

/// The note keys count degrees in keyboard order: the `k`-th note key is degree `k`, so
/// neighbouring keys are neighbouring degrees; and a key that is a degree is the note key
/// at that place, so no other key enters a note.
pub proof fn lemma_note_keys_in_order(k: int, c: char)
    requires
        0 <= k < 26,
    ensures
        key_degree(note_keys()[k]) == Some(k as u8),
        key_degree(c) matches Some(i) ==> i < 26 && note_keys()[i as int] == c,
{
}

/// The scale degree of a key (see `key_degree`).
pub fn key_index(key: char) -> (r: Option<u8>)
    ensures
        r == key_degree(key),
{
    match key {
        'z' => Some(0),
        'x' => Some(1),
        'c' => Some(2),
        'v' => Some(3),
        'b' => Some(4),
        'n' => Some(5),
        'm' => Some(6),
        'a' => Some(7),
        's' => Some(8),
        'd' => Some(9),
        'f' => Some(10),
        'g' => Some(11),
        'h' => Some(12),
        'j' => Some(13),
        'k' => Some(14),
        'l' => Some(15),
        'q' => Some(16),
        'w' => Some(17),
        'e' => Some(18),
        'r' => Some(19),
        't' => Some(20),
        'y' => Some(21),
        'u' => Some(22),
        'i' => Some(23),
        'o' => Some(24),
        'p' => Some(25),
        _ => None,
    }
}

/// The note a key enters, in the given scale, octave and transposition (see
/// `key_note`); none for a key that is not a note key.
pub fn key_to_note(key: char, octave: u8, scale: &Scale, transpose: i8) -> (r: Option<Note>)
    requires
        0 < scale.intervals@.len() <= 255,
        key_degree(key) matches Some(i) ==> octave as int + i as int / scale.intervals@.len() as int <= 255,
    ensures
        match key_degree(key) {
            Some(i) => r == Some(
                Note { pitch: key_note(i as int, octave as int, scale.intervals@, transpose as int) as u8 },
            ),
            None => r is None,
        },
{
    match key_index(key) {
        Some(i) => {
            let note = map_key_index_to_note(i, octave, scale, transpose);
            Some(Note::new(note))
        },
        None => None,
    }
}

/// What one frame of keyboard input asks the editor to do.
#[derive(Debug, Clone, Copy, PartialEq, Eq, Structural)]
pub enum Command {
    /// Put the block being moved down where it is now.
    ConfirmMove,
    /// Put the block being moved back where it came from.
    CancelMove,
    /// Stop playback.
    Stop,
    /// Clear the selection and start playback, from the cursor's row or the top.
    Start { from_cursor: bool },
    /// Move the selected block, or the cell under the cursor, one step.
    MoveBlock(Action),
    /// Move the cursor one step; with `select`, the selection grows from an anchor set
    /// where the cursor was, else it is cleared.
    Cursor { dir: Action, select: bool },
    /// Clear the selected cells, or the cell under the cursor.
    Delete,
    /// Write a note-off under the cursor.
    NoteOff,
    /// Transpose the selected notes by this many semitones.
    Transpose(i16),
    /// Step the input octave up or down.
    Octave { up: bool },
    /// Clear the selection.
    ClearSelection,
    /// Leave the editor's keyboard focus.
    Leave,
    /// Nothing bound was pressed: the note keys enter notes.
    NoteKeys,
}

/// The first of four actions that is among `actions`.
pub open spec fn first_held(actions: Seq<Action>, a: Action, b: Action, c: Action, d: Action) -> Option<Action> {
    if actions.contains(a) {
        Some(a)
    } else if actions.contains(b) {
        Some(b)
    } else if actions.contains(c) {
        Some(c)
    } else if actions.contains(d) {
        Some(d)
    } else {
        None
    }
}

/// The command for the actions of one frame, in order of precedence. While a block is
/// being moved, play/stop puts it down and anything else but a move key puts it back.
/// Then play/stop and play-from-cursor, the move keys, the cursor and selection keys,
/// delete, note-off, the transpose keys, the octave keys, and escape (which clears the
/// selection, else stops playback, else leaves); with none of them, the note keys.
pub open spec fn command_for(
    actions: Seq<Action>,
    previewing: bool,
    key_pressed: bool,
    playing: bool,
    selecting: bool,
) -> Command {
    let moving = first_held(actions, Action::MoveUp, Action::MoveDown, Action::MoveLeft, Action::MoveRight);
    let select = first_held(actions, Action::SelectUp, Action::SelectDown, Action::SelectLeft, Action::SelectRight);
    let cursor = first_held(actions, Action::CursorUp, Action::CursorDown, Action::CursorLeft, Action::CursorRight);
    if previewing && actions.contains(Action::PlayStop) {
        Command::ConfirmMove
    } else if previewing && moving is None && (key_pressed || actions.len() > 0) {
        Command::CancelMove
    } else if actions.contains(Action::PlayStop) || actions.contains(Action::PlayFromCursor) {
        if playing {
            Command::Stop
        } else {
            Command::Start { from_cursor: !actions.contains(Action::PlayStop) }
        }
    } else if moving is Some {
        Command::MoveBlock(moving->0)
    } else if cursor is Some {
        Command::Cursor { dir: cursor->0, select: select is Some }
    } else if select is Some {
        Command::Cursor { dir: select->0, select: true }
    } else if actions.contains(Action::Delete) {
        Command::Delete
    } else if actions.contains(Action::NoteOff) {
        Command::NoteOff
    } else if actions.contains(Action::TransposeOctaveUp) {
        Command::Transpose(12)
    } else if actions.contains(Action::TransposeOctaveDown) {
        Command::Transpose(-12i16)
    } else if actions.contains(Action::TransposeUp) {
        Command::Transpose(1)
    } else if actions.contains(Action::TransposeDown) {
        Command::Transpose(-1i16)
    } else if actions.contains(Action::OctaveUp) {
        Command::Octave { up: true }
    } else if actions.contains(Action::OctaveDown) {
        Command::Octave { up: false }
    } else if actions.contains(Action::Escape) {
        if selecting {
            Command::ClearSelection
        } else if playing {
            Command::Stop
        } else {
            Command::Leave
        }
    } else {
        Command::NoteKeys
    }
}

/// Whether `a` is among `actions`.
pub fn holds(actions: &Vec<Action>, a: Action) -> (r: bool)
    ensures
        r == actions@.contains(a),
{
    let mut i: usize = 0;
    while i < actions.len()
        invariant
            i <= actions.len(),
            forall|j: int| 0 <= j < i ==> actions@[j] != a,
        decreases actions.len() - i,
    {
        if actions[i] == a {
            assert(actions@[i as int] == a);
            return true;
        }
        i += 1;
    }
    false
}

fn first_of(actions: &Vec<Action>, a: Action, b: Action, c: Action, d: Action) -> (r: Option<Action>)
    ensures
        r == first_held(actions@, a, b, c, d),
{
    if holds(actions, a) {
        Some(a)
    } else if holds(actions, b) {
        Some(b)
    } else if holds(actions, c) {
        Some(c)
    } else if holds(actions, d) {
        Some(d)
    } else {
        None
    }
}

/// The command for one frame's actions (see `command_for`): `previewing` when a block is
/// being moved, `key_pressed` when any key went down, `playing` and `selecting` as the
/// editor is.
pub fn command(actions: &Vec<Action>, previewing: bool, key_pressed: bool, playing: bool, selecting: bool) -> (r: Command)
    ensures
        r == command_for(actions@, previewing, key_pressed, playing, selecting),
{
    let moving = first_of(actions, Action::MoveUp, Action::MoveDown, Action::MoveLeft, Action::MoveRight);
    let select = first_of(actions, Action::SelectUp, Action::SelectDown, Action::SelectLeft, Action::SelectRight);
    let cursor = first_of(actions, Action::CursorUp, Action::CursorDown, Action::CursorLeft, Action::CursorRight);
    let play = holds(actions, Action::PlayStop);
    if previewing && play {
        Command::ConfirmMove
    } else if previewing && moving.is_none() && (key_pressed || actions.len() > 0) {
        Command::CancelMove
    } else if play || holds(actions, Action::PlayFromCursor) {
        if playing {
            Command::Stop
        } else {
            Command::Start { from_cursor: !play }
        }
    } else if let Some(dir) = moving {
        Command::MoveBlock(dir)
    } else if let Some(dir) = cursor {
        Command::Cursor { dir, select: select.is_some() }
    } else if let Some(dir) = select {
        Command::Cursor { dir, select: true }
    } else if holds(actions, Action::Delete) {
        Command::Delete
    } else if holds(actions, Action::NoteOff) {
        Command::NoteOff
    } else if holds(actions, Action::TransposeOctaveUp) {
        Command::Transpose(12)
    } else if holds(actions, Action::TransposeOctaveDown) {
        Command::Transpose(-12)
    } else if holds(actions, Action::TransposeUp) {
        Command::Transpose(1)
    } else if holds(actions, Action::TransposeDown) {
        Command::Transpose(-1)
    } else if holds(actions, Action::OctaveUp) {
        Command::Octave { up: true }
    } else if holds(actions, Action::OctaveDown) {
        Command::Octave { up: false }
    } else if holds(actions, Action::Escape) {
        if selecting {
            Command::ClearSelection
        } else if playing {
            Command::Stop
        } else {
            Command::Leave
        }
    } else {
        Command::NoteKeys
    }
}

} // verus!
