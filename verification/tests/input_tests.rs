use psikat::app::input::{command, holds, Command};
use psikat::app::keybindings::Action;

#[test]
fn holds_finds_action() {
    assert!(holds(&vec![Action::Delete, Action::NoteOff], Action::NoteOff));
    assert!(!holds(&vec![Action::Delete], Action::NoteOff));
}

#[test]
fn play_stop_confirms_a_moving_block() {
    let c = command(&vec![Action::PlayStop, Action::MoveUp], true, true, false, true);
    assert_eq!(c, Command::ConfirmMove);
}

#[test]
fn other_key_cancels_a_moving_block() {
    assert_eq!(command(&vec![Action::Delete], true, true, false, true), Command::CancelMove);
    assert_eq!(command(&vec![], true, true, false, true), Command::CancelMove);
    assert_eq!(command(&vec![Action::MoveLeft], true, true, false, true), Command::MoveBlock(Action::MoveLeft));
    assert_eq!(command(&vec![], true, false, false, true), Command::NoteKeys);
}

#[test]
fn play_keys_toggle_playback() {
    assert_eq!(command(&vec![Action::PlayStop], false, true, true, false), Command::Stop);
    assert_eq!(
        command(&vec![Action::PlayFromCursor], false, true, false, false),
        Command::Start { from_cursor: true }
    );
    assert_eq!(
        command(&vec![Action::PlayFromCursor, Action::PlayStop], false, true, false, false),
        Command::Start { from_cursor: false }
    );
}

#[test]
fn move_keys_come_before_cursor_keys() {
    let c = command(&vec![Action::CursorUp, Action::MoveDown, Action::MoveUp], false, true, false, false);
    assert_eq!(c, Command::MoveBlock(Action::MoveUp));
}

#[test]
fn cursor_with_select_keeps_selection() {
    let c = command(&vec![Action::SelectDown, Action::CursorLeft], false, true, false, false);
    assert_eq!(c, Command::Cursor { dir: Action::CursorLeft, select: true });
    let c = command(&vec![Action::CursorRight], false, true, false, true);
    assert_eq!(c, Command::Cursor { dir: Action::CursorRight, select: false });
    let c = command(&vec![Action::SelectUp], false, true, false, false);
    assert_eq!(c, Command::Cursor { dir: Action::SelectUp, select: true });
}

#[test]
fn editing_keys_in_order() {
    assert_eq!(command(&vec![Action::NoteOff, Action::Delete], false, true, false, false), Command::Delete);
    assert_eq!(command(&vec![Action::OctaveUp, Action::NoteOff], false, true, false, false), Command::NoteOff);
    assert_eq!(
        command(&vec![Action::TransposeUp, Action::TransposeOctaveDown], false, true, false, false),
        Command::Transpose(-12)
    );
    assert_eq!(command(&vec![Action::TransposeDown], false, true, false, false), Command::Transpose(-1));
    assert_eq!(command(&vec![Action::OctaveDown], false, true, false, false), Command::Octave { up: false });
}

#[test]
fn escape_clears_then_stops_then_leaves() {
    assert_eq!(command(&vec![Action::Escape], false, true, true, true), Command::ClearSelection);
    assert_eq!(command(&vec![Action::Escape], false, true, true, false), Command::Stop);
    assert_eq!(command(&vec![Action::Escape], false, true, false, false), Command::Leave);
}

#[test]
fn nothing_bound_enters_notes() {
    assert_eq!(command(&vec![], false, true, false, false), Command::NoteKeys);
}
