use psikat::app::edit::{
    advance_row, can_transpose, edit_block, move_cursor, place_chord, row_after_delete,
    step_input_transpose, step_octave, transpose_block, voice_in_selection, Block, BlockEdit,
};
use psikat::app::input::{key_index, key_to_note};
use psikat::app::meter::{note_value_label, row_within};
use psikat::app::keybindings::{Action, KeyBindings, KeyCombo, KeyName, DEFAULT_BINDING_COUNT};
use psikat::app::scale::ScaleIndex;
use psikat::project::pattern::{Cell, Note, Pattern};

fn block(min_ch: usize, max_ch: usize, min_v: usize, max_v: usize, min_row: usize, max_row: usize) -> Block {
    Block { min_ch, max_ch, min_v, max_v, min_row, max_row }
}

fn note(p: u8) -> Cell {
    Cell::NoteOn(Note::new(p))
}

#[test]
fn voices_in_selection() {
    let one = block(1, 1, 1, 2, 0, 3);
    assert!(voice_in_selection(&one, 1, 1));
    assert!(!voice_in_selection(&one, 1, 3));
    let span = block(0, 2, 1, 0, 0, 3);
    assert!(!voice_in_selection(&span, 0, 0));
    assert!(voice_in_selection(&span, 0, 5));
    assert!(voice_in_selection(&span, 1, 7));
    assert!(voice_in_selection(&span, 2, 0));
    assert!(!voice_in_selection(&span, 2, 1));
}

#[test]
fn clearing_a_block() {
    let mut pat = Pattern::new("P01".into(), 3, 16);
    for ch in 0..3 {
        for row in 0..4 {
            pat.set(ch, 0, row, note(60));
        }
    }
    edit_block(&mut pat, &block(1, 2, 0, 0, 1, 2), BlockEdit::Clear);
    assert_eq!(pat.get(0, 0, 1), note(60));
    assert_eq!(pat.get(1, 0, 0), note(60));
    assert_eq!(pat.get(1, 0, 1), Cell::Empty);
    assert_eq!(pat.get(2, 0, 2), Cell::Empty);
    assert_eq!(pat.get(2, 0, 3), note(60));
}

#[test]
fn transposing_a_block() {
    let mut pat = Pattern::new("P01".into(), 2, 16);
    pat.set(0, 0, 0, note(60));
    pat.set(0, 0, 1, Cell::NoteOff);
    pat.set(1, 0, 0, note(120));
    let b = block(0, 0, 0, 0, 0, 3);
    assert!(can_transpose(&pat, &b, 12));
    transpose_block(&mut pat, &b, 12);
    assert_eq!(pat.get(0, 0, 0), note(72));
    assert_eq!(pat.get(0, 0, 1), Cell::NoteOff);
    assert_eq!(pat.get(1, 0, 0), note(120));
    assert!(can_transpose(&pat, &b, -12));
    transpose_block(&mut pat, &b, -12);
    assert_eq!(pat.get(0, 0, 0), note(60));
    let both = block(0, 1, 0, 0, 0, 0);
    assert!(!can_transpose(&pat, &both, 12));
    assert!(can_transpose(&pat, &both, 7));
    assert!(!can_transpose(&pat, &block(0, 0, 0, 0, 2, 5), 1));
    pat.set(0, 0, 0, note(0));
    assert!(!can_transpose(&pat, &b, -1));
}

#[test]
fn chords_fill_voices() {
    let mut pat = Pattern::new("P01".into(), 1, 8);
    pat.set_voice_count(0, 3);
    place_chord(&mut pat, 0, 1, 2, &vec![Note::new(60), Note::new(64), Note::new(67)]);
    assert_eq!(pat.get(0, 0, 2), Cell::Empty);
    assert_eq!(pat.get(0, 1, 2), note(60));
    assert_eq!(pat.get(0, 2, 2), note(67));
    place_chord(&mut pat, 0, 0, 3, &vec![Note::new(50)]);
    assert_eq!(pat.get(0, 0, 3), note(50));
}

#[test]
fn cursor_moves_wrap() {
    let voices = vec![2usize, 1, 3];
    let rows = vec![16usize, 4, 8];
    assert_eq!(move_cursor(0, 0, 0, Action::CursorUp, &voices, &rows), (0, 0, 15));
    assert_eq!(move_cursor(0, 0, 15, Action::SelectDown, &voices, &rows), (0, 0, 0));
    assert_eq!(move_cursor(0, 0, 10, Action::CursorLeft, &voices, &rows), (2, 2, 7));
    assert_eq!(move_cursor(0, 1, 10, Action::CursorLeft, &voices, &rows), (0, 0, 10));
    assert_eq!(move_cursor(0, 1, 10, Action::CursorRight, &voices, &rows), (1, 0, 3));
    assert_eq!(move_cursor(2, 2, 5, Action::SelectRight, &voices, &rows), (0, 0, 5));
    assert_eq!(move_cursor(1, 0, 2, Action::Delete, &voices, &rows), (1, 0, 2));
}

#[test]
fn small_steps() {
    assert_eq!(advance_row(14, 4, 16), 2);
    assert_eq!(row_after_delete(3, 16), 2);
    assert_eq!(row_after_delete(0, 16), usize::MAX % 16);
    assert_eq!(step_octave(8, true), 8);
    assert_eq!(step_octave(0, false), 0);
    assert_eq!(step_octave(3, true), 4);
    assert_eq!(step_input_transpose(12, true), 12);
    assert_eq!(step_input_transpose(-12, false), -12);
    assert_eq!(step_input_transpose(0, false), -1);
}

#[test]
fn note_keys() {
    assert_eq!(key_index('z'), Some(0));
    assert_eq!(key_index('p'), Some(25));
    assert_eq!(key_index('1'), None);
    let scale = ScaleIndex(0).scale();
    assert_eq!(key_to_note('z', 4, &scale, 0), Some(Note::new(49)));
    assert_eq!(key_to_note('?', 4, &scale, 0), None);
}

#[test]
fn key_bindings() {
    let kb = KeyBindings::defaults();
    assert_eq!(kb.bindings.len(), DEFAULT_BINDING_COUNT);
    assert_eq!(kb.bindings[0].action, Action::PlayStop);
    assert_eq!(kb.bindings[0].title, "Play / Stop");
    assert_eq!(kb.active_actions(false, false, false, &vec![KeyName::ArrowUp]), vec![Action::CursorUp, Action::SynthUp]);
    assert_eq!(kb.active_actions(true, false, false, &vec![KeyName::ArrowUp]), vec![Action::SelectUp]);
    assert_eq!(kb.active_actions(true, true, false, &vec![KeyName::Period]), vec![Action::TransposeOctaveUp]);
    assert_eq!(kb.active_actions(false, false, false, &vec![KeyName::Delete, KeyName::Backspace]), vec![Action::Delete, Action::Delete]);
    assert!(kb.active_actions(false, false, true, &vec![KeyName::Enter]).is_empty());
    assert_eq!(KeyCombo::new(KeyName::Period).ctrl().shift().label(), "Cmd+Shift+.");
    assert_eq!(KeyCombo::new(KeyName::ArrowUp).alt().label(), "Alt+↑");
    assert_eq!(KeyCombo::new(KeyName::Enter).label(), "Enter");
}

#[test]
fn note_value_names() {
    assert_eq!(note_value_label(16), "1/16");
    assert_eq!(note_value_label(5), "1/4·5");
    assert_eq!(note_value_label(24), "1/16T");
    assert_eq!(note_value_label(13), "13");
}

#[test]
fn cursor_row_kept_inside_track() {
    assert_eq!(row_within(5, 8), 5);
    assert_eq!(row_within(12, 8), 7);
    assert_eq!(row_within(3, 0), 0);
}

#[test]
fn meter_change_resizes_tracks() {
    let mut pat = Pattern::new("P01".into(), 2, 16);
    pat.set_meter(3, 4, 1);
    assert_eq!(pat.rows, 12);
    assert_eq!(pat.data[0][0].len(), 12);
    pat.set_meter(4, 4, 2);
    assert_eq!(pat.rows, 32);
    assert_eq!(pat.data[1][0].len(), 32);
}

#[test]
fn track_note_value_change_resizes_one_track() {
    let mut pat = Pattern::new("P01".into(), 2, 16);
    pat.set_track_note_value(1, 8);
    assert_eq!(pat.track_note_values, vec![16, 8]);
    assert_eq!(pat.data[1][0].len(), 8);
    assert_eq!(pat.data[0][0].len(), 16);
    assert_eq!(pat.rows, 16);
}
