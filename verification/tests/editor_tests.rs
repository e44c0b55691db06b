use psikat::editor::{Editor, EditorEffect, EditorKey, Mode, SettingsField};
use psikat::pattern::{Cell, Note};

#[test]
fn fresh_editor() {
    let e = Editor::new();
    assert_eq!(e.pattern.channels, 8);
    assert_eq!(e.pattern.rows, 16);
    assert_eq!(e.bpm, 120);
    assert_eq!(e.octave, 4);
    assert_eq!(e.mode, Mode::Edit);
}

#[test]
fn arrows_wrap_around() {
    let mut e = Editor::new();
    e.handle_key(EditorKey::Up, false);
    assert_eq!(e.cursor_row, 15);
    e.handle_key(EditorKey::Down, false);
    assert_eq!(e.cursor_row, 0);
    e.handle_key(EditorKey::Left, false);
    assert_eq!(e.cursor_channel, 7);
    e.handle_key(EditorKey::Right, false);
    assert_eq!(e.cursor_channel, 0);
}

#[test]
fn note_key_enters_and_previews() {
    let mut e = Editor::new();
    let effect = e.handle_key(EditorKey::Char('z'), false);
    assert_eq!(effect, EditorEffect::Preview { note: Note { pitch: 60 }, channel: 0 });
    assert_eq!(e.pattern.get(0, 0), Cell::NoteOn(Note { pitch: 60 }));
    assert_eq!(e.cursor_row, 1);
    assert_eq!(e.handle_key(EditorKey::Char('1'), false), EditorEffect::Nothing);
}

#[test]
fn tab_enters_note_off_and_delete_steps_back() {
    let mut e = Editor::new();
    e.handle_key(EditorKey::Tab, false);
    assert_eq!(e.pattern.get(0, 0), Cell::NoteOff);
    assert_eq!(e.cursor_row, 1);
    e.handle_key(EditorKey::Up, false);
    e.handle_key(EditorKey::Delete, false);
    assert_eq!(e.pattern.get(0, 0), Cell::Empty);
    assert_eq!(e.cursor_row, 15);
}

#[test]
fn alt_arrows_select_and_delete_clears_the_block() {
    let mut e = Editor::new();
    e.handle_key(EditorKey::Char('z'), false);
    e.handle_key(EditorKey::Char('x'), false);
    e.handle_key(EditorKey::Up, false);
    e.handle_key(EditorKey::Up, false);
    e.handle_key(EditorKey::Down, true);
    assert_eq!(e.selection_anchor, Some((0, 0)));
    e.handle_key(EditorKey::Right, true);
    e.handle_key(EditorKey::Backspace, false);
    assert_eq!(e.selection_anchor, None);
    assert_eq!(e.pattern.get(0, 0), Cell::Empty);
    assert_eq!(e.pattern.get(0, 1), Cell::Empty);
}

#[test]
fn octave_keys_stay_in_range() {
    let mut e = Editor::new();
    for _ in 0..6 {
        e.handle_key(EditorKey::Period, false);
    }
    assert_eq!(e.octave, 8);
    for _ in 0..10 {
        e.handle_key(EditorKey::Comma, false);
    }
    assert_eq!(e.octave, 0);
}

#[test]
fn enter_plays_and_stops_escape_quits() {
    let mut e = Editor::new();
    assert_eq!(e.handle_key(EditorKey::Enter, false), EditorEffect::StartPlayback);
    assert!(e.playing);
    assert_eq!(e.tick(), Some(1));
    assert_eq!(e.handle_key(EditorKey::Enter, false), EditorEffect::StopPlayback);
    assert!(!e.playing);
    assert_eq!(e.tick(), None);
    assert_eq!(e.handle_key(EditorKey::Escape, false), EditorEffect::Quit);
}

#[test]
fn settings_page_adjusts_tempo_length_and_transpose() {
    let mut e = Editor::new();
    e.handle_key(EditorKey::Num2, false);
    assert_eq!(e.mode, Mode::Settings);
    assert_eq!(e.settings_field, SettingsField::Bpm);
    e.handle_key(EditorKey::Right, false);
    assert_eq!(e.bpm, 121);
    e.handle_key(EditorKey::Down, false);
    e.handle_key(EditorKey::Right, false);
    assert_eq!(e.pattern.rows, 17);
    assert_eq!(e.pattern.data[0].len(), 17);
    e.handle_key(EditorKey::Left, false);
    e.handle_key(EditorKey::Left, false);
    assert_eq!(e.pattern.rows, 15);
    e.handle_key(EditorKey::Down, false);
    e.handle_key(EditorKey::Down, false);
    for _ in 0..20 {
        e.handle_key(EditorKey::Right, false);
    }
    assert_eq!(e.transpose, 12);
    e.handle_key(EditorKey::Down, false);
    assert_eq!(e.handle_key(EditorKey::Enter, false), EditorEffect::Export);
    e.handle_key(EditorKey::Escape, false);
    assert_eq!(e.mode, Mode::Edit);
}

#[test]
fn shrinking_the_pattern_keeps_the_cursor_inside() {
    let mut e = Editor::new();
    e.handle_key(EditorKey::Up, false);
    assert_eq!(e.cursor_row, 15);
    e.handle_key(EditorKey::Num2, false);
    e.handle_key(EditorKey::Down, false);
    e.handle_key(EditorKey::Left, false);
    assert_eq!(e.pattern.rows, 15);
    assert_eq!(e.cursor_row, 14);
}

#[test]
fn set_cursor_only_inside() {
    let mut e = Editor::new();
    e.set_cursor(3, 5);
    assert_eq!((e.cursor_channel, e.cursor_row), (3, 5));
    e.set_cursor(8, 0);
    assert_eq!((e.cursor_channel, e.cursor_row), (3, 5));
}
