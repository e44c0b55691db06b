use psikat::app::clip::{
    col_count, copy_block, drop_block, flat_col, lift_block, move_cell, paste_clip, resolve_col, shift_corners,
    shift_fits, Corners,
};
use psikat::app::keybindings::Action;
use psikat::project::pattern::{Cell, Note, Pattern};

fn note(p: u8) -> Cell {
    Cell::NoteOn(Note { pitch: p })
}

/// Three tracks of 8 rows; the first has two voices, so the columns are
/// (0,0) (0,1) (1,0) (2,0).
fn pattern() -> Pattern {
    let mut pat = Pattern::new("P01".into(), 3, 8);
    pat.set_voice_count(0, 2);
    pat
}

#[test]
fn columns_run_through_the_voices() {
    let pat = pattern();
    assert_eq!(col_count(&pat), 4);
    assert_eq!(flat_col(&pat, 0, 1), 1);
    assert_eq!(flat_col(&pat, 1, 0), 2);
    assert_eq!(flat_col(&pat, 2, 0), 3);
    assert_eq!(resolve_col(&pat, 0), Some((0, 0)));
    assert_eq!(resolve_col(&pat, 1), Some((0, 1)));
    assert_eq!(resolve_col(&pat, 3), Some((2, 0)));
    assert_eq!(resolve_col(&pat, 4), None);
}

#[test]
fn copy_then_paste_elsewhere() {
    let mut pat = pattern();
    pat.set(0, 1, 2, note(60));
    pat.set(1, 0, 3, note(62));
    let clip = copy_block(&pat, 1, 2, 2, 3);
    assert_eq!(clip, vec![vec![note(60), Cell::Empty], vec![Cell::Empty, note(62)]]);
    paste_clip(&mut pat, &clip, 2, 5);
    assert_eq!(pat.get(1, 0, 5), note(60));
    assert_eq!(pat.get(2, 0, 6), note(62));
    assert_eq!(pat.get(0, 1, 2), note(60));
}

#[test]
fn copy_stops_at_the_last_column() {
    let pat = pattern();
    let clip = copy_block(&pat, 3, 10, 0, 1);
    assert_eq!(clip.len(), 1);
}

#[test]
fn paste_past_the_end_is_cut() {
    let mut pat = pattern();
    let clip = vec![vec![note(1), note(2)], vec![note(3)]];
    paste_clip(&mut pat, &clip, 3, 7);
    assert_eq!(pat.get(2, 0, 7), note(1));
}

#[test]
fn lift_and_drop_move_a_block() {
    let mut pat = pattern();
    pat.set(0, 0, 0, note(48));
    pat.set(0, 1, 1, note(50));
    let lifted = lift_block(&mut pat, 0, 1, 0, 1);
    assert_eq!(lifted, vec![vec![note(48), Cell::Empty], vec![Cell::Empty, note(50)]]);
    assert_eq!(pat.get(0, 0, 0), Cell::Empty);
    assert_eq!(pat.get(0, 1, 1), Cell::Empty);
    drop_block(&mut pat, &lifted, 1, 4);
    assert_eq!(pat.get(0, 1, 4), note(48));
    assert_eq!(pat.get(1, 0, 5), note(50));
}

#[test]
fn move_cell_one_step() {
    let mut pat = pattern();
    pat.set(0, 1, 3, note(55));
    assert_eq!(move_cell(&mut pat, 0, 1, 3, Action::MoveRight), Some((1, 0, 3)));
    assert_eq!(pat.get(1, 0, 3), note(55));
    assert_eq!(pat.get(0, 1, 3), Cell::Empty);
    assert_eq!(move_cell(&mut pat, 1, 0, 3, Action::MoveDown), Some((1, 0, 4)));
    assert_eq!(pat.get(1, 0, 4), note(55));
}

#[test]
fn move_cell_stops_at_the_edges() {
    let mut pat = pattern();
    pat.set(0, 0, 0, note(40));
    assert_eq!(move_cell(&mut pat, 0, 0, 0, Action::MoveUp), None);
    assert_eq!(move_cell(&mut pat, 0, 0, 0, Action::MoveLeft), None);
    assert_eq!(pat.get(0, 0, 0), note(40));
    pat.set(2, 0, 7, note(41));
    assert_eq!(move_cell(&mut pat, 2, 0, 7, Action::MoveRight), None);
    assert_eq!(move_cell(&mut pat, 2, 0, 7, Action::MoveDown), None);
}

#[test]
fn block_shift_stays_inside() {
    assert!(shift_fits(1, 2, 0, 3, Action::MoveRight, 4, 8));
    assert!(!shift_fits(1, 3, 0, 3, Action::MoveRight, 4, 8));
    assert!(!shift_fits(0, 2, 0, 3, Action::MoveLeft, 4, 8));
    assert!(!shift_fits(0, 2, 0, 3, Action::MoveUp, 4, 8));
    assert!(shift_fits(0, 2, 0, 6, Action::MoveDown, 4, 8));
    assert!(!shift_fits(0, 2, 0, 7, Action::MoveDown, 4, 8));
}

#[test]
fn paste_where_copied_changes_nothing() {
    let mut pat = pattern();
    pat.set(0, 0, 1, note(30));
    pat.set(1, 0, 2, note(31));
    let before = pat.data.clone();
    let clip = copy_block(&pat, 0, 2, 0, 3);
    paste_clip(&mut pat, &clip, 0, 0);
    assert_eq!(pat.data, before);
}

#[test]
fn cancelled_move_restores_the_pattern() {
    let mut pat = pattern();
    pat.set(0, 1, 5, note(70));
    pat.set(2, 0, 6, note(71));
    let before = pat.data.clone();
    let lifted = lift_block(&mut pat, 1, 3, 4, 6);
    assert_eq!(pat.get(0, 1, 5), Cell::Empty);
    drop_block(&mut pat, &lifted, 1, 4);
    assert_eq!(pat.data, before);
}

#[test]
fn shift_corners_moves_both_corners() {
    let c = Corners { cur_col: 2, cur_row: 5, anc_col: 1, anc_row: 3 };
    assert_eq!(
        shift_corners(c, Action::MoveRight, 4, 8),
        Some(Corners { cur_col: 3, cur_row: 5, anc_col: 2, anc_row: 3 })
    );
    assert_eq!(
        shift_corners(c, Action::MoveUp, 4, 8),
        Some(Corners { cur_col: 2, cur_row: 4, anc_col: 1, anc_row: 2 })
    );
}

#[test]
fn shift_corners_stops_at_edges() {
    let c = Corners { cur_col: 3, cur_row: 7, anc_col: 0, anc_row: 0 };
    assert_eq!(shift_corners(c, Action::MoveRight, 4, 8), None);
    assert_eq!(shift_corners(c, Action::MoveLeft, 4, 8), None);
    assert_eq!(shift_corners(c, Action::MoveDown, 4, 8), None);
    assert_eq!(shift_corners(c, Action::MoveUp, 4, 8), None);
}
