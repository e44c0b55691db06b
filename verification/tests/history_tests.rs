use psikat::app::history::{History, MAX_UNDO};

#[test]
fn undo_brings_back_saved_state() {
    let mut h: History<u32> = History::new();
    let mut state = 1u32;
    h.save(state);
    state = 2;
    h.undo(&mut state);
    assert_eq!(state, 1);
    assert_eq!(h.undo, Vec::<u32>::new());
    assert_eq!(h.redo, vec![2]);
}

#[test]
fn redo_after_undo_restores_everything() {
    let mut h: History<u32> = History::new();
    let mut state = 1u32;
    h.save(state);
    state = 2;
    h.save(state);
    state = 3;
    h.undo(&mut state);
    assert_eq!(state, 2);
    h.redo(&mut state);
    assert_eq!(state, 3);
    assert_eq!(h.undo, vec![1, 2]);
    assert!(h.redo.is_empty());
}

#[test]
fn undo_with_nothing_saved_changes_nothing() {
    let mut h: History<u32> = History::new();
    let mut state = 7u32;
    h.undo(&mut state);
    h.redo(&mut state);
    assert_eq!(state, 7);
    assert!(h.undo.is_empty() && h.redo.is_empty());
}

#[test]
fn saving_forgets_redo() {
    let mut h: History<u32> = History::new();
    let mut state = 1u32;
    h.save(state);
    state = 2;
    h.undo(&mut state);
    assert_eq!(h.redo, vec![2]);
    h.save(state);
    assert!(h.redo.is_empty());
    assert_eq!(h.undo, vec![1]);
}

#[test]
fn history_keeps_one_hundred_steps() {
    let mut h: History<usize> = History::new();
    for i in 0..150 {
        h.save(i);
    }
    assert_eq!(MAX_UNDO, 100);
    assert_eq!(h.undo.len(), 100);
    assert_eq!(h.undo[0], 50);
    assert_eq!(h.undo[99], 149);
}

#[test]
fn clear_forgets_all() {
    let mut h: History<u8> = History::new();
    h.save(1);
    h.clear();
    assert!(h.undo.is_empty() && h.redo.is_empty());
}
