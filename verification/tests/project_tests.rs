use psikat::project::pattern::{Pattern, PatternColor};
use psikat::project::{ArrangerItem, Project};

fn project() -> Project<()> {
    Project::new(())
}

#[test]
fn default_project() {
    let p = project();
    assert_eq!(p.current_pattern().rows, 16);
    assert_eq!(p.current_pattern().bpm, 120);
    assert_eq!(p.current_pattern().computed_rows(), 16);
    assert_eq!(p.arranger.len(), 1);
    assert_eq!(p.flat_order(), vec![0]);
}

#[test]
fn flat_order_with_repeats() {
    let mut p = project();
    p.patterns[0].repeat = 3;
    assert_eq!(p.flat_order(), vec![0, 0, 0]);
}

#[test]
fn flat_order_with_group() {
    let mut p = project();
    p.patterns.push(Pattern::new("Pattern 02".into(), 1, 16));
    p.arranger = vec![ArrangerItem::Group {
        name: "Group 1".into(),
        color: None,
        repeat: 2,
        pattern_indices: vec![0, 1],
        clone_id: None,
        collapsed: false,
    }];
    assert_eq!(p.flat_order(), vec![0, 1, 0, 1]);
}

#[test]
fn flat_order_group_with_pattern_repeats() {
    let mut p = project();
    p.patterns[0].repeat = 2;
    p.patterns.push(Pattern::new("Pattern 02".into(), 1, 16));
    p.patterns[1].repeat = 3;
    p.arranger = vec![ArrangerItem::Group {
        name: "G1".into(),
        color: None,
        repeat: 1,
        pattern_indices: vec![0, 1],
        clone_id: None,
        collapsed: false,
    }];
    assert_eq!(p.flat_order(), vec![0, 0, 1, 1, 1]);
}

#[test]
fn duplicate_item_single() {
    let mut p = project();
    p.duplicate_item(0);
    assert_eq!(p.patterns.len(), 2);
    assert_eq!(p.arranger.len(), 2);
    assert_eq!(p.patterns[1].name, "Pattern 02");
}

#[test]
fn delete_item() {
    let mut p = project();
    p.patterns.push(Pattern::new("Pattern 02".into(), 1, 16));
    p.arranger.push(ArrangerItem::Single { pattern_idx: 1 });
    p.delete_item(0);
    assert_eq!(p.patterns.len(), 1);
    assert_eq!(p.arranger.len(), 1);
    assert_eq!(p.patterns[0].name, "Pattern 02");
}

#[test]
fn group_and_ungroup() {
    let mut p = project();
    p.patterns.push(Pattern::new("Pattern 02".into(), 1, 16));
    p.arranger.push(ArrangerItem::Single { pattern_idx: 1 });
    p.group_items(&[0, 1]);
    assert_eq!(p.arranger.len(), 1);
    assert!(matches!(&p.arranger[0], ArrangerItem::Group { pattern_indices, .. } if pattern_indices == &[0, 1]));
    p.ungroup(0);
    assert_eq!(p.arranger.len(), 2);
}

#[test]
fn increment_name_with_number() {
    assert_eq!(Project::<()>::increment_name("Pattern 01"), "Pattern 02");
    assert_eq!(Project::<()>::increment_name("Group 5"), "Group 6");
    assert_eq!(Project::<()>::increment_name("Test"), "Test 2");
}

#[test]
fn reorder_item() {
    let mut p = project();
    p.patterns.push(Pattern::new("Pattern 02".into(), 1, 16));
    p.patterns.push(Pattern::new("Pattern 03".into(), 1, 16));
    p.arranger.push(ArrangerItem::Single { pattern_idx: 1 });
    p.arranger.push(ArrangerItem::Single { pattern_idx: 2 });
    p.current_item_idx = 0;
    p.reorder_item(0, 2);
    assert_eq!(p.current_item_idx, 2);
    assert!(matches!(&p.arranger[0], ArrangerItem::Single { pattern_idx: 1 }));
}

#[test]
fn flat_order_to_item_idx_single() {
    let mut p = project();
    p.patterns[0].repeat = 3;
    p.patterns.push(Pattern::new("Pattern 02".into(), 1, 16));
    p.arranger.push(ArrangerItem::Single { pattern_idx: 1 });
    assert_eq!(p.flat_order_to_item_idx(0), (0, 0));
    assert_eq!(p.flat_order_to_item_idx(2), (0, 0));
    assert_eq!(p.flat_order_to_item_idx(3), (1, 0));
}

#[test]
fn flat_order_to_item_idx_group() {
    let mut p = project();
    p.patterns[0].repeat = 2;
    p.patterns.push(Pattern::new("Pattern 02".into(), 1, 16));
    p.patterns[1].repeat = 3;
    p.arranger = vec![ArrangerItem::Group {
        name: "G1".into(),
        color: None,
        repeat: 2,
        pattern_indices: vec![0, 1],
        clone_id: None,
        collapsed: false,
    }];
    assert_eq!(p.flat_order_to_item_idx(0), (0, 0));
    assert_eq!(p.flat_order_to_item_idx(1), (0, 0));
    assert_eq!(p.flat_order_to_item_idx(2), (0, 1));
    assert_eq!(p.flat_order_to_item_idx(4), (0, 1));
    assert_eq!(p.flat_order_to_item_idx(5), (0, 0));
}

#[test]
fn item_idx_to_flat_start_basic() {
    let mut p = project();
    p.patterns[0].repeat = 3;
    p.patterns.push(Pattern::new("Pattern 02".into(), 1, 16));
    p.arranger.push(ArrangerItem::Single { pattern_idx: 1 });
    assert_eq!(p.item_idx_to_flat_start(0), 0);
    assert_eq!(p.item_idx_to_flat_start(1), 3);
}

fn three_singles() -> Project<()> {
    let mut p = project();
    p.patterns.push(Pattern::new("Pattern 02".into(), 1, 16));
    p.patterns.push(Pattern::new("Pattern 03".into(), 1, 16));
    p.arranger.push(ArrangerItem::Single { pattern_idx: 1 });
    p.arranger.push(ArrangerItem::Single { pattern_idx: 2 });
    p
}

fn indices(item: &ArrangerItem) -> Vec<usize> {
    item.pattern_indices()
}

#[test]
fn flat_order_past_the_end_is_last_item() {
    let p = three_singles();
    assert_eq!(p.flat_order_to_item_idx(3), (2, 0));
    assert_eq!(p.flat_order_to_item_idx(100), (2, 0));
    assert_eq!(p.item_idx_to_flat_start(7), 3);
}

#[test]
fn start_of_each_item_locates_it() {
    let mut p = three_singles();
    p.patterns[1].repeat = 4;
    p.group_items(&[1, 2]);
    p.arranger.push(ArrangerItem::Single { pattern_idx: 0 });
    for i in 0..p.arranger.len() {
        let start = p.item_idx_to_flat_start(i);
        assert_eq!(p.flat_order_to_item_idx(start), (i, 0));
    }
    let order = p.flat_order();
    assert_eq!(order, vec![0, 1, 1, 1, 1, 2, 0]);
    for (k, &pi) in order.iter().enumerate() {
        let (i, s) = p.flat_order_to_item_idx(k);
        assert_eq!(indices(&p.arranger[i])[s], pi);
    }
}

#[test]
fn delete_keeps_shared_patterns_and_renumbers() {
    let mut p = three_singles();
    p.arranger.push(ArrangerItem::Single { pattern_idx: 1 });
    p.current_item_idx = 3;
    p.delete_item(0);
    assert_eq!(p.patterns.len(), 2);
    assert_eq!(p.patterns[0].name, "Pattern 02");
    assert_eq!(p.patterns[1].name, "Pattern 03");
    assert_eq!(p.flat_order(), vec![0, 1, 0]);
    assert_eq!(p.current_item_idx, 2);
    p.delete_item(0);
    assert_eq!(p.patterns.len(), 2);
    assert_eq!(p.flat_order(), vec![1, 0]);
    p.delete_item(0);
    assert_eq!(p.arranger.len(), 1);
    assert_eq!(p.patterns.len(), 1);
    assert_eq!(p.patterns[0].name, "Pattern 02");
    p.delete_item(0);
    assert_eq!(p.arranger.len(), 1);
}

#[test]
fn group_items_names_and_places_group() {
    let mut p = three_singles();
    p.group_items(&[2, 1, 2]);
    assert_eq!(p.arranger.len(), 2);
    assert_eq!(p.current_item_idx, 1);
    match &p.arranger[1] {
        ArrangerItem::Group { name, color, repeat, pattern_indices, clone_id, collapsed } => {
            assert_eq!(name, "Group 1");
            assert!(color.is_some());
            assert_eq!(*repeat, 1);
            assert_eq!(pattern_indices, &vec![1, 2]);
            assert_eq!(*clone_id, None);
            assert!(!collapsed);
        }
        _ => panic!("not a group"),
    }
    p.group_items(&[0]);
    assert_eq!(p.arranger.len(), 2);
    p.group_items(&[0, 1]);
    match &p.arranger[0] {
        ArrangerItem::Group { name, pattern_indices, .. } => {
            assert_eq!(name, "Group 2");
            assert_eq!(pattern_indices, &vec![0, 1, 2]);
        }
        _ => panic!("not a group"),
    }
}

#[test]
fn ungroup_keeps_play_order() {
    let mut p = three_singles();
    p.patterns[2].repeat = 2;
    let before = p.flat_order();
    p.group_items(&[0, 1, 2]);
    assert_eq!(p.flat_order(), before);
    p.ungroup(0);
    assert_eq!(p.flat_order(), before);
    assert_eq!(p.arranger.len(), 3);
    p.ungroup(1);
    assert_eq!(p.arranger.len(), 3);
}

#[test]
fn reorder_moves_current_along() {
    let mut p = three_singles();
    p.current_item_idx = 1;
    p.reorder_item(0, 2);
    assert_eq!(p.current_item_idx, 0);
    p.reorder_item(2, 0);
    assert_eq!(p.current_item_idx, 1);
    p.reorder_item(0, 5);
    assert_eq!(p.current_item_idx, 1);
    assert_eq!(p.flat_order(), vec![0, 1, 2]);
}

#[test]
fn sub_pattern_moves() {
    let mut p = three_singles();
    p.group_items(&[0, 1]);
    p.reorder_sub_pattern(0, 0, 1);
    assert_eq!(indices(&p.arranger[0]), vec![1, 0]);
    p.move_item_into_group(1, 0, 9);
    assert_eq!(p.arranger.len(), 1);
    assert_eq!(indices(&p.arranger[0]), vec![1, 0, 2]);
    p.move_sub_pattern_out(0, 1, 5);
    assert_eq!(p.arranger.len(), 2);
    assert_eq!(p.current_item_idx, 1);
    assert_eq!(indices(&p.arranger[0]), vec![1, 2]);
    assert!(matches!(p.arranger[1], ArrangerItem::Single { pattern_idx: 0 }));
    p.group_items(&[1]);
    p.move_item_into_group(1, 0, 0);
    assert_eq!(indices(&p.arranger[0]), vec![0, 1, 2]);
}

#[test]
fn move_between_groups_removes_emptied_group() {
    let mut p = three_singles();
    p.group_items(&[0]);
    p.group_items(&[0, 1]);
    p.arranger.push(ArrangerItem::Single { pattern_idx: 2 });
    p.group_items(&[1]);
    p.arranger.insert(
        1,
        ArrangerItem::Group {
            name: "One".into(),
            color: None,
            repeat: 1,
            pattern_indices: vec![2],
            clone_id: None,
            collapsed: false,
        },
    );
    p.move_sub_between_groups(1, 0, 0, 0);
    assert_eq!(p.arranger.len(), 3);
    assert_eq!(indices(&p.arranger[0]), vec![2, 0, 1]);
    assert_eq!(p.current_item_idx, 0);
    p.move_sub_between_groups(0, 0, 0, 2);
    assert_eq!(indices(&p.arranger[0]), vec![0, 1, 2]);
}

#[test]
fn clone_item_shares_patterns() {
    let mut p = three_singles();
    p.clone_item(1);
    assert_eq!(p.arranger.len(), 4);
    assert_eq!(p.patterns.len(), 3);
    assert!(matches!(p.arranger[2], ArrangerItem::Single { pattern_idx: 1 }));
    p.group_items(&[0, 1]);
    p.clone_item(0);
    assert_eq!(p.next_clone_id, 2);
    assert!(matches!(p.arranger[0], ArrangerItem::Group { clone_id: Some(1), .. }));
    assert!(matches!(p.arranger[1], ArrangerItem::Group { clone_id: Some(1), .. }));
    p.clone_item(1);
    assert_eq!(p.next_clone_id, 2);
    assert_eq!(p.arranger.len(), 5);
}

#[test]
fn duplicate_group_copies_its_patterns() {
    let mut p = three_singles();
    p.group_items(&[1, 2]);
    p.duplicate_item(1);
    assert_eq!(p.patterns.len(), 5);
    assert_eq!(p.patterns[3].name, "Pattern 03");
    assert_eq!(p.patterns[4].name, "Pattern 04");
    match &p.arranger[2] {
        ArrangerItem::Group { name, pattern_indices, clone_id, .. } => {
            assert_eq!(name, "Group 2");
            assert_eq!(pattern_indices, &vec![3, 4]);
            assert_eq!(*clone_id, None);
        }
        _ => panic!("not a group"),
    }
}

#[test]
fn tracks_follow_the_current_pattern() {
    let mut p = project();
    assert_eq!(p.next_track_name(), "Track 01");
    assert_eq!(p.next_pattern_name(), "Pattern 02");
    p.add_track(());
    assert_eq!(p.tracks.len(), 2);
    assert_eq!(p.current_pattern().data.len(), 2);
    p.delete_track(5);
    assert_eq!(p.tracks.len(), 2);
    p.delete_track(0);
    assert_eq!(p.tracks.len(), 1);
    assert_eq!(p.current_pattern().data.len(), 1);
    p.delete_track(0);
    assert_eq!(p.tracks.len(), 1);
}

#[test]
fn item_edits() {
    let mut p = three_singles();
    p.rename_item(0, "  Intro \t");
    assert_eq!(p.patterns[0].name, "Intro");
    p.rename_item(0, "   ");
    assert_eq!(p.patterns[0].name, "Intro");
    p.set_item_color(1, Some(PatternColor::Mint));
    assert_eq!(p.patterns[1].color, Some(PatternColor::Mint));
    p.group_items(&[1, 2]);
    p.rename_item(1, "Verse");
    p.set_group_repeat(1, 4);
    p.toggle_collapse(1);
    p.set_item_color(1, None);
    match &p.arranger[1] {
        ArrangerItem::Group { name, color, repeat, collapsed, .. } => {
            assert_eq!(name, "Verse");
            assert_eq!(*color, None);
            assert_eq!(*repeat, 4);
            assert!(*collapsed);
        }
        _ => panic!("not a group"),
    }
    assert_eq!(p.flat_order(), vec![0, 1, 2, 1, 2, 1, 2, 1, 2]);
    p.sub_clone(1, 0);
    assert_eq!(indices(&p.arranger[1]), vec![1, 1, 2]);
    p.sub_delete(1, 1);
    assert_eq!(indices(&p.arranger[1]), vec![1, 2]);
    p.sub_duplicate(1, 1);
    assert_eq!(indices(&p.arranger[1]), vec![1, 2, 3]);
    assert_eq!(p.patterns[3].name, "Pattern 04");
    p.add_pattern();
    assert_eq!(p.patterns.len(), 5);
    assert_eq!(p.patterns[4].name, "Pattern 05");
    assert_eq!(p.current_item_idx, 2);
    assert!(matches!(p.arranger[2], ArrangerItem::Single { pattern_idx: 4 }));
}
