use psikat::app::order::OrderList;

fn order(entries: Vec<usize>, current: usize) -> OrderList {
    OrderList { entries, current }
}

#[test]
fn new_order_plays_first_pattern() {
    let o = OrderList::new();
    assert_eq!(o.entries, vec![0]);
    assert_eq!(o.current, 0);
}

#[test]
fn select_and_point_entry() {
    let mut o = order(vec![0, 1, 0], 0);
    o.select(2);
    assert_eq!(o.current, 2);
    o.set_pattern(1, 3);
    assert_eq!(o.entries, vec![0, 3, 0]);
    assert_eq!(o.current, 2);
}

#[test]
fn first_unused_finds_lowest_gap() {
    assert_eq!(order(vec![0, 2, 0], 0).first_unused(4), Some(1));
    assert_eq!(order(vec![0, 1, 2], 0).first_unused(3), None);
    assert_eq!(order(vec![1], 0).first_unused(2), Some(0));
}

#[test]
fn add_entry_reuses_unused_pattern() {
    let mut o = order(vec![0, 2], 0);
    let p = o.add_entry(3);
    assert_eq!(p, 1);
    assert_eq!(o.entries, vec![0, 2, 1]);
    assert_eq!(o.current, 2);
}

#[test]
fn add_entry_asks_for_new_pattern_when_all_played() {
    let mut o = order(vec![0, 1], 1);
    let p = o.add_entry(2);
    assert_eq!(p, 2);
    assert_eq!(o.entries, vec![0, 1, 2]);
    assert_eq!(o.current, 2);
}

#[test]
fn remove_entry_keeps_pattern_played_elsewhere() {
    let mut o = order(vec![0, 1, 0], 1);
    assert_eq!(o.remove_entry(2), None);
    assert_eq!(o.entries, vec![0, 1]);
    assert_eq!(o.current, 1);
}

#[test]
fn remove_entry_drops_unplayed_pattern_and_renumbers() {
    let mut o = order(vec![0, 1, 2, 3, 1], 4);
    assert_eq!(o.remove_entry(2), Some(2));
    assert_eq!(o.entries, vec![0, 1, 2, 1]);
    assert_eq!(o.current, 3);
}

#[test]
fn remove_entry_keeps_references_on_values() {
    // Entry 1 (pattern 1) goes; patterns 2 and 3 move down to 1 and 2 and still name the
    // same patterns once taken back by one.
    let before = vec![0usize, 1, 3, 2];
    let mut o = order(before.clone(), 0);
    let removed = o.remove_entry(1);
    assert_eq!(removed, Some(1));
    let rest: Vec<usize> = vec![0, 3, 2];
    for (j, &x) in o.entries.iter().enumerate() {
        let back = if x >= 1 { x + 1 } else { x };
        assert_eq!(back, rest[j]);
    }
}
