use psikat::app::drag::{drop_move, toggle_selected, ArrangerDrag, DragTarget, DropMove};

#[test]
fn drop_entry_on_entry_reorders() {
    assert_eq!(
        drop_move(DragTarget::Item(0), DragTarget::Item(2)),
        DropMove::ReorderItem { from: 0, to: 1 }
    );
    assert_eq!(
        drop_move(DragTarget::Item(3), DragTarget::Item(1)),
        DropMove::ReorderItem { from: 3, to: 1 }
    );
    assert_eq!(drop_move(DragTarget::Item(1), DragTarget::Item(2)), DropMove::Stay);
    assert_eq!(drop_move(DragTarget::Item(1), DragTarget::Item(1)), DropMove::Stay);
}

#[test]
fn drop_entry_into_group() {
    assert_eq!(
        drop_move(DragTarget::Item(3), DragTarget::SubPattern(1, 0)),
        DropMove::IntoGroup { item: 3, group: 1, sub: 0 }
    );
}

#[test]
fn drop_group_pattern_out_and_within() {
    assert_eq!(
        drop_move(DragTarget::SubPattern(1, 2), DragTarget::Item(0)),
        DropMove::OutOfGroup { group: 1, sub: 2, target: 0 }
    );
    assert_eq!(
        drop_move(DragTarget::SubPattern(1, 2), DragTarget::SubPattern(1, 0)),
        DropMove::ReorderSub { group: 1, from: 2, to: 0 }
    );
    assert_eq!(drop_move(DragTarget::SubPattern(1, 2), DragTarget::SubPattern(1, 2)), DropMove::Stay);
    assert_eq!(
        drop_move(DragTarget::SubPattern(1, 2), DragTarget::SubPattern(4, 1)),
        DropMove::BetweenGroups { from_group: 1, from_sub: 2, to_group: 4, to_sub: 1 }
    );
}

#[test]
fn drag_follows_the_pointer() {
    let mut drag = ArrangerDrag::start(DragTarget::Item(2));
    assert_eq!(drag.finish(), DropMove::Stay);
    drag.hover(DragTarget::Item(5));
    assert_eq!(drag.from, DragTarget::Item(2));
    assert_eq!(drag.finish(), DropMove::ReorderItem { from: 2, to: 4 });
}

#[test]
fn shift_click_toggles_selection() {
    let mut sel = vec![1, 4];
    toggle_selected(&mut sel, 2);
    assert_eq!(sel, vec![1, 4, 2]);
    toggle_selected(&mut sel, 4);
    assert_eq!(sel, vec![1, 2]);
    let mut dup = vec![3, 1, 3];
    toggle_selected(&mut dup, 3);
    assert_eq!(dup, vec![1]);
}

#[test]
fn dropped_entry_lands_before_target() {
    // Entries a b c d; dragging a onto c puts it just before c: b a c d.
    let mut order = vec!['a', 'b', 'c', 'd'];
    if let DropMove::ReorderItem { from, to } = drop_move(DragTarget::Item(0), DragTarget::Item(2)) {
        let x = order.remove(from);
        order.insert(to, x);
    }
    assert_eq!(order, vec!['b', 'a', 'c', 'd']);
    // Dragging d onto b: a d b c.
    let mut order = vec!['a', 'b', 'c', 'd'];
    if let DropMove::ReorderItem { from, to } = drop_move(DragTarget::Item(3), DragTarget::Item(1)) {
        let x = order.remove(from);
        order.insert(to, x);
    }
    assert_eq!(order, vec!['a', 'd', 'b', 'c']);
}
