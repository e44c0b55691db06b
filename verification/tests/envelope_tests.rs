use psikat::project::channel::VolEnvelope;

fn env(points: Vec<(u16, u16)>) -> VolEnvelope {
    VolEnvelope { points, sustain_point: None, loop_range: None, enabled: true }
}

#[test]
fn enabling_an_empty_envelope_gives_starter_points() {
    let mut e = VolEnvelope::disabled();
    e.set_enabled(true);
    assert!(e.enabled);
    assert_eq!(e.points, vec![(0, 64), (16, 48), (96, 0)]);
    assert_eq!(e.sustain_point, Some(1));
    e.set_enabled(false);
    assert!(!e.enabled);
    assert_eq!(e.points.len(), 3);
}

#[test]
fn point_count_grows_and_shrinks() {
    let mut e = env(vec![(0, 64), (10, 40)]);
    e.sustain_point = Some(1);
    e.set_point_count(4);
    assert_eq!(e.points, vec![(0, 64), (10, 40), (26, 32), (42, 32)]);
    e.loop_range = Some((1, 3));
    e.sustain_point = Some(3);
    e.set_point_count(2);
    assert_eq!(e.points, vec![(0, 64), (10, 40)]);
    assert_eq!(e.sustain_point, None);
    assert_eq!(e.loop_range, None);
    e.set_point_count(1);
    assert_eq!(e.points.len(), 2);
}

#[test]
fn removing_a_point_moves_sustain_and_loop() {
    let mut e = env(vec![(0, 64), (10, 50), (20, 40), (30, 0)]);
    e.sustain_point = Some(2);
    e.loop_range = Some((1, 3));
    e.remove_point(1);
    assert_eq!(e.points, vec![(0, 64), (20, 40), (30, 0)]);
    assert_eq!(e.sustain_point, Some(1));
    assert_eq!(e.loop_range, Some((1, 2)));
    e.remove_point(1);
    assert_eq!(e.points.len(), 2);
    assert_eq!(e.sustain_point, None);
    e.remove_point(0);
    assert_eq!(e.points.len(), 2);
}

#[test]
fn inserting_a_point_clamps_and_shifts() {
    let mut e = env(vec![(0, 64), (10, 40), (20, 0)]);
    e.sustain_point = Some(1);
    e.loop_range = Some((0, 2));
    assert_eq!(e.insert_point(0, 50, 100), 1);
    assert_eq!(e.points, vec![(0, 64), (9, 64), (10, 40), (20, 0)]);
    assert_eq!(e.sustain_point, Some(2));
    assert_eq!(e.loop_range, Some((0, 3)));
    assert_eq!(e.insert_point(3, 100, 10), 4);
    assert_eq!(e.points[4], (36, 10));
}

#[test]
fn dragging_a_point_stays_between_neighbours() {
    let mut e = env(vec![(0, 64), (10, 40), (20, 0)]);
    e.move_point(1, 50, 70);
    assert_eq!(e.points[1], (19, 64));
    e.move_point(1, 0, 30);
    assert_eq!(e.points[1], (1, 30));
    e.move_point(0, 5, 10);
    assert_eq!(e.points[0], (0, 10));
    e.move_point(2, 20000, 1);
    assert_eq!(e.points[2], (9999, 1));
}

#[test]
fn loop_ends_stay_ordered() {
    let mut e = env(vec![(0, 64), (10, 50), (20, 40), (30, 0)]);
    e.set_loop_start(true, 2);
    assert_eq!(e.loop_range, Some((2, 3)));
    e.set_loop_end(true, 1);
    assert_eq!(e.loop_range, Some((2, 2)));
    e.set_loop_end(true, 9);
    assert_eq!(e.loop_range, Some((2, 3)));
    e.set_loop_start(true, 7);
    assert_eq!(e.loop_range, Some((3, 3)));
    e.set_loop_end(false, 0);
    assert_eq!(e.loop_range, None);
    e.set_loop_end(true, 1);
    assert_eq!(e.loop_range, Some((0, 1)));
}

#[test]
fn insert_then_remove_restores_the_envelope() {
    let mut e = env(vec![(0, 64), (10, 50), (20, 40), (30, 0)]);
    e.sustain_point = Some(2);
    e.loop_range = Some((1, 3));
    let at = e.insert_point(1, 15, 45);
    e.remove_point(at);
    assert_eq!(e.points, vec![(0, 64), (10, 50), (20, 40), (30, 0)]);
    assert_eq!(e.sustain_point, Some(2));
    assert_eq!(e.loop_range, Some((1, 3)));
}
