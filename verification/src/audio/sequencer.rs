//! The player's row and order bookkeeping: where each track starts, how its row
//! advances, and which entry of the play order comes next.
use vstd::prelude::*;

verus! {

/// The row a track starts at when playback starts at `start_row` of a pattern of
/// `pattern_rows` rows: the same row for a track with the pattern's rows, else the row at
/// the same fraction of the track, rounded down.
pub open spec fn start_row_of_track(start_row: nat, track_rows: nat, pattern_rows: nat) -> nat {
    if track_rows == pattern_rows {
        start_row
    } else {
        start_row * track_rows / pattern_rows
    }
}

/// A track starts at the same fraction of its rows as playback does of the pattern's,
/// rounded down: its start row `r` is the largest with `r / track_rows` not past
/// `start_row / pattern_rows`.
pub proof fn lemma_track_start_fraction(start_row: nat, track_rows: nat, pattern_rows: nat)
    requires
        pattern_rows > 0,
    ensures
        ({
            let r = start_row_of_track(start_row, track_rows, pattern_rows);
            &&& r * pattern_rows <= start_row * track_rows
            &&& start_row * track_rows < (r + 1) * pattern_rows
        }),
{
    let r = start_row_of_track(start_row, track_rows, pattern_rows);
    let x = start_row * track_rows;
    if track_rows == pattern_rows {
        assert(r * pattern_rows == x);
        assert(x < (r + 1) * pattern_rows) by (nonlinear_arith)
            requires
                r * pattern_rows == x,
                pattern_rows > 0,
        ;
    } else {
        assert(r * pattern_rows <= x && x < (r + 1) * pattern_rows) by (nonlinear_arith)
            requires
                r == x / pattern_rows,
                pattern_rows > 0,
        ;
    }
}

/// The row a track starts at (see `start_row_of_track`).
pub fn initial_track_row(start_row: usize, track_rows: usize, pattern_rows: usize) -> (r: usize)
    requires
        track_rows != pattern_rows ==> pattern_rows > 0 && start_row * track_rows <= usize::MAX,
    ensures
        r == start_row_of_track(start_row as nat, track_rows as nat, pattern_rows as nat),
{
    if track_rows == pattern_rows {
        start_row
    } else {
        start_row * track_rows / pattern_rows
    }
}

/// A track's row after one of its rows has passed: the next row, or row 0 after its last
/// row; the second part tells whether the pattern ended, which it does when a track as
/// long as the pattern wraps.
pub open spec fn stepped_row(current: nat, total: nat, max_rows: nat) -> (nat, bool) {
    if current + 1 >= total {
        (0, total == max_rows)
    } else {
        ((current + 1) as nat, false)
    }
}

/// Advances a track's row (see `stepped_row`).
pub fn step_track_row(current: usize, total: usize, max_rows: usize) -> (r: (usize, bool))
    requires
        current < usize::MAX,
    ensures
        (r.0 as nat, r.1) == stepped_row(current as nat, total as nat, max_rows as nat),
{
    let next = current + 1;
    if next >= total {
        (0, total == max_rows)
    } else {
        (next, false)
    }
}

/// The entry of the play order after `current` once a pattern has ended: the next one,
/// wrapping to the first, or none when playback is to stop at the end and this was the
/// last.
pub open spec fn following_order(current: nat, order_len: nat, stop_at_end: bool) -> Option<nat> {
    if current + 1 >= order_len && stop_at_end {
        None
    } else {
        Some(((current + 1) as nat) % order_len)
    }
}

/// The next entry of the play order (see `following_order`).
pub fn next_order_index(current: usize, order_len: usize, stop_at_end: bool) -> (r: Option<usize>)
    requires
        order_len > 0,
        current < usize::MAX,
    ensures
        match r {
            Some(i) => following_order(current as nat, order_len as nat, stop_at_end) == Some(
                i as nat,
            ),
            None => following_order(current as nat, order_len as nat, stop_at_end) is None,
        },
{
    let next = current + 1;
    if next >= order_len && stop_at_end {
        None
    } else {
        Some(next % order_len)
    }
}

/// Where playback continues after the patterns or the play order change: an order
/// position past the end restarts at the first entry's first row, and a row past the
/// end of the pattern there restarts at row 0.
pub open spec fn kept_position(order_idx: nat, row: nat, order: Seq<usize>, rows: Seq<usize>) -> (nat, nat) {
    let (o, r) = if order_idx >= order.len() {
        (0nat, 0nat)
    } else {
        (order_idx, row)
    };
    if r >= rows[order[o as int] as int] {
        (o, 0)
    } else {
        (o, r)
    }
}

/// The position playback continues at (see `kept_position`); `rows` holds the row
/// count of each pattern.
pub fn continue_position(order_idx: usize, row: usize, order: &Vec<usize>, rows: &Vec<usize>) -> (r: (usize, usize))
    requires
        order@.len() > 0,
        forall|k: int| 0 <= k < order@.len() ==> #[trigger] order@[k] < rows@.len(),
    ensures
        (r.0 as nat, r.1 as nat) == kept_position(order_idx as nat, row as nat, order@, rows@),
{
    let (o, r) = if order_idx >= order.len() {
        (0, 0)
    } else {
        (order_idx, row)
    };
    let pattern_index = order[o];
    if r >= rows[pattern_index] {
        (o, 0)
    } else {
        (o, r)
    }
}

/// Entry `i` of a per-track list, or `default` for a track past its end.
pub fn entry_or<T: Copy>(list: &Vec<T>, i: usize, default: T) -> (r: T)
    ensures
        r == if i < list@.len() {
            list@[i as int]
        } else {
            default
        },
{
    if i < list.len() {
        list[i]
    } else {
        default
    }
}

/// How many voices a track plays with: its polyphony, but at least one.
pub fn voice_count(polyphony: u8) -> (r: usize)
    ensures
        r == if polyphony >= 1 {
            polyphony as usize
        } else {
            1
        },
{
    if polyphony >= 1 {
        polyphony as usize
    } else {
        1
    }
}

} // verus!
