//! Editing a volume envelope's points: turning it on, setting how many points it has,
//! moving, inserting and removing points, with the sustain point and the loop following
//! the points they name.
use vstd::prelude::*;

use crate::project::channel::VolEnvelope;

verus! {

/// The most ticks a point can be dragged to when it is the last one.
pub const MAX_DRAG_TICK: u16 = 9999;

/// A value capped at the envelope's full volume, 64.
pub open spec fn capped_value(v: u16) -> u16 {
    if v > 64 {
        64
    } else {
        v
    }
}

/// `x` kept within `lo..=hi`.
pub open spec fn clamped(x: int, lo: int, hi: int) -> int {
    if x < lo {
        lo
    } else if x > hi {
        hi
    } else {
        x
    }
}

/// A point index after point `idx` is removed: the ones above it move down one.
pub open spec fn shifted_down(i: usize, idx: int) -> int {
    if i > idx {
        i - 1
    } else {
        i as int
    }
}

/// A point index after a point is inserted at `at`: the ones from there on move up one.
pub open spec fn shifted_up(i: usize, at: int) -> int {
    if i >= at {
        i + 1
    } else {
        i as int
    }
}

/// The sustain point after point `idx` is removed: gone if it was that point.
pub open spec fn sustain_after_removal(sp: Option<usize>, idx: int) -> Option<usize> {
    match sp {
        Some(s) => if s == idx {
            None
        } else {
            Some(shifted_down(s, idx) as usize)
        },
        None => None,
    }
}

/// The loop after point `idx` is removed: its ends move with their points, and it goes
/// away if an end lies past the `len` points that are left.
pub open spec fn loop_after_removal(lr: Option<(usize, usize)>, idx: int, len: int) -> Option<(usize, usize)> {
    match lr {
        Some((ls, le)) => {
            let a = shifted_down(ls, idx);
            let b = shifted_down(le, idx);
            if a >= len || b >= len {
                None
            } else {
                Some((a as usize, b as usize))
            }
        },
        None => None,
    }
}

/// The sustain point and loop once only `len` points are left: either goes away if it
/// names a point past them.
pub open spec fn sustain_within(sp: Option<usize>, len: int) -> Option<usize> {
    match sp {
        Some(s) => if s >= len {
            None
        } else {
            sp
        },
        None => None,
    }
}

/// See `sustain_within`.
pub open spec fn loop_within(lr: Option<(usize, usize)>, len: int) -> Option<(usize, usize)> {
    match lr {
        Some((ls, le)) => if ls >= len || le >= len {
            None
        } else {
            lr
        },
        None => None,
    }
}

/// The points of a freshly enabled envelope that had fewer than two: full volume, a fall
/// to 48 at tick 16 where it holds, and silence at tick 96.
pub open spec fn starter_points() -> Seq<(u16, u16)> {
    seq![(0u16, 64u16), (16u16, 48u16), (96u16, 0u16)]
}

/// The number of points the envelope keeps when asked for `n` of them, having `len`:
/// more are added up to `n`; when fewer are asked for, points go from the end but two
/// always stay.
pub open spec fn kept_points(len: int, n: int) -> int {
    if n >= len {
        n
    } else if len > 2 {
        if n > 2 {
            n
        } else {
            2
        }
    } else {
        len
    }
}

/// The last point's tick, or 0 without points.
pub open spec fn last_tick(pts: Seq<(u16, u16)>) -> int {
    if pts.len() > 0 {
        pts.last().0 as int
    } else {
        0
    }
}

/// Law: inserting a point and then removing it again restores the points, the sustain
/// point and a loop between existing points.
pub proof fn lemma_insert_then_remove(
    pts: Seq<(u16, u16)>,
    sp: Option<usize>,
    lr: Option<(usize, usize)>,
    after: int,
    p: (u16, u16),
)
    requires
        0 <= after < pts.len(),
        2 <= pts.len() <= usize::MAX,
        sp matches Some(s) ==> s < usize::MAX,
        lr matches Some((a, b)) ==> a < pts.len() && b < pts.len(),
    ensures
        pts.insert(after + 1, p).remove(after + 1) == pts,
        sustain_after_removal(
            match sp {
                Some(s) => Some(shifted_up(s, after + 1) as usize),
                None => None,
            },
            after + 1,
        ) == sp,
        loop_after_removal(
            match lr {
                Some((a, b)) => Some((shifted_up(a, after + 1) as usize, shifted_up(b, after + 1) as usize)),
                None => None,
            },
            after + 1,
            pts.len() as int,
        ) == lr,
{
    assert(pts.insert(after + 1, p).remove(after + 1) =~= pts);
}

impl VolEnvelope {
    /// Turns the envelope on or off; turned on with fewer than two points, it gets the
    /// starter points (see `starter_points`) with the sustain on the second.
    pub fn set_enabled(&mut self, enabled: bool)
        ensures
            final(self).enabled == enabled,
            if enabled && old(self).points@.len() < 2 {
                &&& final(self).points@ == starter_points()
                &&& final(self).sustain_point == Some(1usize)
                &&& final(self).loop_range == old(self).loop_range
            } else {
                &&& final(self).points@ == old(self).points@
                &&& final(self).sustain_point == old(self).sustain_point
                &&& final(self).loop_range == old(self).loop_range
            },
    {
        self.enabled = enabled;
        if enabled && self.points.len() < 2 {
            let mut pts: Vec<(u16, u16)> = Vec::new();
            pts.push((0, 64));
            pts.push((16, 48));
            pts.push((96, 0));
            assert(pts@ =~= starter_points());
            self.points = pts;
            self.sustain_point = Some(1);
        }
    }

    /// Asks for `n` points (see `kept_points`): new ones come 16 ticks apart after the
    /// last, at half volume; the sustain point and loop go away if they name a point
    /// that is gone.
    pub fn set_point_count(&mut self, n: usize)
        requires
            n > old(self).points@.len() ==> last_tick(old(self).points@) + 16 * (n - old(self).points@.len())
                <= u16::MAX,
        ensures
            final(self).enabled == old(self).enabled,
            ({
                let len = old(self).points@.len() as int;
                let k = kept_points(len, n as int);
                &&& final(self).points@ == if k > len {
                    old(self).points@ + Seq::new(
                        (k - len) as nat,
                        |i: int| ((last_tick(old(self).points@) + 16 * (i + 1)) as u16, 32u16),
                    )
                } else {
                    old(self).points@.take(k)
                }
                &&& final(self).sustain_point == sustain_within(old(self).sustain_point, k)
                &&& final(self).loop_range == loop_within(old(self).loop_range, k)
            }),
    {
        let ghost old_pts = self.points@;
        let ghost len = old_pts.len() as int;
        let ghost base = last_tick(old_pts);
        if self.points.len() < n {
            while self.points.len() < n
                invariant
                    len == old_pts.len(),
                    len <= self.points@.len() <= n,
                    base == last_tick(old_pts),
                    base + 16 * (n - len) <= u16::MAX,
                    self.points@ == old_pts + Seq::new(
                        (self.points@.len() - len) as nat,
                        |i: int| ((base + 16 * (i + 1)) as u16, 32u16),
                    ),
                    last_tick(self.points@) == if self.points@.len() > len {
                        base + 16 * (self.points@.len() - len)
                    } else {
                        base
                    },
                    self.enabled == old(self).enabled,
                    self.sustain_point == old(self).sustain_point,
                    self.loop_range == old(self).loop_range,
                decreases n - self.points@.len(),
            {
                let last = match self.points.last() {
                    Some(p) => p.0,
                    None => 0,
                };
                self.points.push((last + 16, 32));
                assert(self.points@ =~= old_pts + Seq::new(
                    (self.points@.len() - len) as nat,
                    |i: int| ((base + 16 * (i + 1)) as u16, 32u16),
                ));
            }
        } else {
            while self.points.len() > n && self.points.len() > 2
                invariant
                    len == old_pts.len(),
                    kept_points(len, n as int) <= self.points@.len() <= len,
                    n <= len,
                    self.points@ == old_pts.take(self.points@.len() as int),
                    self.enabled == old(self).enabled,
                    self.sustain_point == old(self).sustain_point,
                    self.loop_range == old(self).loop_range,
                decreases self.points@.len(),
            {
                self.points.pop();
                assert(self.points@ =~= old_pts.take(self.points@.len() as int));
            }
            assert(self.points@.len() == kept_points(len, n as int));
        }
        let k = self.points.len();
        if let Some(sp) = self.sustain_point {
            if sp >= k {
                self.sustain_point = None;
            }
        }
        if let Some((ls, le)) = self.loop_range {
            if ls >= k || le >= k {
                self.loop_range = None;
            }
        }
    }

    /// Removes point `idx` when more than two are left (see `sustain_after_removal` and
    /// `loop_after_removal`); with two or fewer nothing changes.
    pub fn remove_point(&mut self, idx: usize)
        requires
            idx < old(self).points@.len(),
        ensures
            final(self).enabled == old(self).enabled,
            if old(self).points@.len() > 2 {
                &&& final(self).points@ == old(self).points@.remove(idx as int)
                &&& final(self).sustain_point == sustain_after_removal(old(self).sustain_point, idx as int)
                &&& final(self).loop_range == loop_after_removal(
                    old(self).loop_range,
                    idx as int,
                    old(self).points@.len() - 1,
                )
            } else {
                &&& final(self).points@ == old(self).points@
                &&& final(self).sustain_point == old(self).sustain_point
                &&& final(self).loop_range == old(self).loop_range
            },
    {
        if self.points.len() <= 2 {
            return;
        }
        self.points.remove(idx);
        let len = self.points.len();
        if let Some(sp) = self.sustain_point {
            if sp == idx {
                self.sustain_point = None;
            } else if sp > idx {
                self.sustain_point = Some(sp - 1);
            }
        }
        if let Some((ls, le)) = self.loop_range {
            let a = if ls > idx {
                ls - 1
            } else {
                ls
            };
            let b = if le > idx {
                le - 1
            } else {
                le
            };
            if a >= len || b >= len {
                self.loop_range = None;
            } else {
                self.loop_range = Some((a, b));
            }
        }
    }

    /// Inserts a point after point `after`, at `tick` kept between the ticks of its
    /// neighbours (within 16 ticks after the last point) and `value` capped at 64; the
    /// sustain point and loop ends from there on move up one. Returns the new point's
    /// index.
    pub fn insert_point(&mut self, after: usize, tick: u16, value: u16) -> (r: usize)
        requires
            after < old(self).points@.len(),
            after + 1 < old(self).points@.len() ==> old(self).points@[after + 1].0 >= old(self).points@[after as int].0 + 2,
            after + 1 == old(self).points@.len() ==> old(self).points@[after as int].0 + 16 <= u16::MAX,
            old(self).sustain_point matches Some(s) ==> s < usize::MAX,
            old(self).loop_range matches Some((ls, le)) ==> ls < usize::MAX && le < usize::MAX,
        ensures
            r == after + 1,
            final(self).enabled == old(self).enabled,
            ({
                let pts = old(self).points@;
                let lo = pts[after as int].0 + 1;
                let hi = if after + 1 < pts.len() {
                    pts[after + 1].0 - 1
                } else {
                    pts[after as int].0 + 16
                };
                final(self).points@ == pts.insert(
                    after + 1,
                    (clamped(tick as int, lo, hi) as u16, capped_value(value)),
                )
            }),
            final(self).sustain_point == match old(self).sustain_point {
                Some(s) => Some(shifted_up(s, after + 1) as usize),
                None => None,
            },
            final(self).loop_range == match old(self).loop_range {
                Some((ls, le)) => Some((shifted_up(ls, after + 1) as usize, shifted_up(le, after + 1) as usize)),
                None => None,
            },
    {
        let n = self.points.len();
        let lo = self.points[after].0 + 1;
        let hi = if after + 1 < n {
            self.points[after + 1].0 - 1
        } else {
            self.points[after].0 + 16
        };
        let t = if tick < lo {
            lo
        } else if tick > hi {
            hi
        } else {
            tick
        };
        let v = if value > 64 {
            64
        } else {
            value
        };
        let at = after + 1;
        self.points.insert(at, (t, v));
        if let Some(sp) = self.sustain_point {
            if sp >= at {
                self.sustain_point = Some(sp + 1);
            }
        }
        if let Some((ls, le)) = self.loop_range {
            let a = if ls >= at {
                ls + 1
            } else {
                ls
            };
            let b = if le >= at {
                le + 1
            } else {
                le
            };
            self.loop_range = Some((a, b));
        }
        at
    }

    /// Sets the loop's start point (turning the loop on over all points first if it was
    /// off), kept at most its end and the last point; turned off, the loop goes away.
    pub fn set_loop_start(&mut self, on: bool, v: usize)
        ensures
            final(self).points == old(self).points,
            final(self).sustain_point == old(self).sustain_point,
            final(self).enabled == old(self).enabled,
            final(self).loop_range == if !on {
                None::<(usize, usize)>
            } else {
                let max_idx: int = if old(self).points@.len() > 0 {
                    old(self).points@.len() - 1
                } else {
                    0
                };
                let e: int = match old(self).loop_range {
                    Some((_, le)) => le as int,
                    None => max_idx,
                };
                let s0 = if v < e {
                    v as int
                } else {
                    e
                };
                Some(((if s0 < max_idx {
                    s0
                } else {
                    max_idx
                }) as usize, e as usize))
            },
    {
        if !on {
            self.loop_range = None;
            return;
        }
        let n = self.points.len();
        let max_idx = if n > 0 {
            n - 1
        } else {
            0
        };
        let e = match self.loop_range {
            Some((_, le)) => le,
            None => max_idx,
        };
        let s0 = if v < e {
            v
        } else {
            e
        };
        let s = if s0 < max_idx {
            s0
        } else {
            max_idx
        };
        self.loop_range = Some((s, e));
    }

    /// Sets the loop's end point (turning the loop on over all points first if it was off),
    /// kept at least its start and at most the last point; turned off, the loop goes away.
    pub fn set_loop_end(&mut self, on: bool, v: usize)
        ensures
            final(self).points == old(self).points,
            final(self).sustain_point == old(self).sustain_point,
            final(self).enabled == old(self).enabled,
            final(self).loop_range == if !on {
                None::<(usize, usize)>
            } else {
                let max_idx: int = if old(self).points@.len() > 0 {
                    old(self).points@.len() - 1
                } else {
                    0
                };
                let s: int = match old(self).loop_range {
                    Some((ls, _)) => ls as int,
                    None => 0,
                };
                let e0 = if v > s {
                    v as int
                } else {
                    s
                };
                Some((s as usize, (if e0 < max_idx {
                    e0
                } else {
                    max_idx
                }) as usize))
            },
    {
        if !on {
            self.loop_range = None;
            return;
        }
        let n = self.points.len();
        let max_idx = if n > 0 {
            n - 1
        } else {
            0
        };
        let s = match self.loop_range {
            Some((ls, _)) => ls,
            None => 0,
        };
        let e0 = if v > s {
            v
        } else {
            s
        };
        let e = if e0 < max_idx {
            e0
        } else {
            max_idx
        };
        self.loop_range = Some((s, e));
    }

    /// Drags point `idx` to `tick` and `value`: the first point stays at tick 0, any other
    /// is kept after its left neighbour and before its right one (or at most
    /// `MAX_DRAG_TICK`), and the value is capped at 64.
    pub fn move_point(&mut self, idx: usize, tick: u16, value: u16)
        requires
            idx < old(self).points@.len(),
            idx + 1 < old(self).points@.len() ==> old(self).points@[idx + 1].0 >= 1,
            idx > 0 ==> old(self).points@[idx - 1].0 < u16::MAX,
            idx > 0 ==> old(self).points@[idx - 1].0 + 1 <= if idx + 1 < old(self).points@.len() {
                old(self).points@[idx + 1].0 - 1
            } else {
                MAX_DRAG_TICK as int
            },
        ensures
            final(self).enabled == old(self).enabled,
            final(self).sustain_point == old(self).sustain_point,
            final(self).loop_range == old(self).loop_range,
            ({
                let pts = old(self).points@;
                let hi = if idx + 1 < pts.len() {
                    pts[idx + 1].0 - 1
                } else {
                    MAX_DRAG_TICK as int
                };
                let t = if idx == 0 {
                    0
                } else {
                    clamped(tick as int, pts[idx - 1].0 + 1, hi)
                };
                final(self).points@ == pts.update(idx as int, (t as u16, capped_value(value)))
            }),
    {
        let n = self.points.len();
        let hi = if idx + 1 < n {
            self.points[idx + 1].0 - 1
        } else {
            MAX_DRAG_TICK
        };
        let t = if idx == 0 {
            0
        } else {
            let lo = self.points[idx - 1].0 + 1;
            if tick < lo {
                lo
            } else if tick > hi {
                hi
            } else {
                tick
            }
        };
        let v = if value > 64 {
            64
        } else {
            value
        };
        self.points.set(idx, (t, v));
    }
}

} // verus!
