//! Half-open axis-aligned bounds: an independent interval per axis, each
//! side either a coordinate or unbounded.

use vstd::prelude::*;

use crate::axis::Axis;
use crate::fx::{fx_half, COORD_LIMIT};
use crate::vec3::Vec3;

verus! {

/// One axis's interval. `None` on a side means that side is unbounded:
/// `start: None` stands for negative infinity, `end: None` for positive
/// infinity.
#[derive(Debug, Clone, Copy, PartialEq, Eq)]
pub struct AxisInterval {
    pub start: Option<i64>,
    pub end: Option<i64>,
}

impl AxisInterval {
    /// The unbounded interval.
    pub fn full() -> (r: AxisInterval)
        ensures
            r == (AxisInterval { start: None::<i64>, end: None::<i64> }),
    {
        AxisInterval { start: None, end: None }
    }
}

/// A box as three per-axis intervals, each possibly open at infinity.
#[derive(Debug, Clone, Copy, PartialEq, Eq)]
pub struct Bound3D {
    pub x: AxisInterval,
    pub y: AxisInterval,
    pub z: AxisInterval,
}

/// The tighter of two lower bounds (`None` is negative infinity).
pub open spec fn lo_max(a: Option<i64>, b: Option<i64>) -> Option<i64> {
    match (a, b) {
        (None, _) => b,
        (_, None) => a,
        (Some(u), Some(v)) => if u >= v {
            Some(u)
        } else {
            Some(v)
        },
    }
}

/// The tighter of two upper bounds (`None` is positive infinity).
pub open spec fn hi_min(a: Option<i64>, b: Option<i64>) -> Option<i64> {
    match (a, b) {
        (None, _) => b,
        (_, None) => a,
        (Some(u), Some(v)) => if u <= v {
            Some(u)
        } else {
            Some(v)
        },
    }
}

/// Exec form of `lo_max`.
fn lo_max_exec(a: Option<i64>, b: Option<i64>) -> (r: Option<i64>)
    ensures
        r == lo_max(a, b),
{
    match (a, b) {
        (None, _) => b,
        (_, None) => a,
        (Some(u), Some(v)) => if u >= v {
            Some(u)
        } else {
            Some(v)
        },
    }
}

/// Exec form of `hi_min`.
fn hi_min_exec(a: Option<i64>, b: Option<i64>) -> (r: Option<i64>)
    ensures
        r == hi_min(a, b),
{
    match (a, b) {
        (None, _) => b,
        (_, None) => a,
        (Some(u), Some(v)) => if u <= v {
            Some(u)
        } else {
            Some(v)
        },
    }
}

impl Bound3D {
    /// What `limit` leaves behind, field by field.
    pub open spec fn limit_spec(self, axis: Axis, range: AxisInterval) -> Bound3D {
        let cur = self.interval_spec(axis);
        let merged = AxisInterval {
            start: lo_max(cur.start, range.start),
            end: hi_min(cur.end, range.end),
        };
        match axis {
            Axis::X => Bound3D { x: merged, ..self },
            Axis::Y => Bound3D { y: merged, ..self },
            Axis::Z => Bound3D { z: merged, ..self },
        }
    }

    /// What `intersect` returns, field by field.
    pub open spec fn intersect_spec(self, rhs: Bound3D) -> Bound3D {
        self.limit_spec(Axis::X, rhs.x).limit_spec(Axis::Y, rhs.y).limit_spec(Axis::Z, rhs.z)
    }

    /// One side inset by an amount (an unbounded side stays unbounded).
    pub open spec fn side_plus(side: Option<i64>, amount: int) -> Option<i64> {
        match side {
            Some(v) => Some((v + amount) as i64),
            None => None,
        }
    }

    /// What `shrink_by` returns, field by field.
    pub open spec fn shrink_spec(self, width: int, height: int) -> Bound3D {
        let radius = width / 2;
        Bound3D {
            x: AxisInterval {
                start: Bound3D::side_plus(self.x.start, radius),
                end: Bound3D::side_plus(self.x.end, -radius),
            },
            y: AxisInterval {
                start: self.y.start,
                end: Bound3D::side_plus(self.y.end, -height),
            },
            z: AxisInterval {
                start: Bound3D::side_plus(self.z.start, radius),
                end: Bound3D::side_plus(self.z.end, -radius),
            },
        }
    }

    /// What `apply` returns: each component clamped on its axis.
    pub open spec fn apply_spec(self, target: Vec3) -> Vec3 {
        Vec3 {
            x: self.clamp_spec(Axis::X, target.x as int) as i64,
            y: self.clamp_spec(Axis::Y, target.y as int) as i64,
            z: self.clamp_spec(Axis::Z, target.z as int) as i64,
        }
    }

    pub open spec fn interval_spec(self, a: Axis) -> AxisInterval {
        match a {
            Axis::X => self.x,
            Axis::Y => self.y,
            Axis::Z => self.z,
        }
    }

    /// Every finite side has magnitude at most `m`.
    pub open spec fn bounded(self, m: int) -> bool {
        forall|a: Axis|
            {
                let iv = #[trigger] self.interval_spec(a);
                &&& (iv.start is Some ==> -m <= iv.start->0 <= m)
                &&& (iv.end is Some ==> -m <= iv.end->0 <= m)
            }
    }

    /// `v` lies strictly below the lower side of axis `a`.
    pub open spec fn below_spec(self, a: Axis, v: int) -> bool {
        match self.interval_spec(a).start {
            Some(lo) => v < lo,
            None => false,
        }
    }

    /// `v` lies strictly above the upper side of axis `a`.
    pub open spec fn above_spec(self, a: Axis, v: int) -> bool {
        match self.interval_spec(a).end {
            Some(hi) => v > hi,
            None => false,
        }
    }

    /// What `apply` does on one axis: clamp into `[start, end]`, but only
    /// when the interval is not degenerate (start strictly below end, with
    /// an unbounded side never degenerate).
    pub open spec fn clamp_spec(self, a: Axis, v: int) -> int {
        let iv = self.interval_spec(a);
        let live = match (iv.start, iv.end) {
            (Some(lo), Some(hi)) => lo < hi,
            _ => true,
        };
        if live {
            if self.below_spec(a, v) {
                iv.start->0 as int
            } else if self.above_spec(a, v) {
                iv.end->0 as int
            } else {
                v
            }
        } else {
            v
        }
    }

    /// The bound that constrains nothing.
    pub fn no_bound() -> (r: Bound3D)
        ensures
            forall|a: Axis| #[trigger] r.interval_spec(a) == (AxisInterval {
                start: None::<i64>,
                end: None::<i64>,
            }),
    {
        let r = Bound3D {
            x: AxisInterval { start: None, end: None },
            y: AxisInterval { start: None, end: None },
            z: AxisInterval { start: None, end: None },
        };
        proof {
            assert forall|a: Axis| #[trigger] r.interval_spec(a) == (AxisInterval {
                start: None::<i64>,
                end: None::<i64>,
            }) by {
                match a {
                    Axis::X => {},
                    Axis::Y => {},
                    Axis::Z => {},
                }
            }
        }
        r
    }

    /// One axis's interval.
    pub fn interval(&self, a: Axis) -> (r: AxisInterval)
        ensures
            r == self.interval_spec(a),
    {
        match a {
            Axis::X => self.x,
            Axis::Y => self.y,
            Axis::Z => self.z,
        }
    }

    /// Tighten one axis by an interval: the lower sides take their
    /// maximum, the upper sides their minimum; other axes are untouched.
    /// An unbounded interval is a no-op.
    pub fn limit(&mut self, axis: Axis, range: AxisInterval)
        ensures
            *final(self) == old(self).limit_spec(axis, range),
            final(self).interval_spec(axis) == (AxisInterval {
                start: lo_max(old(self).interval_spec(axis).start, range.start),
                end: hi_min(old(self).interval_spec(axis).end, range.end),
            }),
            forall|b: Axis| b != axis ==> #[trigger] final(self).interval_spec(b) == old(
                self,
            ).interval_spec(b),
    {
        let cur = self.interval(axis);
        let merged = AxisInterval {
            start: lo_max_exec(cur.start, range.start),
            end: hi_min_exec(cur.end, range.end),
        };
        match axis {
            Axis::X => self.x = merged,
            Axis::Y => self.y = merged,
            Axis::Z => self.z = merged,
        }
        proof {
            assert forall|b: Axis| b != axis implies #[trigger] self.interval_spec(b) == old(
                self,
            ).interval_spec(b) by {
                match b {
                    Axis::X => {},
                    Axis::Y => {},
                    Axis::Z => {},
                }
            }
        }
    }

    /// Tighten one axis by the same axis of another bound.
    pub fn merge_axis(&mut self, axis: Axis, rhs: &Bound3D)
        ensures
            *final(self) == old(self).limit_spec(axis, rhs.interval_spec(axis)),
            final(self).interval_spec(axis) == (AxisInterval {
                start: lo_max(old(self).interval_spec(axis).start, rhs.interval_spec(axis).start),
                end: hi_min(old(self).interval_spec(axis).end, rhs.interval_spec(axis).end),
            }),
            forall|b: Axis| b != axis ==> #[trigger] final(self).interval_spec(b) == old(
                self,
            ).interval_spec(b),
    {
        let range = rhs.interval(axis);
        self.limit(axis, range);
    }

    /// Intersection: every axis tightened by the other bound's axis.
    pub fn intersect(self, rhs: Bound3D) -> (r: Bound3D)
        ensures
            r == self.intersect_spec(rhs),
            forall|a: Axis| #[trigger] r.interval_spec(a) == (AxisInterval {
                start: lo_max(self.interval_spec(a).start, rhs.interval_spec(a).start),
                end: hi_min(self.interval_spec(a).end, rhs.interval_spec(a).end),
            }),
    {
        let mut out = self;
        out.merge_axis(Axis::X, &rhs);
        out.merge_axis(Axis::Y, &rhs);
        out.merge_axis(Axis::Z, &rhs);
        proof {
            assert forall|a: Axis| #[trigger] out.interval_spec(a) == (AxisInterval {
                start: lo_max(self.interval_spec(a).start, rhs.interval_spec(a).start),
                end: hi_min(self.interval_spec(a).end, rhs.interval_spec(a).end),
            }) by {
                match a {
                    Axis::X => {},
                    Axis::Y => {},
                    Axis::Z => {},
                }
            }
        }
        out
    }

    /// The bound a voxel bound for a whole cell turns into for an entity's
    /// center point: X and Z are inset by half the footprint width on both
    /// sides, Y loses the footprint height from its upper side only (the
    /// footprint is anchored at its base).
    pub fn shrink_by(&self, width: i64, height: i64) -> (r: Bound3D)
        requires
            0 <= width <= COORD_LIMIT,
            0 <= height <= COORD_LIMIT,
            self.bounded(COORD_LIMIT as int),
        ensures
            r == self.shrink_spec(width as int, height as int),
            ({
                let radius = width as int / 2;
                forall|a: Axis| #[trigger] r.interval_spec(a) == (AxisInterval {
                    start: match self.interval_spec(a).start {
                        Some(lo) => Some(
                            (if a is Y {
                                lo as int
                            } else {
                                lo + radius
                            }) as i64,
                        ),
                        None => None,
                    },
                    end: match self.interval_spec(a).end {
                        Some(hi) => Some(
                            (if a is Y {
                                hi - height
                            } else {
                                hi - radius
                            }) as i64,
                        ),
                        None => None,
                    },
                })
            }),
    {
        let radius = fx_half(width);
        proof {
            assert(self.interval_spec(Axis::X) == self.x);
            assert(self.interval_spec(Axis::Y) == self.y);
            assert(self.interval_spec(Axis::Z) == self.z);
        }
        let r = Bound3D {
            x: AxisInterval {
                start: match self.x.start {
                    Some(lo) => Some(lo + radius),
                    None => None,
                },
                end: match self.x.end {
                    Some(hi) => Some(hi - radius),
                    None => None,
                },
            },
            y: AxisInterval {
                start: self.y.start,
                end: match self.y.end {
                    Some(hi) => Some(hi - height),
                    None => None,
                },
            },
            z: AxisInterval {
                start: match self.z.start {
                    Some(lo) => Some(lo + radius),
                    None => None,
                },
                end: match self.z.end {
                    Some(hi) => Some(hi - radius),
                    None => None,
                },
            },
        };
        proof {
            let radius = width as int / 2;
            assert forall|a: Axis| #[trigger] r.interval_spec(a) == (AxisInterval {
                start: match self.interval_spec(a).start {
                    Some(lo) => Some(
                        (if a is Y {
                            lo as int
                        } else {
                            lo + radius
                        }) as i64,
                    ),
                    None => None,
                },
                end: match self.interval_spec(a).end {
                    Some(hi) => Some(
                        (if a is Y {
                            hi - height
                        } else {
                            hi - radius
                        }) as i64,
                    ),
                    None => None,
                },
            }) by {
                match a {
                    Axis::X => {},
                    Axis::Y => {},
                    Axis::Z => {},
                }
            }
        }
        r
    }

    /// Clamp each axis of `target` into the bound, unless that axis's
    /// interval is degenerate (lower side at or above the upper side), in
    /// which case the value passes through unchanged.
    pub fn apply(&self, target: Vec3) -> (r: Vec3)
        ensures
            r == self.apply_spec(target),
            forall|a: Axis| #[trigger] r.axis(a) == self.clamp_spec(a, target.axis(a)),
    {
        let r = Vec3 {
            x: self.apply_axis(Axis::X, target.x),
            y: self.apply_axis(Axis::Y, target.y),
            z: self.apply_axis(Axis::Z, target.z),
        };
        proof {
            assert forall|a: Axis| #[trigger] r.axis(a) == self.clamp_spec(a, target.axis(a)) by {
                match a {
                    Axis::X => {},
                    Axis::Y => {},
                    Axis::Z => {},
                }
            }
        }
        r
    }

    /// One axis of `apply`.
    fn apply_axis(&self, a: Axis, v: i64) -> (r: i64)
        ensures
            r == self.clamp_spec(a, v as int),
    {
        let iv = self.interval(a);
        let live = match (iv.start, iv.end) {
            (Some(lo), Some(hi)) => lo < hi,
            _ => true,
        };
        if live {
            match iv.start {
                Some(lo) if v < lo => lo,
                _ => match iv.end {
                    Some(hi) if v > hi => hi,
                    _ => v,
                },
            }
        } else {
            v
        }
    }

    /// True when any axis of `target` lies strictly outside its interval.
    pub fn out_of_bound(&self, target: Vec3) -> (r: bool)
        ensures
            r == exists|a: Axis|
                self.below_spec(a, target.axis(a)) || self.above_spec(a, target.axis(a)),
    {
        let r = self.out_axis(Axis::X, target.x) || self.out_axis(Axis::Y, target.y)
            || self.out_axis(Axis::Z, target.z);
        proof {
            if self.below_spec(Axis::X, target.axis(Axis::X)) || self.above_spec(
                Axis::X,
                target.axis(Axis::X),
            ) {
                assert(r);
            }
            if r {
                if self.out_axis_spec(Axis::X, target.x as int) {
                    assert(self.below_spec(Axis::X, target.axis(Axis::X)) || self.above_spec(
                        Axis::X,
                        target.axis(Axis::X),
                    ));
                } else if self.out_axis_spec(Axis::Y, target.y as int) {
                    assert(self.below_spec(Axis::Y, target.axis(Axis::Y)) || self.above_spec(
                        Axis::Y,
                        target.axis(Axis::Y),
                    ));
                } else {
                    assert(self.below_spec(Axis::Z, target.axis(Axis::Z)) || self.above_spec(
                        Axis::Z,
                        target.axis(Axis::Z),
                    ));
                }
            } else {
                assert forall|a: Axis|
                    !(self.below_spec(a, target.axis(a)) || self.above_spec(
                        a,
                        target.axis(a),
                    )) by {
                    match a {
                        Axis::X => {},
                        Axis::Y => {},
                        Axis::Z => {},
                    }
                }
            }
        }
        r
    }

    /// `v` falls strictly outside axis `a`.
    pub open spec fn out_axis_spec(self, a: Axis, v: int) -> bool {
        self.below_spec(a, v) || self.above_spec(a, v)
    }

    /// One axis of `out_of_bound`.
    fn out_axis(&self, a: Axis, v: i64) -> (r: bool)
        ensures
            r == self.out_axis_spec(a, v as int),
    {
        let iv = self.interval(a);
        let below = match iv.start {
            Some(lo) => v < lo,
            None => false,
        };
        let above = match iv.end {
            Some(hi) => v > hi,
            None => false,
        };
        below || above
    }

    /// The half-space a candidate voxel cell can constrain an entity
    /// center to, per axis: if the cell center sits below the entity
    /// center on an axis, the wall constrains from below (the bound starts
    /// one block above the cell corner); if above, from above (the bound
    /// ends at the cell corner); if level, not at all.
    pub fn from_block(center: Vec3, target: Vec3) -> (r: Bound3D)
        requires
            center.bounded(COORD_LIMIT as int),
            target.bounded(COORD_LIMIT as int),
        ensures
            forall|a: Axis| #[trigger] r.interval_spec(a) == Bound3D::block_interval_spec(
                center.axis(a),
                target.axis(a),
            ),
    {
        let r = Bound3D {
            x: Self::block_interval(center.x, target.x),
            y: Self::block_interval(center.y, target.y),
            z: Self::block_interval(center.z, target.z),
        };
        proof {
            assert forall|a: Axis| #[trigger] r.interval_spec(a) == Bound3D::block_interval_spec(
                center.axis(a),
                target.axis(a),
            ) by {
                match a {
                    Axis::X => {},
                    Axis::Y => {},
                    Axis::Z => {},
                }
            }
        }
        r
    }

    /// One axis of `from_block`: the cell spans `[target, target + SCALE)`
    /// and its center is half a block past `target`.
    pub open spec fn block_interval_spec(center: int, target: int) -> AxisInterval {
        let diff = target + 500 - center;
        if diff < 0 {
            AxisInterval { start: Some((target + 1000) as i64), end: None }
        } else if diff > 0 {
            AxisInterval { start: None, end: Some(target as i64) }
        } else {
            AxisInterval { start: None, end: None }
        }
    }

    /// Exec form of `block_interval_spec`.
    fn block_interval(center: i64, target: i64) -> (r: AxisInterval)
        requires
            -COORD_LIMIT <= center <= COORD_LIMIT,
            -COORD_LIMIT <= target <= COORD_LIMIT,
        ensures
            r == Bound3D::block_interval_spec(center as int, target as int),
    {
        let diff = target + 500 - center;
        if diff < 0 {
            AxisInterval { start: Some(target + 1000), end: None }
        } else if diff > 0 {
            AxisInterval { start: None, end: Some(target) }
        } else {
            AxisInterval { start: None, end: None }
        }
    }
}

impl Default for Bound3D {
    /// The default bound constrains nothing.
    fn default() -> (r: Self)
        ensures
            r == (Bound3D {
                x: AxisInterval { start: None::<i64>, end: None::<i64> },
                y: AxisInterval { start: None::<i64>, end: None::<i64> },
                z: AxisInterval { start: None::<i64>, end: None::<i64> },
            }),
    {
        let r = Bound3D::no_bound();
        proof {
            assert(r.interval_spec(Axis::X) == r.x);
            assert(r.interval_spec(Axis::Y) == r.y);
            assert(r.interval_spec(Axis::Z) == r.z);
        }
        r
    }
}

} // verus!
