//! Voxel-face aggregation: many partial overlaps with solid voxels on one
//! axis fold into a single directional constraint.

use vstd::prelude::*;

use crate::aabb::AABB;
use crate::axis::Axis;
use crate::bound3d::{hi_min, lo_max, AxisInterval, Bound3D};
use crate::vec3::Vec3;
use crate::fx::{fx_abs, fx_mul, fx_mul_spec, sabs, COORD_LIMIT, FX_LIMIT};

verus! {

/// Areas of magnitude below this count as zero when classifying a bound's
/// direction (a hundredth of a block face).
pub const AREA_EPS: i64 = 10;

/// A directional constraint on one axis: `position` is the coordinate of
/// the nearest constraining voxel face (`None` when no coherent single
/// face exists), `area` the signed accumulated overlap cross-section. The
/// sign of `area` says which side the wall approaches from.
#[derive(Debug, Clone, Copy, PartialEq, Eq)]
pub struct VoxelBound {
    pub position: Option<i64>,
    pub area: i64,
}

/// The sign used to classify an accumulated area: magnitudes below
/// `AREA_EPS` count as zero.
pub open spec fn area_sign(area: int) -> int {
    if sabs(area) < AREA_EPS {
        0
    } else if area > 0 {
        1
    } else {
        -1
    }
}

/// Classify one axis's overlap interval by which endpoint lies on the
/// voxel grid: only the low endpoint aligned means a wall approaching
/// from above (direction -1 at that endpoint), only the high endpoint a
/// wall from below (+1 there); neither or both aligned is degenerate.
pub open spec fn discard_voxel_edge_spec(start: int, end: int) -> (int, Option<i64>) {
    let s_aligned = start % 1000 == 0;
    let e_aligned = end % 1000 == 0;
    if s_aligned && !e_aligned {
        (-1, Some(start as i64))
    } else if !s_aligned && e_aligned {
        (1, Some(end as i64))
    } else {
        (0, None)
    }
}

/// Whether a coordinate lies exactly on a voxel grid line.
pub fn is_grid_aligned(v: i64) -> (r: bool)
    requires
        -FX_LIMIT <= v <= FX_LIMIT,
    ensures
        r == (v as int % 1000 == 0),
{
    if v >= 0 {
        ((v as u64) % 1000) == 0
    } else {
        let s: u64 = ((-v) as u64) % 1000;
        proof {
            vstd::arithmetic::div_mod::lemma_fundamental_div_mod((-v) as int, 1000);
            let k = ((-v) as int) / 1000;
            if s == 0 {
                vstd::arithmetic::div_mod::lemma_fundamental_div_mod_converse(
                    v as int,
                    1000,
                    -k,
                    0,
                );
            } else {
                vstd::arithmetic::div_mod::lemma_fundamental_div_mod_converse(
                    v as int,
                    1000,
                    -k - 1,
                    1000 - s,
                );
            }
        }
        s == 0
    }
}

impl VoxelBound {
    /// The undetermined bound: no face, no area.
    pub fn undetermined() -> (r: VoxelBound)
        ensures
            r == (VoxelBound { position: None::<i64>, area: 0i64 }),
    {
        VoxelBound { position: None, area: 0 }
    }

    /// Accumulated signed area.
    pub fn area(self) -> (r: i64)
        ensures
            r == self.area,
    {
        self.area
    }

    /// What `from_aabb_axis` returns: classify the axis's interval, weight
    /// it by the cross-section of the other two axes, and discard a
    /// near-zero result.
    pub open spec fn from_aabb_axis_spec(aabb: AABB, axis: Axis) -> VoxelBound {
        let (dir, pos) = discard_voxel_edge_spec(aabb.min_spec(axis), aabb.max_spec(axis));
        let area = dir * aabb.area_spec(axis);
        if area_sign(area) == 0 {
            VoxelBound { position: None, area: 0 }
        } else {
            VoxelBound { position: pos, area: area as i64 }
        }
    }

    /// The single-voxel bound an overlap box induces on `axis`.
    #[verifier::rlimit(40)]
    pub fn from_aabb_axis(aabb: AABB, axis: Axis) -> (r: VoxelBound)
        requires
            aabb.bounded(COORD_LIMIT as int),
        ensures
            r == VoxelBound::from_aabb_axis_spec(aabb, axis),
            sabs(r.area as int) <= aabb.area_spec(axis),
            r.position is None ==> r.area == 0,
    {
        let (start, end) = aabb.interval(axis);
        let s_aligned = is_grid_aligned(start);
        let e_aligned = is_grid_aligned(end);
        let (b, c) = axis.rest();
        let eb = match b {
            Axis::X => aabb.extent3d.x,
            Axis::Y => aabb.extent3d.y,
            Axis::Z => aabb.extent3d.z,
        };
        let ec = match c {
            Axis::X => aabb.extent3d.x,
            Axis::Y => aabb.extent3d.y,
            Axis::Z => aabb.extent3d.z,
        };
        let lb = fx_abs(eb);
        let lc = fx_abs(ec);
        proof {
            assert(lb * lc <= 4_000_000_000_000_000_000) by (nonlinear_arith)
                requires
                    0 <= lb <= 1_000_000_000,
                    0 <= lc <= 1_000_000_000,
            ;
        }
        let mag = fx_mul(lb, lc);
        let (dir_pos, position) = if s_aligned && !e_aligned {
            (false, Some(start))
        } else if !s_aligned && e_aligned {
            (true, Some(end))
        } else {
            return VoxelBound { position: None, area: 0 };
        };
        let area: i64 = if dir_pos {
            mag
        } else {
            -mag
        };
        proof {
            let (sb, sc) = axis.rest_spec();
            assert(eb == aabb.extent3d.axis(sb) && ec == aabb.extent3d.axis(sc)) by {
                match axis {
                    Axis::X => {},
                    Axis::Y => {},
                    Axis::Z => {},
                }
            }
            assert(mag as int == fx_mul_spec(sabs(eb as int), sabs(ec as int)));
            assert(fx_mul_spec(lb as int, lc as int) == fx_mul_spec(
                sabs(aabb.extent3d.axis(sb)),
                sabs(aabb.extent3d.axis(sc)),
            ));
            assert(mag as int == aabb.area_spec(axis));
            assert(mag >= 0);
            let d: int = if dir_pos {
                1
            } else {
                -1
            };
            assert(discard_voxel_edge_spec(aabb.min_spec(axis), aabb.max_spec(axis)) == (
                d,
                position,
            ));
            assert(d * aabb.area_spec(axis) == area as int);
            assert(sabs(area as int) == mag);
        }
        if -AREA_EPS < area && area < AREA_EPS {
            VoxelBound { position: None, area: 0 }
        } else {
            VoxelBound { position, area }
        }
    }

    /// The bounds an overlap box induces on all three axes.
    pub fn from_aabb(aabb: AABB) -> (r: (VoxelBound, VoxelBound, VoxelBound))
        requires
            aabb.bounded(COORD_LIMIT as int),
        ensures
            r.0 == VoxelBound::from_aabb_axis_spec(aabb, Axis::X),
            r.1 == VoxelBound::from_aabb_axis_spec(aabb, Axis::Y),
            r.2 == VoxelBound::from_aabb_axis_spec(aabb, Axis::Z),
    {
        (
            VoxelBound::from_aabb_axis(aabb, Axis::X),
            VoxelBound::from_aabb_axis(aabb, Axis::Y),
            VoxelBound::from_aabb_axis(aabb, Axis::Z),
        )
    }

    /// What `merge` leaves in `self`: an undetermined right side is
    /// ignored; otherwise the areas add, and the position becomes the
    /// nearest face in the direction of the summed area's sign — the
    /// larger position when walls push from below, the smaller when they
    /// push from above, undetermined when the sum's sign washes out.
    pub open spec fn merge_spec(a: VoxelBound, b: VoxelBound) -> VoxelBound {
        if b.position is None {
            a
        } else {
            let area = a.area + b.area;
            let s = area_sign(area);
            let position = if s > 0 {
                match a.position {
                    None => b.position,
                    Some(p) => if p >= b.position->0 {
                        a.position
                    } else {
                        b.position
                    },
                }
            } else if s < 0 {
                match a.position {
                    None => b.position,
                    Some(p) => if p <= b.position->0 {
                        a.position
                    } else {
                        b.position
                    },
                }
            } else {
                None
            };
            VoxelBound { position, area: area as i64 }
        }
    }

    /// Fold another single-axis bound into this one.
    pub fn merge(&mut self, rhs: VoxelBound)
        requires
            sabs(old(self).area as int) + sabs(rhs.area as int) <= 0x7fff_ffff_ffff_ffff,
        ensures
            *final(self) == VoxelBound::merge_spec(*old(self), rhs),
    {
        match rhs.position {
            None => {},
            Some(rp) => {
                let area = self.area + rhs.area;
                let position = if area >= AREA_EPS || area <= -AREA_EPS {
                    let keep_max = area > 0;
                    match self.position {
                        None => Some(rp),
                        Some(p) => if keep_max {
                            if p >= rp {
                                Some(p)
                            } else {
                                Some(rp)
                            }
                        } else {
                            if p <= rp {
                                Some(p)
                            } else {
                                Some(rp)
                            }
                        },
                    }
                } else {
                    None
                };
                self.position = position;
                self.area = area;
            },
        }
    }

    /// What `to_range` returns: a positive accumulated area constrains
    /// from the face upward, a negative one from the face downward, and a
    /// washed-out or undetermined bound constrains nothing.
    pub open spec fn to_range_spec(self) -> AxisInterval {
        match self.position {
            None => AxisInterval { start: None, end: None },
            Some(p) => {
                let s = area_sign(self.area as int);
                if s > 0 {
                    AxisInterval { start: Some(p), end: None }
                } else if s < 0 {
                    AxisInterval { start: None, end: Some(p) }
                } else {
                    AxisInterval { start: None, end: None }
                }
            },
        }
    }

    /// The one-axis interval this bound constrains an entity to.
    pub fn to_range(self) -> (r: AxisInterval)
        ensures
            r == self.to_range_spec(),
    {
        match self.position {
            None => AxisInterval { start: None, end: None },
            Some(p) => {
                if self.area >= AREA_EPS {
                    AxisInterval { start: Some(p), end: None }
                } else if self.area <= -AREA_EPS {
                    AxisInterval { start: None, end: Some(p) }
                } else {
                    AxisInterval { start: None, end: None }
                }
            },
        }
    }
}

impl Default for VoxelBound {
    /// The default bound is undetermined.
    fn default() -> (r: Self)
        ensures
            r == (VoxelBound { position: None::<i64>, area: 0i64 }),
    {
        VoxelBound { position: None, area: 0 }
    }
}

/// A voxel bound for each axis.
#[derive(Debug, Clone, Copy, PartialEq, Eq)]
pub struct VoxelBound3 {
    pub x: VoxelBound,
    pub y: VoxelBound,
    pub z: VoxelBound,
}

impl VoxelBound3 {
    pub open spec fn axis_spec(self, a: Axis) -> VoxelBound {
        match a {
            Axis::X => self.x,
            Axis::Y => self.y,
            Axis::Z => self.z,
        }
    }

    /// Fold another triple into this one, axis by axis.
    pub fn merge(&mut self, rhs: VoxelBound3)
        requires
            sabs(old(self).x.area as int) + sabs(rhs.x.area as int) <= 0x7fff_ffff_ffff_ffff,
            sabs(old(self).y.area as int) + sabs(rhs.y.area as int) <= 0x7fff_ffff_ffff_ffff,
            sabs(old(self).z.area as int) + sabs(rhs.z.area as int) <= 0x7fff_ffff_ffff_ffff,
        ensures
            final(self).x == VoxelBound::merge_spec(old(self).x, rhs.x),
            final(self).y == VoxelBound::merge_spec(old(self).y, rhs.y),
            final(self).z == VoxelBound::merge_spec(old(self).z, rhs.z),
    {
        self.x.merge(rhs.x);
        self.y.merge(rhs.y);
        self.z.merge(rhs.z);
    }

    /// The axis with the largest accumulated area magnitude, with the
    /// interval it constrains to; `None` when every area is zero. Ties
    /// keep the earliest axis.
    pub fn find_max_area(self) -> (r: Option<(Axis, AxisInterval)>)
        requires
            self.x.area != i64::MIN,
            self.y.area != i64::MIN,
            self.z.area != i64::MIN,
        ensures
            r == self.find_max_area_spec(),
    {
        let ax = if self.x.area < 0 { -self.x.area } else { self.x.area };
        let ay = if self.y.area < 0 { -self.y.area } else { self.y.area };
        let az = if self.z.area < 0 { -self.z.area } else { self.z.area };
        let mut max_area: i64 = 0;
        let mut ret: Option<(Axis, AxisInterval)> = None;
        if ax > max_area {
            max_area = ax;
            ret = Some((Axis::X, self.x.to_range()));
        }
        if ay > max_area {
            max_area = ay;
            ret = Some((Axis::Y, self.y.to_range()));
        }
        if az > max_area {
            max_area = az;
            ret = Some((Axis::Z, self.z.to_range()));
        }
        ret
    }

    pub open spec fn find_max_area_spec(self) -> Option<(Axis, AxisInterval)> {
        let ax = sabs(self.x.area as int);
        let ay = sabs(self.y.area as int);
        let az = sabs(self.z.area as int);
        let m1 = if ax > 0 {
            ax
        } else {
            0
        };
        let m2 = if ay > m1 {
            ay
        } else {
            m1
        };
        if az > m2 {
            Some((Axis::Z, self.z.to_range_spec()))
        } else if ay > m1 {
            Some((Axis::Y, self.y.to_range_spec()))
        } else if ax > 0 {
            Some((Axis::X, self.x.to_range_spec()))
        } else {
            None
        }
    }

    /// The box bound all three axes constrain an entity to.
    pub fn to_bound3d(self) -> (r: Bound3D)
        ensures
            r == (Bound3D {
                x: self.x.to_range_spec(),
                y: self.y.to_range_spec(),
                z: self.z.to_range_spec(),
            }),
    {
        Bound3D { x: self.x.to_range(), y: self.y.to_range(), z: self.z.to_range() }
    }
}

impl Default for VoxelBound3 {
    /// Every axis starts undetermined.
    fn default() -> (r: Self)
        ensures
            r.x == (VoxelBound { position: None::<i64>, area: 0i64 }),
            r.y == (VoxelBound { position: None::<i64>, area: 0i64 }),
            r.z == (VoxelBound { position: None::<i64>, area: 0i64 }),
    {
        VoxelBound3 {
            x: VoxelBound { position: None, area: 0 },
            y: VoxelBound { position: None, area: 0 },
            z: VoxelBound { position: None, area: 0 },
        }
    }
}

/// A bound with a known face and a solidly positive area: a wall pushing
/// the entity upward along the axis.
pub open spec fn determined_upward(vb: VoxelBound) -> bool {
    vb.position is Some && vb.area >= AREA_EPS
}

/// The summed area of a list of bounds.
pub open spec fn sum_areas(s: Seq<VoxelBound>) -> int
    decreases s.len(),
{
    if s.len() == 0 {
        0
    } else {
        sum_areas(s.drop_last()) + s.last().area
    }
}

/// The largest face position in a non-empty list of determined bounds.
pub open spec fn max_pos(s: Seq<VoxelBound>) -> int
    decreases s.len(),
{
    if s.len() <= 1 {
        s[0].position->0 as int
    } else {
        let m = max_pos(s.drop_last());
        if m >= s.last().position->0 {
            m
        } else {
            s.last().position->0 as int
        }
    }
}

/// Folding a list of bounds into the undetermined bound, left to right.
pub open spec fn fold_merge(s: Seq<VoxelBound>) -> VoxelBound
    decreases s.len(),
{
    if s.len() == 0 {
        VoxelBound { position: None, area: 0 }
    } else {
        VoxelBound::merge_spec(fold_merge(s.drop_last()), s.last())
    }
}

/// Merging two determined bounds whose areas push the same way is
/// commutative.
pub proof fn lemma_merge_commutes(a: VoxelBound, b: VoxelBound)
    requires
        a.position is Some,
        b.position is Some,
        (a.area >= AREA_EPS && b.area >= AREA_EPS) || (a.area <= -AREA_EPS && b.area
            <= -AREA_EPS),
        sabs(a.area as int) + sabs(b.area as int) <= 0x7fff_ffff_ffff_ffff,
    ensures
        VoxelBound::merge_spec(a, b) == VoxelBound::merge_spec(b, a),
{
}

/// Merging three determined bounds whose areas push the same way is
/// associative.
pub proof fn lemma_merge_associates(a: VoxelBound, b: VoxelBound, c: VoxelBound)
    requires
        a.position is Some,
        b.position is Some,
        c.position is Some,
        (a.area >= AREA_EPS && b.area >= AREA_EPS && c.area >= AREA_EPS) || (a.area <= -AREA_EPS
            && b.area <= -AREA_EPS && c.area <= -AREA_EPS),
        sabs(a.area as int) + sabs(b.area as int) + sabs(c.area as int)
            <= 0x7fff_ffff_ffff_ffff,
    ensures
        VoxelBound::merge_spec(VoxelBound::merge_spec(a, b), c) == VoxelBound::merge_spec(
            a,
            VoxelBound::merge_spec(b, c),
        ),
{
}

/// Folding determined same-direction bounds accumulates exactly the
/// summed area and the nearest (largest) face position, whatever the
/// order: the fold is a function of the areas' sum and the positions'
/// maximum alone.
pub proof fn lemma_fold_merge_characterized(s: Seq<VoxelBound>)
    requires
        forall|i: int| 0 <= i < s.len() ==> determined_upward(#[trigger] s[i]),
        sum_areas(s) <= 0x7fff_ffff_ffff_ffff,
    ensures
        s.len() == 0 ==> fold_merge(s) == (VoxelBound { position: None::<i64>, area: 0i64 }),
        s.len() > 0 ==> fold_merge(s) == (VoxelBound {
            position: Some(max_pos(s) as i64),
            area: sum_areas(s) as i64,
        }),
        sum_areas(s) >= if s.len() > 0 {
            AREA_EPS as int
        } else {
            0
        },
        s.len() > 0 ==> i64::MIN <= max_pos(s) <= i64::MAX,
    decreases s.len(),
{
    if s.len() > 0 {
        assert(forall|i: int|
            0 <= i < s.drop_last().len() ==> determined_upward(#[trigger] s.drop_last()[i]));
        assert(determined_upward(s[s.len() - 1]));
        assert(sum_areas(s.drop_last()) == sum_areas(s) - s.last().area);
        lemma_fold_merge_characterized(s.drop_last());
        let acc = fold_merge(s.drop_last());
        let last = s.last();
        assert(fold_merge(s) == VoxelBound::merge_spec(acc, last));
        if s.len() == 1 {
            assert(acc == (VoxelBound { position: None::<i64>, area: 0i64 }));
            assert(max_pos(s) == last.position->0);
            assert(sum_areas(s) == last.area);
            assert(area_sign(0 + last.area as int) == 1);
        } else {
            assert(s.drop_last().len() > 0);
            assert(acc.position == Some(max_pos(s.drop_last()) as i64));
            assert(acc.area == sum_areas(s.drop_last()) as i64);
            assert(acc.area + last.area == sum_areas(s));
            assert(area_sign(acc.area + last.area as int) == 1);
            assert(max_pos(s) == if max_pos(s.drop_last()) >= last.position->0 {
                max_pos(s.drop_last())
            } else {
                last.position->0 as int
            });
        }
    }
}

/// Removing one element takes its area out of the sum.
proof fn lemma_sum_areas_remove(s: Seq<VoxelBound>, i: int)
    requires
        0 <= i < s.len(),
    ensures
        sum_areas(s) == sum_areas(s.remove(i)) + s[i].area,
    decreases s.len(),
{
    if i == s.len() - 1 {
        assert(s.remove(i) =~= s.drop_last());
    } else {
        assert(s.remove(i).drop_last() =~= s.drop_last().remove(i));
        assert(s.remove(i).last() == s.last());
        lemma_sum_areas_remove(s.drop_last(), i);
    }
}

/// Removing one element leaves the maximum of the rest against it.
proof fn lemma_max_pos_remove(s: Seq<VoxelBound>, i: int)
    requires
        0 <= i < s.len(),
        s.len() >= 2,
    ensures
        max_pos(s) == if max_pos(s.remove(i)) >= s[i].position->0 {
            max_pos(s.remove(i))
        } else {
            s[i].position->0 as int
        },
    decreases s.len(),
{
    if i == s.len() - 1 {
        assert(s.remove(i) =~= s.drop_last());
    } else {
        assert(s.remove(i).drop_last() =~= s.drop_last().remove(i));
        assert(s.remove(i).last() == s.last());
        assert(s.remove(i).len() == s.len() - 1);
        if s.len() == 2 {
            assert(s.remove(i) =~= seq![s.last()]);
            assert(max_pos(s.remove(i)) == s.last().position->0);
            assert(s.drop_last() =~= seq![s[0]]);
            assert(max_pos(s.drop_last()) == s[0].position->0);
        } else {
            lemma_max_pos_remove(s.drop_last(), i);
            assert(s.drop_last().len() >= 2);
            assert(max_pos(s) == if max_pos(s.drop_last()) >= s.last().position->0 {
                max_pos(s.drop_last())
            } else {
                s.last().position->0 as int
            });
            if s.remove(i).len() >= 2 {
                assert(max_pos(s.remove(i)) == if max_pos(s.remove(i).drop_last())
                    >= s.remove(i).last().position->0 {
                    max_pos(s.remove(i).drop_last())
                } else {
                    s.remove(i).last().position->0 as int
                });
            } else {
                assert(s.remove(i) =~= seq![s.last()]);
            }
        }
    }
}

/// Folding the same multiset of determined same-direction bounds in any
/// order yields the same position and area.
pub proof fn lemma_fold_merge_multiset(s: Seq<VoxelBound>, t: Seq<VoxelBound>)
    requires
        forall|i: int| 0 <= i < s.len() ==> determined_upward(#[trigger] s[i]),
        forall|i: int| 0 <= i < t.len() ==> determined_upward(#[trigger] t[i]),
        sum_areas(s) <= 0x7fff_ffff_ffff_ffff,
        sum_areas(t) <= 0x7fff_ffff_ffff_ffff,
        s.to_multiset() == t.to_multiset(),
    ensures
        fold_merge(s) == fold_merge(t),
    decreases s.len(),
{
    s.to_multiset_ensures();
    t.to_multiset_ensures();
    if s.len() == 0 {
        assert(t.len() == 0);
        lemma_fold_merge_characterized(s);
        lemma_fold_merge_characterized(t);
    } else {
        let x = s.last();
        assert(s.to_multiset().count(x) > 0) by {
            assert(s.contains(x));
        }
        assert(t.contains(x));
        let j = choose|j: int| 0 <= j < t.len() && t[j] == x;
        assert(s.remove(s.len() - 1) =~= s.drop_last());
        assert(s.drop_last().to_multiset() =~= s.to_multiset().remove(x));
        assert(t.remove(j).to_multiset() =~= t.to_multiset().remove(x));
        assert(forall|i: int|
            0 <= i < t.remove(j).len() ==> determined_upward(#[trigger] t.remove(j)[i])) by {
            assert(forall|i: int|
                0 <= i < t.remove(j).len() ==> t.remove(j)[i] == t[if i < j {
                    i
                } else {
                    i + 1
                }]);
        }
        lemma_sum_areas_remove(t, j);
        lemma_fold_merge_multiset(s.drop_last(), t.remove(j));
        lemma_fold_merge_characterized(s);
        lemma_fold_merge_characterized(t);
        lemma_fold_merge_characterized(s.drop_last());
        lemma_fold_merge_characterized(t.remove(j));
        if s.len() == 1 {
            assert(t.len() == 1);
            assert(max_pos(s) == s[0].position->0);
            assert(t[0] == x);
        } else {
            assert(t.len() >= 2);
            lemma_max_pos_remove(t, j);
        }
    }
}

/// Round trip from a voxel bound through an interval back to a point
/// test: after `to_range` is limited into an unconstrained bound, a
/// swept point is out of bound on the constrained axis exactly when it
/// lies on the wrong side of the accumulated face — below it for a wall
/// pushing up, above it for a wall pushing down, never for a washed-out
/// bound — and never on the other axes.
pub proof fn lemma_to_range_limit_round_trip(vb: VoxelBound, axis: Axis, p: Vec3)
    ensures
        ({
            let nb = Bound3D {
                x: AxisInterval { start: None, end: None },
                y: AxisInterval { start: None, end: None },
                z: AxisInterval { start: None, end: None },
            };
            let b = nb.limit_spec(axis, vb.to_range_spec());
            &&& b.out_axis_spec(axis, p.axis(axis)) <==> (match vb.position {
                Some(q) => if area_sign(vb.area as int) > 0 {
                    p.axis(axis) < q
                } else if area_sign(vb.area as int) < 0 {
                    p.axis(axis) > q
                } else {
                    false
                },
                None => false,
            })
            &&& forall|c: Axis| c != axis ==> !b.out_axis_spec(c, p.axis(c))
        }),
{
    let nb = Bound3D {
        x: AxisInterval { start: None, end: None },
        y: AxisInterval { start: None, end: None },
        z: AxisInterval { start: None, end: None },
    };
    let b = nb.limit_spec(axis, vb.to_range_spec());
    assert(b.interval_spec(axis) == (AxisInterval {
        start: lo_max(None, vb.to_range_spec().start),
        end: hi_min(None, vb.to_range_spec().end),
    })) by {
        match axis {
            Axis::X => {},
            Axis::Y => {},
            Axis::Z => {},
        }
    }
    assert forall|c: Axis| c != axis implies !b.out_axis_spec(c, p.axis(c)) by {
        match c {
            Axis::X => {
                match axis {
                    Axis::X => {},
                    Axis::Y => {},
                    Axis::Z => {},
                }
            },
            Axis::Y => {
                match axis {
                    Axis::X => {},
                    Axis::Y => {},
                    Axis::Z => {},
                }
            },
            Axis::Z => {
                match axis {
                    Axis::X => {},
                    Axis::Y => {},
                    Axis::Z => {},
                }
            },
        }
    }
}

} // verus!
