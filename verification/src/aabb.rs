//! Axis-aligned bounding boxes: an origin corner plus a per-axis extent.

use vstd::prelude::*;

use crate::axis::{Axis, HasAxis};
use crate::fx::{
    fx_abs, fx_ceil_units, fx_floor_units, fx_half, fx_mul, fx_mul_spec, sabs, COORD_LIMIT,
};
use crate::vec3::{UVec3, Vec3};

verus! {

/// An axis-aligned box: `position` is the minimum corner, `extent3d` the
/// edge lengths. A box is valid when every extent is non-negative; the
/// type does not enforce that, `valid` probes it.
#[derive(Debug, Clone, Copy, PartialEq, Eq, Structural)]
pub struct AABB {
    pub position: Vec3,
    pub extent3d: Vec3,
}

/// The integer cells `(x0 + q, y0 + r, z0 + s)` for `q < nx`, `r < ny`,
/// `s < nz`, ordered x-outermost, z-innermost.
pub open spec fn grid_seq(x0: int, y0: int, z0: int, nx: int, ny: int, nz: int) -> Seq<UVec3> {
    Seq::new(
        if nx * ny * nz >= 0 {
            (nx * ny * nz) as nat
        } else {
            0
        },
        |i: int|
            UVec3 {
                x: (x0 + i / (ny * nz)) as u32,
                y: (y0 + (i / nz) % ny) as u32,
                z: (z0 + i % nz) as u32,
            },
    )
}

/// Locates index `(dx*ny + dy)*nz + dz` inside `grid_seq`.
proof fn lemma_grid_index(x0: int, y0: int, z0: int, nx: int, ny: int, nz: int, dx: int, dy: int, dz: int)
    requires
        0 <= dx < nx,
        0 <= dy < ny,
        0 <= dz < nz,
    ensures
        ({
            let i = (dx * ny + dy) * nz + dz;
            &&& 0 <= i < nx * ny * nz
            &&& grid_seq(x0, y0, z0, nx, ny, nz)[i] == (UVec3 {
                x: (x0 + dx) as u32,
                y: (y0 + dy) as u32,
                z: (z0 + dz) as u32,
            })
        }),
{
    let i = (dx * ny + dy) * nz + dz;
    assert((dx * ny + dy) * nz + dz == dx * (ny * nz) + (dy * nz + dz) && 0 <= dy * nz + dz < ny
        * nz && i < nx * ny * nz && dx * ny + dy < nx * ny) by (nonlinear_arith)
        requires
            0 <= dx < nx,
            0 <= dy < ny,
            0 <= dz < nz,
            i == (dx * ny + dy) * nz + dz,
    ;
    vstd::arithmetic::div_mod::lemma_fundamental_div_mod_converse(i, ny * nz, dx, dy * nz + dz);
    vstd::arithmetic::div_mod::lemma_fundamental_div_mod_converse(i, nz, dx * ny + dy, dz);
    vstd::arithmetic::div_mod::lemma_fundamental_div_mod_converse(dx * ny + dy, ny, dx, dy);
}

impl AABB {
    /// Every extent is non-negative.
    pub open spec fn valid_spec(self) -> bool {
        forall|a: Axis| #[trigger] self.extent3d.axis(a) >= 0
    }

    /// Both corners have coordinates of magnitude at most `m`.
    pub open spec fn bounded(self, m: int) -> bool {
        self.position.bounded(m) && self.extent3d.bounded(m)
    }

    pub open spec fn min_spec(self, a: Axis) -> int {
        self.position.axis(a)
    }

    pub open spec fn max_spec(self, a: Axis) -> int {
        self.position.axis(a) + self.extent3d.axis(a)
    }

    /// Cross-sectional area on `a`: the product of the other two extents'
    /// magnitudes, in fixed-point units.
    pub open spec fn area_spec(self, a: Axis) -> int {
        let (b, c) = a.rest_spec();
        fx_mul_spec(sabs(self.extent3d.axis(b)), sabs(self.extent3d.axis(c)))
    }

    /// First cell index covered on `a`, clamped to the world's low edge.
    pub open spec fn lo_cell(self, a: Axis) -> int {
        let f = self.min_spec(a) / 1000;
        if f >= 0 {
            f
        } else {
            0
        }
    }

    /// First cell index past the covered range on `a` (never negative).
    pub open spec fn hi_cell(self, a: Axis) -> int {
        let c = -((-self.max_spec(a)) / 1000);
        if c >= 0 {
            c
        } else {
            0
        }
    }

    /// How many cells the box covers on `a` after clamping.
    pub open spec fn cell_count(self, a: Axis) -> int {
        if self.hi_cell(a) > self.lo_cell(a) {
            self.hi_cell(a) - self.lo_cell(a)
        } else {
            0
        }
    }

    /// The cells `iter_pos` enumerates, in its order.
    pub open spec fn iter_pos_seq(self) -> Seq<UVec3> {
        grid_seq(
            self.lo_cell(Axis::X),
            self.lo_cell(Axis::Y),
            self.lo_cell(Axis::Z),
            self.cell_count(Axis::X),
            self.cell_count(Axis::Y),
            self.cell_count(Axis::Z),
        )
    }

    /// Probe validity: every extent component non-negative.
    pub fn valid(self) -> (r: bool)
        ensures
            r == self.valid_spec(),
    {
        let r = self.extent3d.x >= 0 && self.extent3d.y >= 0 && self.extent3d.z >= 0;
        proof {
            if r {
                assert forall|a: Axis| #[trigger] self.extent3d.axis(a) >= 0 by {
                    match a {
                        Axis::X => {},
                        Axis::Y => {},
                        Axis::Z => {},
                    }
                }
            } else if self.extent3d.x < 0 {
                assert(self.extent3d.axis(Axis::X) < 0);
            } else if self.extent3d.y < 0 {
                assert(self.extent3d.axis(Axis::Y) < 0);
            } else {
                assert(self.extent3d.axis(Axis::Z) < 0);
            }
        }
        r
    }

    /// The minimum corner.
    pub fn min(self) -> (r: Vec3)
        ensures
            r == self.position,
    {
        self.position
    }

    /// The maximum corner, `position + extent3d`.
    pub fn max(self) -> (r: Vec3)
        requires
            self.bounded(COORD_LIMIT as int),
        ensures
            forall|a: Axis| #[trigger] r.axis(a) == self.max_spec(a),
    {
        let r = self.position.add(self.extent3d);
        proof {
            assert forall|a: Axis| #[trigger] r.axis(a) == self.max_spec(a) by {
                match a {
                    Axis::X => {},
                    Axis::Y => {},
                    Axis::Z => {},
                }
            }
        }
        r
    }

    /// The start and end of the covered interval on one axis.
    pub fn interval(self, a: Axis) -> (r: (i64, i64))
        requires
            self.bounded(COORD_LIMIT as int),
        ensures
            r.0 == self.min_spec(a),
            r.1 == self.max_spec(a),
    {
        match a {
            Axis::X => (self.position.x, self.position.x + self.extent3d.x),
            Axis::Y => (self.position.y, self.position.y + self.extent3d.y),
            Axis::Z => (self.position.z, self.position.z + self.extent3d.z),
        }
    }

    /// The center, `position + extent3d / 2`, computed the same way on
    /// every axis.
    pub fn center(self) -> (r: Vec3)
        requires
            self.valid_spec(),
            self.bounded(COORD_LIMIT as int),
        ensures
            forall|a: Axis| #[trigger] r.axis(a) == self.position.axis(a) + self.extent3d.axis(a)
                / 2,
    {
        proof {
            assert(self.extent3d.axis(Axis::X) >= 0);
            assert(self.extent3d.axis(Axis::Y) >= 0);
            assert(self.extent3d.axis(Axis::Z) >= 0);
        }
        let half = Vec3::new(
            fx_half(self.extent3d.x),
            fx_half(self.extent3d.y),
            fx_half(self.extent3d.z),
        );
        let r = self.position.add(half);
        proof {
            assert forall|a: Axis| #[trigger] r.axis(a) == self.position.axis(a)
                + self.extent3d.axis(a) / 2 by {
                match a {
                    Axis::X => {},
                    Axis::Y => {},
                    Axis::Z => {},
                }
            }
        }
        r
    }

    /// The half of the box on the low or high side of `axis`: the extent
    /// along `axis` is halved (the high half keeps the remainder of an odd
    /// extent so the two halves tile the box), other axes are untouched.
    pub fn split_by_axis(self, axis: Axis, is_pos: bool) -> (r: AABB)
        requires
            self.valid_spec(),
            self.bounded(COORD_LIMIT as int),
        ensures
            ({
                let e = self.extent3d.axis(axis);
                let h = e / 2;
                if is_pos {
                    r == (AABB {
                        position: self.position.with_axis_spec(
                            axis,
                            (self.position.axis(axis) + h) as i64,
                        ),
                        extent3d: self.extent3d.with_axis_spec(axis, (e - h) as i64),
                    })
                } else {
                    r == (AABB {
                        position: self.position,
                        extent3d: self.extent3d.with_axis_spec(axis, h as i64),
                    })
                }
            }),
    {
        let e = self.extent3d.get_axis(axis);
        assert(e >= 0) by {
            assert(self.extent3d.axis(axis) >= 0);
        }
        let h = fx_half(e);
        if is_pos {
            AABB {
                position: self.position.with_axis(axis, self.position.get_axis(axis) + h),
                extent3d: self.extent3d.with_axis(axis, e - h),
            }
        } else {
            AABB { position: self.position, extent3d: self.extent3d.with_axis(axis, h) }
        }
    }

    /// The lower and upper halves along Y, in that order.
    pub fn split_y(self) -> (r: (AABB, AABB))
        requires
            self.valid_spec(),
            self.bounded(COORD_LIMIT as int),
        ensures
            ({
                let e = self.extent3d.axis(Axis::Y);
                let h = e / 2;
                &&& r.0.position == self.position
                &&& r.0.extent3d == self.extent3d.with_axis_spec(Axis::Y, h as i64)
                &&& r.1.position == self.position.with_axis_spec(
                    Axis::Y,
                    (self.position.axis(Axis::Y) + h) as i64,
                )
                &&& r.1.extent3d == self.extent3d.with_axis_spec(Axis::Y, (e - h) as i64)
            }),
    {
        (self.split_by_axis(Axis::Y, false), self.split_by_axis(Axis::Y, true))
    }

    /// What `expanded` builds, field by field.
    pub open spec fn expanded_spec(self, value: Vec3) -> AABB {
        AABB {
            position: Vec3 {
                x: (self.position.x - value.x / 2) as i64,
                y: (self.position.y - value.y / 2) as i64,
                z: (self.position.z - value.z / 2) as i64,
            },
            extent3d: Vec3 {
                x: (self.extent3d.x + value.x) as i64,
                y: (self.extent3d.y + value.y) as i64,
                z: (self.extent3d.z + value.z) as i64,
            },
        }
    }

    /// Grow the box symmetrically: each axis gains `value` of extent, half
    /// of it below the old corner.
    pub fn expanded(self, value: Vec3) -> (r: AABB)
        requires
            self.bounded(COORD_LIMIT as int),
            value.bounded(COORD_LIMIT as int),
            forall|a: Axis| #[trigger] value.axis(a) >= 0,
        ensures
            r == self.expanded_spec(value),
            forall|a: Axis| #[trigger] r.position.axis(a) == self.position.axis(a) - value.axis(a)
                / 2,
            forall|a: Axis| #[trigger] r.extent3d.axis(a) == self.extent3d.axis(a) + value.axis(
                a,
            ),
    {
        proof {
            assert(value.axis(Axis::X) >= 0 && value.axis(Axis::Y) >= 0 && value.axis(Axis::Z)
                >= 0);
        }
        let half = Vec3::new(fx_half(value.x), fx_half(value.y), fx_half(value.z));
        let r = AABB { position: self.position.sub(half), extent3d: self.extent3d.add(value) };
        proof {
            assert forall|a: Axis| #[trigger] r.position.axis(a) == self.position.axis(a)
                - value.axis(a) / 2 && r.extent3d.axis(a) == self.extent3d.axis(a) + value.axis(
                a,
            ) by {
                match a {
                    Axis::X => {},
                    Axis::Y => {},
                    Axis::Z => {},
                }
            }
        }
        r
    }

    /// The unit box of the voxel cell whose minimum corner is `position`.
    pub fn from_block_pos(position: Vec3) -> (r: AABB)
        ensures
            r.position == position,
            r.extent3d == (Vec3 { x: 1000i64, y: 1000i64, z: 1000i64 }),
    {
        AABB { position, extent3d: Vec3 { x: 1000, y: 1000, z: 1000 } }
    }

    /// The box spanned by two arbitrary corners.
    pub fn from_ab(a: Vec3, b: Vec3) -> (r: AABB)
        requires
            a.bounded(COORD_LIMIT as int),
            b.bounded(COORD_LIMIT as int),
        ensures
            forall|ax: Axis| #[trigger] r.position.axis(ax) == if a.axis(ax) <= b.axis(ax) {
                a.axis(ax)
            } else {
                b.axis(ax)
            },
            forall|ax: Axis| #[trigger] r.extent3d.axis(ax) == sabs(a.axis(ax) - b.axis(ax)),
            r.valid_spec(),
    {
        let lo = Vec3::new(
            if a.x <= b.x { a.x } else { b.x },
            if a.y <= b.y { a.y } else { b.y },
            if a.z <= b.z { a.z } else { b.z },
        );
        let hi = Vec3::new(
            if a.x <= b.x { b.x } else { a.x },
            if a.y <= b.y { b.y } else { a.y },
            if a.z <= b.z { b.z } else { a.z },
        );
        let r = AABB { position: lo, extent3d: hi.sub(lo) };
        proof {
            assert forall|ax: Axis| #[trigger] r.position.axis(ax) == (if a.axis(ax) <= b.axis(ax) {
                a.axis(ax)
            } else {
                b.axis(ax)
            }) && r.extent3d.axis(ax) == sabs(a.axis(ax) - b.axis(ax)) && r.extent3d.axis(ax)
                >= 0 by {
                match ax {
                    Axis::X => {},
                    Axis::Y => {},
                    Axis::Z => {},
                }
            }
        }
        r
    }

    /// What `intersect` builds, field by field.
    pub open spec fn intersect_spec(self, rhs: AABB) -> AABB {
        let lx = if self.position.x >= rhs.position.x {
            self.position.x
        } else {
            rhs.position.x
        };
        let ly = if self.position.y >= rhs.position.y {
            self.position.y
        } else {
            rhs.position.y
        };
        let lz = if self.position.z >= rhs.position.z {
            self.position.z
        } else {
            rhs.position.z
        };
        let hx = if self.max_spec(Axis::X) <= rhs.max_spec(Axis::X) {
            self.max_spec(Axis::X)
        } else {
            rhs.max_spec(Axis::X)
        };
        let hy = if self.max_spec(Axis::Y) <= rhs.max_spec(Axis::Y) {
            self.max_spec(Axis::Y)
        } else {
            rhs.max_spec(Axis::Y)
        };
        let hz = if self.max_spec(Axis::Z) <= rhs.max_spec(Axis::Z) {
            self.max_spec(Axis::Z)
        } else {
            rhs.max_spec(Axis::Z)
        };
        AABB {
            position: Vec3 { x: lx, y: ly, z: lz },
            extent3d: Vec3 { x: (hx - lx) as i64, y: (hy - ly) as i64, z: (hz - lz) as i64 },
        }
    }

    /// Per-axis interval intersection of two boxes. The result's extent is
    /// negative on an axis where the boxes do not overlap.
    pub fn intersect(self, rhs: AABB) -> (r: AABB)
        requires
            self.bounded(COORD_LIMIT as int),
            rhs.bounded(COORD_LIMIT as int),
        ensures
            r == self.intersect_spec(rhs),
            forall|a: Axis| #[trigger] r.min_spec(a) == if self.min_spec(a) >= rhs.min_spec(a) {
                self.min_spec(a)
            } else {
                rhs.min_spec(a)
            },
            forall|a: Axis| #[trigger] r.max_spec(a) == if self.max_spec(a) <= rhs.max_spec(a) {
                self.max_spec(a)
            } else {
                rhs.max_spec(a)
            },
    {
        let (sx0, sx1) = self.interval(Axis::X);
        let (sy0, sy1) = self.interval(Axis::Y);
        let (sz0, sz1) = self.interval(Axis::Z);
        let (rx0, rx1) = rhs.interval(Axis::X);
        let (ry0, ry1) = rhs.interval(Axis::Y);
        let (rz0, rz1) = rhs.interval(Axis::Z);
        let lo = Vec3::new(
            if sx0 >= rx0 { sx0 } else { rx0 },
            if sy0 >= ry0 { sy0 } else { ry0 },
            if sz0 >= rz0 { sz0 } else { rz0 },
        );
        let hi = Vec3::new(
            if sx1 <= rx1 { sx1 } else { rx1 },
            if sy1 <= ry1 { sy1 } else { ry1 },
            if sz1 <= rz1 { sz1 } else { rz1 },
        );
        let r = AABB { position: lo, extent3d: hi.sub(lo) };
        proof {
            assert forall|a: Axis| #[trigger] r.min_spec(a) == (if self.min_spec(a) >= rhs.min_spec(
                a,
            ) {
                self.min_spec(a)
            } else {
                rhs.min_spec(a)
            }) && r.max_spec(a) == (if self.max_spec(a) <= rhs.max_spec(a) {
                self.max_spec(a)
            } else {
                rhs.max_spec(a)
            }) by {
                match a {
                    Axis::X => {},
                    Axis::Y => {},
                    Axis::Z => {},
                }
            }
        }
        r
    }

    /// Per-axis cross-sectional areas: on each axis, the product of the
    /// other two extents' magnitudes.
    pub fn areas(self) -> (r: Vec3)
        requires
            self.bounded(COORD_LIMIT as int),
        ensures
            forall|a: Axis| #[trigger] r.axis(a) == self.area_spec(a),
    {
        let ex = fx_abs(self.extent3d.x);
        let ey = fx_abs(self.extent3d.y);
        let ez = fx_abs(self.extent3d.z);
        proof {
            assert(ex * ey <= 4_000_000_000_000_000_000 && ey * ez <= 4_000_000_000_000_000_000
                && ex * ez <= 4_000_000_000_000_000_000) by (nonlinear_arith)
                requires
                    0 <= ex <= 1_000_000_000,
                    0 <= ey <= 1_000_000_000,
                    0 <= ez <= 1_000_000_000,
            ;
        }
        let r = Vec3::new(fx_mul(ey, ez), fx_mul(ex, ez), fx_mul(ex, ey));
        proof {
            assert(fx_mul_spec(ex as int, ey as int) == fx_mul_spec(
                sabs(self.extent3d.x as int),
                sabs(self.extent3d.y as int),
            ));
            assert forall|a: Axis| #[trigger] r.axis(a) == self.area_spec(a) by {
                match a {
                    Axis::X => {},
                    Axis::Y => {},
                    Axis::Z => {},
                }
            }
        }
        r
    }

    /// Which axis has the largest cross-sectional area: the first axis in
    /// X, Y, Z order whose area strictly exceeds every earlier one (and
    /// zero).
    pub open spec fn max_axis_spec(self) -> Axis {
        let ax = self.area_spec(Axis::X);
        let ay = self.area_spec(Axis::Y);
        let az = self.area_spec(Axis::Z);
        let m1 = if ax > 0 {
            ax
        } else {
            0
        };
        let m2 = if ay > m1 {
            ay
        } else {
            m1
        };
        if az > m2 {
            Axis::Z
        } else if ay > m1 {
            Axis::Y
        } else {
            Axis::X
        }
    }

    /// The axis with the largest cross-sectional area; ties keep the
    /// earliest axis.
    pub fn max_axis(self) -> (r: Axis)
        requires
            self.bounded(COORD_LIMIT as int),
        ensures
            r == self.max_axis_spec(),
    {
        let areas = self.areas();
        proof {
            assert(areas.axis(Axis::X) == self.area_spec(Axis::X));
            assert(areas.axis(Axis::Y) == self.area_spec(Axis::Y));
            assert(areas.axis(Axis::Z) == self.area_spec(Axis::Z));
        }
        let mut max_area: i64 = 0;
        let mut ret = Axis::X;
        if areas.x > max_area {
            max_area = areas.x;
            ret = Axis::X;
        }
        if areas.y > max_area {
            max_area = areas.y;
            ret = Axis::Y;
        }
        if areas.z > max_area {
            max_area = areas.z;
            ret = Axis::Z;
        }
        ret
    }

    /// Every voxel cell the box overlaps, floor-clamped to the world's low
    /// edge, enumerated x-outermost then y then z.
    pub fn iter_pos(self) -> (r: Vec<UVec3>)
        requires
            self.bounded(COORD_LIMIT as int),
        ensures
            r@ == self.iter_pos_seq(),
    {
        let fx = fx_floor_units(self.position.x);
        let fy = fx_floor_units(self.position.y);
        let fz = fx_floor_units(self.position.z);
        let minx: i64 = if fx >= 0 { fx } else { 0 };
        let miny: i64 = if fy >= 0 { fy } else { 0 };
        let minz: i64 = if fz >= 0 { fz } else { 0 };
        let cx = fx_ceil_units(self.position.x + self.extent3d.x);
        let cy = fx_ceil_units(self.position.y + self.extent3d.y);
        let cz = fx_ceil_units(self.position.z + self.extent3d.z);
        let maxx: i64 = if cx >= 0 { cx } else { 0 };
        let maxy: i64 = if cy >= 0 { cy } else { 0 };
        let maxz: i64 = if cz >= 0 { cz } else { 0 };
        let ghost nx = self.cell_count(Axis::X);
        let ghost ny = self.cell_count(Axis::Y);
        let ghost nz = self.cell_count(Axis::Z);
        let ghost full = self.iter_pos_seq();
        proof {
            assert(minx == self.lo_cell(Axis::X) && maxx == self.hi_cell(Axis::X));
            assert(miny == self.lo_cell(Axis::Y) && maxy == self.hi_cell(Axis::Y));
            assert(minz == self.lo_cell(Axis::Z) && maxz == self.hi_cell(Axis::Z));
            assert(nx == if maxx > minx { maxx - minx } else { 0 });
            assert(ny == if maxy > miny { maxy - miny } else { 0 });
            assert(nz == if maxz > minz { maxz - minz } else { 0 });
            assert(nx * ny * nz >= 0) by (nonlinear_arith)
                requires
                    nx >= 0 && ny >= 0 && nz >= 0,
            ;
            assert(full.len() == nx * ny * nz);
        }
        let mut out: Vec<UVec3> = Vec::new();
        if maxx <= minx || maxy <= miny || maxz <= minz {
            proof {
                assert(nx * ny * nz == 0) by (nonlinear_arith)
                    requires
                        nx == 0 || ny == 0 || nz == 0,
                ;
                assert(out@ =~= full);
            }
            return out;
        }
        let mut x = minx;
        proof {
            assert((x - minx) * ny * nz == 0) by (nonlinear_arith)
                requires
                    x == minx,
            ;
        }
        while x < maxx
            invariant
                minx <= x <= maxx,
                minx < maxx && miny < maxy && minz < maxz,
                nx == maxx - minx && ny == maxy - miny && nz == maxz - minz,
                0 <= minx && 0 <= miny && 0 <= minz,
                maxx <= 2_000_000_001 && maxy <= 2_000_000_001 && maxz <= 2_000_000_001,
                full == grid_seq(minx as int, miny as int, minz as int, nx, ny, nz),
                full.len() == nx * ny * nz,
                out@.len() == (x - minx) * ny * nz,
                forall|i: int| 0 <= i < out@.len() ==> out@[i] == full[i],
            decreases maxx - x,
        {
            let mut y = miny;
            while y < maxy
                invariant
                    minx <= x < maxx,
                    miny <= y <= maxy,
                    minx < maxx && miny < maxy && minz < maxz,
                    nx == maxx - minx && ny == maxy - miny && nz == maxz - minz,
                    0 <= minx && 0 <= miny && 0 <= minz,
                    maxx <= 2_000_000_001 && maxy <= 2_000_000_001 && maxz <= 2_000_000_001,
                    full == grid_seq(minx as int, miny as int, minz as int, nx, ny, nz),
                    full.len() == nx * ny * nz,
                    out@.len() == ((x - minx) * ny + (y - miny)) * nz,
                    forall|i: int| 0 <= i < out@.len() ==> out@[i] == full[i],
                decreases maxy - y,
            {
                let mut z = minz;
                while z < maxz
                    invariant
                        minx <= x < maxx,
                        miny <= y < maxy,
                        minz <= z <= maxz,
                        minx < maxx && miny < maxy && minz < maxz,
                        nx == maxx - minx && ny == maxy - miny && nz == maxz - minz,
                        0 <= minx && 0 <= miny && 0 <= minz,
                        maxx <= 2_000_000_001 && maxy <= 2_000_000_001 && maxz <= 2_000_000_001,
                        full == grid_seq(minx as int, miny as int, minz as int, nx, ny, nz),
                        full.len() == nx * ny * nz,
                        out@.len() == ((x - minx) * ny + (y - miny)) * nz + (z - minz),
                        forall|i: int| 0 <= i < out@.len() ==> out@[i] == full[i],
                    decreases maxz - z,
                {
                    proof {
                        lemma_grid_index(
                            minx as int,
                            miny as int,
                            minz as int,
                            nx,
                            ny,
                            nz,
                            x - minx,
                            y - miny,
                            z - minz,
                        );
                        let idx = ((x - minx) * ny + (y - miny)) * nz + (z - minz);
                        let w = (UVec3 {
                            x: (minx + (x - minx)) as u32,
                            y: (miny + (y - miny)) as u32,
                            z: (minz + (z - minz)) as u32,
                        });
                        assert(full[idx] == w);
                        assert((UVec3 { x: x as u32, y: y as u32, z: z as u32 }) == w);
                    }
                    out.push(UVec3 { x: x as u32, y: y as u32, z: z as u32 });
                    proof {
                        let idx = ((x - minx) * ny + (y - miny)) * nz + (z - minz);
                        assert(out@.len() == idx + 1);
                        assert(out@[idx] == full[idx]);
                    }
                    z = z + 1;
                }
                y = y + 1;
                proof {
                    assert(((x - minx) * ny + (y - 1 - miny)) * nz + nz == ((x - minx) * ny + (y
                        - miny)) * nz) by (nonlinear_arith);
                }
            }
            x = x + 1;
            proof {
                assert(((x - 1 - minx) * ny + (maxy - miny)) * nz == (x - minx) * ny * nz)
                    by (nonlinear_arith)
                    requires
                        ny == maxy - miny,
                ;
            }
        }
        proof {
            assert(out@ =~= full);
        }
        out
    }
}

/// Which cell range an enumerated cell falls in, per axis.
proof fn lemma_iter_pos_cell(ab: AABB, i: int)
    requires
        ab.bounded(COORD_LIMIT as int),
        0 <= i < ab.iter_pos_seq().len(),
    ensures
        forall|a: Axis|
            {
                let c = #[trigger] ab.iter_pos_seq()[i].axis(a);
                ab.lo_cell(a) <= c < ab.hi_cell(a)
            },
{
    let nx = ab.cell_count(Axis::X);
    let ny = ab.cell_count(Axis::Y);
    let nz = ab.cell_count(Axis::Z);
    assert(nx * ny * nz > 0 && i < nx * ny * nz);
    assert(nx > 0 && ny > 0 && nz > 0 && ny * nz > 0) by (nonlinear_arith)
        requires
            nx * ny * nz > 0,
            nx >= 0,
            ny >= 0,
            nz >= 0,
    ;
    let q = i / (ny * nz);
    let ry = (i / nz) % ny;
    let rz = i % nz;
    assert(nx * ny * nz == nx * (ny * nz)) by (nonlinear_arith);
    vstd::arithmetic::div_mod::lemma_fundamental_div_mod(i, ny * nz);
    assert(0 <= q < nx) by (nonlinear_arith)
        requires
            i == (ny * nz) * q + i % (ny * nz),
            0 <= i % (ny * nz) < ny * nz,
            0 <= i,
            i < nx * (ny * nz),
            ny * nz > 0,
    ;
    vstd::arithmetic::div_mod::lemma_fundamental_div_mod(i, nz);
    let qz = i / nz;
    assert(0 <= qz) by (nonlinear_arith)
        requires
            i == nz * qz + i % nz,
            0 <= i % nz < nz,
            0 <= i,
            nz > 0,
    ;
    vstd::arithmetic::div_mod::lemma_mod_bound(qz, ny);
    vstd::arithmetic::div_mod::lemma_mod_bound(i, nz);
    let lx = ab.lo_cell(Axis::X);
    let ly = ab.lo_cell(Axis::Y);
    let lz = ab.lo_cell(Axis::Z);
    assert(0 <= lx && 0 <= ly && 0 <= lz);
    assert(lx + nx <= 2_000_001 && ly + ny <= 2_000_001 && lz + nz <= 2_000_001);
    assert(ab.iter_pos_seq()[i] == (UVec3 {
        x: (lx + q) as u32,
        y: (ly + ry) as u32,
        z: (lz + rz) as u32,
    }));
    assert forall|a: Axis|
        {
            let c = #[trigger] ab.iter_pos_seq()[i].axis(a);
            ab.lo_cell(a) <= c < ab.hi_cell(a)
        } by {
        match a {
            Axis::X => {},
            Axis::Y => {},
            Axis::Z => {},
        }
    }
}

/// Every cell the box enumerates genuinely overlaps it: on each axis the
/// overlap with the unit cell box runs forward, spans at most one block,
/// and stays between the world's low edge and the box's high side.
pub proof fn lemma_cell_overlap(ab: AABB, i: int)
    requires
        ab.valid_spec(),
        ab.bounded(COORD_LIMIT as int),
        0 <= i < ab.iter_pos_seq().len(),
    ensures
        ({
            let p = ab.iter_pos_seq()[i];
            let cell = AABB {
                position: Vec3 {
                    x: (p.x * 1000) as i64,
                    y: (p.y * 1000) as i64,
                    z: (p.z * 1000) as i64,
                },
                extent3d: Vec3 { x: 1000i64, y: 1000i64, z: 1000i64 },
            };
            let ov = cell.intersect_spec(ab);
            forall|a: Axis|
                {
                    &&& 0 <= #[trigger] ov.extent3d.axis(a) <= 1000
                    &&& 0 <= ov.min_spec(a)
                    &&& ov.min_spec(a) <= ab.max_spec(a)
                    &&& 0 <= ov.max_spec(a) <= ab.max_spec(a)
                    &&& 0 <= p.axis(a) * 1000 < ab.max_spec(a)
                }
        }),
{
    lemma_iter_pos_cell(ab, i);
    let p = ab.iter_pos_seq()[i];
    let cell = AABB {
        position: Vec3 {
            x: (p.x * 1000) as i64,
            y: (p.y * 1000) as i64,
            z: (p.z * 1000) as i64,
        },
        extent3d: Vec3 { x: 1000i64, y: 1000i64, z: 1000i64 },
    };
    let ov = cell.intersect_spec(ab);
    assert forall|a: Axis|
        {
            &&& 0 <= #[trigger] ov.extent3d.axis(a) <= 1000
            &&& 0 <= ov.min_spec(a)
            &&& ov.min_spec(a) <= ab.max_spec(a)
            &&& 0 <= ov.max_spec(a) <= ab.max_spec(a)
            &&& 0 <= p.axis(a) * 1000 < ab.max_spec(a)
        } by {
        let c = p.axis(a);
        let amin = ab.min_spec(a);
        let amax = ab.max_spec(a);
        assert(ab.lo_cell(a) <= c < ab.hi_cell(a));
        assert(ab.extent3d.axis(a) >= 0);
        // the cell starts below the box's high side
        vstd::arithmetic::div_mod::lemma_fundamental_div_mod(-amax, 1000);
        assert(c * 1000 < amax) by {
            let hi = ab.hi_cell(a);
            assert(c <= hi - 1);
            assert((hi - 1) * 1000 < amax) by (nonlinear_arith)
                requires
                    hi == -((-amax) / 1000),
                    -amax == 1000 * ((-amax) / 1000) + (-amax) % 1000,
                    0 <= (-amax) % 1000 < 1000,
            ;
            assert(c * 1000 <= (hi - 1) * 1000) by (nonlinear_arith)
                requires
                    c <= hi - 1,
            ;
        }
        // the cell ends above the box's low side
        vstd::arithmetic::div_mod::lemma_fundamental_div_mod(amin, 1000);
        assert(c * 1000 + 1000 > amin) by {
            if ab.lo_cell(a) == amin / 1000 {
                assert(c >= amin / 1000);
                assert(c * 1000 >= (amin / 1000) * 1000) by (nonlinear_arith)
                    requires
                        c >= amin / 1000,
                ;
            } else {
                assert(amin / 1000 < 0);
                assert(amin < 0) by (nonlinear_arith)
                    requires
                        amin == 1000 * (amin / 1000) + amin % 1000,
                        0 <= amin % 1000 < 1000,
                        amin / 1000 <= -1,
                ;
                assert(c * 1000 >= 0) by (nonlinear_arith)
                    requires
                        c >= 0,
                ;
            }
        }
        assert(c * 1000 >= 0) by (nonlinear_arith)
            requires
                c >= 0,
        ;
        match a {
            Axis::X => {},
            Axis::Y => {},
            Axis::Z => {},
        }
    }
}

/// A box's cross-sectional area on an axis is the product of the other
/// two extents alone: changing the extent along that axis — any dilation
/// of it — leaves that axis's area untouched.
pub proof fn lemma_areas_ignore_own_extent(ab: AABB, a: Axis, w: i64)
    ensures
        (AABB {
            position: ab.position,
            extent3d: ab.extent3d.with_axis_spec(a, w),
        }).area_spec(a) == ab.area_spec(a),
{
    match a {
        Axis::X => {},
        Axis::Y => {},
        Axis::Z => {},
    }
}

} // verus!
