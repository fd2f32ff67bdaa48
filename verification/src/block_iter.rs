//! Grid ray traversal: walk the voxel cells a ray visits, in order, by
//! always crossing the nearest upcoming grid plane.

use vstd::prelude::*;

use crate::axis::{sort_axes_desc, sort_axes_desc_spec, Axis, HasAxis};
use crate::chunk::{sub_index, BlockSubPos};
use crate::fx::{
    fx_ceil_units, fx_div, fx_div_spec, fx_floor_units, fx_mul, fx_mul_spec, isqrt, isqrt_spec,
    lemma_fx_mul_bound, sabs, FX_LIMIT,
};
use crate::trit::Trit;
use crate::vec3::{UVec3, Vec3};
use crate::voxel_bound::is_grid_aligned;
use crate::world::{ChunkPos, MapSize};

verus! {

/// Largest start coordinate the walker accepts: a hundred thousand
/// blocks, far outside any world.
pub const RAY_COORD_LIMIT: i64 = 100_000_000;

/// Largest direction component the walker accepts before normalizing.
pub const RAY_DIR_LIMIT: i64 = 1_000_000;

/// A per-axis optional scalar: `None` marks an axis the ray never
/// crosses.
#[derive(Debug, Clone, Copy, PartialEq, Eq)]
pub struct OptVec3 {
    pub x: Option<i64>,
    pub y: Option<i64>,
    pub z: Option<i64>,
}

impl OptVec3 {
    pub open spec fn axis_spec(self, a: Axis) -> Option<i64> {
        match a {
            Axis::X => self.x,
            Axis::Y => self.y,
            Axis::Z => self.z,
        }
    }
}

/// The world's extent on one axis in fixed-point units.
pub open spec fn world_fx(size: MapSize, a: Axis) -> int {
    match a {
        Axis::X => size.w * 8000,
        Axis::Y => 64000,
        Axis::Z => size.h * 8000,
    }
}

/// A fixed-point point lies inside the world volume, boundary included.
pub open spec fn is_origin_inside_spec(size: MapSize, p: Vec3) -> bool {
    &&& 0 <= p.x <= size.w * 8000
    &&& 0 <= p.y <= 64000
    &&& 0 <= p.z <= size.h * 8000
}

/// A cell coordinate (block units) lies inside the world grid.
pub open spec fn is_position_inside_spec(size: MapSize, p: Vec3) -> bool {
    &&& 0 <= p.x < size.w * 8
    &&& 0 <= p.y < 64
    &&& 0 <= p.z < size.h * 8
}

/// Whether a start point lies inside the world volume (boundary counts).
pub fn is_origin_inside(size: MapSize, position: Vec3) -> (r: bool)
    ensures
        r == is_origin_inside_spec(size, position),
{
    let wx: i64 = size.w as i64 * 8000;
    let wz: i64 = size.h as i64 * 8000;
    0 <= position.x && position.x <= wx && 0 <= position.y && position.y <= 64000
        && 0 <= position.z && position.z <= wz
}

/// Whether a cell coordinate lies inside the world grid.
pub fn is_position_inside(size: MapSize, position: Vec3) -> (r: bool)
    ensures
        r == is_position_inside_spec(size, position),
{
    let wx: i64 = size.w as i64 * 8;
    let wz: i64 = size.h as i64 * 8;
    0 <= position.x && position.x < wx && 0 <= position.y && position.y < 64 && 0 <= position.z
        && position.z < wz
}

/// The ray-parameter window in which the ray sits between two slab
/// planes, ordered low to high.
pub open spec fn axis_t_range_spec(base: int, bound: int, dir: int) -> (int, int) {
    let inv = fx_div_spec(1000, dir);
    let t0 = fx_mul_spec(-base, inv);
    let t1 = fx_mul_spec(bound - base, inv);
    if t0 <= t1 {
        (t0, t1)
    } else {
        (t1, t0)
    }
}

/// Intersect a running parameter window with one axis's window; `None`
/// when they do not strictly overlap.
pub open spec fn merge_range_spec(origin: (int, int), rhs: (int, int)) -> Option<(int, int)> {
    if rhs.1 - origin.0 > 0 && origin.1 - rhs.0 > 0 {
        Some(
            (
                if origin.0 >= rhs.0 {
                    origin.0
                } else {
                    rhs.0
                },
                if origin.1 <= rhs.1 {
                    origin.1
                } else {
                    rhs.1
                },
            ),
        )
    } else {
        None
    }
}

/// One axis of the slab test. The accumulator is `None` once the ray has
/// missed the world, otherwise the running window (`None` inside: no
/// constraining axis seen yet). An axis the ray runs parallel to either
/// rules the ray out or constrains nothing.
pub open spec fn slab_step_spec(
    acc: Option<Option<(int, int)>>,
    base: int,
    bound: int,
    dir: int,
) -> Option<Option<(int, int)>> {
    match acc {
        None => None,
        Some(run) => {
            if dir == 0 {
                if 0 <= base <= bound {
                    Some(run)
                } else {
                    None
                }
            } else {
                let rng = axis_t_range_spec(base, bound, dir);
                match run {
                    None => Some(Some(rng)),
                    Some(origin) => match merge_range_spec(origin, rng) {
                        Some(m) => Some(Some(m)),
                        None => None,
                    },
                }
            }
        },
    }
}

/// Where a ray from `position` along (unit) `direction` enters the world
/// volume: the point itself when it starts inside; otherwise the slab
/// test over the axes in descending direction-component order, accepted
/// only when the entry parameter is strictly positive.
pub open spec fn entry_spec(size: MapSize, position: Vec3, direction: Vec3) -> Option<(Vec3, i64)> {
    if is_origin_inside_spec(size, position) {
        Some((position, 0i64))
    } else {
        let (a0, a1, a2) = sort_axes_desc_spec(
            direction.x as int,
            direction.y as int,
            direction.z as int,
        );
        let acc = slab_step_spec(
            slab_step_spec(
                slab_step_spec(
                    Some(None),
                    position.axis(a0),
                    world_fx(size, a0),
                    direction.axis(a0),
                ),
                position.axis(a1),
                world_fx(size, a1),
                direction.axis(a1),
            ),
            position.axis(a2),
            world_fx(size, a2),
            direction.axis(a2),
        );
        match acc {
            Some(Some((tmin, tmax))) => if tmin > 0 {
                Some(
                    (
                        Vec3 {
                            x: (position.x + fx_mul_spec(direction.x as int, tmin)) as i64,
                            y: (position.y + fx_mul_spec(direction.y as int, tmin)) as i64,
                            z: (position.z + fx_mul_spec(direction.z as int, tmin)) as i64,
                        },
                        tmin as i64,
                    ),
                )
            } else {
                None
            },
            _ => None,
        }
    }
}

/// The cell a fixed-point coordinate falls in on one axis: the floor,
/// except that a coordinate exactly on a grid line belongs to the cell
/// below when the ray moves downward on that axis.
pub open spec fn fine_pos_axis_spec(pos: int, neg: bool) -> int {
    if neg && pos % 1000 == 0 {
        pos / 1000 - 1
    } else {
        pos / 1000
    }
}

/// The cell an entry point starts in, per axis.
pub open spec fn fine_pos_spec(p: Vec3, direction: Vec3) -> Vec3 {
    Vec3 {
        x: fine_pos_axis_spec(p.x as int, direction.x < 0) as i64,
        y: fine_pos_axis_spec(p.y as int, direction.y < 0) as i64,
        z: fine_pos_axis_spec(p.z as int, direction.z < 0) as i64,
    }
}

/// The cell an entry point starts in.
pub fn extract_fine_position(position: Vec3, direction: Vec3) -> (r: Vec3)
    requires
        position.bounded(FX_LIMIT as int),
    ensures
        r == fine_pos_spec(position, direction),
{
    Vec3 {
        x: fine_pos_axis(position.x, direction.x < 0),
        y: fine_pos_axis(position.y, direction.y < 0),
        z: fine_pos_axis(position.z, direction.z < 0),
    }
}

/// One axis of `extract_fine_position`.
fn fine_pos_axis(pos: i64, neg: bool) -> (r: i64)
    requires
        -FX_LIMIT <= pos <= FX_LIMIT,
    ensures
        r == fine_pos_axis_spec(pos as int, neg),
{
    let f = fx_floor_units(pos);
    if neg && is_grid_aligned(pos) {
        proof {
            vstd::arithmetic::div_mod::lemma_fundamental_div_mod(pos as int, 1000);
        }
        f - 1
    } else {
        f
    }
}

/// One axis of the crossing bookkeeping: how far (in ray parameter) to
/// the next grid plane, and the full per-cell step. An axis with no
/// direction component never crosses.
pub open spec fn walk_axis_spec(pos: int, dir: int) -> (Option<i64>, Option<i64>) {
    if dir == 0 {
        (None, None)
    } else {
        let inv = fx_div_spec(1000, dir);
        let next_frame = if dir >= 0 {
            -((-pos) / 1000) * 1000
        } else if pos % 1000 == 0 {
            pos - 1000
        } else {
            (pos / 1000) * 1000
        };
        let next_time = fx_mul_spec(next_frame - pos, inv);
        (Some(next_time as i64), Some(inv as i64))
    }
}

/// Per-axis distance to the first grid crossing and per-cell parameter
/// step, for a ray from `origin` along (unit) `direction`.
pub fn get_next_offset_delta(origin: Vec3, direction: Vec3) -> (r: (OptVec3, OptVec3))
    requires
        origin.bounded(FX_LIMIT as int),
        direction.bounded(2000),
    ensures
        r.0.x == walk_axis_spec(origin.x as int, direction.x as int).0,
        r.0.y == walk_axis_spec(origin.y as int, direction.y as int).0,
        r.0.z == walk_axis_spec(origin.z as int, direction.z as int).0,
        r.1.x == walk_axis_spec(origin.x as int, direction.x as int).1,
        r.1.y == walk_axis_spec(origin.y as int, direction.y as int).1,
        r.1.z == walk_axis_spec(origin.z as int, direction.z as int).1,
        wf_axis(r.0.x, r.1.x),
        wf_axis(r.0.y, r.1.y),
        wf_axis(r.0.z, r.1.z),
    {
    let (ox, dx) = walk_axis(origin.x, direction.x);
    let (oy, dy) = walk_axis(origin.y, direction.y);
    let (oz, dz) = walk_axis(origin.z, direction.z);
    (OptVec3 { x: ox, y: oy, z: oz }, OptVec3 { x: dx, y: dy, z: dz })
}

/// One axis of `get_next_offset_delta`. The offset is non-negative and at
/// most the step's magnitude; the step's magnitude is at least one unit
/// and at most `2_000_000`.
fn walk_axis(pos: i64, dir: i64) -> (r: (Option<i64>, Option<i64>))
    requires
        -FX_LIMIT <= pos <= FX_LIMIT,
        -2000 <= dir <= 2000,
    ensures
        r == walk_axis_spec(pos as int, dir as int),
        r.0 is Some <==> dir != 0,
        r.1 is Some <==> dir != 0,
        dir != 0 ==> 1 <= sabs((r.1->0) as int) <= 2_000_000,
        dir != 0 ==> 0 <= (r.0->0) as int <= sabs((r.1->0) as int),
    {
    if dir == 0 {
        return (None, None);
    }
    let inv = fx_div(1000, dir);
    proof {
        assert(sabs(inv as int) <= 1000 * 1000 + sabs(dir as int) / 2);
        assert(sabs(inv as int) >= 1) by {
            assert(sabs(1000int) >= sabs(dir as int) ==> true);
            assert((sabs(1000int) * 1000 + sabs(dir as int) / 2) / sabs(dir as int) >= (1000 * 1000)
                / 2000) by {
                vstd::arithmetic::div_mod::lemma_div_is_ordered(
                    1000int * 1000,
                    sabs(1000int) * 1000 + sabs(dir as int) / 2,
                    sabs(dir as int),
                );
                vstd::arithmetic::div_mod::lemma_div_is_ordered_by_denominator(
                    1000int * 1000,
                    sabs(dir as int),
                    2000,
                );
            }
        }
    }
    let next_frame: i64 = if dir >= 0 {
        fx_ceil_units(pos) * 1000
    } else if is_grid_aligned(pos) {
        proof {
            vstd::arithmetic::div_mod::lemma_fundamental_div_mod(pos as int, 1000);
        }
        pos - 1000
    } else {
        fx_floor_units(pos) * 1000
    };
    proof {
        vstd::arithmetic::div_mod::lemma_fundamental_div_mod(pos as int, 1000);
        vstd::arithmetic::div_mod::lemma_fundamental_div_mod(-(pos as int), 1000);
        assert(-1000 <= next_frame - pos <= 1000);
        assert(sabs(next_frame - pos) * sabs(inv as int) <= 1000 * 2_001_000) by (nonlinear_arith)
            requires
                0 <= sabs(next_frame - pos) <= 1000,
                0 <= sabs(inv as int) <= 2_001_000,
        ;
    }
    let next_time = fx_mul(next_frame - pos, inv);
    proof {
        assert(sabs(next_frame - pos) * sabs(inv as int) <= 1000 * sabs(inv as int))
            by (nonlinear_arith)
            requires
                0 <= sabs(next_frame - pos) <= 1000,
                0 <= sabs(inv as int),
        ;
        vstd::arithmetic::div_mod::lemma_div_is_ordered(
            sabs(next_frame - pos) * sabs(inv as int) + 500,
            1000 * sabs(inv as int) + 500,
            1000,
        );
        vstd::arithmetic::div_mod::lemma_fundamental_div_mod_converse(
            1000 * sabs(inv as int) + 500,
            1000,
            sabs(inv as int),
            500,
        );
        assert(sabs(next_time as int) <= sabs(inv as int));
        assert(next_time >= 0) by {
            if dir >= 0 {
                assert(next_frame - pos >= 0);
                assert(inv as int >= 0);
            } else {
                assert(next_frame - pos <= 0);
                assert(inv as int <= 0);
            }
        }
    }
    (Some(next_time), Some(inv))
}

/// Largest ray-parameter magnitude a slab window can hold here.
pub const RAY_T_LIMIT: i64 = 300_000_000_000;

/// The running state of the slab test: failed, or a (possibly still
/// absent) parameter window.
struct SlabAcc {
    failed: bool,
    run: Option<(i64, i64)>,
}

impl SlabAcc {
    /// The mathematical accumulator this state stands for.
    spec fn lift(self) -> Option<Option<(int, int)>> {
        if self.failed {
            None
        } else {
            match self.run {
                None => Some(None),
                Some((t0, t1)) => Some(Some((t0 as int, t1 as int))),
            }
        }
    }

    /// A live window is ordered and bounded.
    spec fn acc_wf(self) -> bool {
        match self.run {
            Some((t0, t1)) => -RAY_T_LIMIT <= t0 <= t1 <= RAY_T_LIMIT,
            None => true,
        }
    }

    /// One axis of the slab test.
    fn step(self, base: i64, bound: i64, dir: i64) -> (r: SlabAcc)
        requires
            self.acc_wf(),
            -RAY_COORD_LIMIT <= base <= RAY_COORD_LIMIT,
            0 <= bound <= 3_000_000,
            -2000 <= dir <= 2000,
        ensures
            r.lift() == slab_step_spec(self.lift(), base as int, bound as int, dir as int),
            r.acc_wf(),
    {
        if self.failed {
            return self;
        }
        if dir == 0 {
            if 0 <= base && base <= bound {
                return self;
            } else {
                return SlabAcc { failed: true, run: self.run };
            }
        }
        let inv = fx_div(1000, dir);
        proof {
            assert(sabs(inv as int) <= 1000 * 1000 + 1000);
            lemma_fx_mul_bound(-(base as int), inv as int, 100_000_000, 1_001_000);
            lemma_fx_mul_bound(
                bound as int - base as int,
                inv as int,
                103_000_000,
                1_001_000,
            );
        }
        let t0 = fx_mul(-base, inv);
        let t1 = fx_mul(bound - base, inv);
        let rng = if t0 <= t1 {
            (t0, t1)
        } else {
            (t1, t0)
        };
        match self.run {
            None => SlabAcc { failed: false, run: Some(rng) },
            Some(origin) => {
                if rng.1 - origin.0 > 0 && origin.1 - rng.0 > 0 {
                    let lo = if origin.0 >= rng.0 {
                        origin.0
                    } else {
                        rng.0
                    };
                    let hi = if origin.1 <= rng.1 {
                        origin.1
                    } else {
                        rng.1
                    };
                    SlabAcc { failed: false, run: Some((lo, hi)) }
                } else {
                    SlabAcc { failed: true, run: self.run }
                }
            },
        }
    }
}

/// Where the ray enters the world: the start itself when already inside,
/// else the slab-test entry point, or `None` for a ray that never
/// enters. The entry coordinates stay far below the fixed-point limits.
pub fn get_origin_point(size: MapSize, position: Vec3, direction: Vec3) -> (r: Option<(Vec3, i64)>)
    requires
        position.bounded(RAY_COORD_LIMIT as int),
        direction.bounded(2000),
    ensures
        r == entry_spec(size, position, direction),
        r is Some ==> (r->0).0.bounded(700_000_000_000) && 0 <= (r->0).1 <= RAY_T_LIMIT,
{
    if is_origin_inside(size, position) {
        return Some((position, 0));
    }
    let (a0, a1, a2) = sort_axes_desc(direction.x, direction.y, direction.z);
    let acc0 = SlabAcc { failed: false, run: None };
    let acc1 = acc0.step(
        position.get_axis(a0),
        world_fx_exec(size, a0),
        direction.get_axis(a0),
    );
    let acc2 = acc1.step(
        position.get_axis(a1),
        world_fx_exec(size, a1),
        direction.get_axis(a1),
    );
    let acc3 = acc2.step(
        position.get_axis(a2),
        world_fx_exec(size, a2),
        direction.get_axis(a2),
    );
    proof {
        assert(position.get_axis_spec(a0) == position.axis(a0)) by {
            match a0 {
                Axis::X => {},
                Axis::Y => {},
                Axis::Z => {},
            }
        }
        assert(position.get_axis_spec(a1) == position.axis(a1) && direction.get_axis_spec(a1)
            == direction.axis(a1) && position.get_axis_spec(a2) == position.axis(a2)
            && direction.get_axis_spec(a2) == direction.axis(a2) && direction.get_axis_spec(a0)
            == direction.axis(a0)) by {
            match a1 {
                Axis::X => {},
                Axis::Y => {},
                Axis::Z => {},
            }
            match a2 {
                Axis::X => {},
                Axis::Y => {},
                Axis::Z => {},
            }
            match a0 {
                Axis::X => {},
                Axis::Y => {},
                Axis::Z => {},
            }
        }
    }
    if acc3.failed {
        return None;
    }
    match acc3.run {
        None => None,
        Some((tmin, tmax)) => {
            if tmin > 0 {
                proof {
                    lemma_fx_mul_bound(direction.x as int, tmin as int, 2000, RAY_T_LIMIT as int);
                    lemma_fx_mul_bound(direction.y as int, tmin as int, 2000, RAY_T_LIMIT as int);
                    lemma_fx_mul_bound(direction.z as int, tmin as int, 2000, RAY_T_LIMIT as int);
                }
                let new_position = Vec3 {
                    x: position.x + fx_mul(direction.x, tmin),
                    y: position.y + fx_mul(direction.y, tmin),
                    z: position.z + fx_mul(direction.z, tmin),
                };
                Some((new_position, tmin))
            } else {
                None
            }
        },
    }
}

/// The world's fixed-point extent on one axis.
fn world_fx_exec(size: MapSize, a: Axis) -> (r: i64)
    ensures
        r == world_fx(size, a),
        0 <= r <= 2_040_000,
{
    match a {
        Axis::X => size.w as i64 * 8000,
        Axis::Y => 64000,
        Axis::Z => size.h as i64 * 8000,
    }
}

/// A unit direction vector, or `None` for the zero vector: each component
/// divided by the vector's length.
pub open spec fn normalize_spec(d: Vec3) -> Option<Vec3> {
    let n2 = d.x * d.x + d.y * d.y + d.z * d.z;
    if n2 == 0 {
        None
    } else {
        let n = isqrt_spec(n2);
        Some(
            Vec3 {
                x: fx_div_spec(d.x as int, n) as i64,
                y: fx_div_spec(d.y as int, n) as i64,
                z: fx_div_spec(d.z as int, n) as i64,
            },
        )
    }
}

/// Normalize a direction vector; `None` when it has no length. Every
/// component of the result is at most one block long.
pub fn try_normalize(d: Vec3) -> (r: Option<Vec3>)
    requires
        d.bounded(RAY_DIR_LIMIT as int),
    ensures
        r == normalize_spec(d),
        r is Some ==> (r->0).bounded(1000),
{
    proof {
        assert(d.x * d.x <= 1_000_000_000_000 && d.y * d.y <= 1_000_000_000_000 && d.z * d.z
            <= 1_000_000_000_000 && d.x * d.x >= 0 && d.y * d.y >= 0 && d.z * d.z >= 0)
            by (nonlinear_arith)
            requires
                -1_000_000 <= d.x <= 1_000_000,
                -1_000_000 <= d.y <= 1_000_000,
                -1_000_000 <= d.z <= 1_000_000,
        ;
    }
    let n2: i64 = d.x * d.x + d.y * d.y + d.z * d.z;
    if n2 == 0 {
        return None;
    }
    let n = isqrt(n2 as u64) as i64;
    proof {
        if n == 0 {
            assert(n2 < 1);
        }
        assert(sabs(d.x as int) <= n && sabs(d.y as int) <= n && sabs(d.z as int) <= n)
            by (nonlinear_arith)
            requires
                d.x * d.x <= n2,
                d.y * d.y <= n2,
                d.z * d.z <= n2,
                n2 < (n + 1) * (n + 1),
                0 <= n,
        ;
    }
    Some(Vec3 { x: fx_div(d.x, n), y: fx_div(d.y, n), z: fx_div(d.z, n) })
}

/// The walker: visits the cells a ray crosses, in order. Construction
/// normalizes the direction and finds the world entry point; a zero
/// direction or a ray that misses the world starts exhausted.
#[derive(Debug, Clone, Copy, PartialEq, Eq)]
pub struct BlockIter {
    pub size: MapSize,
    /// The cell the walk last stood in, block units.
    pub position: Vec3,
    /// Remaining ray parameter until each axis's next grid crossing.
    pub next_offset: OptVec3,
    /// Signed per-cell parameter step of each axis.
    pub delta: OptVec3,
    /// Ray parameter traveled so far.
    pub length: i64,
    /// False once the walk has left the world (or never entered it).
    pub live: bool,
}

/// One yielded step: the cell entered, which axis was crossed in which
/// direction, and the length traveled so far.
#[derive(Debug, Clone, Copy, PartialEq, Eq)]
pub struct BlockIterResult {
    pub fine_position: UVec3,
    pub direction: (Trit, Trit, Trit),
    pub length: i64,
}

/// One axis's crossing bookkeeping is paired and bounded.
pub open spec fn wf_axis(o: Option<i64>, d: Option<i64>) -> bool {
    match (o, d) {
        (None, None) => true,
        (Some(off), Some(dd)) => 0 <= off <= 2_000_000 && 1 <= sabs(dd as int) <= 2_000_000,
        _ => false,
    }
}

impl BlockIter {
    /// A live walker keeps its bookkeeping paired and bounded.
    pub open spec fn wf(self) -> bool {
        self.live ==> {
            &&& wf_axis(self.next_offset.x, self.delta.x)
            &&& wf_axis(self.next_offset.y, self.delta.y)
            &&& wf_axis(self.next_offset.z, self.delta.z)
            &&& self.position.bounded(2_000_000_000)
            &&& 0 <= self.length <= FX_LIMIT
        }
    }

    /// A walker that yields nothing.
    pub fn exhausted(size: MapSize) -> (r: BlockIter)
        ensures
            !r.live,
            r.wf(),
            r.size == size,
    {
        BlockIter {
            size,
            position: Vec3 { x: 0, y: 0, z: 0 },
            next_offset: OptVec3 { x: None, y: None, z: None },
            delta: OptVec3 { x: None, y: None, z: None },
            length: 0,
            live: false,
        }
    }

    /// Start a walk from `start_position` along `direction`. The walker
    /// starts exhausted when the direction cannot be normalized or the
    /// ray never enters the world; when the start lies inside the world
    /// the entry length is zero.
    pub fn new(size: MapSize, start_position: Vec3, direction: Vec3) -> (r: BlockIter)
        requires
            start_position.bounded(RAY_COORD_LIMIT as int),
            direction.bounded(RAY_DIR_LIMIT as int),
        ensures
            r.wf(),
            r.size == size,
            match normalize_spec(direction) {
                None => !r.live,
                Some(dn) => match entry_spec(size, start_position, dn) {
                    None => !r.live,
                    Some((origin, len)) => {
                        &&& r.live
                        &&& r.length == len
                        &&& r.position == fine_pos_spec(origin, dn)
                        &&& (r.next_offset.x, r.delta.x) == walk_axis_spec(
                            origin.x as int,
                            dn.x as int,
                        )
                        &&& (r.next_offset.y, r.delta.y) == walk_axis_spec(
                            origin.y as int,
                            dn.y as int,
                        )
                        &&& (r.next_offset.z, r.delta.z) == walk_axis_spec(
                            origin.z as int,
                            dn.z as int,
                        )
                    },
                },
            },
    {
        let dn = match try_normalize(direction) {
            Some(dn) => dn,
            None => {
                return BlockIter::exhausted(size);
            },
        };
        match get_origin_point(size, start_position, dn) {
            Some((origin, length)) => {
                let (next_offset, delta) = get_next_offset_delta(origin, dn);
                let position = extract_fine_position(origin, dn);
                proof {
                    vstd::arithmetic::div_mod::lemma_fundamental_div_mod(origin.x as int, 1000);
                    vstd::arithmetic::div_mod::lemma_fundamental_div_mod(origin.y as int, 1000);
                    vstd::arithmetic::div_mod::lemma_fundamental_div_mod(origin.z as int, 1000);
                }
                BlockIter { size, position, next_offset, delta, length, live: true }
            },
            None => BlockIter::exhausted(size),
        }
    }
}

/// The smaller of two optional scalars (`None` is no value at all).
pub open spec fn opt_min(a: Option<i64>, b: Option<i64>) -> Option<i64> {
    match (a, b) {
        (None, _) => b,
        (_, None) => a,
        (Some(u), Some(v)) => if u <= v {
            Some(u)
        } else {
            Some(v)
        },
    }
}

/// The nearest upcoming crossing over all axes.
pub open spec fn min_offset_spec(o: OptVec3) -> Option<i64> {
    opt_min(opt_min(o.x, o.y), o.z)
}

/// Exec form of `opt_min`.
fn opt_min_exec(a: Option<i64>, b: Option<i64>) -> (r: Option<i64>)
    ensures
        r == opt_min(a, b),
{
    match (a, b) {
        (None, _) => b,
        (_, None) => a,
        (Some(u), Some(v)) => if u <= v {
            Some(u)
        } else {
            Some(v)
        },
    }
}

/// What one axis does when the walk advances by `time`: the axis crosses
/// when its remaining offset is used up (stepping the cell by the sign of
/// its delta and re-arming the full step), otherwise it just counts down.
pub open spec fn step_axis_spec(o: Option<i64>, d: Option<i64>, pos: i64, time: i64) -> (
    Option<i64>,
    int,
    Trit,
) {
    match (o, d) {
        (Some(off), Some(dd)) => {
            let nxt = off - time;
            if nxt <= 0 {
                (
                    Some(sabs(dd as int) as i64),
                    pos + if dd > 0 {
                        1int
                    } else {
                        -1int
                    },
                    if dd > 0 {
                        Trit::Pos
                    } else {
                        Trit::Neg
                    },
                )
            } else {
                (Some(nxt as i64), pos as int, Trit::Zero)
            }
        },
        _ => (o, pos as int, Trit::Zero),
    }
}

/// What `next` does to a walker and returns: nothing once exhausted;
/// otherwise advance to the nearest crossing, step every axis whose
/// offset ran out, and yield the new cell unless it lies outside the
/// world, which exhausts the walk. A walk whose accumulated length would
/// leave the fixed-point range gives up instead of overflowing; world
/// walks end long before that.
pub open spec fn next_spec(s: BlockIter) -> (BlockIter, Option<BlockIterResult>) {
    if !s.live {
        (s, None)
    } else {
        match min_offset_spec(s.next_offset) {
            None => (BlockIter { live: false, ..s }, None),
            Some(time) => if s.length + time > FX_LIMIT {
                (BlockIter { live: false, ..s }, None)
            } else {
                let (ox, px, tx) = step_axis_spec(s.next_offset.x, s.delta.x, s.position.x, time);
                let (oy, py, ty) = step_axis_spec(s.next_offset.y, s.delta.y, s.position.y, time);
                let (oz, pz, tz) = step_axis_spec(s.next_offset.z, s.delta.z, s.position.z, time);
                let s1 = BlockIter {
                    position: Vec3 { x: px as i64, y: py as i64, z: pz as i64 },
                    next_offset: OptVec3 { x: ox, y: oy, z: oz },
                    length: (s.length + time) as i64,
                    ..s
                };
                if is_position_inside_spec(s1.size, s1.position) {
                    (
                        s1,
                        Some(
                            BlockIterResult {
                                fine_position: UVec3 {
                                    x: px as u32,
                                    y: py as u32,
                                    z: pz as u32,
                                },
                                direction: (tx, ty, tz),
                                length: s1.length,
                            },
                        ),
                    )
                } else {
                    (BlockIter { live: false, ..s1 }, None)
                }
            },
        }
    }
}

/// One axis of the in-place step.
fn step_axis(o: Option<i64>, d: Option<i64>, pos: i64, time: i64) -> (r: (Option<i64>, i64, Trit))
    requires
        wf_axis(o, d),
        0 <= time <= 2_000_000,
        -2_000_000_001 <= pos <= 2_000_000_001,
    ensures
        (r.0, r.1 as int, r.2) == step_axis_spec(o, d, pos, time),
{
    match (o, d) {
        (Some(off), Some(dd)) => {
            let nxt = off - time;
            if nxt <= 0 {
                let mag = if dd < 0 {
                    -dd
                } else {
                    dd
                };
                let sig: i64 = if dd > 0 {
                    1
                } else {
                    -1
                };
                (
                    Some(mag),
                    pos + sig,
                    if dd > 0 {
                        Trit::Pos
                    } else {
                        Trit::Neg
                    },
                )
            } else {
                (Some(nxt), pos, Trit::Zero)
            }
        },
        _ => (o, pos, Trit::Zero),
    }
}

impl BlockIter {
    /// Advance to the next visited cell; `None` once the walk is over.
    pub fn next(&mut self) -> (r: Option<BlockIterResult>)
        requires
            old(self).wf(),
        ensures
            final(self).wf(),
            *final(self) == next_spec(*old(self)).0,
            r == next_spec(*old(self)).1,
    {
        if !self.live {
            return None;
        }
        let time = match opt_min_exec(opt_min_exec(self.next_offset.x, self.next_offset.y), self.next_offset.z) {
            Some(t) => t,
            None => {
                self.live = false;
                return None;
            },
        };
        proof {
            assert(0 <= time <= 2_000_000) by {
                assert(wf_axis(old(self).next_offset.x, old(self).delta.x));
                assert(wf_axis(old(self).next_offset.y, old(self).delta.y));
                assert(wf_axis(old(self).next_offset.z, old(self).delta.z));
            }
        }
        if self.length + time > FX_LIMIT {
            self.live = false;
            return None;
        }
        let (ox, px, tx) = step_axis(self.next_offset.x, self.delta.x, self.position.x, time);
        let (oy, py, ty) = step_axis(self.next_offset.y, self.delta.y, self.position.y, time);
        let (oz, pz, tz) = step_axis(self.next_offset.z, self.delta.z, self.position.z, time);
        self.position = Vec3 { x: px, y: py, z: pz };
        self.next_offset = OptVec3 { x: ox, y: oy, z: oz };
        self.length = self.length + time;
        if is_position_inside(self.size, self.position) {
            Some(
                BlockIterResult {
                    fine_position: UVec3 { x: px as u32, y: py as u32, z: pz as u32 },
                    direction: (tx, ty, tz),
                    length: self.length,
                },
            )
        } else {
            self.live = false;
            None
        }
    }
}

impl Default for BlockIter {
    /// The default walker is exhausted in an empty world.
    fn default() -> (r: Self)
        ensures
            !r.live,
            r.wf(),
    {
        BlockIter::exhausted(MapSize { w: 0, h: 0 })
    }
}

impl BlockIterResult {
    /// Which chunk and in-chunk slot the visited cell belongs to.
    pub fn get_position(self) -> (r: (ChunkPos, BlockSubPos))
        requires
            self.fine_position.x < 2048,
            self.fine_position.y < 64,
            self.fine_position.z < 2048,
        ensures
            r.0 == ChunkPos((self.fine_position.x as int / 8) as u8, (self.fine_position.z as int / 8) as u8),
            r.1.0 == sub_index(
                self.fine_position.x as int % 8,
                self.fine_position.y as int,
                self.fine_position.z as int % 8,
            ),
            r.1.wf(),
    {
        let cx = (self.fine_position.x / 8) as u8;
        let cz = (self.fine_position.z / 8) as u8;
        let bx = (self.fine_position.x % 8) as u8;
        let by = self.fine_position.y as u8;
        let bz = (self.fine_position.z % 8) as u8;
        (ChunkPos(cx, cz), BlockSubPos::new(bx, by, bz))
    }
}

/// When one axis's crossing comes strictly first, a step moves the walk
/// by exactly one cell along exactly that axis.
pub proof fn lemma_step_single_axis(s: BlockIter, a: Axis)
    requires
        s.wf(),
        s.live,
        s.next_offset.axis_spec(a) is Some,
        min_offset_spec(s.next_offset) == s.next_offset.axis_spec(a),
        forall|b: Axis|
            b != a && #[trigger] s.next_offset.axis_spec(b) is Some ==> s.next_offset.axis_spec(
                b,
            )->0 > s.next_offset.axis_spec(a)->0,
        s.length + s.next_offset.axis_spec(a)->0 <= FX_LIMIT,
    ensures
        ({
            let s1 = next_spec(s).0;
            &&& sabs(s1.position.axis(a) - s.position.axis(a)) == 1
            &&& forall|b: Axis| b != a ==> #[trigger] s1.position.axis(b) == s.position.axis(b)
        }),
{
    let time = s.next_offset.axis_spec(a)->0;
    let s1 = next_spec(s).0;
    assert(s.next_offset.axis_spec(Axis::X) == s.next_offset.x);
    assert(s.next_offset.axis_spec(Axis::Y) == s.next_offset.y);
    assert(s.next_offset.axis_spec(Axis::Z) == s.next_offset.z);
    if a != Axis::X && s.next_offset.x is Some {
        assert(s.next_offset.axis_spec(Axis::X)->0 > time);
    }
    if a != Axis::Y && s.next_offset.y is Some {
        assert(s.next_offset.axis_spec(Axis::Y)->0 > time);
    }
    if a != Axis::Z && s.next_offset.z is Some {
        assert(s.next_offset.axis_spec(Axis::Z)->0 > time);
    }
    assert forall|b: Axis| b != a implies #[trigger] s1.position.axis(b) == s.position.axis(b) by {
        match b {
            Axis::X => {},
            Axis::Y => {},
            Axis::Z => {},
        }
    }
    match a {
        Axis::X => {},
        Axis::Y => {},
        Axis::Z => {},
    }
}

} // verus!
