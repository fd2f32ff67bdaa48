//! The per-tick collision resolver: advance an entity one axis at a
//! time, folding every solid voxel the swept footprint overlaps into a
//! single bound, clamping the position into it, and killing the velocity
//! of any axis that hit a wall.

use vstd::prelude::*;

use crate::aabb::{lemma_cell_overlap, AABB};
use crate::axis::{sort_axes_desc, sort_axes_desc_spec, Axis, HasAxis};
use crate::block::Block;
use crate::bound3d::{AxisInterval, Bound3D};
use crate::color::Color;
use crate::fx::{fx_abs, fx_half, fx_mul_spec, lemma_fx_mul_bound, sabs, COORD_LIMIT};
use crate::vec3::Vec3;
use crate::voxel_bound::VoxelBound;
use crate::world::{cell_corner, lemma_scan_item, scan_seq, world_bound_spec, WorldMap};

verus! {

/// Largest entity coordinate, velocity component, or footprint measure
/// the resolver accepts: a thousand blocks, beyond any world edge.
pub const ENTITY_LIMIT: i64 = 1_000_000;

/// An entity's collision footprint: a square column `width` across,
/// `height` tall, anchored at its base; `head_offset` is where the
/// camera sits, carried along but not used for collisions.
#[derive(Debug, Clone, Copy, PartialEq, Eq, Structural)]
pub struct ModelStructure {
    pub width: i64,
    pub height: i64,
    pub head_offset: i64,
}

impl ModelStructure {
    /// The footprint box at a base-center position, field by field.
    pub open spec fn get_aabb_spec(self, position: Vec3) -> AABB {
        AABB {
            position: Vec3 {
                x: (position.x - self.width / 2) as i64,
                y: position.y,
                z: (position.z - self.width / 2) as i64,
            },
            extent3d: Vec3 { x: self.width, y: self.height, z: self.width },
        }
    }

    /// The footprint box centered (on X and Z) at `position`, standing on
    /// its Y.
    pub fn get_aabb(&self, position: Vec3) -> (r: AABB)
        requires
            0 <= self.width <= COORD_LIMIT,
            position.bounded(COORD_LIMIT as int),
        ensures
            r == self.get_aabb_spec(position),
    {
        let half = fx_half(self.width);
        AABB {
            position: Vec3 { x: position.x - half, y: position.y, z: position.z - half },
            extent3d: Vec3 { x: self.width, y: self.height, z: self.width },
        }
    }

    /// Footprint width and height.
    pub fn get_extent(&self) -> (r: (i64, i64))
        ensures
            r == (self.width, self.height),
    {
        (self.width, self.height)
    }
}

/// A projectile-style entity: a colored cube of half-edge `radius` with
/// no solid footprint.
#[derive(Debug, Clone, Copy, PartialEq, Eq, Structural)]
pub struct Sprite {
    pub color: Color,
    pub radius: i64,
}

impl Sprite {
    pub fn new(color: Color, radius: i64) -> (r: Sprite)
        ensures
            r == (Sprite { color, radius }),
    {
        Sprite { color, radius }
    }

    /// The sprite's padding box around a center, field by field.
    pub open spec fn into_aabb_spec(self, origin: Vec3) -> AABB {
        AABB {
            position: Vec3 {
                x: (origin.x - self.radius) as i64,
                y: (origin.y - self.radius) as i64,
                z: (origin.z - self.radius) as i64,
            },
            extent3d: Vec3 {
                x: (2 * self.radius) as i64,
                y: (2 * self.radius) as i64,
                z: (2 * self.radius) as i64,
            },
        }
    }

    /// The sprite's padding box around `position`.
    pub fn into_aabb(&self, position: Vec3) -> (r: AABB)
        requires
            0 <= self.radius <= COORD_LIMIT,
            position.bounded(COORD_LIMIT as int),
        ensures
            r == self.into_aabb_spec(position),
    {
        AABB {
            position: Vec3 {
                x: position.x - self.radius,
                y: position.y - self.radius,
                z: position.z - self.radius,
            },
            extent3d: Vec3 { x: 2 * self.radius, y: 2 * self.radius, z: 2 * self.radius },
        }
    }
}

/// The unit box of the cell whose corner a scan item names.
pub open spec fn cell_box(corner: Vec3) -> AABB {
    AABB { position: corner, extent3d: Vec3 { x: 1000i64, y: 1000i64, z: 1000i64 } }
}

/// The single voxel bound every scanned solid cell contributes on one
/// axis, folded left to right in scan order.
pub open spec fn fold_voxel_spec(items: Seq<(Vec3, Block)>, aabb: AABB, axis: Axis) -> VoxelBound
    decreases items.len(),
{
    if items.len() == 0 {
        VoxelBound { position: None, area: 0 }
    } else {
        VoxelBound::merge_spec(
            fold_voxel_spec(items.drop_last(), aabb, axis),
            VoxelBound::from_aabb_axis_spec(
                cell_box(items.last().0).intersect_spec(aabb),
                axis,
            ),
        )
    }
}

/// One axis of the sweep: advance the position on that axis alone, fold
/// the solid voxels the padded footprint overlaps into one bound, clamp
/// the candidate into the world-and-voxel bound, and zero the axis's
/// velocity when the clamp moved it.
pub open spec fn resolve_axis_spec(
    m: WorldMap,
    map_bound: Bound3D,
    cached: Bound3D,
    position: Vec3,
    velocity: Vec3,
    st: ModelStructure,
    axis: Axis,
) -> (Vec3, Vec3, Bound3D) {
    let next_pos = position.with_axis_spec(
        axis,
        (position.axis(axis) + velocity.axis(axis)) as i64,
    );
    let aabb = st.get_aabb_spec(next_pos).expanded_spec(Vec3 { x: 10i64, y: 0i64, z: 10i64 });
    let vb = fold_voxel_spec(scan_seq(m, aabb.iter_pos_seq()), aabb, axis);
    let bound = map_bound.limit_spec(axis, vb.to_range_spec()).shrink_spec(
        st.width as int,
        st.height as int,
    );
    let cached1 = cached.intersect_spec(bound);
    let pos1 = bound.apply_spec(next_pos);
    let vel1 = if pos1.axis(axis) != next_pos.axis(axis) {
        velocity.with_axis_spec(axis, 0i64)
    } else {
        velocity
    };
    (pos1, vel1, cached1)
}

/// Fold every solid cell the box overlaps into one voxel bound for the
/// given axis. The accumulated face sits inside the box and ahead of the
/// world's low edge, and the area stays far from overflowing.
#[verifier::rlimit(80)]
fn scan_voxel_bound(map: &WorldMap, aabb: AABB, axis: Axis) -> (r: VoxelBound)
    requires
        map.wf(),
        aabb.valid_spec(),
        aabb.bounded(16_000_000),
    ensures
        r == fold_voxel_spec(scan_seq(*map, aabb.iter_pos_seq()), aabb, axis),
        r.position is Some ==> 0 <= r.position->0 <= aabb.max_spec(axis),
        sabs(r.area as int) <= 40_000_000_000_000_000,
{
    let ghost items = scan_seq(*map, aabb.iter_pos_seq());
    let ghost amax = aabb.max_spec(axis);
    let scan = map.scan_aabb(aabb);
    proof {
        // how many cells the box can cover, hence how much area can pile up
        let nx = aabb.cell_count(Axis::X);
        let ny = aabb.cell_count(Axis::Y);
        let nz = aabb.cell_count(Axis::Z);
        assert forall|a: Axis| #[trigger] aabb.hi_cell(a) <= 33000 by {
            vstd::arithmetic::div_mod::lemma_div_is_ordered(
                -33_000_000,
                -aabb.max_spec(a),
                1000,
            );
            match a {
                Axis::X => {},
                Axis::Y => {},
                Axis::Z => {},
            }
        }
        assert(nx <= 33000 && ny <= 33000 && nz <= 33000 && nx >= 0 && ny >= 0 && nz >= 0);
        assert(nx * ny * nz <= 35_937_000_000_000) by (nonlinear_arith)
            requires
                0 <= nx <= 33000,
                0 <= ny <= 33000,
                0 <= nz <= 33000,
        ;
        assert(items.len() <= 35_937_000_000_000);
    }
    let mut vb = VoxelBound { position: None, area: 0 };
    let mut i: usize = 0;
    while i < scan.len()
        invariant
            map.wf(),
            aabb.valid_spec(),
            aabb.bounded(16_000_000),
            amax == aabb.max_spec(axis),
            scan@ == items,
            items == scan_seq(*map, aabb.iter_pos_seq()),
            items.len() <= 35_937_000_000_000,
            i <= items.len(),
            vb == fold_voxel_spec(items.take(i as int), aabb, axis),
            sabs(vb.area as int) <= 1000 * i,
            vb.position is Some ==> 0 <= vb.position->0 <= amax,
        decreases items.len() - i,
    {
        let (target, _blk) = scan[i];
        proof {
            lemma_scan_item(*map, aabb.iter_pos_seq(), i as int);
            let j = choose|j: int|
                0 <= j < aabb.iter_pos_seq().len() && items[i as int].0 == cell_corner(
                    #[trigger] aabb.iter_pos_seq()[j],
                );
            lemma_cell_overlap(aabb, j);
            let p = aabb.iter_pos_seq()[j];
            assert(target == cell_corner(p));
            let cellb = AABB {
                position: Vec3 {
                    x: (p.x * 1000) as i64,
                    y: (p.y * 1000) as i64,
                    z: (p.z * 1000) as i64,
                },
                extent3d: Vec3 { x: 1000i64, y: 1000i64, z: 1000i64 },
            };
            let ovg = cellb.intersect_spec(aabb);
            assert(0 <= ovg.extent3d.axis(Axis::X) <= 1000);
            assert(0 <= ovg.extent3d.axis(Axis::Y) <= 1000);
            assert(0 <= ovg.extent3d.axis(Axis::Z) <= 1000);
            assert(0 <= p.axis(Axis::X) * 1000 < aabb.max_spec(Axis::X));
            assert(0 <= p.axis(Axis::Y) * 1000 < aabb.max_spec(Axis::Y));
            assert(0 <= p.axis(Axis::Z) * 1000 < aabb.max_spec(Axis::Z));
            assert(target.bounded(COORD_LIMIT as int));
        }
        let fb = AABB::from_block_pos(target);
        let overlapped = fb.intersect(aabb);
        proof {
            let j = choose|j: int|
                0 <= j < aabb.iter_pos_seq().len() && items[i as int].0 == cell_corner(
                    #[trigger] aabb.iter_pos_seq()[j],
                );
            let p = aabb.iter_pos_seq()[j];
            assert(fb == cell_box(target));
            assert(overlapped == (AABB {
                position: Vec3 {
                    x: (p.x * 1000) as i64,
                    y: (p.y * 1000) as i64,
                    z: (p.z * 1000) as i64,
                },
                extent3d: Vec3 { x: 1000i64, y: 1000i64, z: 1000i64 },
            }).intersect_spec(aabb));
            assert(0 <= overlapped.extent3d.axis(Axis::X) <= 1000);
            assert(0 <= overlapped.extent3d.axis(Axis::Y) <= 1000);
            assert(0 <= overlapped.extent3d.axis(Axis::Z) <= 1000);
            assert(overlapped.bounded(COORD_LIMIT as int)) by {
                assert(0 <= overlapped.min_spec(Axis::X) <= aabb.max_spec(Axis::X));
                assert(0 <= overlapped.min_spec(Axis::Y) <= aabb.max_spec(Axis::Y));
                assert(0 <= overlapped.min_spec(Axis::Z) <= aabb.max_spec(Axis::Z));
            }
        }
        let item_vb = VoxelBound::from_aabb_axis(overlapped, axis);
        proof {
            // the item's area is at most one block face, its face position
            // inside the box
            let (rb, rc) = axis.rest_spec();
            lemma_fx_mul_bound(
                sabs(overlapped.extent3d.axis(rb)),
                sabs(overlapped.extent3d.axis(rc)),
                1000,
                1000,
            );
            assert(sabs(overlapped.extent3d.axis(rb)) <= 1000 && sabs(
                overlapped.extent3d.axis(rc),
            ) <= 1000) by {
                match axis {
                    Axis::X => {},
                    Axis::Y => {},
                    Axis::Z => {},
                }
            }
            assert(sabs(item_vb.area as int) <= 1000);
            assert(item_vb.position is Some ==> 0 <= item_vb.position->0 <= amax) by {
                assert(0 <= overlapped.min_spec(axis) <= aabb.max_spec(axis) && 0
                    <= overlapped.max_spec(axis) <= aabb.max_spec(axis)) by {
                    match axis {
                        Axis::X => {},
                        Axis::Y => {},
                        Axis::Z => {},
                    }
                }
            }
            assert(items.take(i + 1).drop_last() =~= items.take(i as int));
            assert(items.take(i + 1).last() == items[i as int]);
        }
        vb.merge(item_vb);
        i = i + 1;
    }
    proof {
        assert(items.take(items.len() as int) =~= items);
    }
    vb
}

/// One axis of the sweep (see `resolve_axis_spec`). The result's position
/// never strays more than the velocity plus a few blocks from the input.
/// A clamp never lands farther out than the value or the interval's
/// sides.
proof fn lemma_clamp_axis(bd: Bound3D, b: Axis, x: int, m: int)
    requires
        bd.interval_spec(b).start is Some ==> sabs(bd.interval_spec(b).start->0 as int) <= m,
        bd.interval_spec(b).end is Some ==> sabs(bd.interval_spec(b).end->0 as int) <= m,
        0 <= m,
    ensures
        sabs(bd.clamp_spec(b, x)) <= sabs(x) + m,
{
}

/// Clamping into the world-and-voxel bound keeps each component within
/// the candidate plus a fixed slack: the world bound's sides are small,
/// and a voxel face never sits past the swept box.
proof fn lemma_clamp_growth(
    map_bound: Bound3D,
    rng: AxisInterval,
    w: int,
    h: int,
    axis: Axis,
    next: Vec3,
    p: Vec3,
    v: Vec3,
    amax: int,
)
    requires
        map_bound.bounded(3_000_000),
        next.bounded(20_000_000),
        rng.start is Some ==> 0 <= rng.start->0 <= amax,
        rng.end is Some ==> 0 <= rng.end->0 <= amax,
        amax <= sabs(next.axis(axis)) + 1_100_000,
        0 <= w <= 1_000_000,
        0 <= h <= 1_000_000,
        forall|b: Axis| sabs(#[trigger] next.axis(b)) <= sabs(p.axis(b)) + sabs(v.axis(b)),
    ensures
        forall|b: Axis|
            sabs(
                #[trigger] map_bound.limit_spec(axis, rng).shrink_spec(w, h).apply_spec(
                    next,
                ).axis(b),
            ) <= sabs(p.axis(b)) + sabs(v.axis(b)) + 4_000_000,
{
    let bound = map_bound.limit_spec(axis, rng).shrink_spec(w, h);
    assert forall|b: Axis|
        sabs(#[trigger] bound.apply_spec(next).axis(b)) <= sabs(p.axis(b)) + sabs(v.axis(b))
            + 4_000_000 by {
        assert(sabs(next.axis(b)) <= sabs(p.axis(b)) + sabs(v.axis(b)));
        assert(sabs(next.axis(axis)) <= sabs(p.axis(axis)) + sabs(v.axis(axis)));
        let mb = map_bound.interval_spec(b);
        assert((mb.start is Some ==> -3_000_000 <= mb.start->0 <= 3_000_000) && (mb.end is Some
            ==> -3_000_000 <= mb.end->0 <= 3_000_000));
        let ma = map_bound.interval_spec(axis);
        assert((ma.start is Some ==> -3_000_000 <= ma.start->0 <= 3_000_000) && (ma.end is Some
            ==> -3_000_000 <= ma.end->0 <= 3_000_000));
        let m: int = sabs(next.axis(axis)) + 4_000_000;
        assert(bound.interval_spec(b).start is Some ==> sabs(
            bound.interval_spec(b).start->0 as int,
        ) <= m) by {
            match b {
                Axis::X => {
                    match axis {
                        Axis::X => {},
                        Axis::Y => {},
                        Axis::Z => {},
                    }
                },
                Axis::Y => {
                    match axis {
                        Axis::X => {},
                        Axis::Y => {},
                        Axis::Z => {},
                    }
                },
                Axis::Z => {
                    match axis {
                        Axis::X => {},
                        Axis::Y => {},
                        Axis::Z => {},
                    }
                },
            }
        }
        assert(bound.interval_spec(b).end is Some ==> sabs(bound.interval_spec(b).end->0 as int)
            <= m) by {
            match b {
                Axis::X => {
                    match axis {
                        Axis::X => {},
                        Axis::Y => {},
                        Axis::Z => {},
                    }
                },
                Axis::Y => {
                    match axis {
                        Axis::X => {},
                        Axis::Y => {},
                        Axis::Z => {},
                    }
                },
                Axis::Z => {
                    match axis {
                        Axis::X => {},
                        Axis::Y => {},
                        Axis::Z => {},
                    }
                },
            }
        }
        lemma_clamp_axis(bound, b, next.axis(b), m);
        assert(bound.apply_spec(next).axis(b) == bound.clamp_spec(b, next.axis(b))) by {
            match b {
                Axis::X => {},
                Axis::Y => {},
                Axis::Z => {},
            }
        }
        if b == axis {
            // the clamp lands on the candidate or on a side, and the
            // sides stay within the candidate plus the slack
            assert(sabs(bound.clamp_spec(b, next.axis(b))) <= sabs(p.axis(b)) + sabs(v.axis(b))
                + 4_000_000);
        } else {
            // on an untouched axis the sides come from the world bound
            // alone, so the clamp stays within four blocks of the world
            let mo: int = 4_000_000;
            assert(bound.interval_spec(b).start is Some ==> sabs(
                bound.interval_spec(b).start->0 as int,
            ) <= mo) by {
                match b {
                    Axis::X => {
                        match axis {
                            Axis::X => {},
                            Axis::Y => {},
                            Axis::Z => {},
                        }
                    },
                    Axis::Y => {
                        match axis {
                            Axis::X => {},
                            Axis::Y => {},
                            Axis::Z => {},
                        }
                    },
                    Axis::Z => {
                        match axis {
                            Axis::X => {},
                            Axis::Y => {},
                            Axis::Z => {},
                        }
                    },
                }
            }
            assert(bound.interval_spec(b).end is Some ==> sabs(
                bound.interval_spec(b).end->0 as int,
            ) <= mo) by {
                match b {
                    Axis::X => {
                        match axis {
                            Axis::X => {},
                            Axis::Y => {},
                            Axis::Z => {},
                        }
                    },
                    Axis::Y => {
                        match axis {
                            Axis::X => {},
                            Axis::Y => {},
                            Axis::Z => {},
                        }
                    },
                    Axis::Z => {
                        match axis {
                            Axis::X => {},
                            Axis::Y => {},
                            Axis::Z => {},
                        }
                    },
                }
            }
            lemma_clamp_axis(bound, b, next.axis(b), mo);
        }
    }
}

#[verifier::rlimit(100)]
#[verifier::spinoff_prover]
pub fn resolve_axis(
    map: &WorldMap,
    map_bound: Bound3D,
    cached: Bound3D,
    position: Vec3,
    velocity: Vec3,
    structure: ModelStructure,
    axis: Axis,
) -> (r: (Vec3, Vec3, Bound3D))
    requires
        map.wf(),
        position.bounded(12_000_000),
        velocity.bounded(ENTITY_LIMIT as int),
        0 <= structure.width <= ENTITY_LIMIT,
        0 <= structure.height <= ENTITY_LIMIT,
        map_bound.bounded(3_000_000),
    ensures
        r == resolve_axis_spec(*map, map_bound, cached, position, velocity, structure, axis),
        forall|b: Axis|
            sabs(#[trigger] r.0.axis(b)) <= sabs(position.axis(b)) + sabs(velocity.axis(b))
                + 4_000_000,
{
    let vel_axis = velocity.get_axis(axis);
    proof {
        assert(velocity.get_axis_spec(axis) == velocity.axis(axis) && position.get_axis_spec(axis)
            == position.axis(axis)) by {
            match axis {
                Axis::X => {},
                Axis::Y => {},
                Axis::Z => {},
            }
        }
    }
    let next_pos = position.with_axis(axis, position.get_axis(axis) + vel_axis);
    proof {
        assert(next_pos.bounded(13_000_000)) by {
            assert(next_pos.axis(Axis::X) == next_pos.x && next_pos.axis(Axis::Y) == next_pos.y
                && next_pos.axis(Axis::Z) == next_pos.z);
            match axis {
                Axis::X => {},
                Axis::Y => {},
                Axis::Z => {},
            }
        }
    }
    let pad = Vec3 { x: 10, y: 0, z: 10 };
    proof {
        assert(forall|a: Axis| #[trigger] pad.axis(a) >= 0) by {
            assert(pad.axis(Axis::X) == 10 && pad.axis(Axis::Y) == 0 && pad.axis(Axis::Z) == 10);
        }
    }
    let aabb = structure.get_aabb(next_pos).expanded(pad);
    proof {
        assert(aabb.bounded(16_000_000));
        assert(aabb.valid_spec()) by {
            assert forall|a: Axis| #[trigger] aabb.extent3d.axis(a) >= 0 by {
                match a {
                    Axis::X => {},
                    Axis::Y => {},
                    Axis::Z => {},
                }
            }
        }
    }
    let vb = scan_voxel_bound(map, aabb, axis);
    let mut bound = map_bound;
    bound.limit(axis, vb.to_range());
    proof {
        assert(bound.bounded(33_000_000)) by {
            assert forall|a: Axis|
                {
                    let iv = #[trigger] bound.interval_spec(a);
                    &&& (iv.start is Some ==> -33_000_000 <= iv.start->0 <= 33_000_000)
                    &&& (iv.end is Some ==> -33_000_000 <= iv.end->0 <= 33_000_000)
                } by {
                assert(map_bound.interval_spec(a) == map_bound.interval_spec(a));
                match a {
                    Axis::X => {},
                    Axis::Y => {},
                    Axis::Z => {},
                }
            }
        }
    }
    let bound = bound.shrink_by(structure.width, structure.height);
    let cached1 = cached.intersect(bound);
    let pos1 = bound.apply(next_pos);
    let changed = {
        let a = pos1.get_axis(axis);
        let b = next_pos.get_axis(axis);
        proof {
            assert(pos1.get_axis_spec(axis) == pos1.axis(axis) && next_pos.get_axis_spec(axis)
                == next_pos.axis(axis)) by {
                match axis {
                    Axis::X => {},
                    Axis::Y => {},
                    Axis::Z => {},
                }
            }
        }
        a != b
    };
    let vel1 = if changed {
        velocity.with_axis(axis, 0)
    } else {
        velocity
    };
    proof {
        assert(vb.to_range_spec().start is Some ==> 0 <= vb.to_range_spec().start->0
            <= aabb.max_spec(axis));
        assert(vb.to_range_spec().end is Some ==> 0 <= vb.to_range_spec().end->0 <= aabb.max_spec(
            axis,
        ));
        assert(aabb.max_spec(axis) <= sabs(next_pos.axis(axis)) + 1_100_000) by {
            match axis {
                Axis::X => {},
                Axis::Y => {},
                Axis::Z => {},
            }
        }
        assert(forall|b: Axis|
            sabs(#[trigger] next_pos.axis(b)) <= sabs(position.axis(b)) + sabs(
                velocity.axis(b),
            )) by {
            assert(sabs(next_pos.axis(Axis::X)) <= sabs(position.axis(Axis::X)) + sabs(
                velocity.axis(Axis::X),
            ) && sabs(next_pos.axis(Axis::Y)) <= sabs(position.axis(Axis::Y)) + sabs(
                velocity.axis(Axis::Y),
            ) && sabs(next_pos.axis(Axis::Z)) <= sabs(position.axis(Axis::Z)) + sabs(
                velocity.axis(Axis::Z),
            )) by {
                match axis {
                    Axis::X => {},
                    Axis::Y => {},
                    Axis::Z => {},
                }
            }
        }
        lemma_clamp_growth(
            map_bound,
            vb.to_range_spec(),
            structure.width as int,
            structure.height as int,
            axis,
            next_pos,
            position,
            velocity,
            aabb.max_spec(axis),
        );
        assert(pos1 == map_bound.limit_spec(axis, vb.to_range_spec()).shrink_spec(
            structure.width as int,
            structure.height as int,
        ).apply_spec(next_pos));
    }
    (pos1, vel1, cached1)
}

/// The whole per-tick sweep: the axes ordered by descending speed, each
/// resolved in turn against a fresh world bound, accumulating the
/// entity's cached bound from nothing.
pub open spec fn map_collision_spec(
    m: WorldMap,
    position: Vec3,
    velocity: Vec3,
    st: ModelStructure,
) -> (Vec3, Vec3, Bound3D) {
    let map_bound = world_bound_spec(m.size_spec());
    let no_bound = Bound3D {
        x: AxisInterval { start: None, end: None },
        y: AxisInterval { start: None, end: None },
        z: AxisInterval { start: None, end: None },
    };
    let (a0, a1, a2) = sort_axes_desc_spec(
        sabs(velocity.x as int),
        sabs(velocity.y as int),
        sabs(velocity.z as int),
    );
    let s0 = resolve_axis_spec(m, map_bound, no_bound, position, velocity, st, a0);
    let s1 = resolve_axis_spec(m, map_bound, s0.2, s0.0, s0.1, st, a1);
    resolve_axis_spec(m, map_bound, s1.2, s1.0, s1.1, st, a2)
}

/// Advance one entity one physics tick through the world: returns the
/// corrected position, the velocity with collided axes zeroed, and the
/// bound the entity was clamped into (cached for interpolation).
pub fn map_collision_detection(
    map: &WorldMap,
    position: Vec3,
    velocity: Vec3,
    structure: ModelStructure,
) -> (r: (Vec3, Vec3, Bound3D))
    requires
        map.wf(),
        position.bounded(ENTITY_LIMIT as int),
        velocity.bounded(ENTITY_LIMIT as int),
        0 <= structure.width <= ENTITY_LIMIT,
        0 <= structure.height <= ENTITY_LIMIT,
    ensures
        r == map_collision_spec(*map, position, velocity, structure),
{
    let map_bound = Bound3D::from_world(&map.size());
    let no_bound = Bound3D::no_bound();
    proof {
        assert(map_bound.bounded(3_000_000)) by {
            assert forall|a: Axis|
                {
                    let iv = #[trigger] map_bound.interval_spec(a);
                    &&& (iv.start is Some ==> -3_000_000 <= iv.start->0 <= 3_000_000)
                    &&& (iv.end is Some ==> -3_000_000 <= iv.end->0 <= 3_000_000)
                } by {
                match a {
                    Axis::X => {},
                    Axis::Y => {},
                    Axis::Z => {},
                }
            }
        }
        assert(no_bound == (Bound3D {
            x: AxisInterval { start: None::<i64>, end: None::<i64> },
            y: AxisInterval { start: None::<i64>, end: None::<i64> },
            z: AxisInterval { start: None::<i64>, end: None::<i64> },
        })) by {
            assert(no_bound.interval_spec(Axis::X) == no_bound.x);
            assert(no_bound.interval_spec(Axis::Y) == no_bound.y);
            assert(no_bound.interval_spec(Axis::Z) == no_bound.z);
        }
    }
    let (a0, a1, a2) = sort_axes_desc(
        fx_abs(velocity.x),
        fx_abs(velocity.y),
        fx_abs(velocity.z),
    );
    let (p0, v0, c0) = resolve_axis(map, map_bound, no_bound, position, velocity, structure, a0);
    proof {
        lemma_vec_growth(position, velocity, p0, 1_000_000);
        lemma_vel_keeps_bound(velocity, v0, a0);
    }
    let (p1, v1, c1) = resolve_axis(map, map_bound, c0, p0, v0, structure, a1);
    proof {
        lemma_vec_growth(p0, v0, p1, 6_000_000);
        lemma_vel_keeps_bound(v0, v1, a1);
    }
    let (p2, v2, c2) = resolve_axis(map, map_bound, c1, p1, v1, structure, a2);
    (p2, v2, c2)
}

/// A clamped position stays within the old position plus the velocity
/// plus the resolver's slack, component by component.
proof fn lemma_vec_growth(p: Vec3, v: Vec3, r: Vec3, pb: int)
    requires
        forall|b: Axis|
            sabs(#[trigger] r.axis(b)) <= sabs(p.axis(b)) + sabs(v.axis(b)) + 4_000_000,
        p.bounded(pb),
        v.bounded(1_000_000),
        0 <= pb,
    ensures
        r.bounded(pb + 5_000_000),
{
    assert(sabs(r.axis(Axis::X)) <= sabs(p.axis(Axis::X)) + sabs(v.axis(Axis::X)) + 4_000_000);
    assert(sabs(r.axis(Axis::Y)) <= sabs(p.axis(Axis::Y)) + sabs(v.axis(Axis::Y)) + 4_000_000);
    assert(sabs(r.axis(Axis::Z)) <= sabs(p.axis(Axis::Z)) + sabs(v.axis(Axis::Z)) + 4_000_000);
    assert(r.axis(Axis::X) == r.x && r.axis(Axis::Y) == r.y && r.axis(Axis::Z) == r.z);
    assert(p.axis(Axis::X) == p.x && p.axis(Axis::Y) == p.y && p.axis(Axis::Z) == p.z);
    assert(v.axis(Axis::X) == v.x && v.axis(Axis::Y) == v.y && v.axis(Axis::Z) == v.z);
}

/// Zeroing one axis of a bounded velocity leaves it bounded.
proof fn lemma_vel_keeps_bound(v: Vec3, v1: Vec3, a: Axis)
    requires
        v.bounded(1_000_000),
        v1 == v || v1 == v.with_axis_spec(a, 0i64),
    ensures
        v1.bounded(1_000_000),
{
    match a {
        Axis::X => {},
        Axis::Y => {},
        Axis::Z => {},
    }
}

/// What a physics tick does to a projectile sprite: step the whole
/// velocity at once; leaving the world or touching any solid voxel
/// destroys it (`None`), otherwise the position commits.
pub open spec fn sprite_step_spec(m: WorldMap, position: Vec3, velocity: Vec3, sprite: Sprite) -> Option<
    Vec3,
> {
    let next = Vec3 {
        x: (position.x + velocity.x) as i64,
        y: (position.y + velocity.y) as i64,
        z: (position.z + velocity.z) as i64,
    };
    let map_bound = world_bound_spec(m.size_spec());
    if map_bound.out_axis_spec(Axis::X, next.x as int) || map_bound.out_axis_spec(
        Axis::Y,
        next.y as int,
    ) || map_bound.out_axis_spec(Axis::Z, next.z as int) {
        None
    } else {
        let aabb = sprite.into_aabb_spec(next);
        if scan_seq(m, aabb.iter_pos_seq()).len() > 0 {
            None
        } else {
            Some(next)
        }
    }
}

/// Advance a projectile sprite one tick; `None` means it must despawn.
pub fn sprite_step(map: &WorldMap, position: Vec3, velocity: Vec3, sprite: Sprite) -> (r: Option<
    Vec3,
>)
    requires
        map.wf(),
        position.bounded(ENTITY_LIMIT as int),
        velocity.bounded(ENTITY_LIMIT as int),
        0 <= sprite.radius <= ENTITY_LIMIT,
    ensures
        r == sprite_step_spec(*map, position, velocity, sprite),
{
    let next = position.add(velocity);
    let map_bound = Bound3D::from_world(&map.size());
    if map_bound.out_of_bound(next) {
        proof {
            let a = choose|a: Axis|
                map_bound.below_spec(a, next.axis(a)) || map_bound.above_spec(a, next.axis(a));
            assert(map_bound.out_axis_spec(a, next.axis(a)));
            match a {
                Axis::X => {},
                Axis::Y => {},
                Axis::Z => {},
            }
        }
        return None;
    }
    proof {
        assert(!map_bound.out_axis_spec(Axis::X, next.x as int) && !map_bound.out_axis_spec(
            Axis::Y,
            next.y as int,
        ) && !map_bound.out_axis_spec(Axis::Z, next.z as int)) by {
            assert(next.axis(Axis::X) == next.x && next.axis(Axis::Y) == next.y && next.axis(
                Axis::Z,
            ) == next.z);
        }
    }
    let aabb = sprite.into_aabb(next);
    let hits = map.scan_aabb(aabb);
    if hits.len() > 0 {
        None
    } else {
        Some(next)
    }
}

/// The position shown between physics ticks: the physical position plus
/// the velocity scaled by how much of the tick has elapsed (in
/// thousandths), clamped into the entity's cached bound.
pub open spec fn interpolate_spec(bound: Bound3D, physical: Vec3, velocity: Vec3, percent: i64) -> Vec3 {
    bound.apply_spec(
        Vec3 {
            x: (physical.x + fx_mul_spec(velocity.x as int, percent as int)) as i64,
            y: (physical.y + fx_mul_spec(velocity.y as int, percent as int)) as i64,
            z: (physical.z + fx_mul_spec(velocity.z as int, percent as int)) as i64,
        },
    )
}

/// The smoothly interpolated position an observer sees between ticks.
pub fn interpolate_position(bound: &Bound3D, physical: Vec3, velocity: Vec3, percent: i64) -> (r:
    Vec3)
    requires
        physical.bounded(ENTITY_LIMIT as int),
        velocity.bounded(ENTITY_LIMIT as int),
        0 <= percent <= 1000,
    ensures
        r == interpolate_spec(*bound, physical, velocity, percent),
{
    proof {
        lemma_fx_mul_bound(velocity.x as int, percent as int, ENTITY_LIMIT as int, 1000);
        lemma_fx_mul_bound(velocity.y as int, percent as int, ENTITY_LIMIT as int, 1000);
        lemma_fx_mul_bound(velocity.z as int, percent as int, ENTITY_LIMIT as int, 1000);
    }
    let step = velocity.scale(percent);
    bound.apply(physical.add(step))
}

/// One tick of gravity: velocity falls by a hundredth of a block per
/// tick.
pub fn apply_gravity(velocity: Vec3) -> (r: Vec3)
    requires
        velocity.bounded(ENTITY_LIMIT as int),
    ensures
        r == (Vec3 { x: velocity.x, y: (velocity.y - 10) as i64, z: velocity.z }),
{
    Vec3 { x: velocity.x, y: velocity.y - 10, z: velocity.z }
}

/// A tick that falls onto a wall from below lands exactly on it: when
/// the folded voxel bound of the Y sweep is a wall from below at `f`,
/// the world bound leaves room above it, and the candidate position
/// falls short of `f`, the resolved Y position is exactly `f`, the Y
/// velocity is zeroed, and the other axes' velocities are untouched.
pub proof fn lemma_wall_stops_fall(
    m: WorldMap,
    map_bound: Bound3D,
    cached: Bound3D,
    position: Vec3,
    velocity: Vec3,
    st: ModelStructure,
    f: i64,
)
    requires
        ({
            let next_pos = position.with_axis_spec(
                Axis::Y,
                (position.axis(Axis::Y) + velocity.axis(Axis::Y)) as i64,
            );
            let aabb = st.get_aabb_spec(next_pos).expanded_spec(
                Vec3 { x: 10i64, y: 0i64, z: 10i64 },
            );
            fold_voxel_spec(scan_seq(m, aabb.iter_pos_seq()), aabb, Axis::Y).to_range_spec() == (
            AxisInterval { start: Some(f), end: None })
        }),
        map_bound.y.start is Some && map_bound.y.start->0 <= f,
        map_bound.y.end is Some && f < map_bound.y.end->0 - st.height,
        0 <= st.height,
        position.y + velocity.y < f,
        -1_000_000_000 <= position.y + velocity.y,
    ensures
        ({
            let r = resolve_axis_spec(m, map_bound, cached, position, velocity, st, Axis::Y);
            &&& r.0.y == f
            &&& r.1.y == 0
            &&& r.1.x == velocity.x
            &&& r.1.z == velocity.z
        }),
{
    let next_pos = position.with_axis_spec(
        Axis::Y,
        (position.axis(Axis::Y) + velocity.axis(Axis::Y)) as i64,
    );
    let aabb = st.get_aabb_spec(next_pos).expanded_spec(Vec3 { x: 10i64, y: 0i64, z: 10i64 });
    let vb = fold_voxel_spec(scan_seq(m, aabb.iter_pos_seq()), aabb, Axis::Y);
    let bound = map_bound.limit_spec(Axis::Y, vb.to_range_spec()).shrink_spec(
        st.width as int,
        st.height as int,
    );
    assert(bound.y.start == Some(f));
    assert(bound.y.end == Some((map_bound.y.end->0 - st.height) as i64));
    assert(next_pos.y == position.y + velocity.y);
    assert(bound.clamp_spec(Axis::Y, next_pos.y as int) == f);
    let r = resolve_axis_spec(m, map_bound, cached, position, velocity, st, Axis::Y);
    assert(r.0.y == f);
    assert(r.0.axis(Axis::Y) != next_pos.axis(Axis::Y));
}

} // verus!
