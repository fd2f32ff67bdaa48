//! Voxel bound aggregation on concrete overlaps, the order-independence
//! of merging, and the range round trip.

use sandbox_core::aabb::AABB;
use sandbox_core::axis::Axis;
use sandbox_core::bound3d::{AxisInterval, Bound3D};
use sandbox_core::vec3::Vec3;
use sandbox_core::voxel_bound::{is_grid_aligned, VoxelBound, VoxelBound3};

#[test]
fn grid_alignment() {
    assert!(is_grid_aligned(0));
    assert!(is_grid_aligned(4000));
    assert!(is_grid_aligned(-3000));
    assert!(!is_grid_aligned(500));
    assert!(!is_grid_aligned(-500));
}

#[test]
fn from_aabb_axis_classifies_edges() {
    // overlap of a falling footprint with the floor cell below it:
    // only the high Y endpoint sits on the grid, a wall from below
    let ov = AABB {
        position: Vec3::new(3595, 500, 3595),
        extent3d: Vec3::new(405, 500, 405),
    };
    let vy = VoxelBound::from_aabb_axis(ov, Axis::Y);
    assert_eq!(vy, VoxelBound { position: Some(1000), area: 164 });
    // on X the high endpoint (4000) is aligned too
    let vx = VoxelBound::from_aabb_axis(ov, Axis::X);
    assert_eq!(vx, VoxelBound { position: Some(4000), area: 203 });
    // both endpoints aligned is degenerate
    let both = AABB {
        position: Vec3::new(1000, 500, 3595),
        extent3d: Vec3::new(1000, 500, 405),
    };
    assert_eq!(
        VoxelBound::from_aabb_axis(both, Axis::X),
        VoxelBound { position: None, area: 0 }
    );
    // neither endpoint aligned is degenerate as well
    let neither = AABB {
        position: Vec3::new(1500, 500, 3595),
        extent3d: Vec3::new(1000, 500, 405),
    };
    assert_eq!(
        VoxelBound::from_aabb_axis(neither, Axis::X),
        VoxelBound { position: None, area: 0 }
    );
    // a sliver below the area tolerance is discarded
    let sliver = AABB {
        position: Vec3::new(3595, 500, 3595),
        extent3d: Vec3::new(405, 500, 10),
    };
    assert_eq!(
        VoxelBound::from_aabb_axis(sliver, Axis::X),
        VoxelBound { position: None, area: 0 }
    );
    let (a, b, c) = VoxelBound::from_aabb(ov);
    assert_eq!(a, vx);
    assert_eq!(b, vy);
    assert_eq!(c, VoxelBound::from_aabb_axis(ov, Axis::Z));
}

#[test]
fn merge_accumulates_and_washes_out() {
    let mut acc = VoxelBound::undetermined();
    assert_eq!(acc, VoxelBound::default());
    acc.merge(VoxelBound { position: Some(1000), area: 164 });
    assert_eq!(acc, VoxelBound { position: Some(1000), area: 164 });
    acc.merge(VoxelBound { position: Some(900), area: 164 });
    assert_eq!(acc, VoxelBound { position: Some(1000), area: 328 });
    // an undetermined right side is ignored
    acc.merge(VoxelBound { position: None, area: 0 });
    assert_eq!(acc, VoxelBound { position: Some(1000), area: 328 });
    // an equal and opposite area washes the bound out
    let mut acc2 = VoxelBound { position: Some(1000), area: 164 };
    acc2.merge(VoxelBound { position: Some(2000), area: -164 });
    assert_eq!(acc2.position, None);
    assert_eq!(acc2.area, 0);
    // negative accumulation keeps the smallest position
    let mut acc3 = VoxelBound { position: Some(2000), area: -100 };
    acc3.merge(VoxelBound { position: Some(1500), area: -50 });
    assert_eq!(acc3, VoxelBound { position: Some(1500), area: -150 });
}

#[test]
fn merge_order_does_not_matter() {
    // folding the same three bounds in any order gives one result
    let a = VoxelBound { position: Some(1000), area: 100 };
    let b = VoxelBound { position: Some(1200), area: 50 };
    let c = VoxelBound { position: Some(900), area: 30 };
    let orders: [[VoxelBound; 3]; 6] = [
        [a, b, c],
        [a, c, b],
        [b, a, c],
        [b, c, a],
        [c, a, b],
        [c, b, a],
    ];
    for order in orders.iter() {
        let mut acc = VoxelBound::default();
        acc.merge(order[0]);
        acc.merge(order[1]);
        acc.merge(order[2]);
        assert_eq!(acc, VoxelBound { position: Some(1200), area: 180 });
    }
}

#[test]
fn to_range_by_sign() {
    let up = VoxelBound { position: Some(1000), area: 164 };
    assert_eq!(up.to_range(), AxisInterval { start: Some(1000), end: None });
    let down = VoxelBound { position: Some(2000), area: -164 };
    assert_eq!(down.to_range(), AxisInterval { start: None, end: Some(2000) });
    let washed = VoxelBound { position: Some(2000), area: 3 };
    assert_eq!(washed.to_range(), AxisInterval { start: None, end: None });
    let undet = VoxelBound { position: None, area: 0 };
    assert_eq!(undet.to_range(), AxisInterval { start: None, end: None });
    assert_eq!(up.area(), 164);
}

#[test]
fn to_range_limit_round_trip() {
    // a wall from below at y = 1: points swept along Y are out of
    // bound exactly below the face
    let vb = VoxelBound { position: Some(1000), area: 164 };
    let mut b = Bound3D::no_bound();
    b.limit(Axis::Y, vb.to_range());
    assert!(b.out_of_bound(Vec3::new(0, 999, 0)));
    assert!(!b.out_of_bound(Vec3::new(0, 1000, 0)));
    assert!(!b.out_of_bound(Vec3::new(0, 5000, 0)));
    // a wall from above at y = 2: out of bound exactly beyond it
    let vb2 = VoxelBound { position: Some(2000), area: -164 };
    let mut b2 = Bound3D::no_bound();
    b2.limit(Axis::Y, vb2.to_range());
    assert!(b2.out_of_bound(Vec3::new(0, 2001, 0)));
    assert!(!b2.out_of_bound(Vec3::new(0, 2000, 0)));
    assert!(!b2.out_of_bound(Vec3::new(0, -5000, 0)));
    // a washed-out bound constrains nothing anywhere
    let vb3 = VoxelBound { position: None, area: 0 };
    let mut b3 = Bound3D::no_bound();
    b3.limit(Axis::Y, vb3.to_range());
    assert!(!b3.out_of_bound(Vec3::new(0, -999_999, 0)));
    assert!(!b3.out_of_bound(Vec3::new(0, 999_999, 0)));
}

#[test]
fn triple_merge_and_find_max_area() {
    let mut t = VoxelBound3::default();
    t.merge(VoxelBound3 {
        x: VoxelBound { position: Some(4000), area: 203 },
        y: VoxelBound { position: Some(1000), area: 164 },
        z: VoxelBound { position: None, area: 0 },
    });
    assert_eq!(t.x, VoxelBound { position: Some(4000), area: 203 });
    assert_eq!(t.z, VoxelBound { position: None, area: 0 });
    let best = t.find_max_area();
    assert_eq!(
        best,
        Some((Axis::X, AxisInterval { start: Some(4000), end: None }))
    );
    assert_eq!(VoxelBound3::default().find_max_area(), None);
    let b = t.to_bound3d();
    assert_eq!(b.x, AxisInterval { start: Some(4000), end: None });
    assert_eq!(b.y, AxisInterval { start: Some(1000), end: None });
    assert_eq!(b.z, AxisInterval { start: None, end: None });
}
