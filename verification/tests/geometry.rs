//! Axis, box and bound geometry on concrete values. Coordinates are in
//! thousandths of a block.

use sandbox_core::aabb::AABB;
use sandbox_core::axis::{sort_axes_desc, Axis, HasAxis, HasAxisMut};
use sandbox_core::bound3d::{AxisInterval, Bound3D};
use sandbox_core::color::{green, red, Color};
use sandbox_core::direction::Direction;
use sandbox_core::fx::{fx_abs, fx_ceil_units, fx_div, fx_floor_units, fx_half, fx_mul, isqrt};
use sandbox_core::trit::Trit;
use sandbox_core::vec3::{UVec3, Vec3};

#[test]
fn axis_rest_and_sort() {
    assert_eq!(Axis::X.rest(), (Axis::Y, Axis::Z));
    assert_eq!(Axis::Y.rest(), (Axis::X, Axis::Z));
    assert_eq!(Axis::Z.rest(), (Axis::X, Axis::Y));
    // descending, ties keep enumeration order
    assert_eq!(sort_axes_desc(3, 2, 1), (Axis::X, Axis::Y, Axis::Z));
    assert_eq!(sort_axes_desc(1, 2, 3), (Axis::Z, Axis::Y, Axis::X));
    assert_eq!(sort_axes_desc(5, 5, 5), (Axis::X, Axis::Y, Axis::Z));
    assert_eq!(sort_axes_desc(0, 500, 0), (Axis::Y, Axis::X, Axis::Z));
}

#[test]
fn direction_from_axis() {
    assert_eq!(Direction::from_axis(Axis::X, true), Direction::East);
    assert_eq!(Direction::from_axis(Axis::X, false), Direction::West);
    assert_eq!(Direction::from_axis(Axis::Y, true), Direction::Up);
    assert_eq!(Direction::from_axis(Axis::Y, false), Direction::Down);
    assert_eq!(Direction::from_axis(Axis::Z, true), Direction::South);
    assert_eq!(Direction::from_axis(Axis::Z, false), Direction::North);
    assert_eq!(Direction::North.offset(), (0, 0, 1));
    assert_eq!(Direction::East.offset(), (-1, 0, 0));
}

#[test]
fn trit_conversions() {
    assert_eq!(Trit::from_bool(true), Trit::Pos);
    assert_eq!(Trit::from_bool(false), Trit::Neg);
    assert_eq!(Trit::Pos.as_option_bool(), Some(true));
    assert_eq!(Trit::Zero.as_option_bool(), None);
    assert_eq!(Trit::Neg.as_option_bool(), Some(false));
    assert_eq!(Trit::default(), Trit::Zero);
    assert_eq!(Trit::Neg.symbol(), "T");
}

#[test]
fn color_palette() {
    assert_eq!(green(), Color(0, 255, 0));
    assert_eq!(red(), Color(255, 0, 0));
    assert_eq!(Color::new(1, 2, 3), Color(1, 2, 3));
}

#[test]
fn fixed_point_ops() {
    assert_eq!(fx_mul(2000, 3000), 6000);
    assert_eq!(fx_mul(-2000, 3000), -6000);
    assert_eq!(fx_mul(577, 1733), 1000); // rounds half away from zero
    assert_eq!(fx_div(1000, 577), 1733);
    assert_eq!(fx_div(1000, -1000), -1000);
    assert_eq!(fx_floor_units(-1), -1);
    assert_eq!(fx_floor_units(999), 0);
    assert_eq!(fx_ceil_units(1), 1);
    assert_eq!(fx_ceil_units(-999), 0);
    assert_eq!(fx_half(801), 400);
    assert_eq!(fx_abs(-42), 42);
    assert_eq!(isqrt(3_000_000), 1732);
    assert_eq!(isqrt(0), 0);
}

#[test]
fn generate_per_axis() {
    fn tag(a: Axis) -> i64 {
        match a {
            Axis::X => 10,
            Axis::Y => 20,
            Axis::Z => 30,
        }
    }
    assert_eq!(Axis::generate(tag), (10, 20, 30));
}

#[test]
fn vec3_axis_access() {
    let mut v = Vec3::new(1, 2, 3);
    assert_eq!(v.get_axis(Axis::Y), 2);
    v.set_axis(Axis::Y, 9);
    assert_eq!(v, Vec3 { x: 1, y: 9, z: 3 });
    assert_eq!(v.with_axis(Axis::Z, 7), Vec3 { x: 1, y: 9, z: 7 });
    let u = UVec3::new(4, 5, 6);
    assert_eq!(u.get_axis(Axis::Z), 6);
}

#[test]
fn aabb_basics() {
    let b = AABB {
        position: Vec3::new(1000, 2000, 3000),
        extent3d: Vec3::new(2000, 4000, 6000),
    };
    assert!(b.valid());
    assert_eq!(b.min(), Vec3::new(1000, 2000, 3000));
    assert_eq!(b.max(), Vec3::new(3000, 6000, 9000));
    assert_eq!(b.center(), Vec3::new(2000, 4000, 6000));
    let bad = AABB { position: Vec3::new(0, 0, 0), extent3d: Vec3::new(-1, 0, 0) };
    assert!(!bad.valid());
}

#[test]
fn aabb_areas_and_max_axis() {
    // extents 2, 4, 6 blocks: areas are the products of the other two
    let b = AABB { position: Vec3::new(0, 0, 0), extent3d: Vec3::new(2000, 4000, 6000) };
    let areas = b.areas();
    assert_eq!(areas, Vec3::new(24_000, 12_000, 8_000));
    assert_eq!(b.max_axis(), Axis::X);
    // dilating one axis alone leaves that axis's area unchanged
    let d = AABB { position: b.position, extent3d: b.extent3d.with_axis(Axis::X, 9000) };
    assert_eq!(d.areas().x, areas.x);
}

#[test]
fn aabb_split_and_expand() {
    let b = AABB { position: Vec3::new(0, 0, 0), extent3d: Vec3::new(1000, 1000, 1000) };
    let (low, high) = b.split_y();
    assert_eq!(low.position, Vec3::new(0, 0, 0));
    assert_eq!(low.extent3d, Vec3::new(1000, 500, 1000));
    assert_eq!(high.position, Vec3::new(0, 500, 0));
    assert_eq!(high.extent3d, Vec3::new(1000, 500, 1000));
    let e = b.expanded(Vec3::new(10, 0, 10));
    assert_eq!(e.position, Vec3::new(-5, 0, -5));
    assert_eq!(e.extent3d, Vec3::new(1010, 1000, 1010));
    let right = b.split_by_axis(Axis::X, true);
    assert_eq!(right.position, Vec3::new(500, 0, 0));
}

#[test]
fn aabb_intersect_and_from_ab() {
    let a = AABB { position: Vec3::new(0, 0, 0), extent3d: Vec3::new(2000, 2000, 2000) };
    let b = AABB { position: Vec3::new(1000, 500, -500), extent3d: Vec3::new(2000, 2000, 2000) };
    let o = a.intersect(b);
    assert_eq!(o.position, Vec3::new(1000, 500, 0));
    assert_eq!(o.extent3d, Vec3::new(1000, 1500, 1500));
    let f = AABB::from_ab(Vec3::new(3000, 1000, 2000), Vec3::new(1000, 4000, 2000));
    assert_eq!(f.position, Vec3::new(1000, 1000, 2000));
    assert_eq!(f.extent3d, Vec3::new(2000, 3000, 0));
    let blk = AABB::from_block_pos(Vec3::new(5000, 0, 2000));
    assert_eq!(blk.extent3d, Vec3::new(1000, 1000, 1000));
}

#[test]
fn aabb_iter_pos() {
    // a box over [0.5, 1.5] x [0, 1] x [-0.5, 0.5] blocks
    let b = AABB {
        position: Vec3::new(500, 0, -500),
        extent3d: Vec3::new(1000, 1000, 1000),
    };
    let cells = b.iter_pos();
    assert_eq!(
        cells,
        vec![UVec3::new(0, 0, 0), UVec3::new(1, 0, 0)],
    );
    // entirely below the world floor: nothing
    let below = AABB {
        position: Vec3::new(0, -5000, 0),
        extent3d: Vec3::new(1000, 2000, 1000),
    };
    assert_eq!(below.iter_pos(), vec![]);
}

#[test]
fn bound3d_limit_and_apply() {
    let mut b = Bound3D::no_bound();
    b.limit(Axis::Y, AxisInterval { start: Some(1000), end: None });
    b.limit(Axis::Y, AxisInterval { start: Some(500), end: Some(9000) });
    // an unbounded interval is a no-op
    b.limit(Axis::Y, AxisInterval::full());
    assert_eq!(b.y, AxisInterval { start: Some(1000), end: Some(9000) });
    assert_eq!(b.x, AxisInterval { start: None, end: None });
    let p = b.apply(Vec3::new(42, 500, -7));
    assert_eq!(p, Vec3::new(42, 1000, -7));
    let q = b.apply(Vec3::new(0, 9500, 0));
    assert_eq!(q.y, 9000);
    assert!(b.out_of_bound(Vec3::new(0, 500, 0)));
    assert!(!b.out_of_bound(Vec3::new(0, 1000, 0)));
}

#[test]
fn bound3d_degenerate_interval_passes_through() {
    let mut b = Bound3D::no_bound();
    // an inverted interval must not clamp
    b.limit(Axis::X, AxisInterval { start: Some(5000), end: Some(1000) });
    let p = b.apply(Vec3::new(3000, 0, 0));
    assert_eq!(p.x, 3000);
}

#[test]
fn bound3d_shrink_and_from_block() {
    let mut b = Bound3D::no_bound();
    b.limit(Axis::X, AxisInterval { start: Some(0), end: Some(8000) });
    b.limit(Axis::Y, AxisInterval { start: Some(0), end: Some(8000) });
    let s = b.shrink_by(800, 1500);
    assert_eq!(s.x, AxisInterval { start: Some(400), end: Some(7600) });
    assert_eq!(s.y, AxisInterval { start: Some(0), end: Some(6500) });
    // a block above the center constrains from above, one below from below
    let c = Vec3::new(500, 500, 500);
    let above = Bound3D::from_block(c, Vec3::new(500, 2000, 500));
    assert_eq!(above.y, AxisInterval { start: None, end: Some(2000) });
    assert_eq!(above.x, AxisInterval { start: None, end: Some(500) });
    let below = Bound3D::from_block(c, Vec3::new(500, -2000, 500));
    assert_eq!(below.y, AxisInterval { start: Some(-1000), end: None });
    let level = Bound3D::from_block(c, Vec3::new(0, 0, 0));
    assert_eq!(level.x, AxisInterval { start: None, end: None });
    assert_eq!(level.y, AxisInterval { start: None, end: None });
}

#[test]
fn bound3d_intersect_tightens() {
    let mut a = Bound3D::no_bound();
    a.limit(Axis::X, AxisInterval { start: Some(0), end: Some(10_000) });
    let mut b = Bound3D::no_bound();
    b.limit(Axis::X, AxisInterval { start: Some(2000), end: Some(8000) });
    b.limit(Axis::Z, AxisInterval { start: None, end: Some(700) });
    let c = a.intersect(b);
    assert_eq!(c.x, AxisInterval { start: Some(2000), end: Some(8000) });
    assert_eq!(c.z, AxisInterval { start: None, end: Some(700) });
}
