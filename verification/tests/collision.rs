//! The collision resolver on concrete worlds: falling onto a floor,
//! projectile sprites, gravity and interpolation. Coordinates are in
//! thousandths of a block.

use sandbox_core::block::solid_block;
use sandbox_core::bound3d::{AxisInterval, Bound3D};
use sandbox_core::color::green;
use sandbox_core::generator::{EmptyGenerator, FlatGenerator, Span};
use sandbox_core::physics::{
    apply_gravity, interpolate_position, map_collision_detection, sprite_step, ModelStructure,
    Sprite,
};
use sandbox_core::vec3::Vec3;
use sandbox_core::world::WorldMap;

fn floor_world() -> WorldMap {
    let floor = solid_block("green", green());
    WorldMap::new((1, 1), FlatGenerator::new(&[Span(Some(floor), 1)]))
}

fn player() -> ModelStructure {
    ModelStructure { width: 800, height: 1500, head_offset: 1200 }
}

#[test]
fn falling_entity_settles_on_floor() {
    // footprint 0.8 x 1.5 starting at Y = 2.0, falling 0.5 per tick:
    // after four ticks it rests exactly on top of the floor block
    let map = floor_world();
    let st = player();
    let mut pos = Vec3::new(4000, 2000, 4000);
    let mut vel = Vec3::new(0, -500, 0);
    let mut ticks: Vec<(i64, i64)> = Vec::new();
    for _ in 0..4 {
        let (p, v, _bound) = map_collision_detection(&map, pos, vel, st);
        pos = p;
        vel = v;
        ticks.push((pos.y, vel.y));
    }
    assert_eq!(ticks[0], (1500, -500));
    assert_eq!(ticks[1], (1000, -500));
    assert_eq!(ticks[2], (1000, 0));
    assert_eq!(ticks[3], (1000, 0));
    assert_eq!(pos, Vec3::new(4000, 1000, 4000));
    assert_eq!(vel, Vec3::new(0, 0, 0));
}

#[test]
fn fall_through_gap_is_stopped_at_surface() {
    // downward velocity larger than the gap to the floor: the tick ends
    // with Y exactly at the floor surface, Y velocity zeroed, and the
    // horizontal motion untouched
    let map = floor_world();
    let st = player();
    let pos = Vec3::new(4000, 1800, 4000);
    let vel = Vec3::new(200, -900, 0);
    let (p, v, _bound) = map_collision_detection(&map, pos, vel, st);
    assert_eq!(p.y, 1000);
    assert_eq!(v.y, 0);
    assert_eq!(p.x, 4200);
    assert_eq!(v.x, 200);
    assert_eq!(p.z, 4000);
    assert_eq!(v.z, 0);
}

#[test]
fn free_fall_in_empty_world() {
    let map = WorldMap::new((1, 1), EmptyGenerator);
    let st = player();
    let (p, v, bound) = map_collision_detection(
        &map,
        Vec3::new(4000, 2000, 4000),
        Vec3::new(0, -500, 0),
        st,
    );
    assert_eq!(p, Vec3::new(4000, 1500, 4000));
    assert_eq!(v, Vec3::new(0, -500, 0));
    // the cached bound is the world volume shrunk for the footprint
    assert_eq!(bound.y, AxisInterval { start: Some(0), end: Some(62_500) });
    assert_eq!(bound.x, AxisInterval { start: Some(400), end: Some(7600) });
}

#[test]
fn world_edge_stops_entity() {
    // walking into the world's edge clamps against the shrunk bound and
    // kills the horizontal velocity
    let map = WorldMap::new((1, 1), EmptyGenerator);
    let st = player();
    let (p, v, _bound) = map_collision_detection(
        &map,
        Vec3::new(7500, 2000, 4000),
        Vec3::new(500, 0, 0),
        st,
    );
    assert_eq!(p.x, 7600);
    assert_eq!(v.x, 0);
}

#[test]
fn sprite_flies_and_despawns() {
    let map = floor_world();
    let s = Sprite::new(green(), 100);
    // cruising well above the floor
    let next = sprite_step(&map, Vec3::new(4000, 5000, 4000), Vec3::new(0, -500, 0), s);
    assert_eq!(next, Some(Vec3::new(4000, 4500, 4000)));
    // dropping into the floor: destroyed
    let hit = sprite_step(&map, Vec3::new(4000, 1050, 4000), Vec3::new(0, -500, 0), s);
    assert_eq!(hit, None);
    // leaving the world upward: destroyed
    let gone = sprite_step(&map, Vec3::new(4000, 63_900, 4000), Vec3::new(0, 200, 0), s);
    assert_eq!(gone, None);
}

#[test]
fn gravity_pulls_down() {
    assert_eq!(apply_gravity(Vec3::new(0, 0, 0)), Vec3::new(0, -10, 0));
    assert_eq!(apply_gravity(Vec3::new(5, -490, 7)), Vec3::new(5, -500, 7));
}

#[test]
fn interpolation_blends_and_clamps() {
    let free = Bound3D::no_bound();
    // halfway through the tick the observer sees half the velocity
    let p = interpolate_position(&free, Vec3::new(1000, 2000, 3000), Vec3::new(500, -500, 1000), 500);
    assert_eq!(p, Vec3::new(1250, 1750, 3500));
    // the cached bound keeps the rendered position out of the floor
    let mut bound = Bound3D::no_bound();
    bound.limit(
        sandbox_core::axis::Axis::Y,
        AxisInterval { start: Some(1800), end: None },
    );
    let q = interpolate_position(&bound, Vec3::new(1000, 2000, 3000), Vec3::new(0, -500, 0), 500);
    assert_eq!(q.y, 1800);
}

#[test]
fn footprint_boxes() {
    let st = player();
    assert_eq!(st.get_extent(), (800, 1500));
    let b = st.get_aabb(Vec3::new(4000, 1000, 4000));
    assert_eq!(b.position, Vec3::new(3600, 1000, 3600));
    assert_eq!(b.extent3d, Vec3::new(800, 1500, 800));
    let s = Sprite::new(green(), 100);
    let sb = s.into_aabb(Vec3::new(4000, 1000, 4000));
    assert_eq!(sb.position, Vec3::new(3900, 900, 3900));
    assert_eq!(sb.extent3d, Vec3::new(200, 200, 200));
}
