//! The grid walker: entry points, crossing bookkeeping, and full walks.
//! Coordinates are thousandths of a block; a world of (1, 1) chunks spans
//! 8 x 64 x 8 blocks.

use sandbox_core::block_iter::{
    get_next_offset_delta, get_origin_point, is_origin_inside, is_position_inside, try_normalize,
    BlockIter, OptVec3,
};
use sandbox_core::chunk::BlockSubPos;
use sandbox_core::trit::Trit;
use sandbox_core::vec3::Vec3;
use sandbox_core::world::{ChunkPos, MapSize};

#[test]
fn test_get_origin_point() {
    let size = MapSize::new((1, 1));
    let direction = try_normalize(Vec3::new(1000, 1000, 1000)).unwrap();
    assert_eq!(direction, Vec3::new(577, 577, 577));
    // entering the world corner head-on
    let position = Vec3::new(-1000, -1000, -1000);
    assert_eq!(
        get_origin_point(size, position, direction),
        Some((Vec3::new(0, 0, 0), 1733))
    );
    {
        // only Y starts outside
        let position = Vec3::new(1000, -1000, 1000);
        assert_eq!(
            get_origin_point(size, position, direction),
            Some((Vec3::new(2000, 0, 2000), 1733))
        );
    }
    {
        // already inside: the start is the entry, at length zero
        let position = Vec3::new(1000, 1000, 1000);
        assert_eq!(
            get_origin_point(size, position, direction),
            Some((position, 0))
        );
    }
    {
        // pointing down while below the world: never enters
        let direction = try_normalize(Vec3::new(1000, -1000, 1000)).unwrap();
        assert_eq!(get_origin_point(size, position, direction), None);
    }
    {
        // a skewed entry through the world's floor corner region
        let position = Vec3::new(-1000, -1000, 0);
        let direction = try_normalize(Vec3::new(1000, 2000, 1000)).unwrap();
        assert_eq!(direction, Vec3::new(408, 817, 408));
        assert_eq!(
            get_origin_point(size, position, direction),
            Some((Vec3::new(0, 1002, 1000), 2451))
        );
    }
    {
        // falling back into the world from above its far corner
        let position = Vec3::new(8000, 65_000, 8000);
        let direction = try_normalize(Vec3::new(-1000, -2000, -1000)).unwrap();
        assert_eq!(
            get_origin_point(size, position, direction),
            Some((Vec3::new(7501, 64_000, 7501), 1224))
        );
    }
    {
        // far too high up: the ray exits before it could enter
        let position = Vec3::new(1000, 1_024_000, 1000);
        assert_eq!(get_origin_point(size, position, direction), None);
    }
}

#[test]
fn test_get_next_offset_delta() {
    assert_eq!(
        get_next_offset_delta(Vec3::new(500, 500, 500), Vec3::new(1000, 0, 0)),
        (
            OptVec3 { x: Some(500), y: None, z: None },
            OptVec3 { x: Some(1000), y: None, z: None }
        )
    );
    assert_eq!(
        get_next_offset_delta(Vec3::new(500, 500, 500), Vec3::new(-1000, 0, 0)),
        (
            OptVec3 { x: Some(500), y: None, z: None },
            OptVec3 { x: Some(-1000), y: None, z: None }
        )
    );
    assert_eq!(
        get_next_offset_delta(Vec3::new(500, 500, 500), Vec3::new(1000, 1000, 2000)),
        (
            OptVec3 { x: Some(500), y: Some(500), z: Some(250) },
            OptVec3 { x: Some(1000), y: Some(1000), z: Some(500) }
        )
    );
}

#[test]
fn test_iter() {
    let mut iter = BlockIter::new(
        MapSize::new((1, 1)),
        Vec3::new(500, 500, 500),
        Vec3::new(1000, 0, 0),
    );
    assert_eq!(
        iter.next().unwrap().get_position(),
        (ChunkPos(0, 0), BlockSubPos::new(1, 0, 0))
    );
    assert_eq!(
        iter.next().unwrap().get_position(),
        (ChunkPos(0, 0), BlockSubPos::new(2, 0, 0))
    );
    assert_eq!(iter.next().unwrap().length, 2500);

    let mut iter = BlockIter::new(
        MapSize::new((1, 1)),
        Vec3::new(500, 500, 500),
        Vec3::new(-1000, 0, 0),
    );
    assert_eq!(iter.next(), None);

    let mut iter = BlockIter::new(
        MapSize::new((1, 1)),
        Vec3::new(500, 500, 500),
        Vec3::new(1000, 1000, 1000),
    );
    assert_eq!(
        iter.next().unwrap().get_position(),
        (ChunkPos(0, 0), BlockSubPos::new(1, 1, 1))
    );

    let mut iter = BlockIter::new(
        MapSize::new((1, 1)),
        Vec3::new(500, 500, 500),
        Vec3::new(200, 0, 1000),
    );
    assert_eq!(
        iter.next().unwrap().get_position(),
        (ChunkPos(0, 0), BlockSubPos::new(0, 0, 1))
    );
}

#[test]
fn walk_from_inside_starts_at_zero_and_steps_one_axis() {
    // started inside the world: entry length zero, and the first step
    // moves exactly one axis by exactly one cell
    let iter = BlockIter::new(
        MapSize::new((1, 1)),
        Vec3::new(500, 500, 500),
        Vec3::new(1000, 0, 0),
    );
    assert!(iter.live);
    assert_eq!(iter.length, 0);
    assert_eq!(iter.position, Vec3::new(0, 0, 0));
    let mut iter = iter;
    let step = iter.next().unwrap();
    assert_eq!(step.fine_position.x, 1);
    assert_eq!(step.fine_position.y, 0);
    assert_eq!(step.fine_position.z, 0);
    assert_eq!(step.direction, (Trit::Pos, Trit::Zero, Trit::Zero));
    assert_eq!(step.length, 500);
}

#[test]
fn ray_that_never_enters_is_exhausted() {
    let size = MapSize::new((1, 1));
    // outside, pointing further away: no entry, nothing yielded
    let mut iter = BlockIter::new(size, Vec3::new(-1000, -1000, -1000), Vec3::new(-1000, 0, 0));
    assert!(!iter.live);
    assert_eq!(iter.next(), None);
    assert_eq!(iter.next(), None);
    // a zero direction cannot be normalized: exhausted as well
    let mut zero = BlockIter::new(size, Vec3::new(500, 500, 500), Vec3::new(0, 0, 0));
    assert!(!zero.live);
    assert_eq!(zero.next(), None);
    // the default walker is exhausted too
    let mut d = BlockIter::default();
    assert_eq!(d.next(), None);
}

#[test]
fn straight_walk_accumulates_unit_lengths() {
    // one cell per step, one block of length per step
    let mut iter = BlockIter::new(
        MapSize::new((1, 1)),
        Vec3::new(500, 500, 500),
        Vec3::new(1000, 0, 0),
    );
    let first = iter.next().unwrap();
    assert_eq!((first.fine_position.x, first.fine_position.y, first.fine_position.z), (1, 0, 0));
    assert_eq!(first.length, 500);
    let second = iter.next().unwrap();
    assert_eq!((second.fine_position.x, second.fine_position.y, second.fine_position.z), (2, 0, 0));
    assert_eq!(second.length, 1500);
    let third = iter.next().unwrap();
    assert_eq!(third.length, 2500);
    // steps 4..7 walk to the world edge, then the walk ends
    assert_eq!(iter.next().unwrap().fine_position.x, 4);
    assert_eq!(iter.next().unwrap().fine_position.x, 5);
    assert_eq!(iter.next().unwrap().fine_position.x, 6);
    assert_eq!(iter.next().unwrap().fine_position.x, 7);
    assert_eq!(iter.next(), None);
    assert!(!iter.live);
}

#[test]
fn inside_predicates() {
    let size = MapSize::new((1, 1));
    assert!(is_origin_inside(size, Vec3::new(0, 0, 0)));
    assert!(is_origin_inside(size, Vec3::new(8000, 64_000, 8000)));
    assert!(!is_origin_inside(size, Vec3::new(8001, 0, 0)));
    assert!(!is_origin_inside(size, Vec3::new(0, -1, 0)));
    // cell coordinates are in blocks and exclusive at the top
    assert!(is_position_inside(size, Vec3::new(7, 63, 7)));
    assert!(!is_position_inside(size, Vec3::new(8, 0, 0)));
    assert!(!is_position_inside(size, Vec3::new(-1, 0, 0)));
}
