//! Chunk indexing, map addressing, block mutation, world generation and
//! the box scan.

use sandbox_core::aabb::AABB;
use sandbox_core::block::{solid_block, BlockType};
use sandbox_core::bound3d::{AxisInterval, Bound3D};
use sandbox_core::chunk::{BlockSubPos, Chunk, CHUNK_SIZE};
use sandbox_core::color::{green, red};
use sandbox_core::direction::Direction;
use sandbox_core::generator::{EmptyGenerator, FlatGenerator, Span};
use sandbox_core::vec3::{UVec3, Vec3};
use sandbox_core::world::{ChunkNeighbor, ChunkPos, MapSize, WorldMap};

#[test]
fn sub_pos_packing() {
    let p = BlockSubPos::new(1, 2, 3);
    assert_eq!(p.0, 1 + 8 * 3 + 64 * 2);
    assert_eq!(p.into_xyz(), (1, 2, 3));
    assert_eq!(BlockSubPos::try_new(8, 0, 0), None);
    assert_eq!(BlockSubPos::try_new(0, 64, 0), None);
    assert_eq!(BlockSubPos::try_new(0, 0, 8), None);
    assert_eq!(BlockSubPos::try_new(7, 63, 7), Some(BlockSubPos::new(7, 63, 7)));
}

#[test]
fn sub_pos_neighbors() {
    let p = BlockSubPos::new(0, 0, 0);
    assert_eq!(p.neighbor(Direction::West), None);
    assert_eq!(p.neighbor(Direction::Down), None);
    assert_eq!(p.neighbor(Direction::North), None);
    assert_eq!(p.neighbor(Direction::East), Some(BlockSubPos::new(1, 0, 0)));
    assert_eq!(p.neighbor(Direction::Up), Some(BlockSubPos::new(0, 1, 0)));
    assert_eq!(p.neighbor(Direction::South), Some(BlockSubPos::new(0, 0, 1)));
    let q = BlockSubPos::new(7, 63, 7);
    assert_eq!(q.neighbor(Direction::East), None);
    assert_eq!(q.neighbor(Direction::Up), None);
    assert_eq!(q.neighbor(Direction::South), None);
    assert_eq!(q.neighbor(Direction::West), Some(BlockSubPos::new(6, 63, 7)));
}

#[test]
fn chunk_storage() {
    let mut c = Chunk::empty();
    assert!(c.dirty());
    c.mark_clean();
    assert!(!c.dirty());
    let pos = BlockSubPos::new(3, 10, 5);
    assert!(c.get(pos).is_none());
    c.set(pos, Some(solid_block("green", green())));
    assert!(c.dirty());
    let got = c.get(pos).unwrap();
    assert_eq!(got.name, "green");
    match got.data {
        BlockType::Solid { color } => assert_eq!(color, green()),
    }
    c.set(pos, None);
    assert!(c.get(pos).is_none());
    assert_eq!(Chunk::max_face_count(), 3 * 4096 + 64 + 2 * 8 * 64);
}

#[test]
fn chunk_iteration() {
    let mut c = Chunk::empty();
    c.set(BlockSubPos::new(0, 0, 0), Some(solid_block("green", green())));
    c.set(BlockSubPos::new(1, 0, 0), Some(solid_block("red", red())));
    let all = c.iter();
    assert_eq!(all.len(), CHUNK_SIZE);
    assert_eq!(all[0].0, BlockSubPos::new(0, 0, 0));
    let solids = c.iter_solid();
    assert_eq!(solids.len(), 2);
    assert_eq!(solids[0], (BlockSubPos::new(0, 0, 0), green()));
    assert_eq!(solids[1], (BlockSubPos::new(1, 0, 0), red()));
}

#[test]
fn map_size_addressing() {
    let s = MapSize::new((2, 3));
    assert_eq!(s.width(), 2);
    assert_eq!(s.height(), 3);
    assert_eq!(s.to_world_size(), UVec3::new(16, 64, 24));
    let conv = s.convert_pos(UVec3::new(9, 5, 17)).unwrap();
    assert_eq!(conv.0, ChunkPos(1, 2));
    assert_eq!(conv.1, BlockSubPos::new(1, 5, 1));
    assert_eq!(s.convert_pos(UVec3::new(0, 64, 0)), None);
    assert_eq!(s.convert_pos(UVec3::new(16, 0, 0)), None);
    assert_eq!(s.convert_pos(UVec3::new(0, 0, 24)), None);
}

#[test]
fn chunk_neighbors_at_edges() {
    let s = MapSize::new((2, 2));
    assert_eq!(ChunkPos(0, 0).get_neighbor(s, ChunkNeighbor::West), None);
    assert_eq!(ChunkPos(0, 0).get_neighbor(s, ChunkNeighbor::North), None);
    assert_eq!(
        ChunkPos(0, 0).get_neighbor(s, ChunkNeighbor::East),
        Some(ChunkPos(1, 0))
    );
    assert_eq!(
        ChunkPos(0, 0).get_neighbor(s, ChunkNeighbor::South),
        Some(ChunkPos(0, 1))
    );
    assert_eq!(ChunkPos(1, 1).get_neighbor(s, ChunkNeighbor::East), None);
    assert_eq!(ChunkPos(1, 1).get_neighbor(s, ChunkNeighbor::South), None);
    assert_eq!(ChunkNeighbor::North.as_offsets(), (0, -1));
    assert_eq!(ChunkNeighbor::East.as_offsets(), (1, 0));
}

#[test]
fn map_blocks_and_bounds() {
    let mut map = WorldMap::new((2, 2), EmptyGenerator);
    assert_eq!(map.size(), MapSize::new((2, 2)));
    assert!(map.in_range(ChunkPos(1, 1)));
    assert!(!map.in_range(ChunkPos(2, 0)));
    assert!(map.get_block(UVec3::new(3, 7, 12)).is_none());
    assert!(map.set_block(UVec3::new(3, 7, 12), Some(solid_block("green", green()))));
    let b = map.get_block(UVec3::new(3, 7, 12)).unwrap();
    assert_eq!(b.name, "green");
    assert!(map.chunk_at(ChunkPos(0, 1)).dirty());
    // outside the world nothing happens
    assert!(!map.set_block(UVec3::new(99, 0, 0), None));
    let wb = Bound3D::from_world(&map.size());
    assert_eq!(wb.x, AxisInterval { start: Some(0), end: Some(16_000) });
    assert_eq!(wb.y, AxisInterval { start: Some(0), end: Some(64_000) });
    assert_eq!(wb.z, AxisInterval { start: Some(0), end: Some(16_000) });
    let n = map.iter_neighbor(ChunkPos(0, 0));
    assert_eq!(n, vec![ChunkPos(0, 1), ChunkPos(1, 0)]);
    let all = map.iter();
    assert_eq!(all.len(), 4);
    assert_eq!(all[0].0, ChunkPos(0, 0));
    assert_eq!(all[3].0, ChunkPos(1, 1));
    // freshly generated chunks start dirty for the renderer
    assert!(all[3].1.dirty());
}

#[test]
fn flat_generator_layers() {
    let floor = solid_block("green", green());
    let cap = solid_block("red", red());
    let gen = FlatGenerator::new(&[Span(Some(floor), 2), Span(None, 1), Span(Some(cap), 1)]);
    let map = WorldMap::new((1, 1), gen);
    assert_eq!(map.get_block(UVec3::new(4, 0, 4)).unwrap().name, "green");
    assert_eq!(map.get_block(UVec3::new(4, 1, 4)).unwrap().name, "green");
    assert!(map.get_block(UVec3::new(4, 2, 4)).is_none());
    assert_eq!(map.get_block(UVec3::new(4, 3, 4)).unwrap().name, "red");
    assert!(map.get_block(UVec3::new(4, 4, 4)).is_none());
}

#[test]
fn scan_aabb_finds_floor() {
    let floor = solid_block("green", green());
    let map = WorldMap::new((1, 1), FlatGenerator::new(&[Span(Some(floor), 1)]));
    // a box resting exactly on top of the floor covers no occupied cell
    let aabb = AABB {
        position: Vec3::new(3500, 1000, 3500),
        extent3d: Vec3::new(1000, 1500, 1000),
    };
    let hits = map.scan_aabb(aabb);
    assert_eq!(hits.len(), 0);
    let deeper = AABB {
        position: Vec3::new(3500, -100, 3500),
        extent3d: Vec3::new(1000, 1500, 1000),
    };
    let hits = map.scan_aabb(deeper);
    assert_eq!(hits.len(), 4);
    let corners: Vec<Vec3> = hits.iter().map(|h| h.0).collect();
    assert_eq!(
        corners,
        vec![
            Vec3::new(3000, 0, 3000),
            Vec3::new(3000, 0, 4000),
            Vec3::new(4000, 0, 3000),
            Vec3::new(4000, 0, 4000),
        ]
    );
    // a scan reaching past the world edge skips the outside cells
    let over_edge = AABB {
        position: Vec3::new(7500, -100, 7500),
        extent3d: Vec3::new(2000, 500, 2000),
    };
    let hits = map.scan_aabb(over_edge);
    assert_eq!(hits.len(), 1);
    assert_eq!(hits[0].0, Vec3::new(7000, 0, 7000));
}
