//! The chunked world grid: chunk addressing, coordinate conversion, block
//! lookup and mutation, and the box scan the collision resolver feeds on.

use vstd::prelude::*;

use crate::aabb::AABB;
use crate::block::Block;
use crate::bound3d::{AxisInterval, Bound3D};
use crate::chunk::{sub_index, BlockSubPos, Chunk};
use crate::fx::COORD_LIMIT;
use crate::generator::Generator;
use crate::vec3::{UVec3, Vec3};

verus! {

/// A chunk's coordinate in the map: X index, then Z index.
#[derive(Debug, Clone, Copy, PartialEq, Eq, Structural)]
pub struct ChunkPos(pub u8, pub u8);

/// The four horizontal neighbors of a chunk.
#[derive(Debug, Clone, Copy, PartialEq, Eq, Structural)]
pub enum ChunkNeighbor {
    North,
    South,
    East,
    West,
}

/// How many chunks the map spans on X (`w`) and Z (`h`).
#[derive(Debug, Clone, Copy, PartialEq, Eq, Structural)]
pub struct MapSize {
    pub w: u8,
    pub h: u8,
}

impl ChunkNeighbor {
    /// The chunk-coordinate offset of this neighbor, `(x, z)`.
    pub fn as_offsets(self) -> (r: (i32, i32))
        ensures
            r == match self {
                ChunkNeighbor::North => (0i32, -1i32),
                ChunkNeighbor::South => (0i32, 1i32),
                ChunkNeighbor::East => (1i32, 0i32),
                ChunkNeighbor::West => (-1i32, 0i32),
            },
    {
        match self {
            ChunkNeighbor::North => (0, -1),
            ChunkNeighbor::South => (0, 1),
            ChunkNeighbor::East => (1, 0),
            ChunkNeighbor::West => (-1, 0),
        }
    }
}

impl ChunkPos {
    pub open spec fn get_neighbor_spec(self, size: MapSize, direction: ChunkNeighbor) -> Option<
        ChunkPos,
    > {
        match direction {
            ChunkNeighbor::West => if self.0 == 0 {
                None
            } else {
                Some(ChunkPos((self.0 - 1) as u8, self.1))
            },
            ChunkNeighbor::East => if self.0 == size.w - 1 {
                None
            } else {
                Some(ChunkPos((self.0 + 1) as u8, self.1))
            },
            ChunkNeighbor::North => if self.1 == 0 {
                None
            } else {
                Some(ChunkPos(self.0, (self.1 - 1) as u8))
            },
            ChunkNeighbor::South => if self.1 == size.h - 1 {
                None
            } else {
                Some(ChunkPos(self.0, (self.1 + 1) as u8))
            },
        }
    }

    /// The adjacent chunk coordinate, or `None` past the world's edge.
    pub fn get_neighbor(self, size: MapSize, direction: ChunkNeighbor) -> (r: Option<ChunkPos>)
        requires
            1 <= size.w,
            1 <= size.h,
            self.0 < size.w,
            self.1 < size.h,
        ensures
            r == self.get_neighbor_spec(size, direction),
            r is Some ==> (r->0).0 < size.w && (r->0).1 < size.h,
    {
        match direction {
            ChunkNeighbor::West => if self.0 == 0 {
                None
            } else {
                Some(ChunkPos(self.0 - 1, self.1))
            },
            ChunkNeighbor::East => if self.0 == size.w - 1 {
                None
            } else {
                Some(ChunkPos(self.0 + 1, self.1))
            },
            ChunkNeighbor::North => if self.1 == 0 {
                None
            } else {
                Some(ChunkPos(self.0, self.1 - 1))
            },
            ChunkNeighbor::South => if self.1 == size.h - 1 {
                None
            } else {
                Some(ChunkPos(self.0, self.1 + 1))
            },
        }
    }
}

impl MapSize {
    /// Wrap a `(width, height)` pair.
    pub fn new(size: (u8, u8)) -> (r: MapSize)
        ensures
            r == (MapSize { w: size.0, h: size.1 }),
    {
        MapSize { w: size.0, h: size.1 }
    }

    pub fn width(&self) -> (r: u8)
        ensures
            r == self.w,
    {
        self.w
    }

    pub fn height(&self) -> (r: u8)
        ensures
            r == self.h,
    {
        self.h
    }

    /// The world's extent in blocks: X and Z span the chunks, Y is the
    /// fixed chunk height.
    pub fn to_world_size(&self) -> (r: UVec3)
        ensures
            r == (UVec3 { x: (self.w * 8) as u32, y: 64u32, z: (self.h * 8) as u32 }),
    {
        UVec3 { x: self.w as u32 * 8, y: 64, z: self.h as u32 * 8 }
    }

    /// Where the chunk at `pos` lives in the map's chunk vector.
    pub open spec fn index_spec(self, pos: ChunkPos) -> int {
        pos.1 * self.w + pos.0
    }

    /// The vector slot of a chunk coordinate; the caller keeps it in
    /// range.
    fn get_index(&self, pos: ChunkPos) -> (r: usize)
        requires
            pos.0 < self.w,
            pos.1 < self.h,
        ensures
            r == self.index_spec(pos),
            r < self.w * self.h,
    {
        proof {
            assert(pos.1 * self.w + pos.0 < self.w * self.h && pos.1 * self.w <= 255 * 255)
                by (nonlinear_arith)
                requires
                    pos.0 < self.w,
                    pos.1 < self.h,
                    self.w <= 255,
                    pos.1 <= 255,
            ;
        }
        (pos.1 as usize) * (self.w as usize) + (pos.0 as usize)
    }

    /// The chunk coordinate living in a vector slot.
    fn from_index(&self, index: usize) -> (r: ChunkPos)
        requires
            1 <= self.w,
            index < self.w * self.h,
        ensures
            r.0 < self.w,
            r.1 < self.h,
            self.index_spec(r) == index,
    {
        let w = self.w as usize;
        let r = ChunkPos((index % w) as u8, (index / w) as u8);
        proof {
            vstd::arithmetic::div_mod::lemma_fundamental_div_mod(index as int, w as int);
            assert((index as int) / (w as int) < self.h) by (nonlinear_arith)
                requires
                    index as int <= self.w * self.h - 1,
                    w as int == self.w,
                    1 <= self.w,
                    ((index as int) / (w as int)) * (w as int) + (index as int) % (w as int)
                        == index as int,
                    0 <= (index as int) % (w as int),
            ;
        }
        r
    }

    /// Which chunk and slot a world cell belongs to, or `None` outside
    /// the world.
    pub open spec fn convert_pos_spec(self, pos: UVec3) -> Option<(ChunkPos, BlockSubPos)> {
        if pos.y >= 64 {
            None
        } else {
            let cx = pos.x as int / 8;
            let cz = pos.z as int / 8;
            if cx >= self.w || cz >= self.h {
                None
            } else {
                Some(
                    (
                        ChunkPos(cx as u8, cz as u8),
                        BlockSubPos(
                            sub_index(pos.x as int % 8, pos.y as int, pos.z as int % 8) as usize,
                        ),
                    ),
                )
            }
        }
    }

    /// Split a world cell into its chunk coordinate and in-chunk slot;
    /// `None` when the cell lies outside the world.
    pub fn convert_pos(self, pos: UVec3) -> (r: Option<(ChunkPos, BlockSubPos)>)
        ensures
            r == self.convert_pos_spec(pos),
            r is Some ==> ((r->0).0.0 < self.w && (r->0).0.1 < self.h && (r->0).1.wf()),
    {
        if pos.y >= 64 {
            return None;
        }
        let cx = pos.x / 8;
        let cz = pos.z / 8;
        if cx >= self.w as u32 || cz >= self.h as u32 {
            return None;
        }
        let bx = (pos.x % 8) as u8;
        let by = pos.y as u8;
        let bz = (pos.z % 8) as u8;
        let sub = BlockSubPos::new(bx, by, bz);
        Some((ChunkPos(cx as u8, cz as u8), sub))
    }
}

/// The world map: one chunk per coordinate in `[0, w) x [0, h)`.
pub struct WorldMap {
    chunks: Vec<Chunk>,
    size: MapSize,
}

/// The world positions and blocks `scan_aabb` yields for a cell list: the
/// cells that hold a block, in order, with their corner coordinates.
pub open spec fn scan_seq(m: WorldMap, cells: Seq<UVec3>) -> Seq<(Vec3, Block)>
    decreases cells.len(),
{
    if cells.len() == 0 {
        Seq::empty()
    } else {
        scan_seq(m, cells.drop_last()) + match m.block_at_cell_spec(cells.last()) {
            Some(b) => seq![(cell_corner(cells.last()), b)],
            None => Seq::empty(),
        }
    }
}

/// The fixed-point coordinates of a cell's minimum corner.
pub open spec fn cell_corner(p: UVec3) -> Vec3 {
    Vec3 { x: (p.x * 1000) as i64, y: (p.y * 1000) as i64, z: (p.z * 1000) as i64 }
}

impl WorldMap {
    /// The map's chunks, in `index_spec` order.
    pub closed spec fn chunk_seq(&self) -> Seq<Chunk> {
        self.chunks@
    }

    pub closed spec fn size_spec(&self) -> MapSize {
        self.size
    }

    /// A map is whole when it spans at least one chunk each way and holds
    /// one well-formed chunk per coordinate.
    pub open spec fn wf(&self) -> bool {
        &&& 1 <= self.size_spec().w
        &&& 1 <= self.size_spec().h
        &&& self.chunk_seq().len() == self.size_spec().w * self.size_spec().h
        &&& forall|i: int| 0 <= i < self.chunk_seq().len() ==> (#[trigger] self.chunk_seq()[i]).wf()
    }

    /// The block stored at a world cell; `None` outside the world or in an
    /// empty cell.
    pub open spec fn block_at_cell_spec(&self, pos: UVec3) -> Option<Block> {
        match self.size_spec().convert_pos_spec(pos) {
            None => None,
            Some((cp, sub)) => self.chunk_seq()[self.size_spec().index_spec(cp)].contents()[sub.0 as int],
        }
    }

    /// Build the world: ask the generator for every chunk, Z-major.
    pub fn new<G: Generator>(size: (u8, u8), generator: G) -> (r: WorldMap)
        requires
            1 <= size.0,
            1 <= size.1,
        ensures
            r.wf(),
            r.size_spec() == (MapSize { w: size.0, h: size.1 }),
            forall|cp: ChunkPos, idx: int|
                cp.0 < size.0 && cp.1 < size.1 && 0 <= idx < 4096 ==> (#[trigger] r.chunk_seq()[
                    r.size_spec().index_spec(cp)
                ].contents()[idx]) == generator.block_at_spec(cp, idx),
    {
        let mut generator = generator;
        generator.init(size);
        let msize = MapSize { w: size.0, h: size.1 };
        let mut chunks: Vec<Chunk> = Vec::new();
        let mut j: u8 = 0;
        while j < msize.h
            invariant
                j <= msize.h,
                1 <= msize.w,
                1 <= msize.h,
                chunks@.len() == j * msize.w,
                forall|i: int| 0 <= i < chunks@.len() ==> (#[trigger] chunks@[i]).wf(),
                forall|cx: int, cz: int, idx: int|
                    0 <= cx < msize.w && 0 <= cz < j && 0 <= idx < 4096 ==> (#[trigger] chunks@[cz
                        * msize.w + cx].contents()[idx]) == generator.block_at_spec(
                        ChunkPos(cx as u8, cz as u8),
                        idx,
                    ),
            decreases msize.h - j,
        {
            let mut i: u8 = 0;
            while i < msize.w
                invariant
                    i <= msize.w,
                    j < msize.h,
                    1 <= msize.w,
                    1 <= msize.h,
                    chunks@.len() == j * msize.w + i,
                    forall|k: int| 0 <= k < chunks@.len() ==> (#[trigger] chunks@[k]).wf(),
                    forall|cx: int, cz: int, idx: int|
                        0 <= cx < msize.w && 0 <= cz < j && 0 <= idx < 4096 ==> (
                        #[trigger] chunks@[cz * msize.w + cx].contents()[idx])
                            == generator.block_at_spec(ChunkPos(cx as u8, cz as u8), idx),
                    forall|cx: int, idx: int|
                        0 <= cx < i && 0 <= idx < 4096 ==> (#[trigger] chunks@[j * msize.w
                            + cx].contents()[idx]) == generator.block_at_spec(
                            ChunkPos(cx as u8, j as u8),
                            idx,
                        ),
                decreases msize.w - i,
            {
                let ghost pre = chunks@;
                let c = generator.generate(ChunkPos(i, j));
                chunks.push(c);
                proof {
                    assert(chunks@ == pre.push(c));
                    assert forall|cx: int, cz: int, idx: int|
                        0 <= cx < msize.w && 0 <= cz < j && 0 <= idx < 4096 implies (
                    #[trigger] chunks@[cz * msize.w + cx].contents()[idx])
                        == generator.block_at_spec(ChunkPos(cx as u8, cz as u8), idx) by {
                        assert(0 <= cz * msize.w + cx && cz * msize.w + cx < j * msize.w)
                            by (nonlinear_arith)
                            requires
                                0 <= cx,
                                cx < msize.w,
                                0 <= cz,
                                cz < j,
                        ;
                        assert(chunks@[cz * msize.w + cx] == pre[cz * msize.w + cx]);
                        assert(pre[cz * msize.w + cx].contents()[idx] == generator.block_at_spec(
                            ChunkPos(cx as u8, cz as u8),
                            idx,
                        ));
                    }
                    assert forall|cx: int, idx: int|
                        0 <= cx < i + 1 && 0 <= idx < 4096 implies (#[trigger] chunks@[j * msize.w
                        + cx].contents()[idx]) == generator.block_at_spec(
                        ChunkPos(cx as u8, j as u8),
                        idx,
                    ) by {
                        if cx == i {
                            assert(chunks@[j * msize.w + i] == c);
                        } else {
                            assert(chunks@[j * msize.w + cx] == pre[j * msize.w + cx]);
                            assert(pre[j * msize.w + cx].contents()[idx]
                                == generator.block_at_spec(ChunkPos(cx as u8, j as u8), idx));
                        }
                    }
                }
                i = i + 1;
            }
            proof {
                assert(j * msize.w + msize.w == (j + 1) * msize.w) by (nonlinear_arith);
                assert forall|cx: int, cz: int, idx: int|
                    0 <= cx < msize.w && 0 <= cz < j + 1 && 0 <= idx < 4096 implies (
                #[trigger] chunks@[cz * msize.w + cx].contents()[idx]) == generator.block_at_spec(
                    ChunkPos(cx as u8, cz as u8),
                    idx,
                ) by {
                    if cz == j {
                        assert(chunks@[j * msize.w + cx].contents()[idx]
                            == generator.block_at_spec(ChunkPos(cx as u8, j as u8), idx));
                    }
                }
            }
            j = j + 1;
        }
        let r = WorldMap { chunks, size: msize };
        proof {
            assert(r.chunk_seq().len() == msize.h * msize.w);
            assert(msize.h * msize.w == msize.w * msize.h) by (nonlinear_arith);
            assert forall|cp: ChunkPos, idx: int|
                cp.0 < size.0 && cp.1 < size.1 && 0 <= idx < 4096 implies (#[trigger] r.chunk_seq()[
                r.size_spec().index_spec(cp)
            ].contents()[idx]) == generator.block_at_spec(cp, idx) by {
                assert(r.chunk_seq()[cp.1 * msize.w + cp.0].contents()[idx]
                    == generator.block_at_spec(ChunkPos(cp.0 as u8, cp.1 as u8), idx));
            }
        }
        r
    }

    pub fn size(&self) -> (r: MapSize)
        ensures
            r == self.size_spec(),
    {
        self.size
    }

    /// Whether a chunk coordinate lies inside the map.
    pub fn in_range(&self, pos: ChunkPos) -> (r: bool)
        ensures
            r == (pos.0 < self.size_spec().w && pos.1 < self.size_spec().h),
    {
        pos.0 < self.size.w && pos.1 < self.size.h
    }

    /// The chunk at a coordinate.
    pub fn chunk_at(&self, pos: ChunkPos) -> (r: &Chunk)
        requires
            self.wf(),
            pos.0 < self.size_spec().w,
            pos.1 < self.size_spec().h,
        ensures
            *r == self.chunk_seq()[self.size_spec().index_spec(pos)],
            r.wf(),
    {
        let idx = self.size.get_index(pos);
        &self.chunks[idx]
    }

    /// Every chunk with its coordinate, in storage order.
    pub fn iter(&self) -> (r: Vec<(ChunkPos, &Chunk)>)
        requires
            self.wf(),
        ensures
            r@.len() == self.chunk_seq().len(),
            forall|i: int|
                0 <= i < r@.len() ==> {
                    let (cp, c) = #[trigger] r@[i];
                    &&& cp.0 < self.size_spec().w
                    &&& cp.1 < self.size_spec().h
                    &&& self.size_spec().index_spec(cp) == i
                    &&& *c == self.chunk_seq()[i]
                },
    {
        let mut out: Vec<(ChunkPos, &Chunk)> = Vec::new();
        let mut i: usize = 0;
        while i < self.chunks.len()
            invariant
                self.wf(),
                i <= self.chunk_seq().len(),
                out@.len() == i,
                forall|j: int|
                    0 <= j < i ==> {
                        let (cp, c) = #[trigger] out@[j];
                        &&& cp.0 < self.size_spec().w
                        &&& cp.1 < self.size_spec().h
                        &&& self.size_spec().index_spec(cp) == j
                        &&& *c == self.chunk_seq()[j]
                    },
            decreases self.chunk_seq().len() - i,
        {
            proof {
                assert(self.chunk_seq().len() == self.size_spec().w * self.size_spec().h);
            }
            let cp = self.size.from_index(i);
            out.push((cp, &self.chunks[i]));
            i = i + 1;
        }
        out
    }

    /// The in-range neighboring chunk coordinates of `pos`, in North,
    /// South, East, West order.
    pub fn iter_neighbor(&self, pos: ChunkPos) -> (r: Vec<ChunkPos>)
        requires
            self.wf(),
            pos.0 < self.size_spec().w,
            pos.1 < self.size_spec().h,
        ensures
            r@ == opt_seq(pos.get_neighbor_spec(self.size_spec(), ChunkNeighbor::North)) + opt_seq(
                pos.get_neighbor_spec(self.size_spec(), ChunkNeighbor::South),
            ) + opt_seq(pos.get_neighbor_spec(self.size_spec(), ChunkNeighbor::East)) + opt_seq(
                pos.get_neighbor_spec(self.size_spec(), ChunkNeighbor::West),
            ),
    {
        let mut out: Vec<ChunkPos> = Vec::new();
        let size = self.size;
        if let Some(p) = pos.get_neighbor(size, ChunkNeighbor::North) {
            out.push(p);
        }
        if let Some(p) = pos.get_neighbor(size, ChunkNeighbor::South) {
            out.push(p);
        }
        if let Some(p) = pos.get_neighbor(size, ChunkNeighbor::East) {
            out.push(p);
        }
        if let Some(p) = pos.get_neighbor(size, ChunkNeighbor::West) {
            out.push(p);
        }
        proof {
            assert(out@ =~= opt_seq(pos.get_neighbor_spec(self.size_spec(), ChunkNeighbor::North))
                + opt_seq(pos.get_neighbor_spec(self.size_spec(), ChunkNeighbor::South)) + opt_seq(
                pos.get_neighbor_spec(self.size_spec(), ChunkNeighbor::East),
            ) + opt_seq(pos.get_neighbor_spec(self.size_spec(), ChunkNeighbor::West)));
        }
        out
    }

    /// The block at a world cell.
    pub fn get_block(&self, pos: UVec3) -> (r: Option<Block>)
        requires
            self.wf(),
        ensures
            r == self.block_at_cell_spec(pos),
    {
        match self.size.convert_pos(pos) {
            None => None,
            Some((cp, sub)) => {
                proof {
                    assert(self.size_spec().index_spec(cp) < self.chunk_seq().len())
                        by (nonlinear_arith)
                        requires
                            cp.0 < self.size_spec().w,
                            cp.1 < self.size_spec().h,
                            self.chunk_seq().len() == self.size_spec().w * self.size_spec().h,
                            self.size_spec().index_spec(cp) == cp.1 * self.size_spec().w + cp.0,
                    ;
                }
                self.chunk_at(cp).get(sub)
            },
        }
    }

    /// Store or clear a world cell. Outside the world nothing changes and
    /// the call reports `false`; inside, the slot is updated, the owning
    /// chunk marked dirty, and the call reports `true`.
    pub fn set_block(&mut self, pos: UVec3, blk: Option<Block>) -> (r: bool)
        requires
            old(self).wf(),
        ensures
            final(self).wf(),
            final(self).size_spec() == old(self).size_spec(),
            match old(self).size_spec().convert_pos_spec(pos) {
                None => !r && *final(self) == *old(self),
                Some((cp, sub)) => {
                    let ci = old(self).size_spec().index_spec(cp);
                    &&& r
                    &&& final(self).chunk_seq() == old(self).chunk_seq().update(
                        ci,
                        final(self).chunk_seq()[ci],
                    )
                    &&& final(self).chunk_seq()[ci].contents() == old(self).chunk_seq()[
                        ci
                    ].contents().update(sub.0 as int, blk)
                    &&& final(self).chunk_seq()[ci].dirty_spec()
                },
            },
    {
        match self.size.convert_pos(pos) {
            None => false,
            Some((cp, sub)) => {
                let idx = self.size.get_index(cp);
                proof {
                    assert(idx < self.chunk_seq().len()) by (nonlinear_arith)
                        requires
                            cp.0 < self.size_spec().w,
                            cp.1 < self.size_spec().h,
                            self.chunk_seq().len() == self.size_spec().w * self.size_spec().h,
                            idx == cp.1 * self.size_spec().w + cp.0,
                    ;
                }
                let c = &mut self.chunks[idx];
                c.set(sub, blk);
                true
            },
        }
    }

    /// Every occupied cell the box overlaps, with the cell's corner
    /// coordinates, in the box's enumeration order. Cells outside the
    /// world are skipped, never errors.
    pub fn scan_aabb(&self, aabb: AABB) -> (r: Vec<(Vec3, Block)>)
        requires
            self.wf(),
            aabb.bounded(COORD_LIMIT as int),
        ensures
            r@ == scan_seq(*self, aabb.iter_pos_seq()),
            r@.len() <= aabb.iter_pos_seq().len(),
    {
        let cells = aabb.iter_pos();
        let ghost cseq = aabb.iter_pos_seq();
        let mut out: Vec<(Vec3, Block)> = Vec::new();
        let mut i: usize = 0;
        while i < cells.len()
            invariant
                self.wf(),
                cells@ == cseq,
                i <= cseq.len(),
                out@ == scan_seq(*self, cseq.take(i as int)),
                out@.len() <= i,
            decreases cseq.len() - i,
        {
            let p = cells[i];
            proof {
                assert(cseq.take(i + 1).drop_last() =~= cseq.take(i as int));
                assert(cseq.take(i + 1).last() == cseq[i as int]);
            }
            match self.get_block(p) {
                Some(b) => {
                    let corner = Vec3 {
                        x: (p.x as i64) * 1000,
                        y: (p.y as i64) * 1000,
                        z: (p.z as i64) * 1000,
                    };
                    proof {
                        assert(corner == cell_corner(p));
                    }
                    out.push((corner, b));
                },
                None => {},
            }
            i = i + 1;
        }
        proof {
            assert(cseq.take(cseq.len() as int) =~= cseq);
        }
        out
    }
}

/// A `Some` as a one-element sequence, a `None` as an empty one.
pub open spec fn opt_seq(o: Option<ChunkPos>) -> Seq<ChunkPos> {
    match o {
        Some(p) => seq![p],
        None => Seq::empty(),
    }
}

/// The bound the world volume itself allows: `[0, extent]` on each axis.
pub open spec fn world_bound_spec(size: MapSize) -> Bound3D {
    Bound3D {
        x: AxisInterval { start: Some(0i64), end: Some((size.w * 8000) as i64) },
        y: AxisInterval { start: Some(0i64), end: Some(64000i64) },
        z: AxisInterval { start: Some(0i64), end: Some((size.h * 8000) as i64) },
    }
}

/// Any item the scan yields sits at the corner of one of the scanned
/// cells.
pub proof fn lemma_scan_item(m: WorldMap, cells: Seq<UVec3>, k: int)
    requires
        0 <= k < scan_seq(m, cells).len(),
    ensures
        exists|j: int|
            0 <= j < cells.len() && scan_seq(m, cells)[k].0 == cell_corner(#[trigger] cells[j]),
    decreases cells.len(),
{
    if cells.len() == 0 {
    } else {
        let prev = scan_seq(m, cells.drop_last());
        if k < prev.len() {
            lemma_scan_item(m, cells.drop_last(), k);
            let j = choose|j: int|
                0 <= j < cells.drop_last().len() && scan_seq(m, cells.drop_last())[k].0
                    == cell_corner(#[trigger] cells.drop_last()[j]);
            assert(cells.drop_last()[j] == cells[j]);
            assert(scan_seq(m, cells)[k].0 == cell_corner(cells[j]));
        } else {
            let j = cells.len() - 1;
            assert(cells.last() == cells[j]);
            assert(scan_seq(m, cells)[k].0 == cell_corner(cells[j]));
        }
    }
}

impl Bound3D {
    /// The interval the world volume itself allows: `[0, extent]` on each
    /// axis.
    pub fn from_world(size: &MapSize) -> (r: Bound3D)
        ensures
            r == world_bound_spec(*size),
            r.x == (AxisInterval { start: Some(0i64), end: Some((size.w * 8000) as i64) }),
            r.y == (AxisInterval { start: Some(0i64), end: Some(64000i64) }),
            r.z == (AxisInterval { start: Some(0i64), end: Some((size.h * 8000) as i64) }),
    {
        Bound3D {
            x: AxisInterval { start: Some(0), end: Some(size.w as i64 * 8000) },
            y: AxisInterval { start: Some(0), end: Some(64000) },
            z: AxisInterval { start: Some(0), end: Some(size.h as i64 * 8000) },
        }
    }
}

} // verus!
