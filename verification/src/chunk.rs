//! Fixed-size block storage: one chunk holds `CHUNK_WIDTH` by
//! `CHUNK_HEIGHT` by `CHUNK_WIDTH` optional blocks in a flat vector.

use vstd::prelude::*;

use crate::block::{Block, BlockType};
use crate::color::Color;
use crate::direction::Direction;

verus! {

/// Blocks per chunk edge on X and Z.
pub const CHUNK_WIDTH: usize = 8;

/// Blocks per chunk on Y; the world is never chunked vertically.
pub const CHUNK_HEIGHT: usize = 64;

/// Slots in one chunk.
pub const CHUNK_SIZE: usize = 8 * 8 * 64;

/// A position inside one chunk, packed as `x + WIDTH * (z + WIDTH * y)`.
#[derive(Debug, Clone, Copy, PartialEq, Eq, Hash, Structural)]
pub struct BlockSubPos(pub usize);

/// The packed index of local coordinates.
pub open spec fn sub_index(x: int, y: int, z: int) -> int {
    x + 8 * z + 64 * y
}

impl BlockSubPos {
    pub open spec fn wf(self) -> bool {
        self.0 < 4096
    }

    pub open spec fn x_spec(self) -> int {
        self.0 as int % 8
    }

    pub open spec fn z_spec(self) -> int {
        (self.0 as int / 8) % 8
    }

    pub open spec fn y_spec(self) -> int {
        self.0 as int / 64
    }

    /// Pack local coordinates; the caller keeps them in range.
    pub fn new(x: u8, y: u8, z: u8) -> (r: BlockSubPos)
        requires
            x < 8,
            y < 64,
            z < 8,
        ensures
            r.0 == sub_index(x as int, y as int, z as int),
            r.wf(),
            r.x_spec() == x,
            r.y_spec() == y,
            r.z_spec() == z,
    {
        let r = BlockSubPos(x as usize + 8 * (z as usize) + 64 * (y as usize));
        proof {
            lemma_sub_index_coords(x as int, y as int, z as int);
        }
        r
    }

    /// Pack local coordinates, or `None` when any is out of range.
    pub fn try_new(x: u8, y: u8, z: u8) -> (r: Option<BlockSubPos>)
        ensures
            r is Some <==> x < 8 && y < 64 && z < 8,
            r is Some ==> (r->0).0 == sub_index(x as int, y as int, z as int) && (r->0).wf(),
    {
        if x < 8 && y < 64 && z < 8 {
            Some(BlockSubPos::new(x, y, z))
        } else {
            None
        }
    }

    /// The local coordinates this index packs.
    pub fn into_xyz(self) -> (r: (u8, u8, u8))
        requires
            self.wf(),
        ensures
            r.0 == self.x_spec(),
            r.1 == self.y_spec(),
            r.2 == self.z_spec(),
            r.0 < 8 && r.1 < 64 && r.2 < 8,
    {
        let x = (self.0 % 8) as u8;
        let z = (self.0 / 8 % 8) as u8;
        let y = (self.0 / 64) as u8;
        (x, y, z)
    }

    pub open spec fn neighbor_spec(self, dir: Direction) -> Option<BlockSubPos> {
        let x = self.x_spec();
        let y = self.y_spec();
        let z = self.z_spec();
        match dir {
            Direction::North => if z == 0 {
                None
            } else {
                Some(BlockSubPos(sub_index(x, y, z - 1) as usize))
            },
            Direction::South => if z >= 7 {
                None
            } else {
                Some(BlockSubPos(sub_index(x, y, z + 1) as usize))
            },
            Direction::East => if x >= 7 {
                None
            } else {
                Some(BlockSubPos(sub_index(x + 1, y, z) as usize))
            },
            Direction::West => if x == 0 {
                None
            } else {
                Some(BlockSubPos(sub_index(x - 1, y, z) as usize))
            },
            Direction::Up => if y >= 63 {
                None
            } else {
                Some(BlockSubPos(sub_index(x, y + 1, z) as usize))
            },
            Direction::Down => if y == 0 {
                None
            } else {
                Some(BlockSubPos(sub_index(x, y - 1, z) as usize))
            },
        }
    }

    /// The neighboring position one step in `dir`, or `None` at the
    /// chunk's edge.
    pub fn neighbor(self, dir: Direction) -> (r: Option<BlockSubPos>)
        requires
            self.wf(),
        ensures
            r == self.neighbor_spec(dir),
            r is Some ==> r->0.wf(),
    {
        let (x, y, z) = self.into_xyz();
        proof {
            if x >= 1 {
                lemma_sub_index_coords(x - 1, y as int, z as int);
            }
            if x < 7 {
                lemma_sub_index_coords(x + 1, y as int, z as int);
            }
            if y >= 1 {
                lemma_sub_index_coords(x as int, y - 1, z as int);
            }
            if y < 63 {
                lemma_sub_index_coords(x as int, y + 1, z as int);
            }
            if z >= 1 {
                lemma_sub_index_coords(x as int, y as int, z - 1);
            }
            if z < 7 {
                lemma_sub_index_coords(x as int, y as int, z + 1);
            }
        }
        match dir {
            Direction::North => if z == 0 {
                None
            } else {
                Some(BlockSubPos::new(x, y, z - 1))
            },
            Direction::South => if z >= 7 {
                None
            } else {
                Some(BlockSubPos::new(x, y, z + 1))
            },
            Direction::East => if x >= 7 {
                None
            } else {
                Some(BlockSubPos::new(x + 1, y, z))
            },
            Direction::West => if x == 0 {
                None
            } else {
                Some(BlockSubPos::new(x - 1, y, z))
            },
            Direction::Up => if y >= 63 {
                None
            } else {
                Some(BlockSubPos::new(x, y + 1, z))
            },
            Direction::Down => if y == 0 {
                None
            } else {
                Some(BlockSubPos::new(x, y - 1, z))
            },
        }
    }
}

/// A packed index decomposes back into the coordinates it was packed
/// from.
proof fn lemma_sub_index_coords(x: int, y: int, z: int)
    requires
        0 <= x < 8,
        0 <= y < 64,
        0 <= z < 8,
    ensures
        0 <= sub_index(x, y, z) < 4096,
        sub_index(x, y, z) % 8 == x,
        (sub_index(x, y, z) / 8) % 8 == z,
        sub_index(x, y, z) / 64 == y,
{
    let i = sub_index(x, y, z);
    vstd::arithmetic::div_mod::lemma_fundamental_div_mod_converse(i, 8, z + 8 * y, x);
    vstd::arithmetic::div_mod::lemma_fundamental_div_mod_converse(z + 8 * y, 8, y, z);
    vstd::arithmetic::div_mod::lemma_fundamental_div_mod_converse(i, 64, y, x + 8 * z);
}

/// `CHUNK_WIDTH` by `CHUNK_WIDTH` by `CHUNK_HEIGHT` block storage with a
/// dirty flag for renderer invalidation.
pub struct Chunk {
    dirty: bool,
    data: Vec<Option<Block>>,
}

/// The solid slots of a chunk's contents, in index order, with their
/// colors.
pub open spec fn solid_seq(s: Seq<Option<Block>>) -> Seq<(BlockSubPos, Color)>
    decreases s.len(),
{
    if s.len() == 0 {
        Seq::empty()
    } else {
        solid_seq(s.drop_last()) + match s.last() {
            Some(b) => match b.data {
                BlockType::Solid { color } => seq![
                    (BlockSubPos((s.len() - 1) as usize), color),
                ],
            },
            None => Seq::empty(),
        }
    }
}

impl Chunk {
    /// The chunk's slots, by packed index.
    pub closed spec fn contents(&self) -> Seq<Option<Block>> {
        self.data@
    }

    pub closed spec fn dirty_spec(&self) -> bool {
        self.dirty
    }

    /// Every chunk holds exactly `CHUNK_SIZE` slots.
    pub open spec fn wf(&self) -> bool {
        self.contents().len() == 4096
    }

    /// A chunk with every slot empty, marked dirty so the renderer picks
    /// it up.
    pub fn empty() -> (r: Chunk)
        ensures
            r.wf(),
            r.dirty_spec(),
            forall|i: int| 0 <= i < 4096 ==> r.contents()[i] is None,
    {
        let mut data: Vec<Option<Block>> = Vec::new();
        let mut i: usize = 0;
        while i < CHUNK_SIZE
            invariant
                i <= 4096,
                data@.len() == i,
                forall|j: int| 0 <= j < i ==> data@[j] is None,
            decreases 4096 - i,
        {
            data.push(None);
            i = i + 1;
        }
        Chunk { dirty: true, data }
    }

    /// Upper bound on how many faces a chunk can expose: every slot's
    /// three positive faces plus one boundary layer per axis.
    pub fn max_face_count() -> (r: usize)
        ensures
            r == 3 * 4096 + 64 + 2 * 8 * 64,
    {
        3 * CHUNK_WIDTH * CHUNK_WIDTH * CHUNK_HEIGHT + CHUNK_WIDTH * CHUNK_WIDTH + 2 * CHUNK_WIDTH
            * CHUNK_HEIGHT
    }

    /// The block stored at a position.
    pub fn get(&self, pos: BlockSubPos) -> (r: Option<Block>)
        requires
            self.wf(),
            pos.wf(),
        ensures
            r == self.contents()[pos.0 as int],
    {
        self.data[pos.0]
    }

    /// Store a block (or clear the slot) and mark the chunk dirty.
    pub fn set(&mut self, pos: BlockSubPos, blk: Option<Block>)
        requires
            old(self).wf(),
            pos.wf(),
        ensures
            final(self).wf(),
            final(self).contents() == old(self).contents().update(pos.0 as int, blk),
            final(self).dirty_spec(),
    {
        let slot = &mut self.data[pos.0];
        *slot = blk;
        self.dirty = true;
    }

    /// Whether the renderer still has to re-read this chunk.
    pub fn dirty(&self) -> (r: bool)
        ensures
            r == self.dirty_spec(),
    {
        self.dirty
    }

    /// The renderer consumed the chunk; contents are untouched.
    pub fn mark_clean(&mut self)
        ensures
            final(self).contents() == old(self).contents(),
            !final(self).dirty_spec(),
    {
        self.dirty = false;
    }

    /// Every slot with its position, in index order.
    pub fn iter(&self) -> (r: Vec<(BlockSubPos, Option<Block>)>)
        requires
            self.wf(),
        ensures
            r@.len() == 4096,
            forall|i: int| 0 <= i < 4096 ==> r@[i] == (BlockSubPos(i as usize), self.contents()[i]),
    {
        let mut out: Vec<(BlockSubPos, Option<Block>)> = Vec::new();
        let mut i: usize = 0;
        while i < CHUNK_SIZE
            invariant
                self.wf(),
                i <= 4096,
                out@.len() == i,
                forall|j: int| 0 <= j < i ==> out@[j] == (
                    BlockSubPos(j as usize),
                    self.contents()[j],
                ),
            decreases 4096 - i,
        {
            out.push((BlockSubPos(i), self.get(BlockSubPos(i))));
            i = i + 1;
        }
        out
    }

    /// The solid blocks with their colors, in index order.
    pub fn iter_solid(&self) -> (r: Vec<(BlockSubPos, Color)>)
        requires
            self.wf(),
        ensures
            r@ == solid_seq(self.contents()),
    {
        let mut out: Vec<(BlockSubPos, Color)> = Vec::new();
        let mut i: usize = 0;
        while i < CHUNK_SIZE
            invariant
                self.wf(),
                i <= 4096,
                out@ == solid_seq(self.contents().take(i as int)),
            decreases 4096 - i,
        {
            proof {
                assert(self.contents().take(i + 1).drop_last() =~= self.contents().take(i as int));
                assert(self.contents().take(i + 1).last() == self.contents()[i as int]);
            }
            match self.get(BlockSubPos(i)) {
                Some(b) => match b.data {
                    BlockType::Solid { color } => {
                        out.push((BlockSubPos(i), color));
                    },
                },
                None => {},
            }
            i = i + 1;
        }
        proof {
            assert(self.contents().take(4096) =~= self.contents());
        }
        out
    }
}

} // verus!
