//! World generation: a one-shot callback that fills each chunk when the
//! map is first built.

use vstd::prelude::*;

use crate::block::Block;
use crate::chunk::{BlockSubPos, Chunk, CHUNK_SIZE};
use crate::world::ChunkPos;

verus! {

/// Supplies the initial contents of every chunk. `block_at_spec` is the
/// generator's own description of what it puts where; `generate` must
/// fill the chunk accordingly.
pub trait Generator {
    /// The block this generator places in packed slot `idx` of the chunk
    /// at `pos`.
    spec fn block_at_spec(&self, pos: ChunkPos, idx: int) -> Option<Block>;

    /// One-time setup before the first `generate` call; must not change
    /// what the generator places.
    fn init(&mut self, size: (u8, u8))
        ensures
            forall|pos: ChunkPos, idx: int| #[trigger]
                final(self).block_at_spec(pos, idx) == old(self).block_at_spec(pos, idx),
    ;

    /// Build the chunk at `pos`.
    fn generate(&self, pos: ChunkPos) -> (c: Chunk)
        ensures
            c.wf(),
            forall|idx: int|
                0 <= idx < 4096 ==> #[trigger] c.contents()[idx] == self.block_at_spec(pos, idx),
    ;
}

/// Generates a world with no blocks at all.
pub struct EmptyGenerator;

impl Generator for EmptyGenerator {
    open spec fn block_at_spec(&self, pos: ChunkPos, idx: int) -> Option<Block> {
        None
    }

    fn init(&mut self, size: (u8, u8)) {
    }

    fn generate(&self, pos: ChunkPos) -> (c: Chunk)
        ensures
            c.wf(),
            forall|idx: int|
                0 <= idx < 4096 ==> #[trigger] c.contents()[idx] == self.block_at_spec(pos, idx),
    {
        Chunk::empty()
    }
}

/// A run of identical layers: this block (or nothing), repeated this many
/// times upward.
#[derive(Debug, Clone, Copy)]
pub struct Span(pub Option<Block>, pub u8);

/// The layer list a span list expands to.
pub open spec fn expand_spans(s: Seq<Span>) -> Seq<Option<Block>>
    decreases s.len(),
{
    if s.len() == 0 {
        Seq::empty()
    } else {
        expand_spans(s.drop_last()) + Seq::new(s.last().1 as nat, |i: int| s.last().0)
    }
}

/// Generates the same column everywhere: layer `y` of every chunk holds
/// the block of layer `y` of the expanded span list.
pub struct FlatGenerator {
    data: Vec<Option<Block>>,
}

impl FlatGenerator {
    /// The expanded layer list.
    pub closed spec fn layers(&self) -> Seq<Option<Block>> {
        self.data@
    }

    /// Expand a span list into per-layer blocks. The expansion must stay
    /// under 256 layers.
    pub fn new(data: &[Span]) -> (r: FlatGenerator)
        requires
            expand_spans(data@).len() < 256,
        ensures
            r.layers() == expand_spans(data@),
    {
        let mut arr: Vec<Option<Block>> = Vec::new();
        let mut i: usize = 0;
        while i < data.len()
            invariant
                i <= data@.len(),
                arr@ == expand_spans(data@.take(i as int)),
                expand_spans(data@).len() < 256,
            decreases data@.len() - i,
        {
            proof {
                assert(data@.take(i + 1).drop_last() =~= data@.take(i as int));
                assert(data@.take(i + 1).last() == data@[i as int]);
                lemma_expand_spans_prefix_len(data@, i + 1);
            }
            let span = data[i];
            let mut k: u8 = 0;
            while k < span.1
                invariant
                    k <= span.1,
                    span == data@[i as int],
                    i < data@.len(),
                    arr@ == expand_spans(data@.take(i as int)) + Seq::new(
                        k as nat,
                        |j: int| span.0,
                    ),
                decreases span.1 - k,
            {
                arr.push(span.0);
                k = k + 1;
                proof {
                    assert(arr@ =~= expand_spans(data@.take(i as int)) + Seq::new(
                        k as nat,
                        |j: int| span.0,
                    ));
                }
            }
            i = i + 1;
            proof {
                assert(arr@ =~= expand_spans(data@.take(i as int)));
            }
        }
        proof {
            assert(data@.take(data@.len() as int) =~= data@);
        }
        FlatGenerator { data: arr }
    }

    /// The block of one layer; layers past the list are empty.
    fn fetch_block(&self, pos: u8) -> (r: Option<Block>)
        ensures
            r == if (pos as int) < self.layers().len() {
                self.layers()[pos as int]
            } else {
                None::<Block>
            },
    {
        let pos = pos as usize;
        if pos < self.data.len() {
            self.data[pos]
        } else {
            None
        }
    }
}

/// A prefix of a span list expands to at most as many layers as the whole
/// list.
proof fn lemma_expand_spans_prefix_len(s: Seq<Span>, n: int)
    requires
        0 <= n <= s.len(),
    ensures
        expand_spans(s.take(n)).len() <= expand_spans(s).len(),
    decreases s.len() - n,
{
    if n == s.len() {
        assert(s.take(n) =~= s);
    } else {
        lemma_expand_spans_prefix_len(s, n + 1);
        assert(s.take(n + 1).drop_last() =~= s.take(n));
    }
}

impl Generator for FlatGenerator {
    open spec fn block_at_spec(&self, pos: ChunkPos, idx: int) -> Option<Block> {
        let y = idx / 64;
        if y < self.layers().len() {
            self.layers()[y]
        } else {
            None
        }
    }

    fn init(&mut self, size: (u8, u8)) {
    }

    fn generate(&self, pos: ChunkPos) -> (c: Chunk)
        ensures
            c.wf(),
            forall|idx: int|
                0 <= idx < 4096 ==> #[trigger] c.contents()[idx] == self.block_at_spec(pos, idx),
    {
        let mut c = Chunk::empty();
        let mut i: usize = 0;
        while i < CHUNK_SIZE
            invariant
                c.wf(),
                i <= 4096,
                forall|j: int| 0 <= j < i ==> #[trigger] c.contents()[j] == self.block_at_spec(
                    pos,
                    j,
                ),
            decreases 4096 - i,
        {
            let y = (i / 64) as u8;
            let blk = self.fetch_block(y);
            c.set(BlockSubPos(i), blk);
            i = i + 1;
        }
        c
    }
}

} // verus!
