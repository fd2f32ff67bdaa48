//! Block descriptors: what can occupy a voxel cell.

use vstd::prelude::*;

use crate::color::Color;

verus! {

/// The kind of matter a block is made of. Every current block is solid;
/// the enum leaves room for more kinds.
#[derive(Debug, Clone, Copy, PartialEq, Eq, Structural)]
pub enum BlockType {
    Solid { color: Color },
}

/// A block descriptor: a display name and its kind.
#[derive(Debug, Clone, Copy)]
pub struct Block {
    /// Block name.
    pub name: &'static str,
    /// Block data.
    pub data: BlockType,
}

/// A solid block with the given name and color.
pub fn solid_block(name: &'static str, color: Color) -> (b: Block)
    ensures
        b.name == name,
        b.data == (BlockType::Solid { color }),
{
    Block { name, data: BlockType::Solid { color } }
}

} // verus!
