//! The six face directions of a voxel cell.

use vstd::prelude::*;

use crate::axis::Axis;

verus! {

/// A face direction. North and South run along Z, East and West along X,
/// Up and Down along Y.
#[derive(Debug, Clone, Copy, PartialEq, Eq, PartialOrd, Ord, Hash, Structural)]
pub enum Direction {
    North,
    South,
    East,
    West,
    Up,
    Down,
}

impl Direction {
    pub open spec fn from_axis_spec(axis: Axis, is_positive: bool) -> Direction {
        match axis {
            Axis::X => if is_positive {
                Direction::East
            } else {
                Direction::West
            },
            Axis::Y => if is_positive {
                Direction::Up
            } else {
                Direction::Down
            },
            Axis::Z => if is_positive {
                Direction::South
            } else {
                Direction::North
            },
        }
    }

    /// The face an axis step points at: the positive side of X is East, of
    /// Y is Up, of Z is South.
    pub fn from_axis(axis: Axis, is_positive: bool) -> (r: Direction)
        ensures
            r == Direction::from_axis_spec(axis, is_positive),
    {
        match axis {
            Axis::X => if is_positive {
                Direction::East
            } else {
                Direction::West
            },
            Axis::Y => if is_positive {
                Direction::Up
            } else {
                Direction::Down
            },
            Axis::Z => if is_positive {
                Direction::South
            } else {
                Direction::North
            },
        }
    }

    /// The unit offset of the neighboring cell this face looks into, as
    /// `(x, y, z)`.
    pub fn offset(self) -> (r: (i32, i32, i32))
        ensures
            r == match self {
                Direction::North => (0i32, 0i32, 1i32),
                Direction::South => (0i32, 0i32, -1i32),
                Direction::East => (-1i32, 0i32, 0i32),
                Direction::West => (1i32, 0i32, 0i32),
                Direction::Up => (0i32, -1i32, 0i32),
                Direction::Down => (0i32, 1i32, 0i32),
            },
    {
        match self {
            Direction::North => (0, 0, 1),
            Direction::South => (0, 0, -1),
            Direction::East => (-1, 0, 0),
            Direction::West => (1, 0, 0),
            Direction::Up => (0, -1, 0),
            Direction::Down => (0, 1, 0),
        }
    }
}

} // verus!
