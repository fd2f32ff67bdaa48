//! Block colors: an RGB triple with the fixed palette the world generator
//! draws from.

use vstd::prelude::*;

verus! {

/// An RGB color with 8-bit channels.
#[derive(Debug, Clone, Copy, PartialEq, Eq, Structural)]
pub struct Color(pub u8, pub u8, pub u8);

impl Color {
    pub fn new(r: u8, g: u8, b: u8) -> (c: Color)
        ensures
            c == Color(r, g, b),
    {
        Color(r, g, b)
    }
}

pub fn green() -> (c: Color)
    ensures
        c == Color(0, 255, 0),
{
    Color(0, 255, 0)
}

pub fn red() -> (c: Color)
    ensures
        c == Color(255, 0, 0),
{
    Color(255, 0, 0)
}

pub fn blue() -> (c: Color)
    ensures
        c == Color(0, 0, 255),
{
    Color(0, 0, 255)
}

pub fn purple() -> (c: Color)
    ensures
        c == Color(255, 0, 255),
{
    Color(255, 0, 255)
}

pub fn yellow() -> (c: Color)
    ensures
        c == Color(255, 255, 0),
{
    Color(255, 255, 0)
}

pub fn aqua() -> (c: Color)
    ensures
        c == Color(0, 255, 255),
{
    Color(0, 255, 255)
}

} // verus!
