//! A three-valued sign flag: which way, if at all, a grid walker step
//! crossed an axis.

use vstd::prelude::*;

verus! {

/// Negative step, no step, or positive step along one axis.
#[derive(Debug, Clone, Copy, PartialEq, Eq, Structural)]
pub enum Trit {
    Neg,
    Zero,
    Pos,
}

impl Trit {
    /// `Pos` for `true`, `Neg` for `false`.
    pub fn from_bool(val: bool) -> (r: Trit)
        ensures
            r == if val {
                Trit::Pos
            } else {
                Trit::Neg
            },
    {
        if val {
            Trit::Pos
        } else {
            Trit::Neg
        }
    }

    /// `Some(true)` for a positive step, `Some(false)` for a negative one,
    /// `None` for no step.
    pub fn as_option_bool(self) -> (r: Option<bool>)
        ensures
            r == match self {
                Trit::Neg => Some(false),
                Trit::Zero => None::<bool>,
                Trit::Pos => Some(true),
            },
    {
        match self {
            Trit::Neg => Some(false),
            Trit::Zero => None,
            Trit::Pos => Some(true),
        }
    }

    /// One-character rendering: `T` for negative, `0` for none, `1` for
    /// positive.
    pub fn symbol(self) -> (r: &'static str)
        ensures
            self is Zero ==> r@ == "0"@,
            self is Pos ==> r@ == "1"@,
            self is Neg ==> r@ == "T"@,
    {
        match self {
            Trit::Neg => "T",
            Trit::Zero => "0",
            Trit::Pos => "1",
        }
    }
}

impl Default for Trit {
    /// The default flag is "no step".
    fn default() -> (r: Self)
        ensures
            r == Trit::Zero,
    {
        Trit::Zero
    }
}

} // verus!
