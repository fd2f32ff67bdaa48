//! The three spatial axes and the fixed 3-element sorting network used to
//! order them by a per-axis key.

use vstd::prelude::*;

verus! {

/// One of the three spatial axes.
#[derive(Debug, Clone, Copy, PartialEq, Eq, Structural)]
pub enum Axis {
    X,
    Y,
    Z,
}

impl Axis {
    /// The other two axes, in a fixed order.
    pub fn rest(self) -> (r: (Axis, Axis))
        ensures
            r == self.rest_spec(),
    {
        match self {
            Axis::X => (Axis::Y, Axis::Z),
            Axis::Y => (Axis::X, Axis::Z),
            Axis::Z => (Axis::X, Axis::Y),
        }
    }

    pub open spec fn rest_spec(self) -> (Axis, Axis) {
        match self {
            Axis::X => (Axis::Y, Axis::Z),
            Axis::Y => (Axis::X, Axis::Z),
            Axis::Z => (Axis::X, Axis::Y),
        }
    }

    /// Build a three-component value by asking `f` for each axis in X,
    /// Y, Z order.
    pub fn generate<T, F: Fn(Axis) -> T>(f: F) -> (r: (T, T, T))
        requires
            call_requires(f, (Axis::X,)),
            call_requires(f, (Axis::Y,)),
            call_requires(f, (Axis::Z,)),
        ensures
            call_ensures(f, (Axis::X,), r.0),
            call_ensures(f, (Axis::Y,), r.1),
            call_ensures(f, (Axis::Z,), r.2),
    {
        let x = f(Axis::X);
        let y = f(Axis::Y);
        let z = f(Axis::Z);
        (x, y, z)
    }
}

/// Result of sorting the three axes by descending key: the network
/// compares and swaps (X,Y), then (Y,Z), then (X,Y) again, never swapping
/// on equality, so ties keep the X, Y, Z enumeration order.
pub open spec fn sort_axes_desc_spec(x: int, y: int, z: int) -> (Axis, Axis, Axis) {
    let (a0, a1, v0, v1) = if x < y { (Axis::Y, Axis::X, y, x) } else { (Axis::X, Axis::Y, x, y) };
    let (b1, b2, w1, w2) = if v1 < z { (Axis::Z, a1, z, v1) } else { (a1, Axis::Z, v1, z) };
    let (c0, c1) = if v0 < w1 { (b1, a0) } else { (a0, b1) };
    (c0, c1, b2)
}

/// Sort the axes by descending key with the fixed three-comparison network.
pub fn sort_axes_desc(x: i64, y: i64, z: i64) -> (r: (Axis, Axis, Axis))
    ensures
        r == sort_axes_desc_spec(x as int, y as int, z as int),
{
    let (a0, a1, v0, v1) = if x < y { (Axis::Y, Axis::X, y, x) } else { (Axis::X, Axis::Y, x, y) };
    let (b1, b2, w1, w2) = if v1 < z { (Axis::Z, a1, z, v1) } else { (a1, Axis::Z, v1, z) };
    let (c0, c1) = if v0 < w1 { (b1, a0) } else { (a0, b1) };
    (c0, c1, b2)
}

/// The sorted axes are a permutation of {X, Y, Z}.
pub proof fn lemma_sort_axes_desc_permutes(x: int, y: int, z: int)
    ensures
        ({
            let (a, b, c) = sort_axes_desc_spec(x, y, z);
            a != b && b != c && a != c
        }),
{
}

/// The key of an axis, for stating sortedness.
pub open spec fn axis_key(a: Axis, x: int, y: int, z: int) -> int {
    match a {
        Axis::X => x,
        Axis::Y => y,
        Axis::Z => z,
    }
}

/// Three comparisons fully sort three keys: the selected axes carry
/// non-increasing keys.
pub proof fn lemma_sort_axes_desc_sorted(x: int, y: int, z: int)
    ensures
        ({
            let (a, b, c) = sort_axes_desc_spec(x, y, z);
            axis_key(a, x, y, z) >= axis_key(b, x, y, z) >= axis_key(c, x, y, z)
        }),
{
}

/// Axis-indexed read access to a three-component value. Components in this
/// library are `Copy`, so access is by value.
pub trait HasAxis {
    type Target;

    /// What `get_axis` returns, as a specification-level function.
    spec fn get_axis_spec(&self, axis: Axis) -> Self::Target;

    fn get_axis(&self, axis: Axis) -> (r: Self::Target)
        ensures
            r == self.get_axis_spec(axis),
    ;
}

/// Axis-indexed write access: setting one axis leaves the other two
/// components unchanged.
pub trait HasAxisMut: HasAxis {
    fn set_axis(&mut self, axis: Axis, value: Self::Target)
        ensures
            forall|a: Axis| #[trigger]
                final(self).get_axis_spec(a) == if a == axis {
                    value
                } else {
                    old(self).get_axis_spec(a)
                },
    ;
}

} // verus!
