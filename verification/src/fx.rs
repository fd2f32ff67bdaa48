//! Fixed-point scalar arithmetic.
//!
//! A coordinate is an `i64` counting thousandths of a block edge. The
//! scaled product and quotient round half away from zero, which keeps the
//! grid walker's entry points on the grid lines they belong to.

use vstd::prelude::*;

verus! {

/// Absolute value as a mathematical integer.
pub open spec fn sabs(a: int) -> int {
    if a < 0 {
        -a
    } else {
        a
    }
}

/// Largest magnitude the fixed-point helpers accept; comfortably above any
/// world coordinate and any reciprocal the grid walker produces.
pub const FX_LIMIT: i64 = 2_000_000_000_000;

/// Largest magnitude of a world coordinate or extent the geometry works
/// with: a million blocks, far beyond the largest world a map can hold.
pub const COORD_LIMIT: i64 = 1_000_000_000;

/// Scaled product rounded half away from zero: the model of `fx_mul`.
pub open spec fn fx_mul_spec(a: int, b: int) -> int {
    let m = (sabs(a) * sabs(b) + 500) / 1000;
    if (a < 0) == (b < 0) {
        m
    } else {
        -m
    }
}

/// Scaled quotient rounded half away from zero: the model of `fx_div`.
pub open spec fn fx_div_spec(a: int, b: int) -> int {
    let m = (sabs(a) * 1000 + sabs(b) / 2) / sabs(b);
    if (a < 0) == (b < 0) {
        m
    } else {
        -m
    }
}

/// Half of a non-negative scalar, rounded down.
pub fn fx_half(a: i64) -> (r: i64)
    requires
        0 <= a,
    ensures
        r == a as int / 2,
{
    ((a as u64) / 2) as i64
}

/// The block index whose cell contains coordinate `a`: the floor of
/// `a / SCALE`. Euclidean division by the positive scale is exactly that
/// floor.
pub fn fx_floor_units(a: i64) -> (r: i64)
    requires
        -FX_LIMIT <= a <= FX_LIMIT,
    ensures
        r == a as int / 1000,
{
    if a >= 0 {
        ((a as u64) / 1000) as i64
    } else {
        let b: u64 = (-a) as u64;
        let m: u64 = (b + 999) / 1000;
        proof {
            vstd::arithmetic::div_mod::lemma_fundamental_div_mod(b as int + 999, 1000);
            let s = (b + 999) % 1000int;
            vstd::arithmetic::div_mod::lemma_fundamental_div_mod_converse(
                a as int,
                1000,
                -(m as int),
                999 - s,
            );
        }
        -(m as i64)
    }
}

/// The first block index at or past coordinate `a`: the ceiling of
/// `a / SCALE`, written with Euclidean division as `-((-a) / SCALE)`.
pub fn fx_ceil_units(a: i64) -> (r: i64)
    requires
        -FX_LIMIT <= a <= FX_LIMIT,
    ensures
        r == -((-a) / 1000),
{
    if a <= 0 {
        -((((-a) as u64) / 1000) as i64)
    } else {
        let m: u64 = ((a as u64) + 999) / 1000;
        proof {
            vstd::arithmetic::div_mod::lemma_fundamental_div_mod(a as int + 999, 1000);
            let s = (a + 999) % 1000int;
            vstd::arithmetic::div_mod::lemma_fundamental_div_mod_converse(
                -(a as int),
                1000,
                -(m as int),
                999 - s,
            );
        }
        m as i64
    }
}

/// Absolute value of a bounded fixed-point scalar.
pub fn fx_abs(a: i64) -> (r: i64)
    requires
        -FX_LIMIT <= a <= FX_LIMIT,
    ensures
        r == sabs(a as int),
{
    if a < 0 {
        -a
    } else {
        a
    }
}

/// Product of two fixed-point scalars, `(a * b) / SCALE` rounded half away
/// from zero.
pub fn fx_mul(a: i64, b: i64) -> (r: i64)
    requires
        -FX_LIMIT <= a <= FX_LIMIT,
        -FX_LIMIT <= b <= FX_LIMIT,
        sabs(a as int) * sabs(b as int) <= 4_000_000_000_000_000_000,
    ensures
        r == fx_mul_spec(a as int, b as int),
        sabs(r as int) == (sabs(a as int) * sabs(b as int) + 500) / 1000,
{
    let au: u64 = fx_abs(a) as u64;
    let bu: u64 = fx_abs(b) as u64;
    proof {
        assert(au * bu <= 4_000_000_000_000_000_000) by (nonlinear_arith)
            requires
                au == sabs(a as int),
                bu == sabs(b as int),
                sabs(a as int) * sabs(b as int) <= 4_000_000_000_000_000_000,
        ;
    }
    let m: u64 = (au * bu + 500) / 1000;
    proof {
        assert(m <= au * bu + 500) by (nonlinear_arith)
            requires
                m == (au * bu + 500) / 1000int,
        ;
    }
    if (a < 0) == (b < 0) {
        m as i64
    } else {
        -(m as i64)
    }
}

/// Quotient of two fixed-point scalars, `(a / b) * SCALE` rounded half away
/// from zero.
pub fn fx_div(a: i64, b: i64) -> (r: i64)
    requires
        b != 0,
        -FX_LIMIT <= a <= FX_LIMIT,
        -FX_LIMIT <= b <= FX_LIMIT,
    ensures
        r == fx_div_spec(a as int, b as int),
        sabs(r as int) <= sabs(a as int) * 1000 + sabs(b as int) / 2,
        sabs(a as int) <= sabs(b as int) ==> sabs(r as int) <= 1000,
{
    let au: u64 = fx_abs(a) as u64;
    let bu: u64 = fx_abs(b) as u64;
    let m: u64 = (au * 1000 + bu / 2) / bu;
    proof {
        assert(m <= au * 1000 + bu / 2) by (nonlinear_arith)
            requires
                bu >= 1,
                m == (au * 1000 + bu / 2) / (bu as int),
        ;
        if au <= bu {
            vstd::arithmetic::div_mod::lemma_div_is_ordered(
                au * 1000 + bu / 2,
                bu * 1000 + bu / 2,
                bu as int,
            );
            vstd::arithmetic::div_mod::lemma_fundamental_div_mod_converse(
                bu * 1000 + bu / 2,
                bu as int,
                1000,
                (bu / 2) as int,
            );
            assert(m <= 1000);
        }
    }
    if (a < 0) == (b < 0) {
        m as i64
    } else {
        -(m as i64)
    }
}


/// Magnitude bound for a scaled product from bounds on its factors.
pub proof fn lemma_fx_mul_bound(a: int, b: int, ma: int, mb: int)
    requires
        sabs(a) <= ma,
        sabs(b) <= mb,
        0 <= ma,
        0 <= mb,
    ensures
        sabs(fx_mul_spec(a, b)) <= (ma * mb + 500) / 1000,
{
    assert(sabs(a) * sabs(b) <= ma * mb) by (nonlinear_arith)
        requires
            0 <= sabs(a) <= ma,
            0 <= sabs(b) <= mb,
    ;
    vstd::arithmetic::div_mod::lemma_div_is_ordered(
        sabs(a) * sabs(b) + 500,
        ma * mb + 500,
        1000,
    );
}

/// The integer square root, defined by counting up: the largest `r` with
/// `r * r <= n`.
pub open spec fn isqrt_spec(n: int) -> int
    decreases n,
{
    if n <= 0 {
        0
    } else {
        let p = isqrt_spec(n - 1);
        if (p + 1) * (p + 1) <= n {
            p + 1
        } else {
            p
        }
    }
}

/// `isqrt_spec` squares to at most its argument, and one more does not.
pub proof fn lemma_isqrt_spec_bounds(n: int)
    requires
        0 <= n,
    ensures
        0 <= isqrt_spec(n),
        isqrt_spec(n) * isqrt_spec(n) <= n,
        n < (isqrt_spec(n) + 1) * (isqrt_spec(n) + 1),
    decreases n,
{
    if n == 0 {
    } else {
        lemma_isqrt_spec_bounds(n - 1);
        let p = isqrt_spec(n - 1);
        if (p + 1) * (p + 1) <= n {
            assert(n < (p + 2) * (p + 2)) by (nonlinear_arith)
                requires
                    n - 1 < (p + 1) * (p + 1),
                    (p + 1) * (p + 1) <= n,
                    0 <= p,
            ;
        }
    }
}

/// Any root with the bracketing property is the integer square root.
pub proof fn lemma_isqrt_unique(n: int, r: int)
    requires
        0 <= n,
        0 <= r,
        r * r <= n,
        n < (r + 1) * (r + 1),
    ensures
        r == isqrt_spec(n),
{
    lemma_isqrt_spec_bounds(n);
    let s = isqrt_spec(n);
    assert(r == s) by (nonlinear_arith)
        requires
            0 <= r,
            0 <= s,
            r * r <= n,
            n < (r + 1) * (r + 1),
            s * s <= n,
            n < (s + 1) * (s + 1),
    ;
}

/// Integer square root of a bounded number.
pub fn isqrt(n: u64) -> (r: u64)
    requires
        n <= 4_000_000_000_000,
    ensures
        r == isqrt_spec(n as int),
        r * r <= n,
        n < (r + 1) * (r + 1),
        r <= 2_000_001,
{
    let mut r: u64 = 0;
    while (r + 1) * (r + 1) <= n
        invariant
            n <= 4_000_000_000_000,
            r * r <= n,
            r <= 2_000_001,
            (r + 1) * (r + 1) <= 4_100_000_000_000_000,
        decreases n - r,
    {
        r = r + 1;
        proof {
            assert(r <= 2_000_001) by (nonlinear_arith)
                requires
                    r * r <= n,
                    n <= 4_000_000_000_000,
            ;
            assert(r <= n) by (nonlinear_arith)
                requires
                    r * r <= n,
                    1 <= r,
            ;
            assert((r + 1) * (r + 1) <= 4_100_000_000_000_000) by (nonlinear_arith)
                requires
                    r <= 2_000_001,
            ;
        }
    }
    proof {
        lemma_isqrt_unique(n as int, r as int);
    }
    r
}

} // verus!
