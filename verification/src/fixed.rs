//! Fixed-point arithmetic for grid-space quantities.
//!
//! A continuous value `v` (a coordinate, a distance) is carried as the integer
//! `v * 1000`, truncated toward zero; one grid cell spans `FP_ONE` units.

use vstd::prelude::*;

verus! {

/// Number of fixed-point units per grid cell (or per radian, for angles).
pub const FP_ONE: i64 = 1000;

/// Scales a double-width product back down by `FP_ONE`, truncating toward
/// zero, as the narrowing of a product of two fixed-point values does.
pub open spec fn fp_down(p: int) -> int {
    if p >= 0 {
        p / 1000
    } else {
        -((-p) / 1000)
    }
}

/// The fixed-point product of `a` and `b`: scaled by `FP_ONE` once, not twice.
pub open spec fn fp_scale(a: int, b: int) -> int {
    fp_down(a * b)
}

/// Fixed-point multiplication; the factors must be small enough that the
/// double-width product fits in `i64`.
pub fn fp_mul(a: i64, b: i64) -> (r: i64)
    requires
        -1_000_000 <= a <= 1_000_000,
        -1_000_000_000_000 <= b <= 1_000_000_000_000,
    ensures
        r == fp_scale(a as int, b as int),
{
    proof {
        assert(-1_000_000_000_000_000_000 <= a * b <= 1_000_000_000_000_000_000)
            by (nonlinear_arith)
            requires
                -1_000_000 <= a <= 1_000_000,
                -1_000_000_000_000 <= b <= 1_000_000_000_000,
        ;
    }
    let p: i64 = a * b;
    if p >= 0 {
        ((p as u64) / 1000) as i64
    } else {
        -((((-p) as u64) / 1000) as i64)
    }
}

/// Scales a value down by `FP_ONE`, truncating toward zero.
pub fn fp_down_ex(p: i64) -> (r: i64)
    requires
        -4_000_000_000_000_000_000 <= p <= 4_000_000_000_000_000_000,
    ensures
        r == fp_down(p as int),
{
    if p >= 0 {
        ((p as u64) / 1000) as i64
    } else {
        -((((-p) as u64) / 1000) as i64)
    }
}

/// A fixed-point product with a factor of at most one whole unit cannot grow
/// past the other factor's bound.
pub proof fn lemma_fp_scale_bound(a: int, b: int, m: int)
    requires
        -1000 <= a <= 1000,
        0 <= b <= m,
    ensures
        -m <= fp_scale(a, b) <= m,
{
    assert(-(1000 * m) <= a * b <= 1000 * m) by (nonlinear_arith)
        requires
            -1000 <= a <= 1000,
            0 <= b <= m,
    ;
    let p = a * b;
    if p >= 0 {
        assert(0 <= p / 1000 <= m) by (nonlinear_arith)
            requires
                0 <= p <= 1000 * m,
        ;
    } else {
        assert(0 <= (-p) / 1000 <= m) by (nonlinear_arith)
            requires
                0 <= -p <= 1000 * m,
        ;
    }
}

/// Scaling a whole number of cells up and back down is exact.
pub proof fn lemma_fp_down_exact(d: int)
    requires
        d >= 0,
    ensures
        fp_down(d * 1000) == d,
{
    assert((d * 1000) / 1000 == d) by (nonlinear_arith);
}

} // verus!
