//! Fixed-point trigonometry on angles in milliradians.
//!
//! The sine is Bhaskara's rational approximation on a half turn, extended by
//! symmetry; the cosine is the sine shifted by a quarter turn. The circle
//! constants are rounded to whole milliradians, which fixes the precision of
//! the whole angle model. At the key anchor angles the approximation is
//! exact: `sin(0) == 0` and `cos(0) == FP_ONE`.

use vstd::prelude::*;

verus! {

/// Half a turn, in milliradians.
pub const PI_MRAD: i64 = 3142;
/// A full turn, in milliradians.
pub const TWO_PI_MRAD: i64 = 6283;
/// A quarter turn, in milliradians.
pub const HALF_PI_MRAD: i64 = 1571;

/// An angle wrapped into `[0, TWO_PI_MRAD)`.
pub open spec fn norm_angle(a: int) -> int {
    a % (TWO_PI_MRAD as int)
}

/// Bhaskara's sine approximation on `[0, PI_MRAD]`, scaled by `FP_ONE`.
pub open spec fn half_sine(x: int) -> int {
    (16000 * (x * (3142 - x))) / (49360820 - 4 * (x * (3142 - x)))
}

/// The fixed-point sine of an angle in milliradians.
pub open spec fn sin_mrad(a: int) -> int {
    let x = norm_angle(a);
    if x <= 3142 {
        half_sine(x)
    } else {
        -half_sine(x - 3142)
    }
}

/// The fixed-point cosine: the sine a quarter turn ahead.
pub open spec fn cos_mrad(a: int) -> int {
    sin_mrad(a + HALF_PI_MRAD)
}

/// Wraps an angle into `[0, TWO_PI_MRAD)`.
pub fn norm_angle_ex(a: i64) -> (r: i64)
    requires
        -4_000_000_000_000 <= a <= 4_000_000_000_000,
    ensures
        r == norm_angle(a as int),
        0 <= r < TWO_PI_MRAD,
{
    if a >= 0 {
        ((a as u64) % 6283) as i64
    } else {
        let m: i64 = (((-a) as u64) % 6283) as i64;
        proof {
            lemma_mod_of_negative(a as int, m as int);
        }
        if m == 0 {
            0
        } else {
            6283 - m
        }
    }
}

/// Euclidean remainder of a negative value, from the remainder of its
/// magnitude.
proof fn lemma_mod_of_negative(a: int, m: int)
    requires
        a < 0,
        m == (-a) % 6283,
    ensures
        m == 0 ==> a % 6283 == 0,
        m != 0 ==> a % 6283 == 6283 - m,
{
    let k = -a;
    let q = k / 6283;
    assert(k == 6283 * q + m) by (nonlinear_arith)
        requires
            k >= 0,
            q == k / 6283,
            m == k % 6283,
    ;
    if m == 0 {
        assert(a == 6283 * (-q));
        assert(a % 6283 == 0) by (nonlinear_arith)
            requires
                a == 6283 * (-q),
        ;
    } else {
        assert(a == 6283 * (-q - 1) + (6283 - m));
        assert(a % 6283 == 6283 - m) by (nonlinear_arith)
            requires
                a == 6283 * (-q - 1) + (6283 - m),
                0 < 6283 - m < 6283,
        ;
    }
}

/// Bhaskara's approximation as executable code.
fn half_sine_ex(x: i64) -> (r: i64)
    requires
        0 <= x <= 3142,
    ensures
        r == half_sine(x as int),
        0 <= r <= 1000,
{
    proof {
        lemma_half_sine_product_bound(x as int);
    }
    let p: u64 = (x as u64) * ((3142 - x) as u64);
    let num: u64 = 16000 * p;
    let den: u64 = 49360820 - 4 * p;
    let r = (num / den) as i64;
    proof {
        assert(num <= 1000 * den);
        assert(num / den <= 1000) by (nonlinear_arith)
            requires
                num <= 1000 * den,
                den > 0,
        ;
    }
    r
}

/// On a half turn the product `x * (PI_MRAD - x)` peaks at the quarter turn.
proof fn lemma_half_sine_product_bound(x: int)
    requires
        0 <= x <= 3142,
    ensures
        0 <= x * (3142 - x) <= 2468041,
{
    assert(0 <= x * (3142 - x) <= 1571 * 1571) by (nonlinear_arith)
        requires
            0 <= x <= 3142,
    ;
}

/// The fixed-point sine; the result is exactly `sin_mrad` of the argument.
pub fn sin_fp(a: i64) -> (r: i64)
    requires
        -2_000_000_000_000 <= a <= 2_000_000_000_000,
    ensures
        r == sin_mrad(a as int),
        -1000 <= r <= 1000,
{
    let x = norm_angle_ex(a);
    if x <= 3142 {
        half_sine_ex(x)
    } else {
        -half_sine_ex(x - 3142)
    }
}

/// The fixed-point cosine; the result is exactly `cos_mrad` of the argument.
pub fn cos_fp(a: i64) -> (r: i64)
    requires
        -1_000_000_000_000 <= a <= 1_000_000_000_000,
    ensures
        r == cos_mrad(a as int),
        -1000 <= r <= 1000,
{
    sin_fp(a + HALF_PI_MRAD)
}

/// The sine vanishes at angle zero.
pub proof fn lemma_sin_zero()
    ensures
        sin_mrad(0) == 0,
{
    assert(norm_angle(0) == 0);
}

/// The cosine is exactly one at angle zero: the rational approximation hits
/// the unit value at a quarter turn.
pub proof fn lemma_cos_zero()
    ensures
        cos_mrad(0) == 1000,
{
    assert(norm_angle(1571) == 1571);
    assert(1571 * (3142 - 1571) == 2468041) by (nonlinear_arith);
    assert(16000 * 2468041 == 39488656000int) by (nonlinear_arith);
    assert(49360820 - 4 * 2468041 == 39488656int) by (nonlinear_arith);
    assert(39488656000int / 39488656int == 1000) by (nonlinear_arith);
    assert(half_sine(1571) == 1000);
}

} // verus!
