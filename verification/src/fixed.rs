//! Q16.16 fixed-point coordinate arithmetic.
//!
//! A coordinate is an `i64` holding `value * FIX_ONE`; the integer part is
//! recovered by flooring and the fractional part is the Euclidean remainder,
//! so it always lies in `[0, FIX_ONE)` even for negative coordinates.

use vstd::prelude::*;

verus! {

/// One voxel step in fixed-point coordinate space (2^16).
pub const FIX_ONE: i64 = 65536;

/// Half a voxel step (FIX_ONE / 2).
pub const FIX_HALF: i64 = 32768;

/// FIX_ONE cubed (2^48): the denominator of a trilinear weight product.
pub const FIX_CUBE: i64 = 281474976710656;

/// FIX_CUBE / 2, the rounding bias of the final weight division.
pub const FIX_HALF_CUBE: i64 = 140737488355328;

/// Largest sample magnitude a volume may hold (2^46).  Keeps every corner
/// term `sample * weight_z * weight_y * weight_x` inside an `i128`.
pub const VAL_MAX: i64 = 70368744177664;

/// Largest extent of a volume axis (2^20 voxels).
pub const DIM_MAX: usize = 1048576;

/// Largest magnitude of a fixed-point matrix or shift entry (2^38).  Keeps
/// the affine map of any in-range output index inside an `i64`.
pub const MAT_MAX: i64 = 274877906944;

/// Integer part of a fixed-point coordinate (floor).
pub open spec fn fix_floor(c: int) -> int {
    c / (FIX_ONE as int)
}

/// Round a triple weight product back to sample scale, to nearest with ties up.
pub open spec fn round_fix3(n: int) -> int {
    (n + FIX_HALF_CUBE) / (FIX_CUBE as int)
}

/// Round `n / d` to nearest with ties up, for `n >= 0` and `d > 0`.
pub open spec fn round_div(n: int, d: int) -> int {
    (n + d / 2) / d
}

/// Clamp a fixed-point coordinate into `[0, (size - 1) * FIX_ONE]`.
pub open spec fn clamp_fix(c: int, size: int) -> int {
    if c < 0 {
        0
    } else if c > (size - 1) * FIX_ONE {
        (size - 1) * FIX_ONE
    } else {
        c
    }
}

/// Fractional part of a fixed-point coordinate, in `[0, FIX_ONE)`.
pub open spec fn fix_frac(c: int) -> int {
    c % (FIX_ONE as int)
}

/// Split a fixed-point coordinate into its floor and fraction.
pub fn fix_split(c: i64) -> (r: (i64, i64))
    ensures
        r.0 == fix_floor(c as int),
        r.1 == fix_frac(c as int),
        c == r.0 * FIX_ONE + r.1,
        0 <= r.1 < FIX_ONE,
{
    proof {
        vstd::arithmetic::div_mod::lemma_fundamental_div_mod(c as int, FIX_ONE as int);
        vstd::arithmetic::div_mod::lemma_mod_division_less_than_divisor(c as int, FIX_ONE as int);
    }
    let q = c.checked_div_euclid(FIX_ONE).unwrap();
    let m = c.checked_rem_euclid(FIX_ONE).unwrap();
    (q, m)
}

/// Divide a triple weight product by `FIX_CUBE`, rounding to nearest.
/// The bound on `n` makes the result a convex-combination value, so it
/// stays within `VAL_MAX`.
pub fn round_fix3_exec(n: i128) -> (r: i64)
    requires
        -(VAL_MAX as int) * (FIX_CUBE as int) <= n as int <= (VAL_MAX as int) * (FIX_CUBE as int),
    ensures
        r as int == round_fix3(n as int),
        -VAL_MAX <= r <= VAL_MAX,
{
    let b: i128 = n + (FIX_HALF_CUBE as i128);
    proof {
        let c = FIX_CUBE as int;
        let v = VAL_MAX as int;
        let h = FIX_HALF_CUBE as int;
        vstd::arithmetic::div_mod::lemma_fundamental_div_mod(b as int, c);
        vstd::arithmetic::div_mod::lemma_mod_division_less_than_divisor(b as int, c);
        assert((b as int) / c <= v) by {
            vstd::arithmetic::div_mod::lemma_div_is_ordered(b as int, v * c + h, c);
            vstd::arithmetic::div_mod::lemma_hoist_over_denominator(h, v, c as nat);
            vstd::arithmetic::div_mod::lemma_basic_div(h, c);
        }
        assert(-v <= (b as int) / c) by {
            vstd::arithmetic::div_mod::lemma_div_is_ordered(-v * c, b as int, c);
            vstd::arithmetic::div_mod::lemma_div_multiples_vanish(-v, c);
            vstd::arithmetic::mul::lemma_mul_is_commutative(c, -v);
        }
    }
    let q = b.checked_div_euclid(FIX_CUBE as i128).unwrap();
    q as i64
}

/// Round `n / d` to nearest for a nonnegative numerator and positive divisor.
pub fn round_div_exec(n: i64, d: i64) -> (r: i64)
    requires
        0 <= n,
        0 < d,
        n + d / 2 <= i64::MAX,
    ensures
        r as int == round_div(n as int, d as int),
        0 <= r <= n,
{
    let b: i64 = n + d / 2;
    proof {
        let ni = n as int;
        let di = d as int;
        vstd::arithmetic::div_mod::lemma_fundamental_div_mod(b as int, di);
        vstd::arithmetic::div_mod::lemma_mod_division_less_than_divisor(b as int, di);
        vstd::arithmetic::div_mod::lemma_div_pos_is_pos(b as int, di);
        assert((b as int) / di <= ni) by {
            assert(ni + di / 2 <= ni * di + (di - 1)) by (nonlinear_arith)
                requires
                    0 <= ni,
                    0 < di,
            ;
            vstd::arithmetic::div_mod::lemma_div_is_ordered(b as int, ni * di + (di - 1), di);
            vstd::arithmetic::div_mod::lemma_hoist_over_denominator(di - 1, ni, di as nat);
            vstd::arithmetic::div_mod::lemma_basic_div(di - 1, di);
        }
    }
    let q = b.checked_div_euclid(d).unwrap();
    q
}

/// Clamp a fixed-point coordinate into the valid range of an axis.
pub fn clamp_coord(c: i64, size: usize) -> (r: i64)
    requires
        1 <= size <= DIM_MAX,
    ensures
        r as int == clamp_fix(c as int, size as int),
        0 <= r <= (size - 1) * FIX_ONE,
{
    let top: i64 = (size as i64 - 1) * FIX_ONE;
    if c < 0 {
        0
    } else if c > top {
        top
    } else {
        c
    }
}

} // verus!
