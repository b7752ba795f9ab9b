//! The trilinear sampling core shared by every resampling path.
//!
//! A sample request carries a Q16.16 fixed-point coordinate per axis.  The
//! coordinate splits into a floor index and a fraction; the eight corners of
//! the enclosing cell are gathered (the upper corner edge-clamped) and
//! combined with the exact weight products; the single rounding step is the
//! final division by `FIX_CUBE`.
//!
//! Bounds policy (canonical for every caller): a request is valid iff the
//! floor index lies in `[0, size)` on all three axes.  Invalid requests
//! yield the caller's constant; the clamped variant instead clamps the
//! coordinate to the volume's edge (nearest mode) and always succeeds.

use crate::fixed::{
    clamp_coord, clamp_fix, fix_floor, fix_frac, fix_split, round_fix3, round_fix3_exec, DIM_MAX,
    FIX_CUBE, FIX_HALF_CUBE, FIX_ONE, VAL_MAX,
};
use crate::volume::{lemma_flat3_in_range, lemma_volume_len_mono, VolView};
use vstd::prelude::*;

verus! {

/// Edge-clamped upper corner index of a cell whose lower corner is `i0`.
pub open spec fn upper_index(i0: int, size: int) -> int {
    if i0 + 1 < size {
        i0 + 1
    } else {
        size - 1
    }
}

/// The canonical validity policy: the lower corner is inside the volume.
pub open spec fn in_bounds(v: VolView, z0: int, y0: int, x0: int) -> bool {
    &&& 0 <= z0 < v.d
    &&& 0 <= y0 < v.h
    &&& 0 <= x0 < v.w
}

/// The exact 8-corner weighted sum at cell `(z0, y0, x0)` with fractions
/// `(fz, fy, fx)`, scaled by `FIX_CUBE`.  Weight of the lower corner on an
/// axis is `FIX_ONE - f`, of the upper corner `f`.
pub open spec fn tri_weighted_sum(
    v: VolView,
    z0: int,
    y0: int,
    x0: int,
    fz: int,
    fy: int,
    fx: int,
) -> int {
    let z1 = upper_index(z0, v.d);
    let y1 = upper_index(y0, v.h);
    let x1 = upper_index(x0, v.w);
    v.at(z0, y0, x0) * (FIX_ONE - fz) * (FIX_ONE - fy) * (FIX_ONE - fx) + v.at(z0, y0, x1) * (
    FIX_ONE - fz) * (FIX_ONE - fy) * fx + v.at(z0, y1, x0) * (FIX_ONE - fz) * fy * (FIX_ONE - fx)
        + v.at(z0, y1, x1) * (FIX_ONE - fz) * fy * fx + v.at(z1, y0, x0) * fz * (FIX_ONE - fy) * (
    FIX_ONE - fx) + v.at(z1, y0, x1) * fz * (FIX_ONE - fy) * fx + v.at(z1, y1, x0) * fz * fy * (
    FIX_ONE - fx) + v.at(z1, y1, x1) * fz * fy * fx
}

/// Sample `v` at a fixed-point coordinate; out-of-bounds requests yield
/// `cval`.
pub open spec fn sample_bounded(v: VolView, cz: int, cy: int, cx: int, cval: int) -> int {
    let z0 = fix_floor(cz);
    let y0 = fix_floor(cy);
    let x0 = fix_floor(cx);
    if in_bounds(v, z0, y0, x0) {
        round_fix3(tri_weighted_sum(v, z0, y0, x0, fix_frac(cz), fix_frac(cy), fix_frac(cx)))
    } else {
        cval
    }
}

/// Sample `v` at a fixed-point coordinate clamped to the volume's edges
/// (nearest boundary mode); always defined.
pub open spec fn sample_clamped(v: VolView, cz: int, cy: int, cx: int) -> int {
    let sz = clamp_fix(cz, v.d);
    let sy = clamp_fix(cy, v.h);
    let sx = clamp_fix(cx, v.w);
    round_fix3(
        tri_weighted_sum(
            v,
            fix_floor(sz),
            fix_floor(sy),
            fix_floor(sx),
            fix_frac(sz),
            fix_frac(sy),
            fix_frac(sx),
        ),
    )
}

/// A window of length `d * h * w` starting at `base` inside a flat buffer,
/// read as a volume.  A whole volume is the window at base 0; a channel of
/// a displacement field is a window at the channel's offset.
pub open spec fn window(data: Seq<i64>, base: int, d: int, h: int, w: int) -> VolView {
    VolView { data: data.subrange(base, base + d * h * w), d, h, w }
}

/// The window lies inside the buffer, has in-range extents, and holds only
/// samples the interpolation arithmetic accepts.
pub open spec fn window_wf(data: Seq<i64>, base: int, d: int, h: int, w: int) -> bool {
    &&& 1 <= d <= DIM_MAX
    &&& 1 <= h <= DIM_MAX
    &&& 1 <= w <= DIM_MAX
    &&& 0 <= base
    &&& base + d * h * w <= data.len()
    &&& forall|i: int| base <= i < base + d * h * w ==> -VAL_MAX <= #[trigger] data[i] <= VAL_MAX
}

/// A well-formed window is a well-formed volume view.
pub proof fn lemma_window_wf(data: Seq<i64>, base: int, d: int, h: int, w: int)
    requires
        window_wf(data, base, d, h, w),
    ensures
        window(data, base, d, h, w).wf(),
{
    assert(0 < d * h * w) by (nonlinear_arith)
        requires
            0 < d && 0 < h && 0 < w,
    ;
}

/// The whole buffer of a well-formed volume is its own window at base 0.
pub proof fn lemma_window_full(v: VolView)
    requires
        v.wf(),
    ensures
        window(v.data, 0, v.d, v.h, v.w) == v,
{
    assert(v.data.subrange(0, v.d * v.h * v.w) =~= v.data);
}

/// One corner term `val * a * b * c` is bounded by `VAL_MAX` times the
/// weight product, and the weight product is nonnegative.
proof fn lemma_term_bound(val: int, a: int, b: int, c: int)
    by (nonlinear_arith)
    requires
        -VAL_MAX <= val <= VAL_MAX,
        0 <= a <= FIX_ONE,
        0 <= b <= FIX_ONE,
        0 <= c <= FIX_ONE,
    ensures
        0 <= a * b * c <= FIX_CUBE,
        -VAL_MAX * (a * b * c) <= val * a * b * c <= VAL_MAX * (a * b * c),
        -(VAL_MAX as int) * (FIX_CUBE as int) <= val * a * b * c <= (VAL_MAX as int) * (
        FIX_CUBE as int),
{
}

/// The eight trilinear weight products sum to `FIX_CUBE` exactly.
proof fn lemma_weight_cube(fz: int, fy: int, fx: int)
    by (nonlinear_arith)
    ensures
        (FIX_ONE - fz) * (FIX_ONE - fy) * (FIX_ONE - fx) + (FIX_ONE - fz) * (FIX_ONE - fy) * fx + (
        FIX_ONE - fz) * fy * (FIX_ONE - fx) + (FIX_ONE - fz) * fy * fx + fz * (FIX_ONE - fy) * (
        FIX_ONE - fx) + fz * (FIX_ONE - fy) * fx + fz * fy * (FIX_ONE - fx) + fz * fy * fx
            == FIX_CUBE,
{
}

/// The corner indices used by the weighted sum are in range, so every
/// corner sample obeys the volume bound.
proof fn lemma_corners_bounded(v: VolView, z0: int, y0: int, x0: int)
    requires
        v.wf(),
        in_bounds(v, z0, y0, x0),
    ensures
        -VAL_MAX <= v.at(z0, y0, x0) <= VAL_MAX,
        -VAL_MAX <= v.at(z0, y0, upper_index(x0, v.w)) <= VAL_MAX,
        -VAL_MAX <= v.at(z0, upper_index(y0, v.h), x0) <= VAL_MAX,
        -VAL_MAX <= v.at(z0, upper_index(y0, v.h), upper_index(x0, v.w)) <= VAL_MAX,
        -VAL_MAX <= v.at(upper_index(z0, v.d), y0, x0) <= VAL_MAX,
        -VAL_MAX <= v.at(upper_index(z0, v.d), y0, upper_index(x0, v.w)) <= VAL_MAX,
        -VAL_MAX <= v.at(upper_index(z0, v.d), upper_index(y0, v.h), x0) <= VAL_MAX,
        -VAL_MAX <= v.at(upper_index(z0, v.d), upper_index(y0, v.h), upper_index(x0, v.w))
            <= VAL_MAX,
{
    let z1 = upper_index(z0, v.d);
    let y1 = upper_index(y0, v.h);
    let x1 = upper_index(x0, v.w);
    lemma_flat3_in_range(v.d, v.h, v.w, z0, y0, x0);
    lemma_flat3_in_range(v.d, v.h, v.w, z0, y0, x1);
    lemma_flat3_in_range(v.d, v.h, v.w, z0, y1, x0);
    lemma_flat3_in_range(v.d, v.h, v.w, z0, y1, x1);
    lemma_flat3_in_range(v.d, v.h, v.w, z1, y0, x0);
    lemma_flat3_in_range(v.d, v.h, v.w, z1, y0, x1);
    lemma_flat3_in_range(v.d, v.h, v.w, z1, y1, x0);
    lemma_flat3_in_range(v.d, v.h, v.w, z1, y1, x1);
}

/// The weighted sum is a convex combination scaled by `FIX_CUBE`, so it is
/// bounded by `VAL_MAX * FIX_CUBE`.
pub proof fn lemma_tri_sum_bound(v: VolView, z0: int, y0: int, x0: int, fz: int, fy: int, fx: int)
    requires
        v.wf(),
        in_bounds(v, z0, y0, x0),
        0 <= fz < FIX_ONE,
        0 <= fy < FIX_ONE,
        0 <= fx < FIX_ONE,
    ensures
        -(VAL_MAX as int) * (FIX_CUBE as int) <= tri_weighted_sum(v, z0, y0, x0, fz, fy, fx) <= (
        VAL_MAX as int) * (FIX_CUBE as int),
{
    let z1 = upper_index(z0, v.d);
    let y1 = upper_index(y0, v.h);
    let x1 = upper_index(x0, v.w);
    let gz = FIX_ONE - fz;
    let gy = FIX_ONE - fy;
    let gx = FIX_ONE - fx;
    lemma_corners_bounded(v, z0, y0, x0);
    lemma_term_bound(v.at(z0, y0, x0), gz, gy, gx);
    lemma_term_bound(v.at(z0, y0, x1), gz, gy, fx);
    lemma_term_bound(v.at(z0, y1, x0), gz, fy, gx);
    lemma_term_bound(v.at(z0, y1, x1), gz, fy, fx);
    lemma_term_bound(v.at(z1, y0, x0), fz, gy, gx);
    lemma_term_bound(v.at(z1, y0, x1), fz, gy, fx);
    lemma_term_bound(v.at(z1, y1, x0), fz, fy, gx);
    lemma_term_bound(v.at(z1, y1, x1), fz, fy, fx);
    lemma_weight_cube(fz, fy, fx);
}

/// Rounding a bounded weight sum stays within the sample bound.
pub proof fn lemma_round_fix3_range(n: int)
    requires
        -(VAL_MAX as int) * (FIX_CUBE as int) <= n <= (VAL_MAX as int) * (FIX_CUBE as int),
    ensures
        -VAL_MAX <= round_fix3(n) <= VAL_MAX,
{
    let c = FIX_CUBE as int;
    let v = VAL_MAX as int;
    let h = FIX_HALF_CUBE as int;
    let b = n + h;
    assert(round_fix3(n) <= v) by {
        vstd::arithmetic::div_mod::lemma_div_is_ordered(b, v * c + h, c);
        vstd::arithmetic::div_mod::lemma_hoist_over_denominator(h, v, c as nat);
        vstd::arithmetic::div_mod::lemma_basic_div(h, c);
    }
    assert(-v <= round_fix3(n)) by {
        vstd::arithmetic::div_mod::lemma_div_is_ordered(-v * c, b, c);
        vstd::arithmetic::div_mod::lemma_div_multiples_vanish(-v, c);
        vstd::arithmetic::mul::lemma_mul_is_commutative(c, -v);
    }
}

/// Clamping puts the floor index inside the axis and keeps the fraction
/// well-formed.
pub proof fn lemma_clamp_floor(c: int, size: int)
    requires
        1 <= size,
    ensures
        0 <= fix_floor(clamp_fix(c, size)) < size,
        0 <= fix_frac(clamp_fix(c, size)) < FIX_ONE,
{
    let s = clamp_fix(c, size);
    let f = FIX_ONE as int;
    vstd::arithmetic::div_mod::lemma_mod_division_less_than_divisor(s, f);
    vstd::arithmetic::div_mod::lemma_div_pos_is_pos(s, f);
    assert(fix_floor(s) <= size - 1) by {
        vstd::arithmetic::div_mod::lemma_div_is_ordered(s, (size - 1) * f, f);
        vstd::arithmetic::div_mod::lemma_div_multiples_vanish(size - 1, f);
        vstd::arithmetic::mul::lemma_mul_is_commutative(f, size - 1);
    }
}

/// A clamped sample of a well-formed volume is bounded like its samples.
pub proof fn lemma_sample_clamped_range(v: VolView, cz: int, cy: int, cx: int)
    requires
        v.wf(),
    ensures
        -VAL_MAX <= sample_clamped(v, cz, cy, cx) <= VAL_MAX,
{
    lemma_clamp_floor(cz, v.d);
    lemma_clamp_floor(cy, v.h);
    lemma_clamp_floor(cx, v.w);
    let sz = clamp_fix(cz, v.d);
    let sy = clamp_fix(cy, v.h);
    let sx = clamp_fix(cx, v.w);
    lemma_tri_sum_bound(
        v,
        fix_floor(sz),
        fix_floor(sy),
        fix_floor(sx),
        fix_frac(sz),
        fix_frac(sy),
        fix_frac(sx),
    );
    lemma_round_fix3_range(
        tri_weighted_sum(
            v,
            fix_floor(sz),
            fix_floor(sy),
            fix_floor(sx),
            fix_frac(sz),
            fix_frac(sy),
            fix_frac(sx),
        ),
    );
}

/// A coordinate sitting exactly on a voxel has that voxel as its floor and
/// no fraction.
pub proof fn lemma_fix_exact(k: int)
    ensures
        fix_floor(k * FIX_ONE) == k,
        fix_frac(k * FIX_ONE) == 0,
{
    vstd::arithmetic::div_mod::lemma_fundamental_div_mod_converse_div(
        k * FIX_ONE,
        FIX_ONE as int,
        k,
        0,
    );
    vstd::arithmetic::div_mod::lemma_fundamental_div_mod_converse_mod(
        k * FIX_ONE,
        FIX_ONE as int,
        k,
        0,
    );
}

/// Rounding an exact multiple of `FIX_CUBE` recovers the sample.
pub proof fn lemma_round_fix3_exact(v: int)
    ensures
        round_fix3(v * FIX_CUBE) == v,
{
    vstd::arithmetic::div_mod::lemma_hoist_over_denominator(
        FIX_HALF_CUBE as int,
        v,
        FIX_CUBE as nat,
    );
    vstd::arithmetic::div_mod::lemma_basic_div(FIX_HALF_CUBE as int, FIX_CUBE as int);
}

/// A sample taken exactly on voxel `(kz, ky, kx)` returns that voxel's
/// value: the fractions vanish, so the weighted sum collapses to the lower
/// corner.
pub proof fn lemma_sample_exact(v: VolView, kz: int, ky: int, kx: int, cval: int)
    requires
        v.wf(),
        0 <= kz < v.d,
        0 <= ky < v.h,
        0 <= kx < v.w,
    ensures
        sample_bounded(v, kz * FIX_ONE, ky * FIX_ONE, kx * FIX_ONE, cval) == v.at(kz, ky, kx),
        sample_clamped(v, kz * FIX_ONE, ky * FIX_ONE, kx * FIX_ONE) == v.at(kz, ky, kx),
{
    lemma_fix_exact(kz);
    lemma_fix_exact(ky);
    lemma_fix_exact(kx);
    assert(clamp_fix(kz * FIX_ONE, v.d) == kz * FIX_ONE && clamp_fix(ky * FIX_ONE, v.h) == ky
        * FIX_ONE && clamp_fix(kx * FIX_ONE, v.w) == kx * FIX_ONE) by {
        vstd::arithmetic::mul::lemma_mul_inequality(kz, v.d - 1, FIX_ONE as int);
        vstd::arithmetic::mul::lemma_mul_inequality(ky, v.h - 1, FIX_ONE as int);
        vstd::arithmetic::mul::lemma_mul_inequality(kx, v.w - 1, FIX_ONE as int);
        vstd::arithmetic::mul::lemma_mul_is_commutative(kz, FIX_ONE as int);
        vstd::arithmetic::mul::lemma_mul_is_commutative(ky, FIX_ONE as int);
        vstd::arithmetic::mul::lemma_mul_is_commutative(kx, FIX_ONE as int);
        vstd::arithmetic::mul::lemma_mul_is_commutative(v.d - 1, FIX_ONE as int);
        vstd::arithmetic::mul::lemma_mul_is_commutative(v.h - 1, FIX_ONE as int);
        vstd::arithmetic::mul::lemma_mul_is_commutative(v.w - 1, FIX_ONE as int);
        vstd::arithmetic::mul::lemma_mul_nonnegative(kz, FIX_ONE as int);
        vstd::arithmetic::mul::lemma_mul_nonnegative(ky, FIX_ONE as int);
        vstd::arithmetic::mul::lemma_mul_nonnegative(kx, FIX_ONE as int);
    }
    let s = tri_weighted_sum(v, kz, ky, kx, 0, 0, 0);
    assert(s == v.at(kz, ky, kx) * FIX_CUBE) by (nonlinear_arith)
        requires
            s == tri_weighted_sum(v, kz, ky, kx, 0, 0, 0),
            tri_weighted_sum(v, kz, ky, kx, 0, 0, 0) == v.at(kz, ky, kx) * (FIX_ONE - 0) * (FIX_ONE
                - 0) * (FIX_ONE - 0) + v.at(kz, ky, upper_index(kx, v.w)) * (FIX_ONE - 0) * (
            FIX_ONE - 0) * 0 + v.at(kz, upper_index(ky, v.h), kx) * (FIX_ONE - 0) * 0 * (FIX_ONE
                - 0) + v.at(kz, upper_index(ky, v.h), upper_index(kx, v.w)) * (FIX_ONE - 0) * 0 * 0
                + v.at(upper_index(kz, v.d), ky, kx) * 0 * (FIX_ONE - 0) * (FIX_ONE - 0) + v.at(
                upper_index(kz, v.d),
                ky,
                upper_index(kx, v.w),
            ) * 0 * (FIX_ONE - 0) * 0 + v.at(upper_index(kz, v.d), upper_index(ky, v.h), kx) * 0 * 0
                * (FIX_ONE - 0) + v.at(
                upper_index(kz, v.d),
                upper_index(ky, v.h),
                upper_index(kx, v.w),
            ) * 0 * 0 * 0,
    ;
    lemma_round_fix3_exact(v.at(kz, ky, kx));
}

/// Interpolating a volume of zeros yields zero at every coordinate, under
/// either boundary convention.
pub proof fn lemma_sample_zero(v: VolView, cz: int, cy: int, cx: int)
    requires
        v.wf(),
        forall|i: int| 0 <= i < v.data.len() ==> #[trigger] v.data[i] == 0,
    ensures
        sample_clamped(v, cz, cy, cx) == 0,
        sample_bounded(v, cz, cy, cx, 0) == 0,
{
    lemma_clamp_floor(cz, v.d);
    lemma_clamp_floor(cy, v.h);
    lemma_clamp_floor(cx, v.w);
    let sz = clamp_fix(cz, v.d);
    let sy = clamp_fix(cy, v.h);
    let sx = clamp_fix(cx, v.w);
    lemma_tri_sum_of_zeros(v, fix_floor(sz), fix_floor(sy), fix_floor(sx), fix_frac(sz), fix_frac(sy), fix_frac(sx));
    vstd::arithmetic::div_mod::lemma_basic_div(FIX_HALF_CUBE as int, FIX_CUBE as int);
    let z0 = fix_floor(cz);
    let y0 = fix_floor(cy);
    let x0 = fix_floor(cx);
    if in_bounds(v, z0, y0, x0) {
        vstd::arithmetic::div_mod::lemma_mod_division_less_than_divisor(cz, FIX_ONE as int);
        vstd::arithmetic::div_mod::lemma_mod_division_less_than_divisor(cy, FIX_ONE as int);
        vstd::arithmetic::div_mod::lemma_mod_division_less_than_divisor(cx, FIX_ONE as int);
        lemma_tri_sum_of_zeros(v, z0, y0, x0, fix_frac(cz), fix_frac(cy), fix_frac(cx));
    }
}

/// The weighted sum over eight zero corners is zero.
proof fn lemma_tri_sum_of_zeros(v: VolView, z0: int, y0: int, x0: int, fz: int, fy: int, fx: int)
    requires
        v.wf(),
        in_bounds(v, z0, y0, x0),
        forall|i: int| 0 <= i < v.data.len() ==> #[trigger] v.data[i] == 0,
    ensures
        tri_weighted_sum(v, z0, y0, x0, fz, fy, fx) == 0,
{
    lemma_corners_bounded(v, z0, y0, x0);
    let z1 = upper_index(z0, v.d);
    let y1 = upper_index(y0, v.h);
    let x1 = upper_index(x0, v.w);
    lemma_flat3_in_range(v.d, v.h, v.w, z0, y0, x0);
    lemma_flat3_in_range(v.d, v.h, v.w, z0, y0, x1);
    lemma_flat3_in_range(v.d, v.h, v.w, z0, y1, x0);
    lemma_flat3_in_range(v.d, v.h, v.w, z0, y1, x1);
    lemma_flat3_in_range(v.d, v.h, v.w, z1, y0, x0);
    lemma_flat3_in_range(v.d, v.h, v.w, z1, y0, x1);
    lemma_flat3_in_range(v.d, v.h, v.w, z1, y1, x0);
    lemma_flat3_in_range(v.d, v.h, v.w, z1, y1, x1);
    assert(tri_weighted_sum(v, z0, y0, x0, fz, fy, fx) == 0) by (nonlinear_arith)
        requires
            v.at(z0, y0, x0) == 0 && v.at(z0, y0, x1) == 0 && v.at(z0, y1, x0) == 0 && v.at(
                z0,
                y1,
                x1,
            ) == 0 && v.at(z1, y0, x0) == 0 && v.at(z1, y0, x1) == 0 && v.at(z1, y1, x0) == 0
                && v.at(z1, y1, x1) == 0 && tri_weighted_sum(v, z0, y0, x0, fz, fy, fx) == v.at(
                z0,
                y0,
                x0,
            ) * (FIX_ONE - fz) * (FIX_ONE - fy) * (FIX_ONE - fx) + v.at(z0, y0, x1) * (FIX_ONE
                - fz) * (FIX_ONE - fy) * fx + v.at(z0, y1, x0) * (FIX_ONE - fz) * fy * (FIX_ONE
                - fx) + v.at(z0, y1, x1) * (FIX_ONE - fz) * fy * fx + v.at(z1, y0, x0) * fz * (
            FIX_ONE - fy) * (FIX_ONE - fx) + v.at(z1, y0, x1) * fz * (FIX_ONE - fy) * fx + v.at(
                z1,
                y1,
                x0,
            ) * fz * fy * (FIX_ONE - fx) + v.at(z1, y1, x1) * fz * fy * fx,
    ;
}

/// Read one sample of a window.
fn window_at(
    data: &Vec<i64>,
    base: usize,
    d: usize,
    h: usize,
    w: usize,
    z: usize,
    y: usize,
    x: usize,
) -> (r: i64)
    requires
        window_wf(data@, base as int, d as int, h as int, w as int),
        z < d,
        y < h,
        x < w,
    ensures
        r as int == window(data@, base as int, d as int, h as int, w as int).at(
            z as int,
            y as int,
            x as int,
        ),
        -VAL_MAX <= r <= VAL_MAX,
{
    let n = data.len();
    proof {
        lemma_flat3_in_range(d as int, h as int, w as int, z as int, y as int, x as int);
        lemma_volume_len_mono(d as int, h as int, w as int);
    }
    data[base + (z * h + y) * w + x]
}

/// One corner term of the weighted sum, accumulated exactly in an `i128`.
fn corner_term(v: i64, a: i64, b: i64, c: i64) -> (r: i128)
    requires
        -VAL_MAX <= v <= VAL_MAX,
        0 <= a <= FIX_ONE,
        0 <= b <= FIX_ONE,
        0 <= c <= FIX_ONE,
    ensures
        r as int == v * a * b * c,
        -(VAL_MAX as int) * (FIX_CUBE as int) <= r as int <= (VAL_MAX as int) * (FIX_CUBE as int),
{
    proof {
        lemma_term_bound(v as int, a as int, b as int, c as int);
        assert(-(VAL_MAX as int) * (FIX_ONE as int) <= v * a <= (VAL_MAX as int) * (FIX_ONE as int)
            && -(VAL_MAX as int) * (FIX_ONE as int) * (FIX_ONE as int) <= v * a * b <= (
        VAL_MAX as int) * (FIX_ONE as int) * (FIX_ONE as int)) by (nonlinear_arith)
            requires
                -VAL_MAX <= v <= VAL_MAX && 0 <= a <= FIX_ONE && 0 <= b <= FIX_ONE,
        ;
    }
    (((v as i128) * (a as i128)) * (b as i128)) * (c as i128)
}

/// Gather the eight corners of the cell at `(z0, y0, x0)` and form the
/// exact weighted sum.
fn tri_sum_window(
    data: &Vec<i64>,
    base: usize,
    d: usize,
    h: usize,
    w: usize,
    z0: usize,
    y0: usize,
    x0: usize,
    fz: i64,
    fy: i64,
    fx: i64,
) -> (r: i128)
    requires
        window_wf(data@, base as int, d as int, h as int, w as int),
        z0 < d,
        y0 < h,
        x0 < w,
        0 <= fz < FIX_ONE,
        0 <= fy < FIX_ONE,
        0 <= fx < FIX_ONE,
    ensures
        r as int == tri_weighted_sum(
            window(data@, base as int, d as int, h as int, w as int),
            z0 as int,
            y0 as int,
            x0 as int,
            fz as int,
            fy as int,
            fx as int,
        ),
        -(VAL_MAX as int) * (FIX_CUBE as int) <= r as int <= (VAL_MAX as int) * (FIX_CUBE as int),
{
    let ghost v = window(data@, base as int, d as int, h as int, w as int);
    let z1 = if z0 + 1 < d {
        z0 + 1
    } else {
        d - 1
    };
    let y1 = if y0 + 1 < h {
        y0 + 1
    } else {
        h - 1
    };
    let x1 = if x0 + 1 < w {
        x0 + 1
    } else {
        w - 1
    };
    let v000 = window_at(data, base, d, h, w, z0, y0, x0);
    let v001 = window_at(data, base, d, h, w, z0, y0, x1);
    let v010 = window_at(data, base, d, h, w, z0, y1, x0);
    let v011 = window_at(data, base, d, h, w, z0, y1, x1);
    let v100 = window_at(data, base, d, h, w, z1, y0, x0);
    let v101 = window_at(data, base, d, h, w, z1, y0, x1);
    let v110 = window_at(data, base, d, h, w, z1, y1, x0);
    let v111 = window_at(data, base, d, h, w, z1, y1, x1);
    let gz = FIX_ONE - fz;
    let gy = FIX_ONE - fy;
    let gx = FIX_ONE - fx;
    let t000 = corner_term(v000, gz, gy, gx);
    let t001 = corner_term(v001, gz, gy, fx);
    let t010 = corner_term(v010, gz, fy, gx);
    let t011 = corner_term(v011, gz, fy, fx);
    let t100 = corner_term(v100, fz, gy, gx);
    let t101 = corner_term(v101, fz, gy, fx);
    let t110 = corner_term(v110, fz, fy, gx);
    let t111 = corner_term(v111, fz, fy, fx);
    proof {
        lemma_window_wf(data@, base as int, d as int, h as int, w as int);
        lemma_tri_sum_bound(v, z0 as int, y0 as int, x0 as int, fz as int, fy as int, fx as int);
    }
    t000 + t001 + t010 + t011 + t100 + t101 + t110 + t111
}

/// Sample a window at a fixed-point coordinate; the canonical bounds
/// policy substitutes `cval` when the floor index leaves the window.
pub(crate) fn sample_window_bounded(
    data: &Vec<i64>,
    base: usize,
    d: usize,
    h: usize,
    w: usize,
    cz: i64,
    cy: i64,
    cx: i64,
    cval: i64,
) -> (r: i64)
    requires
        window_wf(data@, base as int, d as int, h as int, w as int),
        -VAL_MAX <= cval <= VAL_MAX,
    ensures
        r as int == sample_bounded(
            window(data@, base as int, d as int, h as int, w as int),
            cz as int,
            cy as int,
            cx as int,
            cval as int,
        ),
        -VAL_MAX <= r <= VAL_MAX,
{
    let (z0, fz) = fix_split(cz);
    let (y0, fy) = fix_split(cy);
    let (x0, fx) = fix_split(cx);
    if z0 < 0 || z0 >= d as i64 || y0 < 0 || y0 >= h as i64 || x0 < 0 || x0 >= w as i64 {
        return cval;
    }
    let num = tri_sum_window(data, base, d, h, w, z0 as usize, y0 as usize, x0 as usize, fz, fy, fx);
    round_fix3_exec(num)
}

/// Sample a window at a fixed-point coordinate clamped to its edges
/// (nearest boundary mode).
pub(crate) fn sample_window_clamped(
    data: &Vec<i64>,
    base: usize,
    d: usize,
    h: usize,
    w: usize,
    cz: i64,
    cy: i64,
    cx: i64,
) -> (r: i64)
    requires
        window_wf(data@, base as int, d as int, h as int, w as int),
    ensures
        r as int == sample_clamped(
            window(data@, base as int, d as int, h as int, w as int),
            cz as int,
            cy as int,
            cx as int,
        ),
        -VAL_MAX <= r <= VAL_MAX,
{
    let sz = clamp_coord(cz, d);
    let sy = clamp_coord(cy, h);
    let sx = clamp_coord(cx, w);
    proof {
        lemma_clamp_floor(cz as int, d as int);
        lemma_clamp_floor(cy as int, h as int);
        lemma_clamp_floor(cx as int, w as int);
    }
    let (z0, fz) = fix_split(sz);
    let (y0, fy) = fix_split(sy);
    let (x0, fx) = fix_split(sx);
    let num = tri_sum_window(data, base, d, h, w, z0 as usize, y0 as usize, x0 as usize, fz, fy, fx);
    round_fix3_exec(num)
}

} // verus!
