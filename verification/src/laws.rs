//! Laws of the resampling engine, stated against the same spec functions
//! the executable kernels are proved to compute.
//!
//! Each law speaks about `affine_sample`, `warp_sample` or `upsample2x` —
//! the exact per-voxel contracts of `affine_transform_3d`, `apply_warp_3d`
//! and `upsample_warp_field_2x` — so it holds of every volume those
//! functions return.

use crate::fixed::{DIM_MAX, FIX_ONE};
use crate::geometry::identity_mat;
use crate::sample::{lemma_fix_exact, lemma_sample_exact, lemma_sample_zero, sample_clamped};
use crate::scalar::affine_sample;
use crate::volume::VolView;
use crate::warp::{
    lemma_channel_window, lemma_upsample2x_at, lemma_upsample2x_wf, up_at, up_pos, upsample2x,
    warp_sample, WfView,
};
use vstd::prelude::*;

verus! {

/// Identity: under the identity matrix with zero shift, the transform
/// reproduces the volume exactly at every voxel.
pub proof fn lemma_affine_identity(v: VolView, oz: int, oy: int, ox: int, cval: int)
    requires
        v.wf(),
        0 <= oz < v.d,
        0 <= oy < v.h,
        0 <= ox < v.w,
    ensures
        affine_sample(v, identity_mat(), seq![0i64, 0i64, 0i64], oz, oy, ox, cval) == v.at(
            oz,
            oy,
            ox,
        ),
{
    lemma_sample_exact(v, oz, oy, ox, cval);
    assert(identity_mat()[0] * oz + identity_mat()[1] * oy + identity_mat()[2] * ox
        + seq![0i64, 0i64, 0i64][0] == oz * FIX_ONE) by (nonlinear_arith)
        requires
            identity_mat()[0] == FIX_ONE && identity_mat()[1] == 0i64 && identity_mat()[2] == 0i64
                && seq![0i64, 0i64, 0i64][0] == 0i64,
    ;
    assert(identity_mat()[3] * oz + identity_mat()[4] * oy + identity_mat()[5] * ox
        + seq![0i64, 0i64, 0i64][1] == oy * FIX_ONE) by (nonlinear_arith)
        requires
            identity_mat()[3] == 0i64 && identity_mat()[4] == FIX_ONE && identity_mat()[5] == 0i64
                && seq![0i64, 0i64, 0i64][1] == 0i64,
    ;
    assert(identity_mat()[6] * oz + identity_mat()[7] * oy + identity_mat()[8] * ox
        + seq![0i64, 0i64, 0i64][2] == ox * FIX_ONE) by (nonlinear_arith)
        requires
            identity_mat()[6] == 0i64 && identity_mat()[7] == 0i64 && identity_mat()[8] == FIX_ONE
                && seq![0i64, 0i64, 0i64][2] == 0i64,
    ;
}

/// Translation: under the identity matrix with an integer voxel shift
/// `(tz, ty, tx)`, the transform reads the volume at the shifted voxel, at
/// every output voxel whose shifted position is in bounds.
pub proof fn lemma_affine_translation(
    v: VolView,
    s: Seq<i64>,
    tz: int,
    ty: int,
    tx: int,
    oz: int,
    oy: int,
    ox: int,
    cval: int,
)
    requires
        v.wf(),
        s.len() == 3,
        s[0] == tz * FIX_ONE,
        s[1] == ty * FIX_ONE,
        s[2] == tx * FIX_ONE,
        0 <= oz < v.d,
        0 <= oy < v.h,
        0 <= ox < v.w,
        0 <= oz + tz < v.d,
        0 <= oy + ty < v.h,
        0 <= ox + tx < v.w,
    ensures
        affine_sample(v, identity_mat(), s, oz, oy, ox, cval) == v.at(oz + tz, oy + ty, ox + tx),
{
    lemma_sample_exact(v, oz + tz, oy + ty, ox + tx, cval);
    assert(identity_mat()[0] * oz + identity_mat()[1] * oy + identity_mat()[2] * ox + (tz
        * FIX_ONE) == (oz + tz) * FIX_ONE) by (nonlinear_arith)
        requires
            identity_mat()[0] == FIX_ONE && identity_mat()[1] == 0i64 && identity_mat()[2] == 0i64,
    ;
    assert(identity_mat()[3] * oz + identity_mat()[4] * oy + identity_mat()[5] * ox + (ty
        * FIX_ONE) == (oy + ty) * FIX_ONE) by (nonlinear_arith)
        requires
            identity_mat()[3] == 0i64 && identity_mat()[4] == FIX_ONE && identity_mat()[5] == 0i64,
    ;
    assert(identity_mat()[6] * oz + identity_mat()[7] * oy + identity_mat()[8] * ox + (tx
        * FIX_ONE) == (ox + tx) * FIX_ONE) by (nonlinear_arith)
        requires
            identity_mat()[6] == 0i64 && identity_mat()[7] == 0i64 && identity_mat()[8] == FIX_ONE,
    ;
}

/// Scale: under a diagonal matrix with integer factors `(kz, ky, kx)` and
/// zero shift, the transform reads the volume at the scaled voxel, at every
/// output voxel whose scaled position is in bounds.
pub proof fn lemma_affine_scale(
    v: VolView,
    m: Seq<i64>,
    kz: int,
    ky: int,
    kx: int,
    oz: int,
    oy: int,
    ox: int,
    cval: int,
)
    requires
        v.wf(),
        m.len() == 9,
        m[0] == kz * FIX_ONE,
        m[4] == ky * FIX_ONE,
        m[8] == kx * FIX_ONE,
        m[1] == 0i64 && m[2] == 0i64 && m[3] == 0i64 && m[5] == 0i64 && m[6] == 0i64 && m[7]
            == 0i64,
        0 <= oz,
        0 <= oy,
        0 <= ox,
        0 <= kz * oz < v.d,
        0 <= ky * oy < v.h,
        0 <= kx * ox < v.w,
    ensures
        affine_sample(v, m, seq![0i64, 0i64, 0i64], oz, oy, ox, cval) == v.at(
            kz * oz,
            ky * oy,
            kx * ox,
        ),
{
    lemma_sample_exact(v, kz * oz, ky * oy, kx * ox, cval);
    assert((kz * FIX_ONE) * oz + 0i64 * oy + 0i64 * ox + seq![0i64, 0i64, 0i64][0] == (kz * oz)
        * FIX_ONE) by (nonlinear_arith)
        requires
            seq![0i64, 0i64, 0i64][0] == 0i64,
    ;
    assert(0i64 * oz + (ky * FIX_ONE) * oy + 0i64 * ox + seq![0i64, 0i64, 0i64][1] == (ky * oy)
        * FIX_ONE) by (nonlinear_arith)
        requires
            seq![0i64, 0i64, 0i64][1] == 0i64,
    ;
    assert(0i64 * oz + 0i64 * oy + (kx * FIX_ONE) * ox + seq![0i64, 0i64, 0i64][2] == (kx * ox)
        * FIX_ONE) by (nonlinear_arith)
        requires
            seq![0i64, 0i64, 0i64][2] == 0i64,
    ;
}

/// Saturation: under the identity matrix, a z shift of at least the
/// volume's depth (in either direction) moves every source cell out of
/// bounds, so every output voxel is the constant.
pub proof fn lemma_out_of_bounds_cval(
    v: VolView,
    s: Seq<i64>,
    tz: int,
    oz: int,
    oy: int,
    ox: int,
    cval: int,
)
    requires
        v.wf(),
        s.len() == 3,
        s[0] == tz * FIX_ONE,
        tz >= v.d || tz <= -v.d,
        0 <= oz < v.d,
        0 <= oy < v.h,
        0 <= ox < v.w,
    ensures
        affine_sample(v, identity_mat(), s, oz, oy, ox, cval) == cval,
{
    assert(identity_mat()[0] * oz + identity_mat()[1] * oy + identity_mat()[2] * ox + (tz
        * FIX_ONE) == (oz + tz) * FIX_ONE) by (nonlinear_arith)
        requires
            identity_mat()[0] == FIX_ONE && identity_mat()[1] == 0i64 && identity_mat()[2] == 0i64,
    ;
    lemma_fix_exact(oz + tz);
    assert(oz + tz >= v.d || oz + tz < 0);
}

/// Corner positions of the align-corners map: the first output index lands
/// on the first input sample, the last on the last.
proof fn lemma_up_pos_corner(n: int)
    requires
        1 <= n,
    ensures
        up_pos(0, n) == 0,
        up_pos(2 * n - 1, n) == (n - 1) * FIX_ONE,
{
    let d = 2 * n - 1;
    vstd::arithmetic::div_mod::lemma_fundamental_div_mod_converse_div(d, 2, n - 1, 1);
    assert(d / 2 == n - 1);
    assert(up_pos(0, n) == 0) by {
        assert(0 * (n - 1) * FIX_ONE == 0) by (nonlinear_arith);
        vstd::arithmetic::div_mod::lemma_basic_div(n - 1, d);
    }
    assert(up_pos(d, n) == (n - 1) * FIX_ONE) by {
        let j = (n - 1) * FIX_ONE;
        assert(d * (n - 1) * FIX_ONE + d / 2 == (n - 1) + j * d) by (nonlinear_arith)
            requires
                d / 2 == n - 1 && j == (n - 1) * FIX_ONE,
        ;
        vstd::arithmetic::div_mod::lemma_hoist_over_denominator(n - 1, j, d as nat);
        vstd::arithmetic::div_mod::lemma_basic_div(n - 1, d);
    }
}

/// Upsample corner-exactness: the eight corners of the 2x-enlarged field
/// carry the original field's corner values exactly, in every channel.
pub proof fn lemma_upsample_corners(f: WfView, ch: int, top_z: bool, top_y: bool, top_x: bool)
    requires
        f.wf(),
        2 * f.d <= DIM_MAX,
        2 * f.h <= DIM_MAX,
        2 * f.w <= DIM_MAX,
        0 <= ch < f.c,
    ensures
        ({
            let oz = if top_z {
                2 * f.d - 1
            } else {
                0
            };
            let oy = if top_y {
                2 * f.h - 1
            } else {
                0
            };
            let ox = if top_x {
                2 * f.w - 1
            } else {
                0
            };
            let iz = if top_z {
                f.d - 1
            } else {
                0
            };
            let iy = if top_y {
                f.h - 1
            } else {
                0
            };
            let ix = if top_x {
                f.w - 1
            } else {
                0
            };
            upsample2x(f).channel(ch).at(oz, oy, ox) == f.channel(ch).at(iz, iy, ix)
        }),
{
    let oz = if top_z {
        2 * f.d - 1
    } else {
        0
    };
    let oy = if top_y {
        2 * f.h - 1
    } else {
        0
    };
    let ox = if top_x {
        2 * f.w - 1
    } else {
        0
    };
    let iz = if top_z {
        f.d - 1
    } else {
        0
    };
    let iy = if top_y {
        f.h - 1
    } else {
        0
    };
    let ix = if top_x {
        f.w - 1
    } else {
        0
    };
    lemma_upsample2x_at(f, ch, oz, oy, ox);
    lemma_up_pos_corner(f.d);
    lemma_up_pos_corner(f.h);
    lemma_up_pos_corner(f.w);
    lemma_channel_window(f, ch);
    assert(up_pos(oz, f.d) == iz * FIX_ONE) by {
        if !top_z {
            assert(0 * FIX_ONE == 0) by (nonlinear_arith);
        }
    }
    assert(up_pos(oy, f.h) == iy * FIX_ONE) by {
        if !top_y {
            assert(0 * FIX_ONE == 0) by (nonlinear_arith);
        }
    }
    assert(up_pos(ox, f.w) == ix * FIX_ONE) by {
        if !top_x {
            assert(0 * FIX_ONE == 0) by (nonlinear_arith);
        }
    }
    lemma_sample_exact(f.channel(ch), iz, iy, ix, 0);
}

/// The 2x enlargement of an all-zero field is all zero.
proof fn lemma_upsample_zero(f: WfView)
    requires
        f.wf(),
        2 * f.d <= DIM_MAX,
        2 * f.h <= DIM_MAX,
        2 * f.w <= DIM_MAX,
        forall|i: int| 0 <= i < f.data.len() ==> #[trigger] f.data[i] == 0,
    ensures
        forall|i: int|
            0 <= i < upsample2x(f).data.len() ==> #[trigger] upsample2x(f).data[i] == 0,
{
    let up = upsample2x(f);
    let od = 2 * f.d;
    let oh = 2 * f.h;
    let ow = 2 * f.w;
    let vol = od * (oh * ow);
    assert(0 < oh * ow && 0 < vol) by (nonlinear_arith)
        requires
            0 < od && 0 < oh && 0 < ow && vol == od * (oh * ow),
    ;
    assert forall|j: int| 0 <= j < up.data.len() implies #[trigger] up.data[j] == 0 by {
        let ccj = j / vol;
        let r = j % vol;
        vstd::arithmetic::div_mod::lemma_fundamental_div_mod(j, vol);
        vstd::arithmetic::div_mod::lemma_mod_division_less_than_divisor(j, vol);
        vstd::arithmetic::div_mod::lemma_div_pos_is_pos(j, vol);
        vstd::arithmetic::mul::lemma_mul_is_commutative(vol, f.c);
        vstd::arithmetic::div_mod::lemma_multiply_divide_lt(j, vol, f.c);
        crate::volume::lemma_flat3_unflatten(od, oh, ow, r);
        let zj = r / (oh * ow);
        let yj = (r % (oh * ow)) / ow;
        let xj = (r % (oh * ow)) % ow;
        lemma_channel_zero(f, ccj, up_pos(zj, f.d), up_pos(yj, f.h), up_pos(xj, f.w));
        assert(up.data[j] == up_at(f, ccj, zj, yj, xj) as i64);
    }
}

/// A channel of an all-zero field interpolates to zero everywhere.
proof fn lemma_channel_zero(f: WfView, ch: int, cz: int, cy: int, cx: int)
    requires
        f.wf(),
        0 <= ch < f.c,
        forall|i: int| 0 <= i < f.data.len() ==> #[trigger] f.data[i] == 0,
    ensures
        sample_clamped(f.channel(ch), cz, cy, cx) == 0,
{
    lemma_channel_window(f, ch);
    let c = f.channel(ch);
    assert forall|i: int| 0 <= i < c.data.len() implies #[trigger] c.data[i] == 0 by {
        assert(c.data[i] == f.data[ch * (f.d * f.h * f.w) + i]);
    }
    lemma_sample_zero(c, cz, cy, cx);
}

/// Warp identity: an all-zero displacement field — upsampled or not —
/// reproduces the image exactly at every voxel.
pub proof fn lemma_warp_zero_identity(
    img: VolView,
    f: WfView,
    oz: int,
    oy: int,
    ox: int,
    cval: int,
    upsample: bool,
)
    requires
        img.wf(),
        f.wf(),
        f.c >= 3,
        forall|i: int| 0 <= i < f.data.len() ==> #[trigger] f.data[i] == 0,
        upsample ==> 2 * f.d <= DIM_MAX && 2 * f.h <= DIM_MAX && 2 * f.w <= DIM_MAX,
        0 <= oz < img.d,
        0 <= oy < img.h,
        0 <= ox < img.w,
    ensures
        warp_sample(
            img,
            if upsample {
                upsample2x(f)
            } else {
                f
            },
            oz,
            oy,
            ox,
            cval,
        ) == img.at(oz, oy, ox),
{
    let g = if upsample {
        upsample2x(f)
    } else {
        f
    };
    if upsample {
        lemma_upsample2x_wf(f);
        lemma_upsample_zero(f);
    }
    let pz = crate::warp::field_pos(oz, g.d, img.d);
    let py = crate::warp::field_pos(oy, g.h, img.h);
    let px = crate::warp::field_pos(ox, g.w, img.w);
    lemma_channel_zero(g, 0, pz, py, px);
    lemma_channel_zero(g, 1, pz, py, px);
    lemma_channel_zero(g, 2, pz, py, px);
    lemma_sample_exact(img, oz, oy, ox, cval);
    assert(crate::warp::snap_origin(oz * FIX_ONE - 0) == oz * FIX_ONE) by {
        vstd::arithmetic::mul::lemma_mul_nonnegative(oz, FIX_ONE as int);
    }
    assert(crate::warp::snap_origin(oy * FIX_ONE - 0) == oy * FIX_ONE) by {
        vstd::arithmetic::mul::lemma_mul_nonnegative(oy, FIX_ONE as int);
    }
    assert(crate::warp::snap_origin(ox * FIX_ONE - 0) == ox * FIX_ONE) by {
        vstd::arithmetic::mul::lemma_mul_nonnegative(ox, FIX_ONE as int);
    }
}

} // verus!
