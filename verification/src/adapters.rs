//! Precision adapter for 8-bit unsigned storage.
//!
//! Byte volumes are promoted to plain integer samples, resampled by the
//! shared engine (whose single rounding step is already round-to-nearest),
//! and written back clamped to `[0, 255]`.  The out-of-bounds constant is
//! given directly as a byte, so it never passes through the clamp.

use crate::fixed::{DIM_MAX, VAL_MAX};
use crate::geometry::{shift_wf, AffineMatrix3D};
use crate::scalar::{affine_sample, trilinear_3d_scalar};
use crate::volume::{flat3, lemma_flat3_in_range, VolView, Volume};
use crate::warp::{apply_warp_3d, upsample2x, warp_sample, WarpField};
use vstd::prelude::*;

verus! {

/// Clamp a sample to the byte range.
pub open spec fn clamp_u8(v: int) -> int {
    if v < 0 {
        0
    } else if v > 255 {
        255
    } else {
        v
    }
}

/// A byte buffer read as a volume of plain integer samples.
pub open spec fn promote_u8(bytes: Seq<u8>, d: int, h: int, w: int) -> VolView {
    VolView { data: bytes.map_values(|b: u8| b as i64), d, h, w }
}

/// The extents fit the byte buffer.
pub open spec fn u8_dims_ok(len: int, d: int, h: int, w: int) -> bool {
    &&& 1 <= d <= DIM_MAX
    &&& 1 <= h <= DIM_MAX
    &&& 1 <= w <= DIM_MAX
    &&& len == d * h * w
}

/// A byte buffer with fitting extents promotes to a well-formed volume.
pub proof fn lemma_promote_u8_wf(bytes: Seq<u8>, d: int, h: int, w: int)
    requires
        u8_dims_ok(bytes.len() as int, d, h, w),
    ensures
        promote_u8(bytes, d, h, w).wf(),
{
    let v = promote_u8(bytes, d, h, w);
    assert forall|i: int| 0 <= i < v.data.len() implies -VAL_MAX <= #[trigger] v.data[i]
        <= VAL_MAX by {
        assert(v.data[i] == bytes[i] as i64);
    }
}

/// Promote a byte buffer to integer samples.
fn promote_u8_exec(bytes: &Vec<u8>) -> (r: Vec<i64>)
    ensures
        r@ == bytes@.map_values(|b: u8| b as i64),
{
    let mut out: Vec<i64> = Vec::new();
    let n = bytes.len();
    let mut i: usize = 0;
    while i < n
        invariant
            n == bytes@.len(),
            0 <= i <= n,
            out@.len() == i,
            forall|j: int| 0 <= j < i ==> #[trigger] out@[j] == bytes@[j] as i64,
        decreases n - i,
    {
        out.push(bytes[i] as i64);
        i = i + 1;
    }
    proof {
        assert(out@ =~= bytes@.map_values(|b: u8| b as i64));
    }
    out
}

/// Demote integer samples to bytes, clamped to `[0, 255]`.
fn demote_u8_exec(data: &Vec<i64>) -> (r: Vec<u8>)
    ensures
        r@.len() == data@.len(),
        forall|i: int|
            0 <= i < data@.len() ==> #[trigger] r@[i] as int == clamp_u8(data@[i] as int),
{
    let mut out: Vec<u8> = Vec::new();
    let n = data.len();
    let mut i: usize = 0;
    while i < n
        invariant
            n == data@.len(),
            0 <= i <= n,
            out@.len() == i,
            forall|j: int| 0 <= j < i ==> #[trigger] out@[j] as int == clamp_u8(data@[j] as int),
        decreases n - i,
    {
        let v = data[i];
        let b: u8 = if v < 0 {
            0
        } else if v > 255 {
            255
        } else {
            v as u8
        };
        out.push(b);
        i = i + 1;
    }
    out
}

/// Affine transform of a byte volume under the scalar kernel: every output
/// byte is the promoted volume's trilinear sample at the mapped source
/// coordinate, rounded to nearest and clamped to `[0, 255]`, or `cval`
/// out of bounds.
pub fn trilinear_3d_u8_scalar(
    input: &Vec<u8>,
    d: usize,
    h: usize,
    w: usize,
    matrix: &AffineMatrix3D,
    shift: &[i64; 3],
    cval: u8,
) -> (out: Vec<u8>)
    requires
        u8_dims_ok(input@.len() as int, d as int, h as int, w as int),
        matrix.wf(),
        shift_wf(shift@),
    ensures
        out@.len() == input@.len(),
        forall|z: int, y: int, x: int|
            0 <= z < d && 0 <= y < h && 0 <= x < w ==> #[trigger] out@[flat3(
                h as int,
                w as int,
                z,
                y,
                x,
            )] as int == clamp_u8(
                affine_sample(
                    promote_u8(input@, d as int, h as int, w as int),
                    matrix.m@,
                    shift@,
                    z,
                    y,
                    x,
                    cval as int,
                ),
            ),
{
    proof {
        lemma_promote_u8_wf(input@, d as int, h as int, w as int);
    }
    let samples = promote_u8_exec(input);
    let vol = Volume::from_parts(samples, d, h, w);
    let res = trilinear_3d_scalar(&vol, matrix, shift, cval as i64);
    let bytes = demote_u8_exec(res.values());
    proof {
        assert forall|z: int, y: int, x: int| 0 <= z < d && 0 <= y < h && 0 <= x < w implies #[trigger] bytes@[flat3(
            h as int,
            w as int,
            z,
            y,
            x,
        )] as int == clamp_u8(
            affine_sample(
                promote_u8(input@, d as int, h as int, w as int),
                matrix.m@,
                shift@,
                z,
                y,
                x,
                cval as int,
            ),
        ) by {
            lemma_flat3_in_range(d as int, h as int, w as int, z, y, x);
            assert(vol@ == promote_u8(input@, d as int, h as int, w as int));
            assert(res@.at(z, y, x) == affine_sample(
                promote_u8(input@, d as int, h as int, w as int),
                matrix.m@,
                shift@,
                z,
                y,
                x,
                cval as int,
            ));
            assert(bytes@[flat3(h as int, w as int, z, y, x)] as int == clamp_u8(
                res@.data[flat3(h as int, w as int, z, y, x)] as int,
            ));
        }
    }
    bytes
}

/// Warp a byte image through a displacement field: every output byte is
/// the promoted image's sample at its displaced source coordinate, rounded
/// to nearest and clamped to `[0, 255]`, or `cval` out of bounds.
pub fn apply_warp_3d_u8(
    image: &Vec<u8>,
    d: usize,
    h: usize,
    w: usize,
    field: &WarpField,
    cval: u8,
    upsample: bool,
) -> (out: Vec<u8>)
    requires
        u8_dims_ok(image@.len() as int, d as int, h as int, w as int),
        field.wf(),
        field@.c >= 3,
        upsample ==> 2 * field@.d <= DIM_MAX && 2 * field@.h <= DIM_MAX && 2 * field@.w <= DIM_MAX
            && 8 * field@.data.len() <= usize::MAX,
    ensures
        out@.len() == image@.len(),
        forall|z: int, y: int, x: int|
            0 <= z < d && 0 <= y < h && 0 <= x < w ==> #[trigger] out@[flat3(
                h as int,
                w as int,
                z,
                y,
                x,
            )] as int == clamp_u8(
                warp_sample(
                    promote_u8(image@, d as int, h as int, w as int),
                    if upsample {
                        upsample2x(field@)
                    } else {
                        field@
                    },
                    z,
                    y,
                    x,
                    cval as int,
                ),
            ),
{
    proof {
        lemma_promote_u8_wf(image@, d as int, h as int, w as int);
    }
    let samples = promote_u8_exec(image);
    let vol = Volume::from_parts(samples, d, h, w);
    let res = apply_warp_3d(&vol, field, cval as i64, upsample);
    let bytes = demote_u8_exec(res.values());
    proof {
        assert forall|z: int, y: int, x: int| 0 <= z < d && 0 <= y < h && 0 <= x < w implies #[trigger] bytes@[flat3(
            h as int,
            w as int,
            z,
            y,
            x,
        )] as int == clamp_u8(
            warp_sample(
                promote_u8(image@, d as int, h as int, w as int),
                if upsample {
                    upsample2x(field@)
                } else {
                    field@
                },
                z,
                y,
                x,
                cval as int,
            ),
        ) by {
            lemma_flat3_in_range(d as int, h as int, w as int, z, y, x);
            assert(vol@ == promote_u8(image@, d as int, h as int, w as int));
            assert(res@.at(z, y, x) == warp_sample(
                promote_u8(image@, d as int, h as int, w as int),
                if upsample {
                    upsample2x(field@)
                } else {
                    field@
                },
                z,
                y,
                x,
                cval as int,
            ));
            assert(bytes@[flat3(h as int, w as int, z, y, x)] as int == clamp_u8(
                res@.data[flat3(h as int, w as int, z, y, x)] as int,
            ));
        }
    }
    bytes
}

} // verus!
