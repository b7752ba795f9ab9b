//! Scalar reference kernel: full-volume affine resampling and scattered
//! point sampling.
//!
//! The kernel walks the output volume one z-plane (slab) at a time; slabs
//! are independent, so running them in any order or concurrently yields the
//! same volume the sequential loop produces — the contract of
//! `transform_slab` pins each slab to a pure function of the inputs.

use crate::fixed::{DIM_MAX, MAT_MAX, VAL_MAX};
use crate::geometry::{mat_wf, shift_wf, AffineMatrix3D};
use crate::sample::{lemma_window_full, sample_bounded, sample_window_bounded};
use crate::volume::{flat3, lemma_flat3_in_range, VolView, Volume};
use vstd::prelude::*;

verus! {

/// Fixed-point source coordinate produced by row `r` of the affine map:
/// `m[3r] * oz + m[3r+1] * oy + m[3r+2] * ox + s[r]`.
pub open spec fn src_coord(m: Seq<i64>, s: Seq<i64>, r: int, oz: int, oy: int, ox: int) -> int {
    m[3 * r] * oz + m[3 * r + 1] * oy + m[3 * r + 2] * ox + s[r]
}

/// The value the affine transform writes at output voxel `(oz, oy, ox)`:
/// the volume sampled at the mapped source coordinate, `cval` when the
/// source cell is out of bounds.
pub open spec fn affine_sample(
    v: VolView,
    m: Seq<i64>,
    s: Seq<i64>,
    oz: int,
    oy: int,
    ox: int,
    cval: int,
) -> int {
    sample_bounded(
        v,
        src_coord(m, s, 0, oz, oy, ox),
        src_coord(m, s, 1, oz, oy, ox),
        src_coord(m, s, 2, oz, oy, ox),
        cval,
    )
}

/// A row-major plane index below row `yy` lies below `yy * w`.
pub(crate) proof fn lemma_row_prefix(yy: int, w: int, y: int, x: int)
    by (nonlinear_arith)
    requires
        0 <= y < yy,
        0 <= x < w,
    ensures
        0 <= y * w + x < yy * w,
{
}

/// Apply one row of the affine map to an output index triple.
fn mat_row_apply(m: &[i64; 9], off: usize, sh: i64, a: i64, b: i64, c: i64) -> (r: i64)
    requires
        mat_wf(m@),
        off == 0 || off == 3 || off == 6,
        -MAT_MAX <= sh <= MAT_MAX,
        0 <= a <= DIM_MAX,
        0 <= b <= DIM_MAX,
        0 <= c <= DIM_MAX,
    ensures
        r as int == m@[off as int] * a + m@[off as int + 1] * b + m@[off as int + 2] * c + sh,
{
    proof {
        assert forall|mij: int, o: int|
            -MAT_MAX <= mij <= MAT_MAX && 0 <= o <= DIM_MAX implies -(MAT_MAX as int) * (
        DIM_MAX as int) <= #[trigger] (mij * o) <= (MAT_MAX as int) * (DIM_MAX as int) by {
            assert(-(MAT_MAX as int) * (DIM_MAX as int) <= mij * o <= (MAT_MAX as int) * (
            DIM_MAX as int)) by (nonlinear_arith)
                requires
                    -MAT_MAX <= mij <= MAT_MAX && 0 <= o <= DIM_MAX,
            ;
        }
    }
    m[off] * a + m[off + 1] * b + m[off + 2] * c + sh
}

/// Map an output voxel index to its fixed-point source coordinate.
fn map_output_coord(
    matrix: &AffineMatrix3D,
    shift: &[i64; 3],
    oz: usize,
    oy: usize,
    ox: usize,
) -> (r: (i64, i64, i64))
    requires
        matrix.wf(),
        shift_wf(shift@),
        oz <= DIM_MAX,
        oy <= DIM_MAX,
        ox <= DIM_MAX,
    ensures
        r.0 as int == src_coord(matrix.m@, shift@, 0, oz as int, oy as int, ox as int),
        r.1 as int == src_coord(matrix.m@, shift@, 1, oz as int, oy as int, ox as int),
        r.2 as int == src_coord(matrix.m@, shift@, 2, oz as int, oy as int, ox as int),
{
    let a = oz as i64;
    let b = oy as i64;
    let c = ox as i64;
    let cz = mat_row_apply(&matrix.m, 0, shift[0], a, b, c);
    let cy = mat_row_apply(&matrix.m, 3, shift[1], a, b, c);
    let cx = mat_row_apply(&matrix.m, 6, shift[2], a, b, c);
    (cz, cy, cx)
}

/// Trilinear interpolation of the volume at a single fixed-point
/// coordinate, with `cval` substituted out of bounds.
pub fn trilinear_interp(input: &Volume, cz: i64, cy: i64, cx: i64, cval: i64) -> (r: i64)
    requires
        input.wf(),
        -VAL_MAX <= cval <= VAL_MAX,
    ensures
        r as int == sample_bounded(input@, cz as int, cy as int, cx as int, cval as int),
        -VAL_MAX <= r <= VAL_MAX,
{
    proof {
        lemma_window_full(input@);
    }
    let d = input.depth();
    let h = input.height();
    let w = input.width();
    sample_window_bounded(input.values(), 0, d, h, w, cz, cy, cx, cval)
}

/// Scattered point sampling: interpolate the volume at each coordinate
/// triple `(zc[i], yc[i], xc[i])`.
pub fn map_coordinates_3d(
    input: &Volume,
    zc: &Vec<i64>,
    yc: &Vec<i64>,
    xc: &Vec<i64>,
    cval: i64,
) -> (r: Vec<i64>)
    requires
        input.wf(),
        zc@.len() == yc@.len(),
        yc@.len() == xc@.len(),
        -VAL_MAX <= cval <= VAL_MAX,
    ensures
        r@.len() == zc@.len(),
        forall|i: int|
            0 <= i < zc@.len() ==> #[trigger] r@[i] as int == sample_bounded(
                input@,
                zc@[i] as int,
                yc@[i] as int,
                xc@[i] as int,
                cval as int,
            ),
{
    let mut out: Vec<i64> = Vec::new();
    let n = zc.len();
    let mut i: usize = 0;
    while i < n
        invariant
            input.wf(),
            -VAL_MAX <= cval <= VAL_MAX,
            n == zc@.len(),
            zc@.len() == yc@.len(),
            yc@.len() == xc@.len(),
            0 <= i <= n,
            out@.len() == i,
            forall|j: int|
                0 <= j < i ==> #[trigger] out@[j] as int == sample_bounded(
                    input@,
                    zc@[j] as int,
                    yc@[j] as int,
                    xc@[j] as int,
                    cval as int,
                ),
        decreases n - i,
    {
        let v = trilinear_interp(input, zc[i], yc[i], xc[i], cval);
        out.push(v);
        i = i + 1;
    }
    out
}

/// Resample one output z-plane under the affine map.  The plane is returned
/// row-major; element `oy * w + ox` is the transform's value at output
/// voxel `(oz, oy, ox)`.
pub fn transform_slab(
    input: &Volume,
    matrix: &AffineMatrix3D,
    shift: &[i64; 3],
    cval: i64,
    oz: usize,
) -> (r: Vec<i64>)
    requires
        input.wf(),
        matrix.wf(),
        shift_wf(shift@),
        -VAL_MAX <= cval <= VAL_MAX,
        oz < input@.d,
    ensures
        r@.len() == input@.h * input@.w,
        forall|oy: int, ox: int|
            0 <= oy < input@.h && 0 <= ox < input@.w ==> #[trigger] r@[oy * input@.w + ox] as int
                == affine_sample(
                input@,
                matrix.m@,
                shift@,
                oz as int,
                oy,
                ox,
                cval as int,
            ),
        forall|i: int| 0 <= i < r@.len() ==> -VAL_MAX <= #[trigger] r@[i] <= VAL_MAX,
{
    let h = input.height();
    let w = input.width();
    let mut out: Vec<i64> = Vec::new();
    let mut oy: usize = 0;
    while oy < h
        invariant
            input.wf(),
            matrix.wf(),
            shift_wf(shift@),
            -VAL_MAX <= cval <= VAL_MAX,
            oz < input@.d,
            h as int == input@.h,
            w as int == input@.w,
            0 <= oy <= h,
            out@.len() == oy * w as int,
            forall|y: int, x: int|
                0 <= y < oy && 0 <= x < w ==> #[trigger] out@[y * w as int + x] as int
                    == affine_sample(input@, matrix.m@, shift@, oz as int, y, x, cval as int),
            forall|i: int| 0 <= i < out@.len() ==> -VAL_MAX <= #[trigger] out@[i] <= VAL_MAX,
        decreases h - oy,
    {
        let mut ox: usize = 0;
        while ox < w
            invariant
                input.wf(),
                matrix.wf(),
                shift_wf(shift@),
                -VAL_MAX <= cval <= VAL_MAX,
                oz < input@.d,
                oy < h,
                h as int == input@.h,
                w as int == input@.w,
                0 <= ox <= w,
                out@.len() == oy * w as int + ox,
                forall|y: int, x: int|
                    0 <= y < oy && 0 <= x < w ==> #[trigger] out@[y * w as int + x] as int
                        == affine_sample(input@, matrix.m@, shift@, oz as int, y, x, cval as int),
                forall|x: int|
                    0 <= x < ox ==> #[trigger] out@[oy * w as int + x] as int == affine_sample(
                        input@,
                        matrix.m@,
                        shift@,
                        oz as int,
                        oy as int,
                        x,
                        cval as int,
                    ),
                forall|i: int| 0 <= i < out@.len() ==> -VAL_MAX <= #[trigger] out@[i] <= VAL_MAX,
            decreases w - ox,
        {
            let (cz, cy, cx) = map_output_coord(matrix, shift, oz, oy, ox);
            let v = trilinear_interp(input, cz, cy, cx, cval);
            out.push(v);
            proof {
                assert forall|y: int, x: int| 0 <= y < oy && 0 <= x < w implies 0 <= #[trigger] (y
                    * w as int + x) < oy * w as int by {
                    lemma_row_prefix(oy as int, w as int, y, x);
                }
            }
            ox = ox + 1;
        }
        proof {
            assert((oy + 1) * w as int == oy * w as int + w as int) by (nonlinear_arith);
            assert forall|y: int, x: int| 0 <= y < oy + 1 && 0 <= x < w implies #[trigger] out@[y
                * w as int + x] as int == affine_sample(
                input@,
                matrix.m@,
                shift@,
                oz as int,
                y,
                x,
                cval as int,
            ) by {
                assert((oy + 1) * w as int == oy * w as int + w as int) by (nonlinear_arith);
                lemma_row_prefix(oy + 1, w as int, y, x);
                if y < oy {
                    assert(out@[y * w as int + x] as int == affine_sample(
                        input@,
                        matrix.m@,
                        shift@,
                        oz as int,
                        y,
                        x,
                        cval as int,
                    ));
                }
            }
        }
        oy = oy + 1;
    }
    out
}

/// Apply the affine map to the whole volume with the scalar kernel: every
/// output voxel is the trilinear sample at its mapped source coordinate,
/// or `cval` when that coordinate's cell lies outside the input.
pub fn trilinear_3d_scalar(
    input: &Volume,
    matrix: &AffineMatrix3D,
    shift: &[i64; 3],
    cval: i64,
) -> (out: Volume)
    requires
        input.wf(),
        matrix.wf(),
        shift_wf(shift@),
        -VAL_MAX <= cval <= VAL_MAX,
    ensures
        out.wf(),
        out@.d == input@.d,
        out@.h == input@.h,
        out@.w == input@.w,
        forall|z: int, y: int, x: int|
            0 <= z < input@.d && 0 <= y < input@.h && 0 <= x < input@.w ==> #[trigger] out@.at(
                z,
                y,
                x,
            ) == affine_sample(input@, matrix.m@, shift@, z, y, x, cval as int),
{
    let d = input.depth();
    let h = input.height();
    let w = input.width();
    let mut data: Vec<i64> = Vec::new();
    let mut oz: usize = 0;
    while oz < d
        invariant
            input.wf(),
            matrix.wf(),
            shift_wf(shift@),
            -VAL_MAX <= cval <= VAL_MAX,
            d as int == input@.d,
            h as int == input@.h,
            w as int == input@.w,
            0 <= oz <= d,
            data@.len() == oz * (h as int * w as int),
            forall|z: int, y: int, x: int|
                0 <= z < oz && 0 <= y < h && 0 <= x < w ==> #[trigger] data@[flat3(
                    h as int,
                    w as int,
                    z,
                    y,
                    x,
                )] as int == affine_sample(input@, matrix.m@, shift@, z, y, x, cval as int),
            forall|i: int| 0 <= i < data@.len() ==> -VAL_MAX <= #[trigger] data@[i] <= VAL_MAX,
        decreases d - oz,
    {
        let mut slab = transform_slab(input, matrix, shift, cval, oz);
        let ghost old_data = data@;
        let ghost slab_view = slab@;
        data.append(&mut slab);
        proof {
            lemma_slab_append(
                old_data,
                slab_view,
                input@,
                matrix.m@,
                shift@,
                oz as int,
                h as int,
                w as int,
                cval as int,
            );
        }
        oz = oz + 1;
    }
    proof {
        assert(data@.len() == input@.d * input@.h * input@.w) by (nonlinear_arith)
            requires
                data@.len() == input@.d * (input@.h * input@.w),
        ;
        assert((VolView {
            data: data@,
            d: d as int,
            h: h as int,
            w: w as int,
        }).wf());
    }
    Volume::from_parts(data, d, h, w)
}

/// Appending a finished slab extends the per-voxel correspondence by one
/// z-plane and grows the buffer by `h * w`.
proof fn lemma_slab_append(
    old_data: Seq<i64>,
    slab: Seq<i64>,
    v: VolView,
    m: Seq<i64>,
    s: Seq<i64>,
    oz: int,
    h: int,
    w: int,
    cval: int,
)
    requires
        0 < h <= DIM_MAX,
        0 < w <= DIM_MAX,
        0 <= oz < DIM_MAX,
        old_data.len() == oz * (h * w),
        slab.len() == h * w,
        forall|y: int, x: int|
            0 <= y < h && 0 <= x < w ==> #[trigger] slab[y * w + x] as int == affine_sample(
                v,
                m,
                s,
                oz,
                y,
                x,
                cval,
            ),
        forall|z: int, y: int, x: int|
            0 <= z < oz && 0 <= y < h && 0 <= x < w ==> #[trigger] old_data[flat3(
                h,
                w,
                z,
                y,
                x,
            )] as int == affine_sample(v, m, s, z, y, x, cval),
    ensures
        (old_data + slab).len() == (oz + 1) * (h * w),
        forall|z: int, y: int, x: int|
            0 <= z < oz + 1 && 0 <= y < h && 0 <= x < w ==> #[trigger] (old_data + slab)[flat3(
                h,
                w,
                z,
                y,
                x,
            )] as int == affine_sample(v, m, s, z, y, x, cval),
{
    assert((oz + 1) * (h * w) == oz * (h * w) + h * w) by (nonlinear_arith);
    assert forall|z: int, y: int, x: int| 0 <= z < oz + 1 && 0 <= y < h && 0 <= x < w implies #[trigger] (old_data
        + slab)[flat3(h, w, z, y, x)] as int == affine_sample(v, m, s, z, y, x, cval) by {
        if z < oz {
            if oz > 0 {
                lemma_flat3_in_range(oz, h, w, z, y, x);
                assert(oz * h * w == oz * (h * w)) by (nonlinear_arith);
            }
            assert((old_data + slab)[flat3(h, w, z, y, x)] == old_data[flat3(h, w, z, y, x)]);
        } else {
            assert(flat3(h, w, oz, y, x) == oz * (h * w) + (y * w + x)) by (nonlinear_arith);
            assert(0 <= y * w + x < h * w) by (nonlinear_arith)
                requires
                    0 <= y < h && 0 <= x < w && 0 < w,
            ;
            assert((old_data + slab)[flat3(h, w, z, y, x)] == slab[y * w + x]);
        }
    }
}

/// The affine transform entry point: same shape out as in, every voxel
/// pinned to the mapped trilinear sample.  The scalar kernel is the
/// canonical backend; accelerated backends must match its contract.
pub fn affine_transform_3d(
    input: &Volume,
    matrix: &AffineMatrix3D,
    shift: &[i64; 3],
    cval: i64,
) -> (out: Volume)
    requires
        input.wf(),
        matrix.wf(),
        shift_wf(shift@),
        -VAL_MAX <= cval <= VAL_MAX,
    ensures
        out.wf(),
        out@.d == input@.d,
        out@.h == input@.h,
        out@.w == input@.w,
        forall|z: int, y: int, x: int|
            0 <= z < input@.d && 0 <= y < input@.h && 0 <= x < input@.w ==> #[trigger] out@.at(
                z,
                y,
                x,
            ) == affine_sample(input@, matrix.m@, shift@, z, y, x, cval as int),
{
    trilinear_3d_scalar(input, matrix, shift, cval)
}

} // verus!
