//! Displacement-field (warp) resampling.
//!
//! A displacement field is a 4D buffer shaped `(channels >= 3, d, h, w)`;
//! channels 0, 1, 2 hold the z, y and x displacement in fixed-point voxel
//! units, further channels (a confidence score, say) are carried but
//! ignored.  For each output voxel the field is sampled at a texture-style
//! coordinate — the voxel index scaled by `field_size / image_size`, less
//! half a texel — with edge clamping; the image is then sampled at
//! `out - displacement` under the canonical bounds policy.

use crate::fixed::{round_div, round_div_exec, DIM_MAX, FIX_HALF, FIX_ONE, VAL_MAX};
use crate::sample::{
    lemma_sample_clamped_range, lemma_window_full, sample_bounded, sample_clamped,
    sample_window_bounded, sample_window_clamped, window, window_wf,
};
use crate::volume::{
    flat3, lemma_flat3_in_range, lemma_flat3_unflatten, lemma_volume_len_mono, VolView, Volume,
};
use vstd::prelude::*;

verus! {

/// Tiny negative source coordinates (one fixed-point ulp) snap to zero, so
/// the rounding of the displacement interpolation cannot push a voxel that
/// sits exactly on the origin face out of bounds.
pub const SNAP_EPS: i64 = 1;

/// Mathematical model of a displacement field.
pub ghost struct WfView {
    pub data: Seq<i64>,
    pub c: int,
    pub d: int,
    pub h: int,
    pub w: int,
}

impl WfView {
    /// Extents are positive and machine-bounded, the buffer matches
    /// `c * d * h * w`, and every entry is within the sample bound.
    pub open spec fn wf(self) -> bool {
        &&& 1 <= self.c <= DIM_MAX
        &&& 1 <= self.d <= DIM_MAX
        &&& 1 <= self.h <= DIM_MAX
        &&& 1 <= self.w <= DIM_MAX
        &&& self.data.len() == self.c * (self.d * self.h * self.w)
        &&& forall|i: int|
            0 <= i < self.data.len() ==> -VAL_MAX <= #[trigger] self.data[i] <= VAL_MAX
    }

    /// One channel of the field, read as a volume.
    pub open spec fn channel(self, ch: int) -> VolView {
        window(self.data, ch * (self.d * self.h * self.w), self.d, self.h, self.w)
    }
}

/// A dense displacement field: `c` channels of `d * h * w` fixed-point
/// samples, row-major, channel slowest.
pub struct WarpField {
    data: Vec<i64>,
    c: usize,
    d: usize,
    h: usize,
    w: usize,
}

impl View for WarpField {
    type V = WfView;

    closed spec fn view(&self) -> WfView {
        WfView {
            data: self.data@,
            c: self.c as int,
            d: self.d as int,
            h: self.h as int,
            w: self.w as int,
        }
    }
}

/// A channel of a well-formed field is a well-formed window of its buffer.
pub proof fn lemma_channel_window(f: WfView, ch: int)
    requires
        f.wf(),
        0 <= ch < f.c,
    ensures
        window_wf(f.data, ch * (f.d * f.h * f.w), f.d, f.h, f.w),
        f.channel(ch).wf(),
{
    let vol = f.d * f.h * f.w;
    assert(0 < vol && 0 <= ch * vol && ch * vol + vol <= f.c * vol) by (nonlinear_arith)
        requires
            0 < f.d && 0 < f.h && 0 < f.w && 0 <= ch < f.c && vol == f.d * f.h * f.w,
    ;
    assert(f.d * f.h * f.w == vol);
    crate::sample::lemma_window_wf(f.data, ch * vol, f.d, f.h, f.w);
}

impl WarpField {
    /// Well-formedness of the underlying buffer and extents.
    pub open spec fn wf(&self) -> bool {
        self@.wf()
    }

    /// Build a field after checking the boundary contract: extents in
    /// range, buffer length equal to `c * d * h * w`, samples within
    /// `VAL_MAX`.  Returns `None` exactly when one of those checks fails.
    pub fn try_new(data: Vec<i64>, c: usize, d: usize, h: usize, w: usize) -> (r: Option<
        WarpField,
    >)
        ensures
            match r {
                Some(f) => f.wf() && f@ == (WfView {
                    data: data@,
                    c: c as int,
                    d: d as int,
                    h: h as int,
                    w: w as int,
                }),
                None => !(WfView {
                    data: data@,
                    c: c as int,
                    d: d as int,
                    h: h as int,
                    w: w as int,
                }).wf(),
            },
    {
        if c < 1 || c > DIM_MAX || d < 1 || d > DIM_MAX || h < 1 || h > DIM_MAX || w < 1 || w
            > DIM_MAX {
            return None;
        }
        let n = data.len();
        proof {
            lemma_volume_len_mono(d as int, h as int, w as int);
            assert(d * h * w <= c as int * (d * h * w) && c as int * (d * h * w) == (c as int) * ((
            d * h) as int * w as int)) by (nonlinear_arith)
                requires
                    1 <= c && 0 < d && 0 < h && 0 < w,
            ;
        }
        let dh = match d.checked_mul(h) {
            Some(v) => v,
            None => {
                return None;
            },
        };
        let dhw = match dh.checked_mul(w) {
            Some(v) => v,
            None => {
                return None;
            },
        };
        let cdhw = match c.checked_mul(dhw) {
            Some(v) => v,
            None => {
                return None;
            },
        };
        if n != cdhw {
            return None;
        }
        let mut i: usize = 0;
        while i < data.len()
            invariant
                0 <= i <= data@.len(),
                forall|j: int| 0 <= j < i ==> -VAL_MAX <= #[trigger] data@[j] <= VAL_MAX,
            decreases data@.len() - i,
        {
            let s = data[i];
            if s < -VAL_MAX || s > VAL_MAX {
                return None;
            }
            i = i + 1;
        }
        Some(WarpField { data, c, d, h, w })
    }

    /// Assemble a field from parts already proved well-formed.
    pub(crate) fn from_parts(data: Vec<i64>, c: usize, d: usize, h: usize, w: usize) -> (f:
        WarpField)
        requires
            (WfView {
                data: data@,
                c: c as int,
                d: d as int,
                h: h as int,
                w: w as int,
            }).wf(),
        ensures
            f.wf(),
            f@ == (WfView { data: data@, c: c as int, d: d as int, h: h as int, w: w as int }),
    {
        WarpField { data, c, d, h, w }
    }

    /// Number of channels.
    pub fn channels(&self) -> (r: usize)
        ensures
            r as int == self@.c,
    {
        self.c
    }

    /// Extent of the slowest spatial axis.
    pub fn depth(&self) -> (r: usize)
        ensures
            r as int == self@.d,
    {
        self.d
    }

    /// Extent of the middle spatial axis.
    pub fn height(&self) -> (r: usize)
        ensures
            r as int == self@.h,
    {
        self.h
    }

    /// Extent of the fastest spatial axis.
    pub fn width(&self) -> (r: usize)
        ensures
            r as int == self@.w,
    {
        self.w
    }

    /// The flat buffer, channel-major.
    pub fn values(&self) -> (r: &Vec<i64>)
        ensures
            r@ == self@.data,
    {
        &self.data
    }
}

/// The texture-style field coordinate of output index `o`: scale by
/// `field_size / image_size` in fixed point (rounded to nearest), then move
/// back half a texel.
pub open spec fn field_pos(o: int, field_size: int, image_size: int) -> int {
    round_div(o * field_size * FIX_ONE, image_size) - FIX_HALF
}

/// Snap a barely negative source coordinate to the origin.
pub open spec fn snap_origin(c: int) -> int {
    if -SNAP_EPS <= c < 0 {
        0
    } else {
        c
    }
}

/// The value the warp writes at output voxel `(oz, oy, ox)`: the image
/// sampled at the voxel's position minus the displacement interpolated
/// from channels 0..3 of the field at the clamped texture coordinate.
pub open spec fn warp_sample(
    img: VolView,
    f: WfView,
    oz: int,
    oy: int,
    ox: int,
    cval: int,
) -> int {
    let pz = field_pos(oz, f.d, img.d);
    let py = field_pos(oy, f.h, img.h);
    let px = field_pos(ox, f.w, img.w);
    let dz = sample_clamped(f.channel(0), pz, py, px);
    let dy = sample_clamped(f.channel(1), pz, py, px);
    let dx = sample_clamped(f.channel(2), pz, py, px);
    sample_bounded(
        img,
        snap_origin(oz * FIX_ONE - dz),
        snap_origin(oy * FIX_ONE - dy),
        snap_origin(ox * FIX_ONE - dx),
        cval,
    )
}

/// Compute the texture-style field coordinate of an output index.
fn field_pos_exec(o: usize, field_size: usize, image_size: usize) -> (r: i64)
    requires
        o < image_size,
        image_size <= DIM_MAX,
        1 <= field_size <= DIM_MAX,
        1 <= image_size,
    ensures
        r as int == field_pos(o as int, field_size as int, image_size as int),
{
    proof {
        assert(0 <= o as int * field_size as int <= DIM_MAX as int * DIM_MAX as int)
            by (nonlinear_arith)
            requires
                o < image_size && image_size <= DIM_MAX && 1 <= field_size <= DIM_MAX,
        ;
    }
    let n: i64 = (o as i64) * (field_size as i64) * FIX_ONE;
    let q = round_div_exec(n, image_size as i64);
    q - FIX_HALF
}

/// Snap a barely negative source coordinate to the origin.
fn snap_origin_exec(c: i64) -> (r: i64)
    ensures
        r as int == snap_origin(c as int),
{
    if -SNAP_EPS <= c && c < 0 {
        0
    } else {
        c
    }
}

/// Resample one output z-plane of the image under the field.  The plane is
/// returned row-major; element `oy * w + ox` is the warp's value at output
/// voxel `(oz, oy, ox)`.
pub fn warp_slab(image: &Volume, field: &WarpField, cval: i64, oz: usize) -> (r: Vec<i64>)
    requires
        image.wf(),
        field.wf(),
        field@.c >= 3,
        -VAL_MAX <= cval <= VAL_MAX,
        oz < image@.d,
    ensures
        r@.len() == image@.h * image@.w,
        forall|oy: int, ox: int|
            0 <= oy < image@.h && 0 <= ox < image@.w ==> #[trigger] r@[oy * image@.w + ox] as int
                == warp_sample(image@, field@, oz as int, oy, ox, cval as int),
        forall|i: int| 0 <= i < r@.len() ==> -VAL_MAX <= #[trigger] r@[i] <= VAL_MAX,
{
    let img_d = image.depth();
    let img_h = image.height();
    let img_w = image.width();
    let fd = field.depth();
    let fh = field.height();
    let fw = field.width();
    let n = field.values().len();
    proof {
        lemma_volume_len_mono(fd as int, fh as int, fw as int);
        lemma_channel_window(field@, 0);
        lemma_channel_window(field@, 1);
        lemma_channel_window(field@, 2);
        lemma_window_full(image@);
        assert(fd as int * fh as int <= fd as int * fh as int * fw as int && (fd as int
            * fh as int) * fw as int == fd as int * fh as int * fw as int && 3 * (fd as int
            * fh as int * fw as int) <= n as int) by (nonlinear_arith)
            requires
                n as int == field@.c * (field@.d * field@.h * field@.w) && field@.c >= 3 && 1
                    <= fd as int == field@.d && 1 <= fh as int == field@.h && 1 <= fw as int
                    == field@.w,
        ;
    }
    let fdh = fd * fh;
    let fvol = fdh * fw;
    let fvol2 = 2 * fvol;
    let pz = field_pos_exec(oz, fd, img_d);
    let mut out: Vec<i64> = Vec::new();
    let mut oy: usize = 0;
    while oy < img_h
        invariant
            image.wf(),
            field.wf(),
            field@.c >= 3,
            -VAL_MAX <= cval <= VAL_MAX,
            oz < image@.d,
            img_d as int == image@.d,
            img_h as int == image@.h,
            img_w as int == image@.w,
            fd as int == field@.d,
            fh as int == field@.h,
            fw as int == field@.w,
            fvol as int == field@.d * field@.h * field@.w,
            fvol2 as int == 2 * (field@.d * field@.h * field@.w),
            pz as int == field_pos(oz as int, field@.d, image@.d),
            0 <= oy <= img_h,
            out@.len() == oy * img_w as int,
            forall|y: int, x: int|
                0 <= y < oy && 0 <= x < img_w ==> #[trigger] out@[y * img_w as int + x] as int
                    == warp_sample(image@, field@, oz as int, y, x, cval as int),
            forall|i: int| 0 <= i < out@.len() ==> -VAL_MAX <= #[trigger] out@[i] <= VAL_MAX,
        decreases img_h - oy,
    {
        let py = field_pos_exec(oy, fh, img_h);
        let mut ox: usize = 0;
        while ox < img_w
            invariant
                image.wf(),
                field.wf(),
                field@.c >= 3,
                -VAL_MAX <= cval <= VAL_MAX,
                oz < image@.d,
                oy < img_h,
                img_d as int == image@.d,
                img_h as int == image@.h,
                img_w as int == image@.w,
                fd as int == field@.d,
                fh as int == field@.h,
                fw as int == field@.w,
                fvol as int == field@.d * field@.h * field@.w,
                fvol2 as int == 2 * (field@.d * field@.h * field@.w),
                pz as int == field_pos(oz as int, field@.d, image@.d),
                py as int == field_pos(oy as int, field@.h, image@.h),
                0 <= ox <= img_w,
                out@.len() == oy * img_w as int + ox,
                forall|y: int, x: int|
                    0 <= y < oy && 0 <= x < img_w ==> #[trigger] out@[y * img_w as int + x] as int
                        == warp_sample(image@, field@, oz as int, y, x, cval as int),
                forall|x: int|
                    0 <= x < ox ==> #[trigger] out@[oy * img_w as int + x] as int == warp_sample(
                        image@,
                        field@,
                        oz as int,
                        oy as int,
                        x,
                        cval as int,
                    ),
                forall|i: int| 0 <= i < out@.len() ==> -VAL_MAX <= #[trigger] out@[i] <= VAL_MAX,
            decreases img_w - ox,
        {
            proof {
                lemma_channel_window(field@, 0);
                lemma_channel_window(field@, 1);
                lemma_channel_window(field@, 2);
                lemma_window_full(image@);
            }
            let px = field_pos_exec(ox, fw, img_w);
            let dz = sample_window_clamped(field.values(), 0, fd, fh, fw, pz, py, px);
            let dy = sample_window_clamped(field.values(), fvol, fd, fh, fw, pz, py, px);
            let dx = sample_window_clamped(field.values(), fvol2, fd, fh, fw, pz, py, px);
            let sz = snap_origin_exec((oz as i64) * FIX_ONE - dz);
            let sy = snap_origin_exec((oy as i64) * FIX_ONE - dy);
            let sx = snap_origin_exec((ox as i64) * FIX_ONE - dx);
            let v = sample_window_bounded(image.values(), 0, img_d, img_h, img_w, sz, sy, sx, cval);
            out.push(v);
            proof {
                assert forall|y: int, x: int| 0 <= y < oy && 0 <= x < img_w implies 0
                    <= #[trigger] (y * img_w as int + x) < oy * img_w as int by {
                    crate::scalar::lemma_row_prefix(oy as int, img_w as int, y, x);
                }
            }
            ox = ox + 1;
        }
        proof {
            assert((oy + 1) * img_w as int == oy * img_w as int + img_w as int)
                by (nonlinear_arith);
            assert forall|y: int, x: int| 0 <= y < oy + 1 && 0 <= x < img_w implies #[trigger] out@[
            y * img_w as int + x] as int == warp_sample(
                image@,
                field@,
                oz as int,
                y,
                x,
                cval as int,
            ) by {
                crate::scalar::lemma_row_prefix(oy + 1, img_w as int, y, x);
                if y < oy {
                    assert(out@[y * img_w as int + x] as int == warp_sample(
                        image@,
                        field@,
                        oz as int,
                        y,
                        x,
                        cval as int,
                    ));
                }
            }
        }
        oy = oy + 1;
    }
    out
}

/// Appending a finished warp plane extends the per-voxel correspondence.
proof fn lemma_warp_slab_append(
    old_data: Seq<i64>,
    slab: Seq<i64>,
    img: VolView,
    f: WfView,
    oz: int,
    cval: int,
)
    requires
        img.wf(),
        old_data.len() == oz * (img.h * img.w),
        0 <= oz < img.d,
        slab.len() == img.h * img.w,
        forall|y: int, x: int|
            0 <= y < img.h && 0 <= x < img.w ==> #[trigger] slab[y * img.w + x] as int
                == warp_sample(img, f, oz, y, x, cval),
        forall|z: int, y: int, x: int|
            0 <= z < oz && 0 <= y < img.h && 0 <= x < img.w ==> #[trigger] old_data[flat3(
                img.h,
                img.w,
                z,
                y,
                x,
            )] as int == warp_sample(img, f, z, y, x, cval),
    ensures
        (old_data + slab).len() == (oz + 1) * (img.h * img.w),
        forall|z: int, y: int, x: int|
            0 <= z < oz + 1 && 0 <= y < img.h && 0 <= x < img.w ==> #[trigger] (old_data + slab)[
            flat3(img.h, img.w, z, y, x)] as int == warp_sample(img, f, z, y, x, cval),
{
    let h = img.h;
    let w = img.w;
    assert((oz + 1) * (h * w) == oz * (h * w) + h * w) by (nonlinear_arith);
    assert forall|z: int, y: int, x: int| 0 <= z < oz + 1 && 0 <= y < h && 0 <= x < w implies #[trigger] (
    old_data + slab)[flat3(h, w, z, y, x)] as int == warp_sample(img, f, z, y, x, cval) by {
        if z < oz {
            if oz > 0 {
                lemma_flat3_in_range(oz, h, w, z, y, x);
                assert(oz * h * w == oz * (h * w)) by (nonlinear_arith);
            }
            assert((old_data + slab)[flat3(h, w, z, y, x)] == old_data[flat3(h, w, z, y, x)]);
        } else {
            assert(flat3(h, w, oz, y, x) == oz * (h * w) + (y * w + x)) by (nonlinear_arith);
            assert(0 <= y * w + x < h * w) by (nonlinear_arith)
                requires
                    0 <= y < h && 0 <= x < w && 0 < w,
            ;
            assert((old_data + slab)[flat3(h, w, z, y, x)] == slab[y * w + x]);
        }
    }
}

/// Apply a displacement field to the whole image: every output voxel is
/// the image's trilinear sample at its displaced source coordinate, or
/// `cval` when that coordinate's cell lies outside the image.
pub fn apply_warp_field(image: &Volume, field: &WarpField, cval: i64) -> (out: Volume)
    requires
        image.wf(),
        field.wf(),
        field@.c >= 3,
        -VAL_MAX <= cval <= VAL_MAX,
    ensures
        out.wf(),
        out@.d == image@.d,
        out@.h == image@.h,
        out@.w == image@.w,
        forall|z: int, y: int, x: int|
            0 <= z < image@.d && 0 <= y < image@.h && 0 <= x < image@.w ==> #[trigger] out@.at(
                z,
                y,
                x,
            ) == warp_sample(image@, field@, z, y, x, cval as int),
{
    let d = image.depth();
    let h = image.height();
    let w = image.width();
    let mut data: Vec<i64> = Vec::new();
    let mut oz: usize = 0;
    while oz < d
        invariant
            image.wf(),
            field.wf(),
            field@.c >= 3,
            -VAL_MAX <= cval <= VAL_MAX,
            d as int == image@.d,
            h as int == image@.h,
            w as int == image@.w,
            0 <= oz <= d,
            data@.len() == oz * (h as int * w as int),
            forall|z: int, y: int, x: int|
                0 <= z < oz && 0 <= y < h && 0 <= x < w ==> #[trigger] data@[flat3(
                    h as int,
                    w as int,
                    z,
                    y,
                    x,
                )] as int == warp_sample(image@, field@, z, y, x, cval as int),
            forall|i: int| 0 <= i < data@.len() ==> -VAL_MAX <= #[trigger] data@[i] <= VAL_MAX,
        decreases d - oz,
    {
        let mut slab = warp_slab(image, field, cval, oz);
        let ghost old_data = data@;
        let ghost slab_view = slab@;
        data.append(&mut slab);
        proof {
            lemma_warp_slab_append(old_data, slab_view, image@, field@, oz as int, cval as int);
        }
        oz = oz + 1;
    }
    proof {
        assert(data@.len() == image@.d * image@.h * image@.w) by (nonlinear_arith)
            requires
                data@.len() == image@.d * (image@.h * image@.w),
        ;
        assert((VolView { data: data@, d: d as int, h: h as int, w: w as int }).wf());
    }
    Volume::from_parts(data, d, h, w)
}

/// Align-corners input coordinate when an axis of extent `n` is enlarged
/// to `2n`: output index `o` maps to `o * (n - 1) / (2n - 1)` in fixed
/// point, rounded to nearest, so the first and last samples coincide.
pub open spec fn up_pos(o: int, in_size: int) -> int {
    round_div(o * (in_size - 1) * FIX_ONE, 2 * in_size - 1)
}

/// The upsampled field's value at `(ch, oz, oy, ox)`: channel `ch`
/// interpolated at the align-corners coordinate with edge clamping.
pub open spec fn up_at(f: WfView, ch: int, oz: int, oy: int, ox: int) -> int {
    sample_clamped(f.channel(ch), up_pos(oz, f.d), up_pos(oy, f.h), up_pos(ox, f.w))
}

/// The field enlarged exactly 2x per spatial axis, channel count kept,
/// every channel interpolated independently.
pub open spec fn upsample2x(f: WfView) -> WfView {
    let od = 2 * f.d;
    let oh = 2 * f.h;
    let ow = 2 * f.w;
    WfView {
        c: f.c,
        d: od,
        h: oh,
        w: ow,
        data: Seq::new(
            (f.c * (od * (oh * ow))) as nat,
            |j: int|
                up_at(
                    f,
                    j / (od * (oh * ow)),
                    (j % (od * (oh * ow))) / (oh * ow),
                    ((j % (od * (oh * ow))) % (oh * ow)) / ow,
                    ((j % (od * (oh * ow))) % (oh * ow)) % ow,
                ) as i64,
        ),
    }
}

/// Compute the align-corners input coordinate of an output index.
fn up_pos_exec(o: usize, in_size: usize) -> (r: i64)
    requires
        1 <= in_size <= DIM_MAX,
        o < 2 * in_size,
    ensures
        r as int == up_pos(o as int, in_size as int),
{
    proof {
        assert(0 <= o as int * ((in_size - 1) as int) <= 2 * (DIM_MAX as int) * (DIM_MAX as int)
            && 0 <= o as int * ((in_size - 1) as int) * (FIX_ONE as int) <= 2 * (DIM_MAX as int) * (
        DIM_MAX as int) * (FIX_ONE as int)) by (nonlinear_arith)
            requires
                1 <= in_size <= DIM_MAX && 0 <= o < 2 * in_size,
        ;
    }
    let n: i64 = (o as i64) * ((in_size - 1) as i64) * FIX_ONE;
    round_div_exec(n, (2 * in_size - 1) as i64)
}

/// Resample one z-plane of one channel of the 2x-enlarged field.
fn upsample_plane(field: &WarpField, ch: usize, oz: usize) -> (r: Vec<i64>)
    requires
        field.wf(),
        ch < field@.c,
        2 * field@.d <= DIM_MAX,
        2 * field@.h <= DIM_MAX,
        2 * field@.w <= DIM_MAX,
        oz < 2 * field@.d,
    ensures
        r@.len() == (2 * field@.h) * (2 * field@.w),
        forall|oy: int, ox: int|
            0 <= oy < 2 * field@.h && 0 <= ox < 2 * field@.w ==> #[trigger] r@[oy * (2 * field@.w)
                + ox] as int == up_at(field@, ch as int, oz as int, oy, ox),
        forall|i: int| 0 <= i < r@.len() ==> -VAL_MAX <= #[trigger] r@[i] <= VAL_MAX,
{
    let fd = field.depth();
    let fh = field.height();
    let fw = field.width();
    let n = field.values().len();
    proof {
        lemma_volume_len_mono(fd as int, fh as int, fw as int);
        lemma_channel_window(field@, ch as int);
        assert(fd as int * fh as int <= fd as int * fh as int * fw as int && (fd as int
            * fh as int) * fw as int == fd as int * fh as int * fw as int && fd as int * fh as int
            * fw as int <= n as int && (ch as int + 1) * (fd as int * fh as int * fw as int)
            <= n as int) by (nonlinear_arith)
            requires
                n as int == field@.c * (field@.d * field@.h * field@.w) && 0 <= ch as int
                    && (ch as int) < field@.c && 1 <= fd as int && fd as int == field@.d && 1
                    <= fh as int && fh as int == field@.h && 1 <= fw as int && fw as int
                    == field@.w,
        ;
    }
    let fdh = fd * fh;
    let fvol = fdh * fw;
    let base = ch * fvol;
    let oh = 2 * fh;
    let ow = 2 * fw;
    let pz = up_pos_exec(oz, fd);
    let mut out: Vec<i64> = Vec::new();
    let mut oy: usize = 0;
    while oy < oh
        invariant
            field.wf(),
            ch < field@.c,
            oz < 2 * field@.d,
            fd as int == field@.d,
            fh as int == field@.h,
            fw as int == field@.w,
            oh as int == 2 * field@.h,
            ow as int == 2 * field@.w,
            fvol as int == field@.d * field@.h * field@.w,
            base as int == ch as int * (field@.d * field@.h * field@.w),
            pz as int == up_pos(oz as int, field@.d),
            0 <= oy <= oh,
            out@.len() == oy * ow as int,
            forall|y: int, x: int|
                0 <= y < oy && 0 <= x < ow ==> #[trigger] out@[y * ow as int + x] as int == up_at(
                    field@,
                    ch as int,
                    oz as int,
                    y,
                    x,
                ),
            forall|i: int| 0 <= i < out@.len() ==> -VAL_MAX <= #[trigger] out@[i] <= VAL_MAX,
        decreases oh - oy,
    {
        let py = up_pos_exec(oy, fh);
        let mut ox: usize = 0;
        while ox < ow
            invariant
                field.wf(),
                ch < field@.c,
                oz < 2 * field@.d,
                oy < oh,
                fd as int == field@.d,
                fh as int == field@.h,
                fw as int == field@.w,
                oh as int == 2 * field@.h,
                ow as int == 2 * field@.w,
                fvol as int == field@.d * field@.h * field@.w,
                base as int == ch as int * (field@.d * field@.h * field@.w),
                pz as int == up_pos(oz as int, field@.d),
                py as int == up_pos(oy as int, field@.h),
                0 <= ox <= ow,
                out@.len() == oy * ow as int + ox,
                forall|y: int, x: int|
                    0 <= y < oy && 0 <= x < ow ==> #[trigger] out@[y * ow as int + x] as int
                        == up_at(field@, ch as int, oz as int, y, x),
                forall|x: int|
                    0 <= x < ox ==> #[trigger] out@[oy * ow as int + x] as int == up_at(
                        field@,
                        ch as int,
                        oz as int,
                        oy as int,
                        x,
                    ),
                forall|i: int| 0 <= i < out@.len() ==> -VAL_MAX <= #[trigger] out@[i] <= VAL_MAX,
            decreases ow - ox,
        {
            proof {
                lemma_channel_window(field@, ch as int);
            }
            let px = up_pos_exec(ox, fw);
            let v = sample_window_clamped(field.values(), base, fd, fh, fw, pz, py, px);
            out.push(v);
            proof {
                assert forall|y: int, x: int| 0 <= y < oy && 0 <= x < ow implies 0 <= #[trigger] (y
                    * ow as int + x) < oy * ow as int by {
                    crate::scalar::lemma_row_prefix(oy as int, ow as int, y, x);
                }
            }
            ox = ox + 1;
        }
        proof {
            assert((oy + 1) * ow as int == oy * ow as int + ow as int) by (nonlinear_arith);
            assert forall|y: int, x: int| 0 <= y < oy + 1 && 0 <= x < ow implies #[trigger] out@[y
                * ow as int + x] as int == up_at(field@, ch as int, oz as int, y, x) by {
                crate::scalar::lemma_row_prefix(oy + 1, ow as int, y, x);
                if y < oy {
                    assert(out@[y * ow as int + x] as int == up_at(
                        field@,
                        ch as int,
                        oz as int,
                        y,
                        x,
                    ));
                }
            }
        }
        oy = oy + 1;
    }
    out
}

/// Appending a finished plane of the upsampled field extends the
/// correspondence; plane `p` of `c * 2d` covers channel `p / 2d`, slice
/// `p % 2d`.
proof fn lemma_upsample_plane_append(
    old_data: Seq<i64>,
    slab: Seq<i64>,
    f: WfView,
    ch: int,
    oz: int,
)
    requires
        f.wf(),
        0 <= ch < f.c,
        0 <= oz < 2 * f.d,
        old_data.len() == (ch * (2 * f.d) + oz) * ((2 * f.h) * (2 * f.w)),
        slab.len() == (2 * f.h) * (2 * f.w),
        forall|y: int, x: int|
            0 <= y < 2 * f.h && 0 <= x < 2 * f.w ==> #[trigger] slab[y * (2 * f.w) + x] as int
                == up_at(f, ch, oz, y, x),
        forall|cc: int, z: int, y: int, x: int|
            0 <= cc < f.c && 0 <= z < 2 * f.d && 0 <= y < 2 * f.h && 0 <= x < 2 * f.w && cc * (2
                * f.d) + z < ch * (2 * f.d) + oz ==> #[trigger] old_data[(cc * (2 * f.d) + z) * ((2
                * f.h) * (2 * f.w)) + y * (2 * f.w) + x] as int == up_at(f, cc, z, y, x),
    ensures
        (old_data + slab).len() == (ch * (2 * f.d) + oz + 1) * ((2 * f.h) * (2 * f.w)),
        forall|cc: int, z: int, y: int, x: int|
            0 <= cc < f.c && 0 <= z < 2 * f.d && 0 <= y < 2 * f.h && 0 <= x < 2 * f.w && cc * (2
                * f.d) + z < ch * (2 * f.d) + oz + 1 ==> #[trigger] (old_data + slab)[(cc * (2
                * f.d) + z) * ((2 * f.h) * (2 * f.w)) + y * (2 * f.w) + x] as int == up_at(
                f,
                cc,
                z,
                y,
                x,
            ),
{
    let hw = (2 * f.h) * (2 * f.w);
    let p = ch * (2 * f.d) + oz;
    assert(0 < hw) by (nonlinear_arith)
        requires
            0 < f.h && 0 < f.w && hw == (2 * f.h) * (2 * f.w),
    ;
    assert((p + 1) * hw == p * hw + hw) by (nonlinear_arith);
    assert forall|cc: int, z: int, y: int, x: int|
        0 <= cc < f.c && 0 <= z < 2 * f.d && 0 <= y < 2 * f.h && 0 <= x < 2 * f.w && cc * (2 * f.d)
            + z < p + 1 implies #[trigger] (old_data + slab)[(cc * (2 * f.d) + z) * hw + y * (2
        * f.w) + x] as int == up_at(f, cc, z, y, x) by {
        let q = cc * (2 * f.d) + z;
        crate::scalar::lemma_row_prefix(2 * f.h, 2 * f.w, y, x);
        if q < p {
            assert(0 <= q * hw + y * (2 * f.w) + x < p * hw) by (nonlinear_arith)
                requires
                    0 <= q < p && 0 <= y * (2 * f.w) + x < hw && 0 < hw,
            ;
            assert((old_data + slab)[q * hw + y * (2 * f.w) + x] == old_data[q * hw + y * (2 * f.w)
                + x]);
        } else {
            vstd::arithmetic::div_mod::lemma_fundamental_div_mod_converse_div(q, 2 * f.d, cc, z);
            vstd::arithmetic::div_mod::lemma_fundamental_div_mod_converse_mod(q, 2 * f.d, cc, z);
            vstd::arithmetic::div_mod::lemma_fundamental_div_mod_converse_div(p, 2 * f.d, ch, oz);
            vstd::arithmetic::div_mod::lemma_fundamental_div_mod_converse_mod(p, 2 * f.d, ch, oz);
            assert(cc == ch && z == oz);
            assert((old_data + slab)[q * hw + y * (2 * f.w) + x] == slab[y * (2 * f.w) + x]);
        }
    }
}

/// Enlarge a displacement field by exactly 2x per spatial axis with
/// align-corners trilinear interpolation, edge-clamped, independently per
/// channel.  The 8 corners of the output reproduce the input's corners
/// exactly.
pub fn upsample_warp_field_2x(field: &WarpField) -> (out: WarpField)
    requires
        field.wf(),
        2 * field@.d <= DIM_MAX,
        2 * field@.h <= DIM_MAX,
        2 * field@.w <= DIM_MAX,
        8 * field@.data.len() <= usize::MAX,
    ensures
        out.wf(),
        out@ == upsample2x(field@),
        out@.c == field@.c,
        out@.d == 2 * field@.d,
        out@.h == 2 * field@.h,
        out@.w == 2 * field@.w,
{
    let c = field.channels();
    let fd = field.depth();
    let fh = field.height();
    let fw = field.width();
    let od = 2 * fd;
    let oh = 2 * fh;
    let ow = 2 * fw;
    let ghost ohw = (2 * field@.h) * (2 * field@.w);
    proof {
        assert((0 * (2 * field@.d)) * ohw == 0) by (nonlinear_arith);
    }
    let mut data: Vec<i64> = Vec::new();
    let mut ch: usize = 0;
    while ch < c
        invariant
            field.wf(),
            c as int == field@.c,
            fd as int == field@.d,
            fh as int == field@.h,
            fw as int == field@.w,
            od as int == 2 * field@.d,
            oh as int == 2 * field@.h,
            ow as int == 2 * field@.w,
            2 * field@.d <= DIM_MAX,
            2 * field@.h <= DIM_MAX,
            2 * field@.w <= DIM_MAX,
            ohw == (2 * field@.h) * (2 * field@.w),
            0 <= ch <= c,
            data@.len() == (ch as int * (2 * field@.d)) * ohw,
            forall|cc: int, z: int, y: int, x: int|
                0 <= cc < field@.c && 0 <= z < 2 * field@.d && 0 <= y < 2 * field@.h && 0 <= x < 2
                    * field@.w && cc * (2 * field@.d) + z < ch as int * (2 * field@.d)
                    ==> #[trigger] data@[(cc * (2 * field@.d) + z) * ohw + y * (2 * field@.w)
                    + x] as int == up_at(field@, cc, z, y, x),
            forall|i: int| 0 <= i < data@.len() ==> -VAL_MAX <= #[trigger] data@[i] <= VAL_MAX,
        decreases c - ch,
    {
        let mut oz: usize = 0;
        while oz < od
            invariant
                field.wf(),
                c as int == field@.c,
                fd as int == field@.d,
                fh as int == field@.h,
                fw as int == field@.w,
                od as int == 2 * field@.d,
                oh as int == 2 * field@.h,
                ow as int == 2 * field@.w,
                2 * field@.d <= DIM_MAX,
                2 * field@.h <= DIM_MAX,
                2 * field@.w <= DIM_MAX,
                ohw == (2 * field@.h) * (2 * field@.w),
                ch < c,
                0 <= oz <= od,
                data@.len() == (ch as int * (2 * field@.d) + oz) * ohw,
                forall|cc: int, z: int, y: int, x: int|
                    0 <= cc < field@.c && 0 <= z < 2 * field@.d && 0 <= y < 2 * field@.h && 0 <= x
                        < 2 * field@.w && cc * (2 * field@.d) + z < ch as int * (2 * field@.d)
                        + oz ==> #[trigger] data@[(cc * (2 * field@.d) + z) * ohw + y * (2
                        * field@.w) + x] as int == up_at(field@, cc, z, y, x),
                forall|i: int| 0 <= i < data@.len() ==> -VAL_MAX <= #[trigger] data@[i] <= VAL_MAX,
            decreases od - oz,
        {
            let mut slab = upsample_plane(field, ch, oz);
            let ghost old_data = data@;
            let ghost slab_view = slab@;
            data.append(&mut slab);
            proof {
                lemma_upsample_plane_append(old_data, slab_view, field@, ch as int, oz as int);
            }
            oz = oz + 1;
        }
        proof {
            assert((ch as int + 1) * (2 * field@.d) == ch as int * (2 * field@.d) + 2 * field@.d)
                by (nonlinear_arith);
        }
        ch = ch + 1;
    }
    proof {
        assert forall|cc: int, z: int| 0 <= cc < field@.c && 0 <= z < 2 * field@.d implies #[trigger] (
        cc * (2 * field@.d) + z) < c as int * (2 * field@.d) by {
            assert(cc * (2 * field@.d) + z < c as int * (2 * field@.d)) by (nonlinear_arith)
                requires
                    0 <= cc && cc < c as int && 0 <= z && z < 2 * field@.d,
            ;
        }
        lemma_upsample_assemble(data@, field@);
    }
    WarpField::from_parts(data, c, od, oh, ow)
}

/// A buffer satisfying the plane-by-plane correspondence is exactly the
/// upsampled field's model.
#[verifier::rlimit(50)]
proof fn lemma_upsample_assemble(data: Seq<i64>, f: WfView)
    requires
        f.wf(),
        2 * f.d <= DIM_MAX,
        2 * f.h <= DIM_MAX,
        2 * f.w <= DIM_MAX,
        data.len() == (f.c * (2 * f.d)) * ((2 * f.h) * (2 * f.w)),
        forall|cc: int, z: int, y: int, x: int|
            0 <= cc < f.c && 0 <= z < 2 * f.d && 0 <= y < 2 * f.h && 0 <= x < 2 * f.w
                ==> #[trigger] data[(cc * (2 * f.d) + z) * ((2 * f.h) * (2 * f.w)) + y * (2 * f.w)
                + x] as int == up_at(f, cc, z, y, x),
        forall|i: int| 0 <= i < data.len() ==> -VAL_MAX <= #[trigger] data[i] <= VAL_MAX,
    ensures
        (WfView { data, c: f.c, d: 2 * f.d, h: 2 * f.h, w: 2 * f.w }) == upsample2x(f),
        (WfView { data, c: f.c, d: 2 * f.d, h: 2 * f.h, w: 2 * f.w }).wf(),
{
    let od = 2 * f.d;
    let oh = 2 * f.h;
    let ow = 2 * f.w;
    let vol = od * (oh * ow);
    let up = upsample2x(f);
    assert(0 < oh * ow && 0 < vol && (f.c * od) * (oh * ow) == f.c * vol && f.c * (od * oh * ow)
        == f.c * vol && od * oh * ow == vol) by (nonlinear_arith)
        requires
            0 < f.c && 0 < od && 0 < oh && 0 < ow && vol == od * (oh * ow),
    ;
    assert forall|j: int| 0 <= j < data.len() implies data[j] == up.data[j] by {
        let cc = j / vol;
        let r = j % vol;
        vstd::arithmetic::div_mod::lemma_fundamental_div_mod(j, vol);
        vstd::arithmetic::div_mod::lemma_mod_division_less_than_divisor(j, vol);
        vstd::arithmetic::div_mod::lemma_div_pos_is_pos(j, vol);
        vstd::arithmetic::div_mod::lemma_multiply_divide_lt(j, vol, f.c);
        vstd::arithmetic::mul::lemma_mul_is_commutative(vol, f.c);
        lemma_flat3_unflatten(od, oh, ow, r);
        let z = r / (oh * ow);
        let y = (r % (oh * ow)) / ow;
        let x = (r % (oh * ow)) % ow;
        assert(j == (cc * od + z) * (oh * ow) + y * ow + x) by (nonlinear_arith)
            requires
                j == vol * cc + r && vol == od * (oh * ow) && r == (z * oh + y) * ow + x,
        ;
        lemma_channel_window(f, cc);
        lemma_sample_clamped_range(
            f.channel(cc),
            up_pos(z, f.d),
            up_pos(y, f.h),
            up_pos(x, f.w),
        );
        assert(data[(cc * od + z) * (oh * ow) + y * ow + x] as int == up_at(f, cc, z, y, x));
        assert(up.data[j] == up_at(f, cc, z, y, x) as i64);
    }
    assert((WfView { data, c: f.c, d: od, h: oh, w: ow }).data =~= up.data);
}

/// The model of the upsampled field is well-formed, and reading a voxel of
/// one of its channels gives the align-corners interpolation of the
/// original channel.
pub proof fn lemma_upsample2x_at(f: WfView, cc: int, z: int, y: int, x: int)
    requires
        f.wf(),
        2 * f.d <= DIM_MAX,
        2 * f.h <= DIM_MAX,
        2 * f.w <= DIM_MAX,
        0 <= cc < f.c,
        0 <= z < 2 * f.d,
        0 <= y < 2 * f.h,
        0 <= x < 2 * f.w,
    ensures
        upsample2x(f).wf(),
        upsample2x(f).channel(cc).at(z, y, x) == up_at(f, cc, z, y, x),
{
    let up = upsample2x(f);
    let od = 2 * f.d;
    let oh = 2 * f.h;
    let ow = 2 * f.w;
    let vol = od * (oh * ow);
    assert(0 < oh * ow && 0 < vol && f.c * (od * (oh * ow)) == f.c * vol && f.c * (od * oh * ow)
        == f.c * vol && od * oh * ow == vol) by (nonlinear_arith)
        requires
            0 < f.c && 0 < od && 0 < oh && 0 < ow && vol == od * (oh * ow),
    ;
    lemma_upsample2x_wf(f);
    let r = flat3(oh, ow, z, y, x);
    lemma_flat3_in_range(od, oh, ow, z, y, x);
    let j = cc * vol + r;
    assert(j == vol * cc + r && cc * (od * oh * ow) == cc * vol) by (nonlinear_arith)
        requires
            j == cc * vol + r && vol == od * (oh * ow),
    ;
    vstd::arithmetic::div_mod::lemma_fundamental_div_mod_converse_div(j, vol, cc, r);
    vstd::arithmetic::div_mod::lemma_fundamental_div_mod_converse_mod(j, vol, cc, r);
    crate::volume::lemma_flat3_inverse(od, oh, ow, z, y, x);
    assert(0 <= cc * vol && cc * vol + vol <= f.c * vol) by (nonlinear_arith)
        requires
            0 <= cc < f.c && 0 < vol,
    ;
    assert(up.channel(cc).at(z, y, x) == up.data[j] as int);
    assert(up.data[j] == up_at(f, cc, z, y, x) as i64);
    lemma_channel_window(f, cc);
    lemma_sample_clamped_range(f.channel(cc), up_pos(z, f.d), up_pos(y, f.h), up_pos(x, f.w));
}

/// The model of the upsampled field is well-formed.
pub proof fn lemma_upsample2x_wf(f: WfView)
    requires
        f.wf(),
        2 * f.d <= DIM_MAX,
        2 * f.h <= DIM_MAX,
        2 * f.w <= DIM_MAX,
    ensures
        upsample2x(f).wf(),
        upsample2x(f).c == f.c,
        upsample2x(f).d == 2 * f.d,
        upsample2x(f).h == 2 * f.h,
        upsample2x(f).w == 2 * f.w,
{
    let up = upsample2x(f);
    let od = 2 * f.d;
    let oh = 2 * f.h;
    let ow = 2 * f.w;
    let vol = od * (oh * ow);
    assert(0 < oh * ow && 0 < vol && f.c * (od * (oh * ow)) == f.c * vol && f.c * (od * oh * ow)
        == f.c * vol && od * oh * ow == vol && vol <= f.c * vol) by (nonlinear_arith)
        requires
            0 < f.c && 0 < od && 0 < oh && 0 < ow && vol == od * (oh * ow),
    ;
    assert forall|j: int| 0 <= j < up.data.len() implies -VAL_MAX <= #[trigger] up.data[j]
        <= VAL_MAX by {
        let ccj = j / vol;
        let r = j % vol;
        vstd::arithmetic::div_mod::lemma_fundamental_div_mod(j, vol);
        vstd::arithmetic::div_mod::lemma_mod_division_less_than_divisor(j, vol);
        vstd::arithmetic::div_mod::lemma_div_pos_is_pos(j, vol);
        vstd::arithmetic::mul::lemma_mul_is_commutative(vol, f.c);
        vstd::arithmetic::div_mod::lemma_multiply_divide_lt(j, vol, f.c);
        lemma_flat3_unflatten(od, oh, ow, r);
        let zj = r / (oh * ow);
        let yj = (r % (oh * ow)) / ow;
        let xj = (r % (oh * ow)) % ow;
        lemma_channel_window(f, ccj);
        lemma_sample_clamped_range(
            f.channel(ccj),
            up_pos(zj, f.d),
            up_pos(yj, f.h),
            up_pos(xj, f.w),
        );
        assert(up.data[j] == up_at(f, ccj, zj, yj, xj) as i64);
    }
}

/// Resample an image through a displacement field, optionally enlarging the
/// field by exactly 2x per spatial axis first.  Every output voxel is the
/// image's trilinear sample at its displaced source coordinate, or `cval`
/// when that coordinate's cell lies outside the image.
pub fn apply_warp_3d(image: &Volume, field: &WarpField, cval: i64, upsample: bool) -> (out: Volume)
    requires
        image.wf(),
        field.wf(),
        field@.c >= 3,
        -VAL_MAX <= cval <= VAL_MAX,
        upsample ==> 2 * field@.d <= DIM_MAX && 2 * field@.h <= DIM_MAX && 2 * field@.w <= DIM_MAX
            && 8 * field@.data.len() <= usize::MAX,
    ensures
        out.wf(),
        out@.d == image@.d,
        out@.h == image@.h,
        out@.w == image@.w,
        forall|z: int, y: int, x: int|
            0 <= z < image@.d && 0 <= y < image@.h && 0 <= x < image@.w ==> #[trigger] out@.at(
                z,
                y,
                x,
            ) == warp_sample(
                image@,
                if upsample {
                    upsample2x(field@)
                } else {
                    field@
                },
                z,
                y,
                x,
                cval as int,
            ),
{
    if upsample {
        let up = upsample_warp_field_2x(field);
        apply_warp_field(image, &up, cval)
    } else {
        apply_warp_field(image, field, cval)
    }
}

} // verus!
