//! Dense 3D volumes over a contiguous row-major buffer.

use crate::fixed::{DIM_MAX, VAL_MAX};
use vstd::prelude::*;

verus! {

/// Flat index of voxel `(z, y, x)` in a row-major `h`-by-`w` layout.
pub open spec fn flat3(h: int, w: int, z: int, y: int, x: int) -> int {
    (z * h + y) * w + x
}

/// Mathematical model of a volume: its samples and extents.
pub ghost struct VolView {
    pub data: Seq<i64>,
    pub d: int,
    pub h: int,
    pub w: int,
}

impl VolView {
    /// Extents are positive and machine-bounded, the buffer matches them,
    /// and every sample is small enough for exact interpolation.
    pub open spec fn wf(self) -> bool {
        &&& 1 <= self.d <= DIM_MAX
        &&& 1 <= self.h <= DIM_MAX
        &&& 1 <= self.w <= DIM_MAX
        &&& self.data.len() == self.d * self.h * self.w
        &&& forall|i: int|
            0 <= i < self.data.len() ==> -VAL_MAX <= #[trigger] self.data[i] <= VAL_MAX
    }

    /// Sample at `(z, y, x)`, as a mathematical integer.
    pub open spec fn at(self, z: int, y: int, x: int) -> int {
        self.data[flat3(self.h, self.w, z, y, x)] as int
    }
}

/// An immutable 3D buffer of samples, row-major with the z axis slowest.
///
/// Samples are plain `i64` values; callers pick their meaning (a raw `u8`
/// intensity, or a fixed-point encoding of a wider range).
pub struct Volume {
    data: Vec<i64>,
    d: usize,
    h: usize,
    w: usize,
}

impl View for Volume {
    type V = VolView;

    closed spec fn view(&self) -> VolView {
        VolView { data: self.data@, d: self.d as int, h: self.h as int, w: self.w as int }
    }
}

/// Flat index of `(z, y, x)` stays inside the buffer, and every partial
/// product of its computation stays within machine range.
pub proof fn lemma_flat3_in_range(d: int, h: int, w: int, z: int, y: int, x: int)
    requires
        0 < d <= DIM_MAX,
        0 < h <= DIM_MAX,
        0 < w <= DIM_MAX,
        0 <= z < d,
        0 <= y < h,
        0 <= x < w,
    ensures
        0 <= z * h + y < d * h,
        0 <= flat3(h, w, z, y, x) < d * h * w,
        d * h <= 0x10000000000,
        d * h * w <= 0x1000000000000000,
{
    assert(0 <= z * h + y < d * h && 0 <= (z * h + y) * w + x < (d * h) * w && d * h
        <= 0x10000000000 && (d * h) * w <= 0x1000000000000000) by (nonlinear_arith)
        requires
            0 < d <= DIM_MAX && 0 < h <= DIM_MAX && 0 < w <= DIM_MAX && 0 <= z < d && 0 <= y < h
                && 0 <= x < w,
    ;
    assert(d * h * w == (d * h) * w) by (nonlinear_arith);
}

/// Distinct voxels have distinct flat indices: `(z, y, x)` is recovered
/// from its flat index by division and remainder.
pub proof fn lemma_flat3_inverse(d: int, h: int, w: int, z: int, y: int, x: int)
    requires
        0 < d,
        0 < h,
        0 < w,
        0 <= z < d,
        0 <= y < h,
        0 <= x < w,
    ensures
        flat3(h, w, z, y, x) / (h * w) == z,
        flat3(h, w, z, y, x) % (h * w) == y * w + x,
        (y * w + x) / w == y,
        (y * w + x) % w == x,
{
    let hw = h * w;
    let rem = y * w + x;
    assert((z * h + y) * w + x == z * (h * w) + (y * w + x) && 0 <= y * w + x < h * w)
        by (nonlinear_arith)
        requires
            0 < h && 0 < w && 0 <= y < h && 0 <= x < w,
    ;
    vstd::arithmetic::div_mod::lemma_fundamental_div_mod_converse_div(
        flat3(h, w, z, y, x),
        hw,
        z,
        rem,
    );
    vstd::arithmetic::div_mod::lemma_fundamental_div_mod_converse_mod(
        flat3(h, w, z, y, x),
        hw,
        z,
        rem,
    );
    vstd::arithmetic::div_mod::lemma_fundamental_div_mod_converse_div(rem, w, y, x);
    vstd::arithmetic::div_mod::lemma_fundamental_div_mod_converse_mod(rem, w, y, x);
}

/// Any offset below `d * (h * w)` decomposes uniquely into a voxel index:
/// the quotients and remainders recover `(z, y, x)` and flatten back to the
/// offset.
pub proof fn lemma_flat3_unflatten(d: int, h: int, w: int, r: int)
    requires
        0 < d,
        0 < h,
        0 < w,
        0 <= r < d * (h * w),
    ensures
        0 <= r / (h * w) < d,
        0 <= (r % (h * w)) / w < h,
        0 <= (r % (h * w)) % w < w,
        flat3(h, w, r / (h * w), (r % (h * w)) / w, (r % (h * w)) % w) == r,
{
    let hw = h * w;
    assert(0 < h * w) by (nonlinear_arith)
        requires
            0 < h && 0 < w,
    ;
    let z = r / hw;
    let r2 = r % hw;
    vstd::arithmetic::mul::lemma_mul_is_commutative(hw, d);
    vstd::arithmetic::div_mod::lemma_fundamental_div_mod(r, hw);
    vstd::arithmetic::div_mod::lemma_mod_division_less_than_divisor(r, hw);
    vstd::arithmetic::div_mod::lemma_div_pos_is_pos(r, hw);
    vstd::arithmetic::div_mod::lemma_multiply_divide_lt(r, hw, d);
    let y = r2 / w;
    let x = r2 % w;
    vstd::arithmetic::mul::lemma_mul_is_commutative(w, h);
    vstd::arithmetic::div_mod::lemma_fundamental_div_mod(r2, w);
    vstd::arithmetic::div_mod::lemma_mod_division_less_than_divisor(r2, w);
    vstd::arithmetic::div_mod::lemma_div_pos_is_pos(r2, w);
    vstd::arithmetic::div_mod::lemma_multiply_divide_lt(r2, w, h);
    vstd::arithmetic::mul::lemma_mul_is_commutative(z, hw);
    assert((z * h + y) * w + x == z * (h * w) + (w * y + x)) by (nonlinear_arith);
}

/// With positive extents, the sample count dominates each partial product.
pub proof fn lemma_volume_len_mono(d: int, h: int, w: int)
    requires
        0 < d,
        0 < h,
        0 < w,
    ensures
        d * h <= d * h * w,
        d * h * w == (d * h) * w,
{
    assert(d * h <= (d * h) * w && d * h * w == (d * h) * w) by (nonlinear_arith)
        requires
            0 < d && 0 < h && 0 < w,
    ;
}

impl Volume {
    /// Well-formedness of the underlying buffer and extents.
    pub open spec fn wf(&self) -> bool {
        self@.wf()
    }

    /// Build a volume after checking the boundary contract: extents in
    /// range, buffer length equal to `d * h * w`, samples within `VAL_MAX`.
    /// Returns `None` exactly when one of those checks fails.
    pub fn try_new(data: Vec<i64>, d: usize, h: usize, w: usize) -> (r: Option<Volume>)
        ensures
            match r {
                Some(v) => v.wf() && v@ == (VolView {
                    data: data@,
                    d: d as int,
                    h: h as int,
                    w: w as int,
                }),
                None => !(VolView {
                    data: data@,
                    d: d as int,
                    h: h as int,
                    w: w as int,
                }).wf(),
            },
    {
        if d < 1 || d > DIM_MAX || h < 1 || h > DIM_MAX || w < 1 || w > DIM_MAX {
            return None;
        }
        let n = data.len();
        proof {
            lemma_volume_len_mono(d as int, h as int, w as int);
        }
        let dh = match d.checked_mul(h) {
            Some(v) => v,
            None => {
                return None;
            },
        };
        let dhw = match dh.checked_mul(w) {
            Some(v) => v,
            None => {
                return None;
            },
        };
        if n != dhw {
            return None;
        }
        let mut i: usize = 0;
        while i < data.len()
            invariant
                0 <= i <= data@.len(),
                forall|j: int| 0 <= j < i ==> -VAL_MAX <= #[trigger] data@[j] <= VAL_MAX,
            decreases data@.len() - i,
        {
            let s = data[i];
            if s < -VAL_MAX || s > VAL_MAX {
                return None;
            }
            i = i + 1;
        }
        Some(Volume { data, d, h, w })
    }

    /// Assemble a volume from parts already proved well-formed.
    pub(crate) fn from_parts(data: Vec<i64>, d: usize, h: usize, w: usize) -> (v: Volume)
        requires
            (VolView { data: data@, d: d as int, h: h as int, w: w as int }).wf(),
        ensures
            v.wf(),
            v@ == (VolView { data: data@, d: d as int, h: h as int, w: w as int }),
    {
        Volume { data, d, h, w }
    }

    /// Extent of the slowest axis.
    pub fn depth(&self) -> (r: usize)
        ensures
            r as int == self@.d,
    {
        self.d
    }

    /// Extent of the middle axis.
    pub fn height(&self) -> (r: usize)
        ensures
            r as int == self@.h,
    {
        self.h
    }

    /// Extent of the fastest axis.
    pub fn width(&self) -> (r: usize)
        ensures
            r as int == self@.w,
    {
        self.w
    }

    /// Sample at `(z, y, x)`.
    pub fn get(&self, z: usize, y: usize, x: usize) -> (r: i64)
        requires
            self.wf(),
            z < self@.d,
            y < self@.h,
            x < self@.w,
        ensures
            r as int == self@.at(z as int, y as int, x as int),
    {
        let n = self.data.len();
        proof {
            lemma_flat3_in_range(self@.d, self@.h, self@.w, z as int, y as int, x as int);
            lemma_volume_len_mono(self@.d, self@.h, self@.w);
        }
        self.data[(z * self.h + y) * self.w + x]
    }

    /// The flat row-major sample buffer.
    pub fn values(&self) -> (r: &Vec<i64>)
        ensures
            r@ == self@.data,
    {
        &self.data
    }
}

} // verus!
