//! Affine transform geometry: a 3x3 fixed-point matrix and 3-vector shift.
//!
//! The matrix maps an output voxel index to a fixed-point source coordinate:
//! `src = M * (oz, oy, ox) + shift` (pull-based resampling).  Entries and
//! shifts are Q16.16 fixed-point values; `FIX_ONE` is the unit entry.

use crate::fixed::{FIX_ONE, MAT_MAX};
use vstd::prelude::*;

verus! {

/// Row-major 3x3 affine matrix with Q16.16 fixed-point entries.
///
/// `m[3 * r + c]` is the entry of row `r`, column `c`; row 0 produces the z
/// source coordinate, row 1 the y, row 2 the x.
pub struct AffineMatrix3D {
    pub m: [i64; 9],
}

/// Matrix entries are bounded so the affine map of any in-range output
/// index fits an `i64`.
pub open spec fn mat_wf(m: Seq<i64>) -> bool {
    &&& m.len() == 9
    &&& forall|i: int| 0 <= i < 9 ==> -MAT_MAX <= #[trigger] m[i] <= MAT_MAX
}

/// Shift entries are bounded like matrix entries.
pub open spec fn shift_wf(s: Seq<i64>) -> bool {
    &&& s.len() == 3
    &&& forall|i: int| 0 <= i < 3 ==> -MAT_MAX <= #[trigger] s[i] <= MAT_MAX
}

/// The identity matrix as a sequence of fixed-point entries.
pub open spec fn identity_mat() -> Seq<i64> {
    seq![FIX_ONE, 0i64, 0i64, 0i64, FIX_ONE, 0i64, 0i64, 0i64, FIX_ONE]
}

impl AffineMatrix3D {
    /// Entries are within the bound the kernels require.
    pub open spec fn wf(&self) -> bool {
        mat_wf(self.m@)
    }

    /// Wrap a row-major list of nine fixed-point entries.
    pub fn new(m: [i64; 9]) -> (r: AffineMatrix3D)
        ensures
            r.m@ == m@,
    {
        AffineMatrix3D { m }
    }

    /// The identity map: diagonal `FIX_ONE`, zero elsewhere.
    pub fn identity() -> (r: AffineMatrix3D)
        ensures
            r.m@ == identity_mat(),
            r.wf(),
    {
        let m: [i64; 9] = [FIX_ONE, 0, 0, 0, FIX_ONE, 0, 0, 0, FIX_ONE];
        proof {
            assert(m@ =~= identity_mat());
        }
        AffineMatrix3D { m }
    }

    /// A diagonal scaling map with fixed-point factors per axis.
    pub fn scale(sz: i64, sy: i64, sx: i64) -> (r: AffineMatrix3D)
        ensures
            r.m@ == seq![sz, 0i64, 0i64, 0i64, sy, 0i64, 0i64, 0i64, sx],
    {
        let m: [i64; 9] = [sz, 0, 0, 0, sy, 0, 0, 0, sx];
        proof {
            assert(m@ =~= seq![sz, 0i64, 0i64, 0i64, sy, 0i64, 0i64, 0i64, sx]);
        }
        AffineMatrix3D { m }
    }

    /// The row-major entries, as the kernels consume them.
    pub fn as_flat(&self) -> (r: [i64; 9])
        ensures
            r@ == self.m@,
    {
        self.m
    }
}

impl Default for AffineMatrix3D {
    /// The default transform is the identity map.
    fn default() -> (r: AffineMatrix3D)
        ensures
            r.m@ == identity_mat(),
            r.wf(),
    {
        AffineMatrix3D::identity()
    }
}

} // verus!
