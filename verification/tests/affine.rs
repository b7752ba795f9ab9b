//! Affine-transform tests: identity, translation, scaling, boundary and
//! out-of-bounds behaviour, plus the matrix constructors and the
//! scattered-point sampler.

use interp3d::fixed::FIX_ONE;
use interp3d::geometry::AffineMatrix3D;
use interp3d::scalar::{affine_transform_3d, map_coordinates_3d, trilinear_interp};
use interp3d::volume::Volume;

const SCALE: f64 = 65536.0;

fn fix_val(v: f64) -> i64 {
    (v * SCALE).round() as i64
}

fn unfix_val(v: i64) -> f64 {
    v as f64 / SCALE
}

fn volume_from_fn(d: usize, h: usize, w: usize, f: impl Fn(usize, usize, usize) -> f64) -> Volume {
    let mut data = Vec::with_capacity(d * h * w);
    for z in 0..d {
        for y in 0..h {
            for x in 0..w {
                data.push(fix_val(f(z, y, x)));
            }
        }
    }
    Volume::try_new(data, d, h, w).unwrap()
}

fn vol_at(v: &Volume, z: usize, y: usize, x: usize) -> f64 {
    unfix_val(v.get(z, y, x))
}

#[test]
fn test_identity_transform_f32() {
    let input = volume_from_fn(10, 10, 10, |z, y, x| (z * 100 + y * 10 + x) as f64);
    let matrix = AffineMatrix3D::identity();
    let shift = [0i64, 0, 0];

    let output = affine_transform_3d(&input, &matrix, &shift, 0);

    for z in 1..9 {
        for y in 1..9 {
            for x in 1..9 {
                assert!((vol_at(&output, z, y, x) - vol_at(&input, z, y, x)).abs() < 1e-5);
            }
        }
    }
}

#[test]
fn test_identity_transform_f64() {
    let input = volume_from_fn(10, 10, 10, |z, y, x| (z * 100 + y * 10 + x) as f64);
    let matrix = AffineMatrix3D::identity();
    let shift = [0i64, 0, 0];

    let output = affine_transform_3d(&input, &matrix, &shift, 0);

    for z in 1..9 {
        for y in 1..9 {
            for x in 1..9 {
                assert!((vol_at(&output, z, y, x) - vol_at(&input, z, y, x)).abs() < 1e-10);
            }
        }
    }
}

#[test]
fn test_translation() {
    let input = volume_from_fn(20, 20, 20, |z, y, x| (z + y + x) as f64);
    let matrix = AffineMatrix3D::identity();
    let shift = [FIX_ONE, FIX_ONE, FIX_ONE];

    let output = affine_transform_3d(&input, &matrix, &shift, 0);

    for z in 2..17 {
        for y in 2..17 {
            for x in 2..17 {
                let expected = vol_at(&input, z + 1, y + 1, x + 1);
                assert!((vol_at(&output, z, y, x) - expected).abs() < 1e-4);
            }
        }
    }
}

#[test]
fn test_affine_matrix_constructors() {
    let identity = AffineMatrix3D::identity();
    assert_eq!(identity.m[0], FIX_ONE);
    assert_eq!(identity.m[4], FIX_ONE);
    assert_eq!(identity.m[8], FIX_ONE);

    let scale = AffineMatrix3D::scale(2 * FIX_ONE, 3 * FIX_ONE, 4 * FIX_ONE);
    assert_eq!(scale.m[0], 2 * FIX_ONE);
    assert_eq!(scale.m[4], 3 * FIX_ONE);
    assert_eq!(scale.m[8], 4 * FIX_ONE);
}

#[test]
fn test_trilinear_interp_center() {
    let mut data = vec![0i64; 27];
    data[0] = fix_val(0.0);
    data[1] = fix_val(1.0);
    data[3] = fix_val(2.0);
    data[4] = fix_val(3.0);
    data[9] = fix_val(4.0);
    data[10] = fix_val(5.0);
    data[12] = fix_val(6.0);
    data[13] = fix_val(7.0);
    let vol = Volume::try_new(data, 3, 3, 3).unwrap();

    let half = FIX_ONE / 2;
    let result = trilinear_interp(&vol, half, half, half, 0);
    let expected = (0.0 + 1.0 + 2.0 + 3.0 + 4.0 + 5.0 + 6.0 + 7.0) / 8.0;
    assert!((unfix_val(result) - expected).abs() < 1e-5);
}

#[test]
fn test_trilinear_interp_out_of_bounds() {
    let data = vec![fix_val(1.0); 27];
    let vol = Volume::try_new(data, 3, 3, 3).unwrap();
    let cval = fix_val(-999.0);

    assert_eq!(trilinear_interp(&vol, -FIX_ONE, 0, 0, cval), cval);
    assert_eq!(trilinear_interp(&vol, 0, -FIX_ONE, 0, cval), cval);
    assert_eq!(trilinear_interp(&vol, 0, 0, -FIX_ONE, cval), cval);
}

#[test]
fn test_identity_preserves_values() {
    let input = volume_from_fn(20, 20, 20, |z, y, x| (z * 100 + y * 10 + x) as f64);
    let matrix = AffineMatrix3D::identity();
    let shift = [0i64, 0, 0];

    let output = affine_transform_3d(&input, &matrix, &shift, 0);

    for z in 1..19 {
        for y in 1..19 {
            for x in 1..19 {
                assert!((vol_at(&output, z, y, x) - vol_at(&input, z, y, x)).abs() < 1e-6);
            }
        }
    }
}

#[test]
fn test_translation_f32() {
    let input = volume_from_fn(30, 30, 30, |z, y, x| (z + y + x) as f64);
    let matrix = AffineMatrix3D::identity();
    let shift = [FIX_ONE, FIX_ONE, FIX_ONE];

    let output = affine_transform_3d(&input, &matrix, &shift, 0);

    for z in 2..27 {
        for y in 2..27 {
            for x in 2..27 {
                let expected = vol_at(&input, z + 1, y + 1, x + 1);
                assert!((vol_at(&output, z, y, x) - expected).abs() < 1e-5);
            }
        }
    }
}

#[test]
fn test_translation_f64() {
    let input = volume_from_fn(30, 30, 30, |z, y, x| (z + y + x) as f64);
    let matrix = AffineMatrix3D::identity();
    let shift = [FIX_ONE, FIX_ONE, FIX_ONE];

    let output = affine_transform_3d(&input, &matrix, &shift, 0);

    for z in 2..27 {
        for y in 2..27 {
            for x in 2..27 {
                let expected = vol_at(&input, z + 1, y + 1, x + 1);
                assert!((vol_at(&output, z, y, x) - expected).abs() < 1e-10);
            }
        }
    }
}

#[test]
fn test_half_pixel_shift() {
    // A single hot corner and a half-voxel shift: output (2,2,2) samples at
    // (2.5, 2.5, 2.5), where only corner (2,2,3) = 8.0 contributes, with
    // weight 0.5 * 0.5 * 0.5 = 0.125.
    let mut input = vec![0i64; 1000];
    input[(2 * 10 + 2) * 10 + 3] = fix_val(8.0);
    let vol = Volume::try_new(input, 10, 10, 10).unwrap();

    let matrix = AffineMatrix3D::identity();
    let half = FIX_ONE / 2;
    let shift = [half, half, half];

    let output = affine_transform_3d(&vol, &matrix, &shift, 0);

    let expected = 8.0 * 0.125;
    assert!((vol_at(&output, 2, 2, 2) - expected).abs() < 1e-6);
}

#[test]
fn test_scaling() {
    let input = volume_from_fn(40, 40, 40, |z, y, x| ((z * 100 + y * 10 + x) % 256) as f64);
    let matrix = AffineMatrix3D::scale(2 * FIX_ONE, 2 * FIX_ONE, 2 * FIX_ONE);
    let shift = [0i64, 0, 0];

    let output = affine_transform_3d(&input, &matrix, &shift, 0);

    for z in 1..18 {
        for y in 1..18 {
            for x in 1..18 {
                let expected = vol_at(&input, z * 2, y * 2, x * 2);
                assert!((vol_at(&output, z, y, x) - expected).abs() < 1e-5);
            }
        }
    }
}

#[test]
fn test_cval_for_out_of_bounds() {
    let input = volume_from_fn(10, 10, 10, |_, _, _| 1.0);
    let matrix = AffineMatrix3D::identity();
    let shift = [100 * FIX_ONE, 0, 0];
    let cval = fix_val(-999.0);

    let output = affine_transform_3d(&input, &matrix, &shift, cval);

    for z in 0..10 {
        for y in 0..10 {
            for x in 0..10 {
                assert_eq!(output.get(z, y, x), cval);
            }
        }
    }
}

#[test]
fn test_map_coordinates_matches_point_sampler() {
    let input = volume_from_fn(5, 5, 5, |z, y, x| (z * 25 + y * 5 + x) as f64);
    let zc = vec![0i64, FIX_ONE, FIX_ONE / 2, 3 * FIX_ONE, -FIX_ONE];
    let yc = vec![0i64, 2 * FIX_ONE, FIX_ONE / 2, 3 * FIX_ONE, 0];
    let xc = vec![0i64, FIX_ONE, FIX_ONE / 2, 3 * FIX_ONE, 0];
    let cval = fix_val(-1.0);

    let out = map_coordinates_3d(&input, &zc, &yc, &xc, cval);

    assert_eq!(out.len(), 5);
    for i in 0..5 {
        assert_eq!(out[i], trilinear_interp(&input, zc[i], yc[i], xc[i], cval));
    }
    // Exact values: lattice points read the volume directly; the last
    // request is out of bounds.
    assert_eq!(out[0], fix_val(0.0));
    assert_eq!(out[1], fix_val(25.0 + 10.0 + 1.0));
    assert_eq!(out[3], fix_val(3.0 * 25.0 + 3.0 * 5.0 + 3.0));
    assert_eq!(out[4], cval);
}

#[test]
fn test_interior_center_average() {
    // The exact expected value of a center sample: the mean of the eight
    // corners of the first cell.
    let input = volume_from_fn(4, 4, 4, |z, y, x| (z * 16 + y * 4 + x) as f64);
    let half = FIX_ONE / 2;
    let r = trilinear_interp(&input, half, half, half, 0);
    let expected = (0.0 + 1.0 + 4.0 + 5.0 + 16.0 + 17.0 + 20.0 + 21.0) / 8.0;
    assert_eq!(unfix_val(r), expected);
}

#[test]
fn test_volume_try_new_rejects_bad_shapes() {
    assert!(Volume::try_new(vec![0i64; 8], 2, 2, 2).is_some());
    assert!(Volume::try_new(vec![0i64; 7], 2, 2, 2).is_none());
    assert!(Volume::try_new(vec![0i64; 0], 0, 1, 1).is_none());
    // A sample beyond the interpolation bound is rejected at the boundary.
    assert!(Volume::try_new(vec![i64::MAX; 1], 1, 1, 1).is_none());
}

#[test]
fn test_singular_matrix_is_well_defined() {
    // A zero (singular) matrix is not an error: every output voxel samples
    // the shifted origin, a degenerate but well-defined mapping.
    let input = volume_from_fn(4, 4, 4, |z, y, x| (z * 16 + y * 4 + x) as f64);
    let zero = AffineMatrix3D::new([0; 9]);
    let shift = [FIX_ONE, 2 * FIX_ONE, 3 * FIX_ONE];

    let output = affine_transform_3d(&input, &zero, &shift, 0);

    for z in 0..4 {
        for y in 0..4 {
            for x in 0..4 {
                assert_eq!(output.get(z, y, x), input.get(1, 2, 3));
            }
        }
    }
}

#[test]
fn test_single_voxel_volume() {
    // The smallest legal volume: its one cell clamps to itself on every
    // axis, so any in-bounds fraction returns the single sample.
    let vol = Volume::try_new(vec![fix_val(5.0)], 1, 1, 1).unwrap();
    let matrix = AffineMatrix3D::identity();

    let output = affine_transform_3d(&vol, &matrix, &[0, 0, 0], 0);
    assert_eq!(output.get(0, 0, 0), fix_val(5.0));

    let half = FIX_ONE / 2;
    assert_eq!(trilinear_interp(&vol, half, half, half, 0), fix_val(5.0));
    assert_eq!(trilinear_interp(&vol, FIX_ONE, 0, 0, 0), 0);
}

#[test]
fn test_negative_samples_interpolate() {
    // Signed samples: the midpoint of -2 and +2 along x is 0, and a
    // quarter-point is -1.
    let mut data = vec![0i64; 8];
    data[0] = fix_val(-2.0);
    data[1] = fix_val(2.0);
    let vol = Volume::try_new(data, 2, 2, 2).unwrap();

    assert_eq!(trilinear_interp(&vol, 0, 0, FIX_ONE / 2, 0), fix_val(0.0));
    assert_eq!(trilinear_interp(&vol, 0, 0, FIX_ONE / 4, 0), fix_val(-1.0));
}

#[test]
fn test_boundary_cell_clamps_upper_corner() {
    // A fractional coordinate in the last unit cell is accepted: the upper
    // corner clamps to the last voxel, so the blend degenerates along that
    // axis and returns the edge value.
    let input = volume_from_fn(3, 3, 3, |z, _, _| z as f64);
    let half = FIX_ONE / 2;
    let r = trilinear_interp(&input, 2 * FIX_ONE + half, 0, 0, fix_val(-7.0));
    assert_eq!(unfix_val(r), 2.0);
    // One step further the lower corner leaves the volume: cval.
    let r2 = trilinear_interp(&input, 3 * FIX_ONE, 0, 0, fix_val(-7.0));
    assert_eq!(unfix_val(r2), -7.0);
}
