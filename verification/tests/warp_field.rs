//! Displacement-field tests: upsampling, warp identity and translation,
//! the byte path, and the backend dispatcher.

use half::f16;
use interp3d::adapters::{apply_warp_3d_u8, trilinear_3d_u8_scalar};
use interp3d::dispatch::{backend_report, select_backend, Backend, CpuFeatures, Precision};
use interp3d::fixed::FIX_ONE;
use interp3d::geometry::AffineMatrix3D;
use interp3d::volume::Volume;
use interp3d::warp::{apply_warp_3d, upsample_warp_field_2x, WarpField};

const WSCALE: f64 = 65536.0;

fn wfix(v: f64) -> i64 {
    (v * WSCALE).round() as i64
}

fn wunfix(v: i64) -> f64 {
    v as f64 / WSCALE
}

fn image_from_fn(d: usize, h: usize, w: usize, f: impl Fn(usize, usize, usize) -> f64) -> Volume {
    let mut data = Vec::with_capacity(d * h * w);
    for z in 0..d {
        for y in 0..h {
            for x in 0..w {
                data.push(wfix(f(z, y, x)));
            }
        }
    }
    Volume::try_new(data, d, h, w).unwrap()
}

fn field_from_fn(
    c: usize,
    d: usize,
    h: usize,
    w: usize,
    f: impl Fn(usize, usize, usize, usize) -> f64,
) -> WarpField {
    let mut data = Vec::with_capacity(c * d * h * w);
    for ch in 0..c {
        for z in 0..d {
            for y in 0..h {
                for x in 0..w {
                    data.push(wfix(f(ch, z, y, x)));
                }
            }
        }
    }
    WarpField::try_new(data, c, d, h, w).unwrap()
}

fn field_at(f: &WarpField, ch: usize, z: usize, y: usize, x: usize) -> f64 {
    let (d, h, w) = (f.depth(), f.height(), f.width());
    wunfix(f.values()[((ch * d + z) * h + y) * w + x])
}

#[test]
fn test_upsample_warp_field_2x() {
    // A single-channel 2x2x2 field with the values 1..8 at its corners.
    let mut corner = [[[0.0f64; 2]; 2]; 2];
    corner[0][0][0] = 1.0;
    corner[0][0][1] = 2.0;
    corner[0][1][0] = 3.0;
    corner[0][1][1] = 4.0;
    corner[1][0][0] = 5.0;
    corner[1][0][1] = 6.0;
    corner[1][1][0] = 7.0;
    corner[1][1][1] = 8.0;
    let field = field_from_fn(1, 2, 2, 2, |_, z, y, x| corner[z][y][x]);

    let up = upsample_warp_field_2x(&field);

    assert_eq!(
        (up.channels(), up.depth(), up.height(), up.width()),
        (1, 4, 4, 4)
    );

    assert!((field_at(&up, 0, 0, 0, 0) - 1.0).abs() < 1e-5, "Corner [0,0,0,0] should be 1.0");
    assert!((field_at(&up, 0, 0, 0, 3) - 2.0).abs() < 1e-5, "Corner [0,0,0,3] should be 2.0");
    assert!((field_at(&up, 0, 0, 3, 0) - 3.0).abs() < 1e-5, "Corner [0,0,3,0] should be 3.0");
    assert!((field_at(&up, 0, 0, 3, 3) - 4.0).abs() < 1e-5, "Corner [0,0,3,3] should be 4.0");
    assert!((field_at(&up, 0, 3, 0, 0) - 5.0).abs() < 1e-5, "Corner [0,3,0,0] should be 5.0");
    assert!((field_at(&up, 0, 3, 3, 3) - 8.0).abs() < 1e-5, "Corner [0,3,3,3] should be 8.0");

    // Output index 1 maps to input coordinate 1/3: between 1.0 and 2.0.
    let expected_001 = 1.0 + (1.0 / 3.0) * (2.0 - 1.0);
    assert!(
        (field_at(&up, 0, 0, 0, 1) - expected_001).abs() < 1e-5,
        "Interpolated [0,0,0,1] should be ~1.333, got {}",
        field_at(&up, 0, 0, 0, 1)
    );

    // All three axes at 1/3: the full trilinear blend of the 8 corners.
    let frac = 1.0 / 3.0;
    let expected_111 = (1.0 - frac) * (1.0 - frac) * (1.0 - frac) * 1.0
        + frac * (1.0 - frac) * (1.0 - frac) * 2.0
        + (1.0 - frac) * frac * (1.0 - frac) * 3.0
        + frac * frac * (1.0 - frac) * 4.0
        + (1.0 - frac) * (1.0 - frac) * frac * 5.0
        + frac * (1.0 - frac) * frac * 6.0
        + (1.0 - frac) * frac * frac * 7.0
        + frac * frac * frac * 8.0;
    assert!(
        (field_at(&up, 0, 1, 1, 1) - expected_111).abs() < 1e-4,
        "Trilinear [0,1,1,1] should be ~{}, got {}",
        expected_111,
        field_at(&up, 0, 1, 1, 1)
    );
}

#[test]
fn test_upsample_preserves_channels() {
    let field = field_from_fn(4, 2, 2, 2, |c, z, y, x| (c * 100 + z * 10 + y * 5 + x) as f64);

    let up = upsample_warp_field_2x(&field);

    for c in 0..4 {
        let expected_000 = (c * 100) as f64;
        let expected_333 = (c * 100 + 10 + 5 + 1) as f64;
        assert!(
            (field_at(&up, c, 0, 0, 0) - expected_000).abs() < 1e-5,
            "Channel {} corner [0,0,0] mismatch",
            c
        );
        assert!(
            (field_at(&up, c, 3, 3, 3) - expected_333).abs() < 1e-5,
            "Channel {} corner [3,3,3] mismatch",
            c
        );
    }
}

#[test]
fn test_apply_warp_identity_f32() {
    let image = image_from_fn(20, 20, 20, |z, y, x| (z * 100 + y * 10 + x) as f64);
    let field = field_from_fn(4, 5, 5, 5, |_, _, _, _| 0.0);

    let output = apply_warp_3d(&image, &field, 0, false);

    for z in 2..18 {
        for y in 2..18 {
            for x in 2..18 {
                let diff = (wunfix(output.get(z, y, x)) - wunfix(image.get(z, y, x))).abs();
                assert!(diff < 1.0, "Diff too large at [{}, {}, {}]: {}", z, y, x, diff);
            }
        }
    }
}

#[test]
fn test_apply_warp_translation_f32() {
    let image = image_from_fn(20, 20, 20, |z, y, x| (z + y + x) as f64);
    // Constant unit displacement on the three displacement channels.
    let field = field_from_fn(4, 5, 5, 5, |c, _, _, _| if c < 3 { 1.0 } else { 0.0 });

    let output = apply_warp_3d(&image, &field, 0, false);

    for z in 3..17 {
        for y in 3..17 {
            for x in 3..17 {
                let expected = wunfix(image.get(z - 1, y - 1, x - 1));
                let actual = wunfix(output.get(z, y, x));
                let diff = (actual - expected).abs();
                assert!(
                    diff < 1.0,
                    "Diff too large at [{}, {}, {}]: expected {}, got {}",
                    z,
                    y,
                    x,
                    expected,
                    actual
                );
            }
        }
    }
}

#[test]
fn test_apply_warp_identity_f16() {
    let image = image_from_fn(20, 20, 20, |z, y, x| {
        f16::from_f32((z * 100 + y * 10 + x) as f32).to_f64()
    });
    let field = field_from_fn(4, 5, 5, 5, |_, _, _, _| 0.0);

    let output = apply_warp_3d(&image, &field, 0, false);

    for z in 2..18 {
        for y in 2..18 {
            for x in 2..18 {
                let diff = (wunfix(output.get(z, y, x)) - wunfix(image.get(z, y, x))).abs();
                assert!(diff < 2.0, "Diff too large at [{}, {}, {}]: {}", z, y, x, diff);
            }
        }
    }
}

#[test]
fn test_apply_warp_identity_u8() {
    let mut image = Vec::with_capacity(20 * 20 * 20);
    for z in 0..20usize {
        for y in 0..20usize {
            for x in 0..20usize {
                image.push(((z * 10 + y + x) % 256) as u8);
            }
        }
    }
    let field_data = vec![0i64; 4 * 5 * 5 * 5];
    let field = WarpField::try_new(field_data, 4, 5, 5, 5).unwrap();

    let output = apply_warp_3d_u8(&image, 20, 20, 20, &field, 0, false);

    for z in 2..18 {
        for y in 2..18 {
            for x in 2..18 {
                let i = (z * 20 + y) * 20 + x;
                let diff = (output[i] as i32 - image[i] as i32).abs();
                assert!(diff <= 1, "Diff too large at [{}, {}, {}]: {}", z, y, x, diff);
            }
        }
    }
}

#[test]
fn test_warp_identity_with_upsample() {
    // The warp identity holds through the upsampling path too: enlarging a
    // zero field changes nothing.
    let image = image_from_fn(12, 12, 12, |z, y, x| (z * 7 + y * 3 + x) as f64);
    let field = field_from_fn(3, 3, 3, 3, |_, _, _, _| 0.0);

    let output = apply_warp_3d(&image, &field, 0, true);

    for z in 0..12 {
        for y in 0..12 {
            for x in 0..12 {
                assert_eq!(output.get(z, y, x), image.get(z, y, x));
            }
        }
    }
}

#[test]
fn test_warp_field_sizes_relative_to_image() {
    // Zero fields of any spatial extent — smaller, equal, larger than the
    // image — all reproduce the image exactly.
    let image = image_from_fn(8, 8, 8, |z, y, x| (z * 64 + y * 8 + x) as f64);
    for &(fd, fh, fw) in [(2usize, 3usize, 4usize), (8, 8, 8), (16, 12, 9)].iter() {
        let field = field_from_fn(3, fd, fh, fw, |_, _, _, _| 0.0);
        let output = apply_warp_3d(&image, &field, 0, false);
        for z in 0..8 {
            for y in 0..8 {
                for x in 0..8 {
                    assert_eq!(output.get(z, y, x), image.get(z, y, x));
                }
            }
        }
    }
}

#[test]
fn test_trilinear_u8_identity_and_scale() {
    let mut input = Vec::with_capacity(8 * 8 * 8);
    for z in 0..8usize {
        for y in 0..8usize {
            for x in 0..8usize {
                input.push(((z * 37 + y * 11 + x * 3) % 256) as u8);
            }
        }
    }
    let identity = AffineMatrix3D::identity();
    let shift = [0i64, 0, 0];
    let out = trilinear_3d_u8_scalar(&input, 8, 8, 8, &identity, &shift, 7);
    assert_eq!(out, input);

    let double = AffineMatrix3D::scale(2 * FIX_ONE, 2 * FIX_ONE, 2 * FIX_ONE);
    let out2 = trilinear_3d_u8_scalar(&input, 8, 8, 8, &double, &shift, 7);
    for z in 0..4usize {
        for y in 0..4usize {
            for x in 0..4usize {
                assert_eq!(
                    out2[(z * 8 + y) * 8 + x],
                    input[(2 * z * 8 + 2 * y) * 8 + 2 * x]
                );
            }
        }
    }
}

#[test]
fn test_u8_clamp_on_write() {
    // A byte out-of-bounds constant passes through untouched; interpolated
    // byte values stay in range by construction.
    let input = vec![255u8; 27];
    let identity = AffineMatrix3D::identity();
    let shift = [100 * FIX_ONE, 0, 0];
    let out = trilinear_3d_u8_scalar(&input, 3, 3, 3, &identity, &shift, 99);
    assert!(out.iter().all(|&b| b == 99));
}

#[test]
fn test_warp_field_try_new_rejects_bad_shapes() {
    assert!(WarpField::try_new(vec![0i64; 24], 3, 2, 2, 2).is_some());
    assert!(WarpField::try_new(vec![0i64; 23], 3, 2, 2, 2).is_none());
    assert!(WarpField::try_new(vec![0i64; 0], 0, 2, 2, 2).is_none());
}

#[test]
fn test_select_backend_preference_order() {
    let all = CpuFeatures { avx2: true, fma: true, f16c: true, avx512f: true };
    let avx2_only = CpuFeatures { avx2: true, fma: true, f16c: false, avx512f: false };
    let bare = CpuFeatures { avx2: false, fma: false, f16c: false, avx512f: false };

    assert_eq!(select_backend(&all, Precision::Single, false), Backend::Avx512);
    assert_eq!(select_backend(&all, Precision::Double, false), Backend::Avx512);
    assert_eq!(select_backend(&all, Precision::Half, false), Backend::Avx512);
    assert_eq!(select_backend(&all, Precision::Byte, false), Backend::Avx2);

    assert_eq!(select_backend(&avx2_only, Precision::Single, false), Backend::Avx2);
    // Without the conversion unit the half path falls back to scalar.
    assert_eq!(select_backend(&avx2_only, Precision::Half, false), Backend::Scalar);
    assert_eq!(select_backend(&avx2_only, Precision::Byte, false), Backend::Avx2);

    assert_eq!(select_backend(&bare, Precision::Single, false), Backend::Scalar);
    assert_eq!(select_backend(&bare, Precision::Byte, false), Backend::Scalar);

    // The forced-scalar test gate wins over every feature.
    assert_eq!(select_backend(&all, Precision::Single, true), Backend::Scalar);
    let report = backend_report(&all, true);
    assert_eq!(report.single, Backend::Scalar);
    assert_eq!(report.double, Backend::Scalar);
    assert_eq!(report.half, Backend::Scalar);
    assert_eq!(report.byte, Backend::Scalar);
}
