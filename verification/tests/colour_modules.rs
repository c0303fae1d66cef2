//! The colour-space collaborator modules over the exact scalar, where
//! the fixed formulas can be checked against hand-computed values.

use colorspace::fixed::{Fixed, UNIT};
use colorspace::math::{clamp, Matrix33};
use colorspace::rgb::{clamprgb, hmax, normalize, rgbf, rgbu16, rgbu8};
use colorspace::xyz::{xyz, XYZ};
use colorspace::XYY;

fn fx(whole: i64, thousandths: i64) -> Fixed {
    Fixed { raw: whole * UNIT + thousandths * (UNIT / 1000) }
}

#[test]
fn clamp_picks_the_nearer_bound() {
    assert_eq!(clamp(fx(5, 0), fx(0, 0), fx(1, 0)), fx(1, 0));
    assert_eq!(clamp(fx(-2, 0), fx(0, 0), fx(1, 0)), fx(0, 0));
    assert_eq!(clamp(fx(0, 500), fx(0, 0), fx(1, 0)), fx(0, 500));
}

#[test]
fn matrix_identity_and_transpose() {
    let m: Matrix33<Fixed> = Matrix33::new(
        [
            fx(1, 0),
            fx(2, 0),
            fx(3, 0),
            fx(4, 0),
            fx(5, 0),
            fx(6, 0),
            fx(7, 0),
            fx(8, 0),
            fx(9, 0),
        ],
    );
    let t = m.transposed();
    assert_eq!(t.x[1], fx(4, 0));
    assert_eq!(t.x[3], fx(2, 0));
    assert_eq!(m.determinant(), fx(0, 0));
    let id: Matrix33<Fixed> = Matrix33::make_identity();
    let p = m.matmul(&id);
    for k in 0..9 {
        assert_eq!(p.x[k], m.x[k]);
    }
}

#[test]
fn matrix_transform_applies_rows() {
    let m: Matrix33<Fixed> = Matrix33::new(
        [
            fx(1, 0),
            fx(0, 0),
            fx(0, 0),
            fx(0, 0),
            fx(2, 0),
            fx(0, 0),
            fx(0, 0),
            fx(0, 0),
            fx(3, 0),
        ],
    );
    let v = m.transform_xyz(XYZ::new(fx(1, 0), fx(1, 0), fx(1, 0)));
    assert_eq!(v.x, fx(1, 0));
    assert_eq!(v.y, fx(2, 0));
    assert_eq!(v.z, fx(3, 0));
}

#[test]
fn rgb_helpers() {
    let c = rgbf(fx(0, 200), fx(0, 800), fx(0, 400));
    assert_eq!(hmax(c), fx(0, 800));
    let n = normalize(c);
    assert_eq!(n.g, fx(1, 0));
    assert_eq!(n.r, fx(0, 250));
    let clamped = clamprgb(rgbf(fx(2, 0), fx(-1, 0), fx(0, 500)), fx(0, 0), fx(1, 0));
    assert_eq!(clamped.r, fx(1, 0));
    assert_eq!(clamped.g, fx(0, 0));
    assert_eq!(clamped.b, fx(0, 500));
    assert_eq!(rgbu8(1, 2, 3).g, 2);
    assert_eq!(rgbu16(1, 2, 3).b, 3);
}

#[test]
fn chromaticity_round_trip_shape() {
    let c = XYY { x: fx(0, 300), y: fx(0, 600), Y: fx(1, 0) };
    let v = XYZ::from_chromaticity(c);
    // x * Y / y * 100 = 0.3 / 0.6 * 100 = 50
    assert_eq!(v.x, fx(50, 0));
    assert_eq!(v.y, fx(100, 0));
    let back = XYY::from_xyz(v);
    assert_eq!(back.Y, fx(1, 0));
    assert_eq!(back.x, fx(0, 300));
    assert_eq!(back.y, fx(0, 600));
}

#[test]
fn xyz_componentwise_ops() {
    let a = xyz(fx(2, 0), fx(4, 0), fx(8, 0));
    let b = XYZ::from_scalar(fx(2, 0));
    assert_eq!(a.mul_elem(b).z, fx(16, 0));
    assert_eq!(a.div_elem(b).y, fx(2, 0));
    assert_eq!(a.normalized().x, fx(0, 500));
    assert_eq!(a.normalized_y().x, fx(50, 0));
}
