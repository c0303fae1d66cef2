//! The spectral engine and colour modules instantiated at double
//! precision.

use colorspace::interpolation::InterpolatorSprague;
use colorspace::lab::{delta_E_2000, lab, lab_to_xyz, xyz_to_lab};
use colorspace::vspd::{lagrange_coefficients, lagrange_coefficients_astm_e2022, linspace};
use colorspace::vspd::{Sample, SpdShape, VSPD};
use colorspace::xyz::XYZ;
use colorspace::{Real, Scalar, CMF};

#[derive(Copy, Clone, Debug, PartialEq, PartialOrd)]
struct F64(f64);

impl Scalar for F64 {

    // the specification-level shadows and laws carry no meaning outside
    // verification; they only need bodies here
    fn zero_spec() -> F64 {
        F64(0.0)
    }
    fn one_spec() -> F64 {
        F64(1.0)
    }
    fn add_spec(self, o: F64) -> F64 {
        self.add(o)
    }
    fn sub_spec(self, o: F64) -> F64 {
        self.sub(o)
    }
    fn mul_spec(self, o: F64) -> F64 {
        self.mul(o)
    }
    fn div_spec(self, o: F64) -> F64 {
        self.div(o)
    }
    fn neg_spec(self) -> F64 {
        self.neg()
    }
    fn powi_spec(self, e: i32) -> F64 {
        self.powi(e)
    }
    fn lt_spec(self, o: F64) -> bool {
        self.lt(o)
    }
    fn le_spec(self, o: F64) -> bool {
        self.le(o)
    }
    fn eqv_spec(self, o: F64) -> bool {
        self.eqv(o)
    }
    fn near_spec(self, o: F64) -> bool {
        self.near(o)
    }
    fn from_usize_spec(n: usize) -> F64 {
        F64(n as f64)
    }
    fn from_ratio_spec(n: i64, d: i64) -> F64 {
        F64(n as f64 / d as f64)
    }
    fn to_usize_spec(self) -> usize {
        self.0 as usize
    }
    fn law_lt_irrefl(_x: F64) {}
    fn law_lt_asym(_x: F64, _y: F64) {}
    fn law_lt_trans(_x: F64, _y: F64, _z: F64) {}
    fn law_le_refl(_x: F64) {}
    fn law_add_zero(_x: F64) {}
    fn law_sub_self(_x: F64) {}
    fn law_mul_zero(_x: F64) {}
    fn law_zero_mul(_x: F64) {}
    fn law_from_usize_zero() {}
    fn law_zero_div(_x: F64) {}
    fn law_powi_zero(_e: i32) {}

    fn zero() -> F64 {
        F64(0.0)
    }
    fn one() -> F64 {
        F64(1.0)
    }
    fn add(self, o: F64) -> F64 {
        F64(self.0 + o.0)
    }
    fn sub(self, o: F64) -> F64 {
        F64(self.0 - o.0)
    }
    fn mul(self, o: F64) -> F64 {
        F64(self.0 * o.0)
    }
    fn div(self, o: F64) -> F64 {
        F64(self.0 / o.0)
    }
    fn neg(self) -> F64 {
        F64(-self.0)
    }
    fn powi(self, e: i32) -> F64 {
        F64(self.0.powi(e))
    }
    fn lt(self, o: F64) -> bool {
        self.0 < o.0
    }
    fn le(self, o: F64) -> bool {
        self.0 <= o.0
    }
    fn eqv(self, o: F64) -> bool {
        self.0 == o.0
    }
    fn near(self, o: F64) -> bool {
        approx_eq(self.0, o.0, 1.0e-11, 2)
    }
    fn from_usize(n: usize) -> F64 {
        F64(n as f64)
    }
    fn from_ratio(n: i64, d: i64) -> F64 {
        F64(n as f64 / d as f64)
    }
    fn to_usize(self) -> usize {
        self.0 as usize
    }
}

impl Real for F64 {

    // specification shadows, meaningless at runtime
    fn abs_spec(self) -> F64 {
        self.abs()
    }
    fn sqrt_spec(self) -> F64 {
        self.sqrt()
    }
    fn powf_spec(self, e: F64) -> F64 {
        self.powf(e)
    }
    fn sin_spec(self) -> F64 {
        self.sin()
    }
    fn cos_spec(self) -> F64 {
        self.cos()
    }
    fn tan_spec(self) -> F64 {
        self.tan()
    }
    fn asin_spec(self) -> F64 {
        self.asin()
    }
    fn acos_spec(self) -> F64 {
        self.acos()
    }
    fn atan2_spec(self, o: F64) -> F64 {
        self.atan2(o)
    }
    fn exp_spec(self) -> F64 {
        self.exp()
    }
    fn hypot_spec(self, o: F64) -> F64 {
        self.hypot(o)
    }
    fn log10_spec(self) -> F64 {
        self.log10()
    }
    fn to_degrees_spec(self) -> F64 {
        self.to_degrees()
    }
    fn to_radians_spec(self) -> F64 {
        self.to_radians()
    }
    fn round_spec(self) -> F64 {
        self.round()
    }
    fn epsilon_spec() -> F64 {
        F64(f64::EPSILON)
    }
    fn min_positive_spec() -> F64 {
        F64(f64::MIN_POSITIVE)
    }

    fn abs(self) -> F64 {
        F64(self.0.abs())
    }
    fn sqrt(self) -> F64 {
        F64(self.0.sqrt())
    }
    fn powf(self, e: F64) -> F64 {
        F64(self.0.powf(e.0))
    }
    fn sin(self) -> F64 {
        F64(self.0.sin())
    }
    fn cos(self) -> F64 {
        F64(self.0.cos())
    }
    fn tan(self) -> F64 {
        F64(self.0.tan())
    }
    fn asin(self) -> F64 {
        F64(self.0.asin())
    }
    fn acos(self) -> F64 {
        F64(self.0.acos())
    }
    fn atan2(self, o: F64) -> F64 {
        F64(self.0.atan2(o.0))
    }
    fn exp(self) -> F64 {
        F64(self.0.exp())
    }
    fn hypot(self, o: F64) -> F64 {
        F64(self.0.hypot(o.0))
    }
    fn log10(self) -> F64 {
        F64(self.0.log10())
    }
    fn to_degrees(self) -> F64 {
        F64(self.0.to_degrees())
    }
    fn to_radians(self) -> F64 {
        F64(self.0.to_radians())
    }
    fn round(self) -> F64 {
        F64(self.0.round())
    }
    fn epsilon() -> F64 {
        F64(f64::EPSILON)
    }
    fn min_positive() -> F64 {
        F64(f64::MIN_POSITIVE)
    }
}

/// Equality within an absolute margin, or within the given number of
/// representable steps.
fn approx_eq(a: f64, b: f64, epsilon: f64, ulps: u64) -> bool {
    if (a - b).abs() <= epsilon {
        return true;
    }
    if a.is_sign_positive() != b.is_sign_positive() {
        return a == b;
    }
    let ai = a.to_bits() as i64;
    let bi = b.to_bits() as i64;
    let diff = if ai > bi { ai - bi } else { bi - ai };
    (diff as u64) <= ulps
}

fn f(x: f64) -> F64 {
    F64(x)
}

fn vspd_of(pairs: &[(f64, f64)]) -> VSPD<F64> {
    let mut samples: Vec<Sample<F64>> = Vec::new();
    for p in pairs {
        samples.push(Sample::new(f(p.0), f(p.1)));
    }
    VSPD::new(samples).unwrap()
}

fn vspd_approx_eq(a: &VSPD<F64>, b: &VSPD<F64>, epsilon: f64, ulps: u64) -> bool {
    a.samples.len() == b.samples.len()
        && a.samples.iter().zip(b.samples.iter()).all(|(l, r)| {
            approx_eq(l.nm.0, r.nm.0, epsilon, ulps) && approx_eq(l.v.0, r.v.0, epsilon, ulps)
        })
}

#[test]
fn macro_initialization() {
    let spd = VSPD::new(vec![
        Sample::new(f(380.0), f(0.5)),
        Sample::new(f(400.0), f(0.4)),
        Sample::new(f(420.0), f(0.3)),
        Sample::new(f(440.0), f(0.2)),
        Sample::new(f(460.0), f(0.1)),
        Sample::new(f(480.0), f(0.0)),
    ])
    .unwrap();
    let mspd = vspd_of(&[
        (380.0, 0.5),
        (400.0, 0.4),
        (420.0, 0.3),
        (440.0, 0.2),
        (460.0, 0.1),
        (480.0, 0.0),
    ]);
    assert_eq!(spd, mspd);
}

#[test]
fn interpolate() {
    let spd = vspd_of(&[
        (380.0, 0.5),
        (400.0, 0.4),
        (420.0, 0.3),
        (440.0, 0.2),
        (460.0, 0.1),
        (480.0, 0.0),
    ]);

    let interp = InterpolatorSprague::new(&spd);
    assert_eq!(interp.evaluate(f(390.0)), f(0.45));

    let spd2 = spd
        .interpolate(SpdShape::new(f(380.0), f(480.0), f(10.0)))
        .unwrap();
    let target = vspd_of(&[
        (380.0, 0.5),
        (390.0, 0.45),
        (400.0, 0.4),
        (410.0, 0.35),
        (420.0, 0.3),
        (430.0, 0.25),
        (440.0, 0.2),
        (450.0, 0.15),
        (460.0, 0.1),
        (470.0, 0.05),
        (480.0, 0.0),
    ]);

    assert!(vspd_approx_eq(&spd2, &target, 1e-15, 2));
}

#[test]
fn extrapolate() {
    let spd = vspd_of(&[
        (380.0, 0.5),
        (400.0, 0.4),
        (420.0, 0.3),
        (440.0, 0.2),
        (460.0, 0.1),
        (480.0, 0.0),
    ]);

    let spd3 = spd
        .extrapolate(SpdShape::new(f(320.0), f(520.0), f(10.0)))
        .unwrap();
    assert_eq!(
        vspd_of(&[
            (320.0, 0.5),
            (340.0, 0.5),
            (360.0, 0.5),
            (380.0, 0.5),
            (400.0, 0.4),
            (420.0, 0.3),
            (440.0, 0.2),
            (460.0, 0.1),
            (480.0, 0.0),
            (500.0, 0.0),
            (520.0, 0.0),
        ]),
        spd3
    );
}

#[test]
fn trim() {
    let spd = vspd_of(&[
        (380.0, 0.5),
        (400.0, 0.4),
        (420.0, 0.3),
        (440.0, 0.2),
        (460.0, 0.1),
        (480.0, 0.0),
    ]);

    let spd3 = spd.trim(SpdShape::new(f(400.0), f(440.0), f(10.0))).unwrap();
    assert_eq!(
        vspd_of(&[(400.0, 0.4), (420.0, 0.3), (440.0, 0.2)]),
        spd3
    );

    let spd3 = spd.trim(SpdShape::new(f(390.0), f(450.0), f(10.0))).unwrap();
    assert_eq!(
        vspd_of(&[(400.0, 0.4), (420.0, 0.3), (440.0, 0.2)]),
        spd3
    );
}

#[test]
fn lagrange_coeff() {
    let ln: Vec<F64> = linspace(f(1.0 / 10.0), f(1.0 - (1.0 / 10.0)), 9);
    println!("{:?}", ln);

    let c = lagrange_coefficients(f(0.1), 4);
    println!("{:?}", c);
    assert!(c
        .iter()
        .zip(vec![0.8265, 0.2755, -0.1305, 0.0285])
        .all(|(a, b)| approx_eq(a.0, b, 0.0, 1)));

    let c = lagrange_coefficients_astm_e2022(f(10.0), 4);
    println!("{:?}", c);

    let c = lagrange_coefficients_astm_e2022(f(10.0), 3);
    println!("{:?}", c);
}

#[test]
fn test_lab_xyz_conversions() {
    let d50: XYZ<F64> = XYZ::from_chromaticity(colorspace::xy(f(0.3457), f(0.3585)));
    let epsilon = 2e-12_f64;

    for l_step in (0..100).step_by(2) {
        for a_step in (-127..127).step_by(2) {
            for b_step in (-127..127).step_by(2) {
                let c = lab(f(l_step as f64), f(a_step as f64), f(b_step as f64));
                let v = lab_to_xyz(c, d50);
                let c2 = xyz_to_lab(v, d50);
                assert!((c.L.0 - c2.L.0).abs() < epsilon);
                assert!((c.a.0 - c2.a.0).abs() < epsilon);
                assert!((c.b.0 - c2.b.0).abs() < epsilon);
            }
        }
    }
}

fn round_to_places(x: f64, p: i32) -> f64 {
    (x * 10f64.powi(p)).round() / 10f64.powi(p)
}

#[test]
fn test_delta_e() {
    let de = |l1: (f64, f64, f64), l2: (f64, f64, f64)| -> f64 {
        delta_E_2000(lab(f(l1.0), f(l1.1), f(l1.2)), lab(f(l2.0), f(l2.1), f(l2.2))).0
    };
    assert_eq!(round_to_places(de((50.0, 2.6772, -79.7751), (50.0, 0.0, -82.7485)), 4), 2.0425);
    assert_eq!(round_to_places(de((50.0, 3.1571, -77.2803), (50.0, 0.0, -82.7485)), 4), 2.8615);
    assert_eq!(round_to_places(de((50.0, 2.8361, -74.0200), (50.0, 0.0, -82.7485)), 4), 3.4412);
    assert_eq!(round_to_places(de((50.0, -1.3802, -84.2814), (50.0, 0.0, -82.7485)), 4), 1.0);
    assert_eq!(round_to_places(de((50.0, -1.1848, -84.8006), (50.0, 0.0, -82.7485)), 4), 1.0);
    assert_eq!(round_to_places(de((50.0, -0.9009, -85.5211), (50.0, 0.0, -82.7485)), 4), 1.0);
    assert_eq!(round_to_places(de((50.0, 0.0, 0.0), (50.0, -1.0, 2.0)), 4), 2.3669);
    assert_eq!(round_to_places(de((50.0, -1.0, 2.0), (50.0, 0.0, 0.0)), 4), 2.3669);
    assert_eq!(round_to_places(de((50.0, 2.49, -0.001), (50.0, -2.49, 0.0009)), 4), 7.1792);
    assert_eq!(round_to_places(de((50.0, 2.49, -0.001), (50.0, -2.49, 0.001)), 4), 7.1792);
    assert_eq!(round_to_places(de((50.0, 2.49, -0.001), (50.0, -2.49, 0.0011)), 4), 7.2195);
    assert_eq!(round_to_places(de((50.0, 2.49, -0.001), (50.0, -2.49, 0.0012)), 4), 7.2195);
    assert_eq!(round_to_places(de((50.0, -0.001, 2.49), (50.0, 0.0009, -2.49)), 4), 4.8045);
    assert_eq!(round_to_places(de((50.0, -0.001, 2.49), (50.0, 0.001, -2.49)), 4), 4.8045);
}

/// A smooth synthetic observer curve: a raised-cosine bump centred at
/// `peak` with the given half width, sampled at 1 nm.
fn bump(peak: f64, halfwidth: f64) -> Vec<Sample<F64>> {
    let mut out = Vec::new();
    let mut nm: f64 = 360.0;
    while nm <= 780.0 {
        let t = (nm - peak) / halfwidth;
        let v = if t.abs() < 1.0 {
            0.5 * (1.0 + (std::f64::consts::PI * t).cos())
        } else {
            0.0
        };
        out.push(Sample::new(f(nm), f(v)));
        nm += 1.0;
    }
    out
}

fn synthetic_cmf() -> CMF<F64> {
    CMF {
        x_bar: VSPD::new(bump(600.0, 90.0)).unwrap(),
        y_bar: VSPD::new(bump(550.0, 100.0)).unwrap(),
        z_bar: VSPD::new(bump(450.0, 80.0)).unwrap(),
    }
}

fn synthetic_illuminant() -> VSPD<F64> {
    let mut out = Vec::new();
    let mut nm: f64 = 360.0;
    while nm <= 780.0 {
        let v = 100.0 - 0.02 * (nm - 560.0).abs();
        out.push(Sample::new(f(nm), f(v)));
        nm += 1.0;
    }
    VSPD::new(out).unwrap()
}

/// Integration path equivalence: the direct one and five nanometre
/// paths and the ten nanometre weighting-factor path all give nearly
/// the same tristimulus value for the same smooth reflectance.
#[test]
fn integration_paths_agree() {
    let cmf = synthetic_cmf();
    let ill = synthetic_illuminant();

    // a smooth reflectance ramp
    let mut refl1 = Vec::new();
    let mut nm: f64 = 360.0;
    while nm <= 780.0 {
        let v = 0.2 + 0.3 * (1.0 + ((nm - 500.0) / 200.0).sin()) / 2.0;
        refl1.push(Sample::new(f(nm), f(v)));
        nm += 1.0;
    }
    let spd1 = VSPD::new(refl1).unwrap();

    let xyz1 = spd1.to_xyz(&ill, &cmf).unwrap();

    let spd5 = spd1
        .interpolate(SpdShape::new(f(360.0), f(780.0), f(5.0)))
        .unwrap();
    let xyz5 = spd5.to_xyz(&ill, &cmf).unwrap();

    let spd10 = spd1
        .align(SpdShape::new(f(360.0), f(780.0), f(10.0)))
        .unwrap();
    let xyz10 = spd10.to_xyz(&ill, &cmf).unwrap();

    assert!((xyz1.x.0 - xyz5.x.0).abs() < 0.05, "x 1nm {} vs 5nm {}", xyz1.x.0, xyz5.x.0);
    assert!((xyz1.y.0 - xyz5.y.0).abs() < 0.05, "y 1nm {} vs 5nm {}", xyz1.y.0, xyz5.y.0);
    assert!((xyz1.z.0 - xyz5.z.0).abs() < 0.05, "z 1nm {} vs 5nm {}", xyz1.z.0, xyz5.z.0);
    assert!((xyz1.x.0 - xyz10.x.0).abs() < 0.3, "x 1nm {} vs 10nm {}", xyz1.x.0, xyz10.x.0);
    assert!((xyz1.y.0 - xyz10.y.0).abs() < 0.3, "y 1nm {} vs 10nm {}", xyz1.y.0, xyz10.y.0);
    assert!((xyz1.z.0 - xyz10.z.0).abs() < 0.3, "z 1nm {} vs 10nm {}", xyz1.z.0, xyz10.z.0);
}

/// Interpolation identity: resampling onto a spectrum's own grid
/// reproduces the stored values exactly at every interior sample, and
/// to within rounding at the boundary.
#[test]
fn interpolate_identity_on_own_grid() {
    let spd = vspd_of(&[
        (380.0, 0.51),
        (400.0, 0.42),
        (420.0, 0.33),
        (440.0, 0.27),
        (460.0, 0.12),
        (480.0, 0.08),
    ]);
    let again = spd
        .interpolate(SpdShape::new(f(380.0), f(480.0), f(20.0)))
        .unwrap();
    assert_eq!(again.samples.len(), spd.samples.len());
    for i in 0..spd.samples.len() - 1 {
        assert_eq!(again.samples[i], spd.samples[i]);
    }
    let last = spd.samples.len() - 1;
    assert!(approx_eq(again.samples[last].v.0, spd.samples[last].v.0, 1e-11, 2));
}

/// Aligning twice to the same shape keeps the shape and the samples it
/// settled on, to within rounding at the domain end.
#[test]
fn align_twice_settles() {
    let spd = vspd_of(&[
        (380.0, 0.5),
        (400.0, 0.4),
        (420.0, 0.3),
        (440.0, 0.2),
        (460.0, 0.1),
        (480.0, 0.0),
    ]);
    let s = SpdShape::new(f(340.0), f(520.0), f(20.0));
    let once = spd.align(s).unwrap();
    let twice = once.align(s).unwrap();
    assert_eq!(once.shape, twice.shape);
    assert_eq!(once.samples.len(), twice.samples.len());
    assert!(vspd_approx_eq(&once, &twice, 1e-11, 2));
}

/// Flat extrapolation never invents values: everything below the
/// original domain carries the first value, everything above the last.
#[test]
fn extrapolate_is_flat() {
    let spd = vspd_of(&[(400.0, 0.7), (410.0, 0.6), (420.0, 0.9)]);
    let wide = spd
        .extrapolate(SpdShape::new(f(350.0), f(470.0), f(10.0)))
        .unwrap();
    for s in wide.samples.iter() {
        if s.nm.0 < 400.0 {
            assert_eq!(s.v, f(0.7));
        }
        if s.nm.0 > 420.0 {
            assert_eq!(s.v, f(0.9));
        }
    }
}

/// Encoding and decoding through each transfer curve round-trips.
#[test]
fn transfer_curves_round_trip() {
    let samples = [0.0, 0.002, 0.01, 0.18, 0.5, 0.9, 1.0];
    for &x in samples.iter() {
        let c = colorspace::rgbf(f(x), f(x), f(x));
        let through_srgb = colorspace::decode::srgb(colorspace::encode::srgb(c));
        assert!((through_srgb.r.0 - x).abs() < 1e-6, "srgb {} -> {}", x, through_srgb.r.0);
        let through_709 = colorspace::decode::bt709(colorspace::encode::bt709(c));
        assert!((through_709.r.0 - x).abs() < 1e-6);
        let through_2020 = colorspace::decode::bt2020(colorspace::encode::bt2020(c));
        assert!((through_2020.r.0 - x).abs() < 1e-6);
        let through_logc = colorspace::decode::alexa_logc_v3(colorspace::encode::alexa_logc_v3(c));
        assert!((through_logc.r.0 - x).abs() < 1e-5);
    }
}

/// The published sRGB matrix takes the D65 white near unit RGB.
#[test]
fn srgb_white_maps_to_unit_rgb() {
    let srgb = colorspace::ColorSpaceRGB::new_with_specified_matrices(
        colorspace::xy(f(0.64), f(0.33)),
        colorspace::xy(f(0.30), f(0.60)),
        colorspace::xy(f(0.15), f(0.06)),
        colorspace::xy(f(0.3127), f(0.3290)),
        colorspace::Matrix33::new([
            f(3.2406), f(-1.5372), f(-0.4986),
            f(-0.9689), f(1.8758), f(0.0415),
            f(0.0557), f(-0.2040), f(1.0570),
        ]),
        colorspace::Matrix33::new([
            f(0.4124), f(0.3576), f(0.1805),
            f(0.2126), f(0.7152), f(0.0722),
            f(0.0193), f(0.1192), f(0.9505),
        ]),
        colorspace::TransferFunction::Srgb,
        colorspace::TransferFunction::Srgb,
    );
    let white = XYZ::new(f(95.047), f(100.0), f(108.883));
    let rgb = colorspace::xyz_to_rgb(&srgb.xf_xyz_to_rgb, white);
    assert!((rgb.r.0 - 1.0).abs() < 2e-3, "r {}", rgb.r.0);
    assert!((rgb.g.0 - 1.0).abs() < 2e-3, "g {}", rgb.g.0);
    assert!((rgb.b.0 - 1.0).abs() < 2e-3, "b {}", rgb.b.0);
    let back = colorspace::rgb_to_xyz(&srgb.xf_rgb_to_xyz, rgb);
    assert!((back.x.0 - 95.047).abs() < 0.1);
    assert!((back.y.0 - 100.0).abs() < 0.1);
    assert!((back.z.0 - 108.883).abs() < 0.1);
}

/// The tristimulus conversion of a constant reflectance under any
/// illuminant is the illuminant's own white, so its luminance is the
/// reflectance times one hundred.
#[test]
fn perfect_diffuser_luminance() {
    let cmf = synthetic_cmf();
    let ill = synthetic_illuminant();
    let white = VSPD::constant(SpdShape::new(f(360.0), f(780.0), f(1.0)), f(1.0)).unwrap();
    let xyz = white.to_xyz(&ill, &cmf).unwrap();
    assert!((xyz.y.0 - 100.0).abs() < 1e-9, "y {}", xyz.y.0);
    let half = VSPD::constant(SpdShape::new(f(360.0), f(780.0), f(1.0)), f(0.5)).unwrap();
    let xyz_half = half.to_xyz(&ill, &cmf).unwrap();
    assert!((xyz_half.y.0 - 50.0).abs() < 1e-9);
}
