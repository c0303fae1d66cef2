//! The fast spectral type at double precision: interpolated reads and
//! the evenly spaced resampling helpers.

use colorspace::spectral_power_distribution::SPD;
use colorspace::{Real, Scalar};

#[derive(Copy, Clone, Debug, PartialEq, PartialOrd)]
struct F64(f64);

impl Scalar for F64 {
    // the specification-level shadows and laws carry no meaning outside
    // verification; they only need bodies here
    fn zero_spec() -> F64 {
        F64(0.0)
    }
    fn one_spec() -> F64 {
        F64(1.0)
    }
    fn add_spec(self, o: F64) -> F64 {
        self.add(o)
    }
    fn sub_spec(self, o: F64) -> F64 {
        self.sub(o)
    }
    fn mul_spec(self, o: F64) -> F64 {
        self.mul(o)
    }
    fn div_spec(self, o: F64) -> F64 {
        self.div(o)
    }
    fn neg_spec(self) -> F64 {
        self.neg()
    }
    fn powi_spec(self, e: i32) -> F64 {
        self.powi(e)
    }
    fn lt_spec(self, o: F64) -> bool {
        self.lt(o)
    }
    fn le_spec(self, o: F64) -> bool {
        self.le(o)
    }
    fn eqv_spec(self, o: F64) -> bool {
        self.eqv(o)
    }
    fn near_spec(self, o: F64) -> bool {
        self.near(o)
    }
    fn from_usize_spec(n: usize) -> F64 {
        F64(n as f64)
    }
    fn from_ratio_spec(n: i64, d: i64) -> F64 {
        F64(n as f64 / d as f64)
    }
    fn to_usize_spec(self) -> usize {
        self.0 as usize
    }
    fn law_lt_irrefl(_x: F64) {}
    fn law_lt_asym(_x: F64, _y: F64) {}
    fn law_lt_trans(_x: F64, _y: F64, _z: F64) {}
    fn law_le_refl(_x: F64) {}
    fn law_add_zero(_x: F64) {}
    fn law_sub_self(_x: F64) {}
    fn law_mul_zero(_x: F64) {}
    fn law_zero_mul(_x: F64) {}
    fn law_from_usize_zero() {}
    fn law_zero_div(_x: F64) {}
    fn law_powi_zero(_e: i32) {}

    fn zero() -> F64 {
        F64(0.0)
    }
    fn one() -> F64 {
        F64(1.0)
    }
    fn add(self, o: F64) -> F64 {
        F64(self.0 + o.0)
    }
    fn sub(self, o: F64) -> F64 {
        F64(self.0 - o.0)
    }
    fn mul(self, o: F64) -> F64 {
        F64(self.0 * o.0)
    }
    fn div(self, o: F64) -> F64 {
        F64(self.0 / o.0)
    }
    fn neg(self) -> F64 {
        F64(-self.0)
    }
    fn powi(self, e: i32) -> F64 {
        F64(self.0.powi(e))
    }
    fn lt(self, o: F64) -> bool {
        self.0 < o.0
    }
    fn le(self, o: F64) -> bool {
        self.0 <= o.0
    }
    fn eqv(self, o: F64) -> bool {
        self.0 == o.0
    }
    fn near(self, o: F64) -> bool {
        (self.0 - o.0).abs() <= 1.0e-11
    }
    fn from_usize(n: usize) -> F64 {
        F64(n as f64)
    }
    fn from_ratio(n: i64, d: i64) -> F64 {
        F64(n as f64 / d as f64)
    }
    fn to_usize(self) -> usize {
        self.0 as usize
    }
}

impl Real for F64 {
    // specification shadows, meaningless at runtime
    fn abs_spec(self) -> F64 {
        self.abs()
    }
    fn sqrt_spec(self) -> F64 {
        self.sqrt()
    }
    fn powf_spec(self, e: F64) -> F64 {
        self.powf(e)
    }
    fn sin_spec(self) -> F64 {
        self.sin()
    }
    fn cos_spec(self) -> F64 {
        self.cos()
    }
    fn tan_spec(self) -> F64 {
        self.tan()
    }
    fn asin_spec(self) -> F64 {
        self.asin()
    }
    fn acos_spec(self) -> F64 {
        self.acos()
    }
    fn atan2_spec(self, o: F64) -> F64 {
        self.atan2(o)
    }
    fn exp_spec(self) -> F64 {
        self.exp()
    }
    fn hypot_spec(self, o: F64) -> F64 {
        self.hypot(o)
    }
    fn log10_spec(self) -> F64 {
        self.log10()
    }
    fn to_degrees_spec(self) -> F64 {
        self.to_degrees()
    }
    fn to_radians_spec(self) -> F64 {
        self.to_radians()
    }
    fn round_spec(self) -> F64 {
        self.round()
    }
    fn epsilon_spec() -> F64 {
        F64(f64::EPSILON)
    }
    fn min_positive_spec() -> F64 {
        F64(f64::MIN_POSITIVE)
    }

    fn abs(self) -> F64 {
        F64(self.0.abs())
    }
    fn sqrt(self) -> F64 {
        F64(self.0.sqrt())
    }
    fn powf(self, e: F64) -> F64 {
        F64(self.0.powf(e.0))
    }
    fn sin(self) -> F64 {
        F64(self.0.sin())
    }
    fn cos(self) -> F64 {
        F64(self.0.cos())
    }
    fn tan(self) -> F64 {
        F64(self.0.tan())
    }
    fn asin(self) -> F64 {
        F64(self.0.asin())
    }
    fn acos(self) -> F64 {
        F64(self.0.acos())
    }
    fn atan2(self, o: F64) -> F64 {
        F64(self.0.atan2(o.0))
    }
    fn exp(self) -> F64 {
        F64(self.0.exp())
    }
    fn hypot(self, o: F64) -> F64 {
        F64(self.0.hypot(o.0))
    }
    fn log10(self) -> F64 {
        F64(self.0.log10())
    }
    fn to_degrees(self) -> F64 {
        F64(self.0.to_degrees())
    }
    fn to_radians(self) -> F64 {
        F64(self.0.to_radians())
    }
    fn round(self) -> F64 {
        F64(self.0.round())
    }
    fn epsilon() -> F64 {
        F64(f64::EPSILON)
    }
    fn min_positive() -> F64 {
        F64(f64::MIN_POSITIVE)
    }
}

fn f(x: f64) -> F64 {
    F64(x)
}

fn spd_of(pairs: &[(f64, f64)]) -> SPD<F64> {
    let v: Vec<(F64, F64)> = pairs.iter().map(|p| (f(p.0), f(p.1))).collect();
    SPD::consume(v)
}

#[test]
fn test_interpolation() {
    let spd = spd_of(&[(400.0, 0.5), (500.0, 1.0), (600.0, 1.0), (700.0, 0.5)]);

    let i1 = SPD::consume(spd.interpolate_by(f(300.0), f(800.0), 6));
    assert_eq!(
        i1.samples,
        spd_of(&[
            (300.0, 0.5),
            (400.0, 0.5),
            (500.0, 1.0),
            (600.0, 1.0),
            (700.0, 0.5),
            (800.0, 0.5),
        ])
        .samples
    );

    let i2 = SPD::consume(spd.extrapolate_by(f(300.0), f(800.0), 6));
    assert_eq!(
        i2.samples,
        spd_of(&[
            (300.0, 0.0),
            (400.0, 0.5),
            (500.0, 1.0),
            (600.0, 1.0),
            (700.0, 0.5),
            (800.0, 0.0),
        ])
        .samples
    );
}

#[test]
fn value_at_reads_inside_and_clamps_outside() {
    let spd = spd_of(&[(400.0, 0.0), (500.0, 1.0), (600.0, 0.0)]);
    assert_eq!(spd.value_at(f(450.0)), f(0.5));
    assert_eq!(spd.value_at(f(350.0)), f(0.0));
    assert_eq!(spd.value_at(f(700.0)), f(0.0));
    assert_eq!(spd.num_samples(), 3);
    assert_eq!(spd.range(), f(200.0));
}

#[test]
fn value_at_extrapolate_extends_linearly() {
    let spd = spd_of(&[(400.0, 0.0), (500.0, 1.0)]);
    assert_eq!(spd.value_at_extrapolate(f(300.0)), f(-1.0));
    assert_eq!(spd.value_at_extrapolate(f(600.0)), f(2.0));
    assert_eq!(spd.value_at_extrapolate(f(450.0)), f(0.5));
}
