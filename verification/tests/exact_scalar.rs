//! The spectral engine run over the library's own exact fixed-point
//! scalar, where every decimal below twelve places is represented
//! without error, plus the error paths of the container.

use colorspace::fixed::{Fixed, UNIT};
use colorspace::vspd::{Interval, Sample, SpdError, SpdShape, VSPD};
use colorspace::Scalar;

fn fx(whole: i64, thousandths: i64) -> Fixed {
    Fixed { raw: whole * UNIT + thousandths * (UNIT / 1000) }
}

#[test]
fn fixed_arithmetic_is_exact_on_decimals() {
    let a = fx(2, 500);
    let b = fx(0, 250);
    assert_eq!(a.add(b), fx(2, 750));
    assert_eq!(a.sub(b), fx(2, 250));
    assert_eq!(a.mul(b), fx(0, 625));
    assert_eq!(a.div(b), fx(10, 0));
    assert_eq!(Fixed::from_ratio(45, 100), fx(0, 450));
    assert_eq!(Fixed::from_usize(7), fx(7, 0));
    assert_eq!(fx(3, 999).to_usize(), 3);
    assert_eq!(a.powi(2), fx(6, 250));
    assert_eq!(a.neg(), Fixed { raw: -a.raw });
}

#[test]
fn fixed_saturates_instead_of_wrapping() {
    let big = Fixed { raw: i64::MAX };
    assert_eq!(big.add(fx(1, 0)), big);
    assert_eq!(Fixed { raw: i64::MIN }.sub(fx(1, 0)), Fixed { raw: i64::MIN });
}

#[test]
fn too_few_samples_is_refused() {
    let r = VSPD::new(vec![Sample::new(fx(400, 0), fx(1, 0))]);
    assert_eq!(r.unwrap_err(), SpdError::TooFewSamples);
}

#[test]
fn varying_target_is_refused() {
    let spd = VSPD::new(vec![
        Sample::new(fx(400, 0), fx(1, 0)),
        Sample::new(fx(410, 0), fx(2, 0)),
        Sample::new(fx(420, 0), fx(3, 0)),
    ])
    .unwrap();
    let varying = SpdShape { start: fx(400, 0), end: fx(420, 0), interval: Interval::Varying };
    assert_eq!(spd.interpolate(varying).unwrap_err(), SpdError::VaryingInterval);
    let also_varying = VSPD::new(vec![
        Sample::new(fx(400, 0), fx(1, 0)),
        Sample::new(fx(401, 0), fx(2, 0)),
        Sample::new(fx(410, 0), fx(3, 0)),
        Sample::new(fx(420, 0), fx(4, 0)),
    ])
    .unwrap();
    assert!(matches!(also_varying.interval(), Interval::Varying));
    assert_eq!(
        also_varying.extrapolate(varying).unwrap_err(),
        SpdError::VaryingInterval
    );
}

#[test]
fn empty_trim_is_refused() {
    let spd = VSPD::new(vec![
        Sample::new(fx(400, 0), fx(1, 0)),
        Sample::new(fx(410, 0), fx(2, 0)),
    ])
    .unwrap();
    let r = spd.trim(SpdShape::new(fx(500, 0), fx(600, 0), fx(10, 0)));
    assert_eq!(r.unwrap_err(), SpdError::EmptyTrim);
}

#[test]
fn from_values_checks_count() {
    let shape = SpdShape::new(fx(400, 0), fx(420, 0), fx(10, 0));
    let vals = [fx(1, 0), fx(2, 0)];
    assert_eq!(VSPD::from_values(shape, &vals).unwrap_err(), SpdError::LengthMismatch);
    let vals3 = [fx(1, 0), fx(2, 0), fx(3, 0)];
    let spd = VSPD::from_values(shape, &vals3).unwrap();
    assert_eq!(spd.len(), 3);
    assert_eq!(spd.samples[1], Sample::new(fx(410, 0), fx(2, 0)));
}

#[test]
fn constant_fills_the_grid() {
    let shape = SpdShape::new(fx(400, 0), fx(440, 0), fx(20, 0));
    let spd = VSPD::constant(shape, fx(0, 125)).unwrap();
    assert_eq!(spd.len(), 3);
    assert_eq!(spd.samples[0], Sample::new(fx(400, 0), fx(0, 125)));
    assert_eq!(spd.samples[2], Sample::new(fx(440, 0), fx(0, 125)));
}

#[test]
fn trim_keeps_exactly_the_contained_run() {
    let spd = VSPD::new(vec![
        Sample::new(fx(380, 0), fx(5, 0)),
        Sample::new(fx(400, 0), fx(4, 0)),
        Sample::new(fx(420, 0), fx(3, 0)),
        Sample::new(fx(440, 0), fx(2, 0)),
        Sample::new(fx(460, 0), fx(1, 0)),
    ])
    .unwrap();
    let cut = spd.trim(SpdShape::new(fx(395, 0), fx(445, 0), fx(20, 0))).unwrap();
    assert_eq!(cut.len(), 3);
    assert_eq!(cut.start(), fx(400, 0));
    assert_eq!(cut.end(), fx(440, 0));
    for s in cut.samples.iter() {
        assert!(fx(395, 0).raw <= s.nm.raw && s.nm.raw <= fx(445, 0).raw);
    }
}

#[test]
fn extrapolate_pads_flat_exactly() {
    let spd = VSPD::new(vec![
        Sample::new(fx(400, 0), fx(0, 700)),
        Sample::new(fx(420, 0), fx(0, 300)),
    ])
    .unwrap();
    let wide = spd.extrapolate(SpdShape::new(fx(360, 0), fx(460, 0), fx(20, 0))).unwrap();
    assert_eq!(wide.len(), 6);
    assert_eq!(wide.samples[0], Sample::new(fx(360, 0), fx(0, 700)));
    assert_eq!(wide.samples[1], Sample::new(fx(380, 0), fx(0, 700)));
    assert_eq!(wide.samples[4], Sample::new(fx(440, 0), fx(0, 300)));
    assert_eq!(wide.samples[5], Sample::new(fx(460, 0), fx(0, 300)));
}

#[test]
fn vspd_cursor_walks_all_samples() {
    let spd = VSPD::new(vec![
        Sample::new(fx(400, 0), fx(1, 0)),
        Sample::new(fx(410, 0), fx(2, 0)),
        Sample::new(fx(420, 0), fx(3, 0)),
    ])
    .unwrap();
    let mut it = spd.iter();
    let mut count: usize = 0;
    while let Some(s) = it.next() {
        assert_eq!(s, spd.samples[count]);
        count += 1;
    }
    assert_eq!(count, 3);
}

/// Every consecutive delta counts when deriving the interval: a final
/// odd step makes the spacing varying.
#[test]
fn final_delta_counts_for_uniformity() {
    let spd = VSPD::new(vec![
        Sample::new(fx(400, 0), fx(1, 0)),
        Sample::new(fx(410, 0), fx(2, 0)),
        Sample::new(fx(425, 0), fx(3, 0)),
    ])
    .unwrap();
    assert!(matches!(spd.interval(), Interval::Varying));
    let uniform = VSPD::new(vec![
        Sample::new(fx(400, 0), fx(1, 0)),
        Sample::new(fx(410, 0), fx(2, 0)),
        Sample::new(fx(420, 0), fx(3, 0)),
    ])
    .unwrap();
    assert!(matches!(uniform.interval(), Interval::Uniform(_)));
}

/// Extrapolating to a shape inside the existing domain adds nothing and
/// keeps the boundaries anchored to the actual boundary samples.
#[test]
fn extrapolate_keeps_anchored_bounds() {
    let spd = VSPD::new(vec![
        Sample::new(fx(380, 0), fx(1, 0)),
        Sample::new(fx(400, 0), fx(2, 0)),
        Sample::new(fx(420, 0), fx(3, 0)),
        Sample::new(fx(440, 0), fx(4, 0)),
        Sample::new(fx(460, 0), fx(5, 0)),
        Sample::new(fx(480, 0), fx(6, 0)),
    ])
    .unwrap();
    let wide = spd.extrapolate(SpdShape::new(fx(400, 0), fx(440, 0), fx(20, 0))).unwrap();
    assert_eq!(wide.len(), 6);
    assert_eq!(wide.start(), fx(380, 0));
    assert_eq!(wide.end(), fx(480, 0));
    assert_eq!(wide.samples[0].nm, fx(380, 0));
    assert_eq!(wide.samples[5].nm, fx(480, 0));
}

#[test]
fn shape_count_and_iterator_agree() {
    let shape = SpdShape::new(fx(360, 0), fx(780, 0), fx(5, 0));
    assert_eq!(shape.count().unwrap(), 85);
    let mut it = shape.iter().unwrap();
    let mut seen: usize = 0;
    let mut last = fx(0, 0);
    while let Some(w) = it.next() {
        last = w;
        seen += 1;
    }
    assert_eq!(seen, 85);
    assert_eq!(last, fx(780, 0));
}
