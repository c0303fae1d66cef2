//! Interpolating evaluators over spectral sample lists: the sixth-order
//! Sprague polynomial interpolator recommended for smooth spectra, a
//! linear interpolator, and the constant boundary extrapolator.

use crate::traits::Scalar;
use crate::vspd::Sample;
use crate::vspd::VSPD;
use vstd::prelude::*;

verus! {

/// Shorthand for a whole-number scalar constant.
pub open spec fn lit<T: Scalar>(n: int) -> T {
    T::from_ratio_spec(n as i64, 1)
}

/// The quintic boundary-extrapolation stencil for the first added knot.
pub open spec fn c0_seq<T: Scalar>() -> Seq<T> {
    seq![lit(884), lit(-1960), lit(3033), lit(-2648), lit(1080), lit(-180)]
}

/// The quintic boundary-extrapolation stencil for the second added knot.
pub open spec fn c1_seq<T: Scalar>() -> Seq<T> {
    seq![lit(508), lit(-540), lit(488), lit(-367), lit(144), lit(-24)]
}

/// The mirror of [`c1_seq`], applied from the upper boundary inward.
pub open spec fn c2_seq<T: Scalar>() -> Seq<T> {
    seq![lit(-24), lit(144), lit(-367), lit(488), lit(-540), lit(508)]
}

/// The mirror of [`c0_seq`], applied from the upper boundary inward.
pub open spec fn c3_seq<T: Scalar>() -> Seq<T> {
    seq![lit(-180), lit(1080), lit(-2648), lit(3033), lit(-1960), lit(884)]
}

/// Fold of the first `k` products of stencil entries with sample values,
/// in ascending order, starting from zero.
pub open spec fn dot_fwd<T: Scalar>(c: Seq<T>, s: Seq<Sample<T>>, k: nat) -> T
    decreases k,
{
    if k == 0 {
        T::zero_spec()
    } else {
        dot_fwd(c, s, (k - 1) as nat).add_spec(c[k - 1].mul_spec(s[k - 1].v))
    }
}

/// Fold of the first `k` products taken from the tails of the stencil and
/// the sample list, pairing them back to front, starting from zero.
pub open spec fn dot_rev<T: Scalar>(c: Seq<T>, s: Seq<Sample<T>>, k: nat) -> T
    decreases k,
{
    if k == 0 {
        T::zero_spec()
    } else {
        dot_rev(c, s, (k - 1) as nat).add_spec(
            c[c.len() - k].mul_spec(s[s.len() - k].v),
        )
    }
}

/// The smaller of two lengths.
pub open spec fn min_nat(a: nat, b: nat) -> nat {
    if a <= b {
        a
    } else {
        b
    }
}

/// The knot wavelengths of a Sprague interpolator built over `s`: the
/// sample wavelengths, with two synthesized knots on each side spaced by
/// the first sample delta.
pub open spec fn sprague_knots<T: Scalar>(s: Seq<Sample<T>>) -> Seq<T> {
    let first = s[0].nm;
    let last = s[s.len() - 1].nm;
    let h = s[1].nm.sub_spec(s[0].nm);
    let two: T = lit(2);
    seq![first.sub_spec(h.mul_spec(two)), first.sub_spec(h)] + s.map_values(
        |smp: Sample<T>| smp.nm,
    ) + seq![last.add_spec(h), last.add_spec(h.mul_spec(two))]
}

/// The knot values of a Sprague interpolator built over `s`: the sample
/// values, padded on each side with the quintic boundary extrapolants,
/// each a stencil dot product divided by 209.
pub open spec fn sprague_vals<T: Scalar>(s: Seq<Sample<T>>) -> Seq<T> {
    let k = min_nat(6, s.len());
    let y1: T = dot_fwd(c0_seq(), s, k);
    let y2: T = dot_fwd(c1_seq(), s, k);
    let y3: T = dot_rev(c2_seq(), s, k);
    let y4: T = dot_rev(c3_seq(), s, k);
    let d209: T = lit(209);
    seq![y1.div_spec(d209), y2.div_spec(d209)] + s.map_values(|smp: Sample<T>| smp.v) + seq![
        y3.div_spec(d209),
        y4.div_spec(d209),
    ]
}

/// The first index at or after `i` whose knot lies strictly above `x`,
/// or the length when there is none.
pub open spec fn find_pos<T: Scalar>(xs: Seq<T>, x: T, i: nat) -> nat
    decreases xs.len() - i when i <= xs.len()
{
    if i >= xs.len() {
        xs.len()
    } else if x.lt_spec(xs[i as int]) {
        i
    } else {
        find_pos(xs, x, i + 1)
    }
}

/// Sprague interval coefficient `a1`, from the published central
/// difference formulas.
pub open spec fn sprague_a1<T: Scalar>(r: Seq<T>, i: int) -> T {
    (lit::<T>(2).mul_spec(r[i - 2]).sub_spec(lit::<T>(16).mul_spec(r[i - 1])).add_spec(
        lit::<T>(16).mul_spec(r[i + 1]),
    ).sub_spec(lit::<T>(2).mul_spec(r[i + 2]))).div_spec(lit(24))
}

/// Sprague interval coefficient `a2`.
pub open spec fn sprague_a2<T: Scalar>(r: Seq<T>, i: int) -> T {
    (r[i - 2].neg_spec().add_spec(lit::<T>(16).mul_spec(r[i - 1])).sub_spec(
        lit::<T>(30).mul_spec(r[i]),
    ).add_spec(lit::<T>(16).mul_spec(r[i + 1])).sub_spec(r[i + 2])).div_spec(lit(24))
}

/// Sprague interval coefficient `a3`.
pub open spec fn sprague_a3<T: Scalar>(r: Seq<T>, i: int) -> T {
    (lit::<T>(-9).mul_spec(r[i - 2]).add_spec(lit::<T>(39).mul_spec(r[i - 1])).sub_spec(
        lit::<T>(70).mul_spec(r[i]),
    ).add_spec(lit::<T>(66).mul_spec(r[i + 1])).sub_spec(lit::<T>(33).mul_spec(r[i + 2])).add_spec(
        lit::<T>(7).mul_spec(r[i + 3]),
    )).div_spec(lit(24))
}

/// Sprague interval coefficient `a4`.
pub open spec fn sprague_a4<T: Scalar>(r: Seq<T>, i: int) -> T {
    (lit::<T>(13).mul_spec(r[i - 2]).sub_spec(lit::<T>(64).mul_spec(r[i - 1])).add_spec(
        lit::<T>(126).mul_spec(r[i]),
    ).sub_spec(lit::<T>(124).mul_spec(r[i + 1])).add_spec(lit::<T>(61).mul_spec(r[i + 2])).sub_spec(
        lit::<T>(12).mul_spec(r[i + 3]),
    )).div_spec(lit(24))
}

/// Sprague interval coefficient `a5`.
pub open spec fn sprague_a5<T: Scalar>(r: Seq<T>, i: int) -> T {
    (lit::<T>(-5).mul_spec(r[i - 2]).add_spec(lit::<T>(25).mul_spec(r[i - 1])).sub_spec(
        lit::<T>(50).mul_spec(r[i]),
    ).add_spec(lit::<T>(50).mul_spec(r[i + 1])).sub_spec(lit::<T>(25).mul_spec(r[i + 2])).add_spec(
        lit::<T>(5).mul_spec(r[i + 3]),
    )).div_spec(lit(24))
}

/// What a Sprague evaluation at `x` over padded knots `xs` and values
/// `ys` returns: locate the knot interval, clamp it so six neighbours
/// exist, take the normalized offset into the interval, and evaluate the
/// quintic with the published coefficients.
pub open spec fn sprague_eval<T: Scalar>(xs: Seq<T>, ys: Seq<T>, x: T) -> T {
    let pos = find_pos(xs, x, 0);
    let i = if pos < 3 {
        2int
    } else if pos - 1 > xs.len() - 4 {
        xs.len() - 4
    } else {
        pos - 1
    };
    let dx = x.sub_spec(xs[i]).div_spec(xs[i + 1].sub_spec(xs[i]));
    ys[i].add_spec(sprague_a1(ys, i).mul_spec(dx)).add_spec(
        sprague_a2(ys, i).mul_spec(dx.powi_spec(2)),
    ).add_spec(sprague_a3(ys, i).mul_spec(dx.powi_spec(3))).add_spec(
        sprague_a4(ys, i).mul_spec(dx.powi_spec(4)),
    ).add_spec(sprague_a5(ys, i).mul_spec(dx.powi_spec(5)))
}

/// The fixed coefficient tables of the Sprague interpolator: the
/// boundary stencils and the per-interval polynomial coefficients.
pub trait SpragueCoefficients {
    type Item: Scalar;

    fn coeff_c0() -> (r: [Self::Item; 6])
        ensures
            r@ == c0_seq::<Self::Item>(),
    ;

    fn coeff_c1() -> (r: [Self::Item; 6])
        ensures
            r@ == c1_seq::<Self::Item>(),
    ;

    fn coeff_c2() -> (r: [Self::Item; 6])
        ensures
            r@ == c2_seq::<Self::Item>(),
    ;

    fn coeff_c3() -> (r: [Self::Item; 6])
        ensures
            r@ == c3_seq::<Self::Item>(),
    ;

    fn coeff_a(r: &Vec<Self::Item>, i: usize) -> (a: [Self::Item; 6])
        requires
            2 <= i,
            i + 3 < r@.len(),
        ensures
            a@ == seq![
                r@[i as int],
                sprague_a1(r@, i as int),
                sprague_a2(r@, i as int),
                sprague_a3(r@, i as int),
                sprague_a4(r@, i as int),
                sprague_a5(r@, i as int),
            ],
    ;
}

impl<T: Scalar> SpragueCoefficients for T {
    type Item = T;

    fn coeff_c0() -> (r: [T; 6]) {
        let r = [
            T::from_ratio(884, 1),
            T::from_ratio(-1960, 1),
            T::from_ratio(3033, 1),
            T::from_ratio(-2648, 1),
            T::from_ratio(1080, 1),
            T::from_ratio(-180, 1),
        ];
        proof {
            assert(r@ =~= c0_seq::<T>());
        }
        r
    }

    fn coeff_c1() -> (r: [T; 6]) {
        let r = [
            T::from_ratio(508, 1),
            T::from_ratio(-540, 1),
            T::from_ratio(488, 1),
            T::from_ratio(-367, 1),
            T::from_ratio(144, 1),
            T::from_ratio(-24, 1),
        ];
        proof {
            assert(r@ =~= c1_seq::<T>());
        }
        r
    }

    fn coeff_c2() -> (r: [T; 6]) {
        let r = [
            T::from_ratio(-24, 1),
            T::from_ratio(144, 1),
            T::from_ratio(-367, 1),
            T::from_ratio(488, 1),
            T::from_ratio(-540, 1),
            T::from_ratio(508, 1),
        ];
        proof {
            assert(r@ =~= c2_seq::<T>());
        }
        r
    }

    fn coeff_c3() -> (r: [T; 6]) {
        let r = [
            T::from_ratio(-180, 1),
            T::from_ratio(1080, 1),
            T::from_ratio(-2648, 1),
            T::from_ratio(3033, 1),
            T::from_ratio(-1960, 1),
            T::from_ratio(884, 1),
        ];
        proof {
            assert(r@ =~= c3_seq::<T>());
        }
        r
    }

    fn coeff_a(r: &Vec<T>, i: usize) -> (a: [T; 6]) {
        let n: usize = r.len();
        assert(i + 3 < n);
        let a0p = r[i];
        let a1p = T::from_ratio(2, 1).mul(r[i - 2]).sub(T::from_ratio(16, 1).mul(r[i - 1])).add(
            T::from_ratio(16, 1).mul(r[i + 1]),
        ).sub(T::from_ratio(2, 1).mul(r[i + 2])).div(T::from_ratio(24, 1));
        let a2p = r[i - 2].neg().add(T::from_ratio(16, 1).mul(r[i - 1])).sub(
            T::from_ratio(30, 1).mul(r[i]),
        ).add(T::from_ratio(16, 1).mul(r[i + 1])).sub(r[i + 2]).div(T::from_ratio(24, 1));
        let a3p = T::from_ratio(-9, 1).mul(r[i - 2]).add(T::from_ratio(39, 1).mul(r[i - 1])).sub(
            T::from_ratio(70, 1).mul(r[i]),
        ).add(T::from_ratio(66, 1).mul(r[i + 1])).sub(T::from_ratio(33, 1).mul(r[i + 2])).add(
            T::from_ratio(7, 1).mul(r[i + 3]),
        ).div(T::from_ratio(24, 1));
        let a4p = T::from_ratio(13, 1).mul(r[i - 2]).sub(T::from_ratio(64, 1).mul(r[i - 1])).add(
            T::from_ratio(126, 1).mul(r[i]),
        ).sub(T::from_ratio(124, 1).mul(r[i + 1])).add(T::from_ratio(61, 1).mul(r[i + 2])).sub(
            T::from_ratio(12, 1).mul(r[i + 3]),
        ).div(T::from_ratio(24, 1));
        let a5p = T::from_ratio(-5, 1).mul(r[i - 2]).add(T::from_ratio(25, 1).mul(r[i - 1])).sub(
            T::from_ratio(50, 1).mul(r[i]),
        ).add(T::from_ratio(50, 1).mul(r[i + 1])).sub(T::from_ratio(25, 1).mul(r[i + 2])).add(
            T::from_ratio(5, 1).mul(r[i + 3]),
        ).div(T::from_ratio(24, 1));
        let a = [a0p, a1p, a2p, a3p, a4p, a5p];
        proof {
            assert(a@ =~= seq![
                r@[i as int],
                sprague_a1(r@, i as int),
                sprague_a2(r@, i as int),
                sprague_a3(r@, i as int),
                sprague_a4(r@, i as int),
                sprague_a5(r@, i as int),
            ]);
        }
        a
    }
}

/// The sixth-order Sprague interpolator over a uniformly sampled
/// distribution: the padded knot wavelengths and knot values.
pub struct InterpolatorSprague<T> {
    pub x: Vec<T>,
    pub y: Vec<T>,
}

impl<T: Scalar> InterpolatorSprague<T> {
    /// The padded knot lists are equally long, with at least six knots.
    pub open spec fn wf(self) -> bool {
        self.x@.len() == self.y@.len() && self.x@.len() >= 6
    }

    /// Build the interpolator over a distribution assumed to be uniformly
    /// sampled: two knots are synthesized beyond each boundary so that
    /// the quintic always has six neighbours.
    pub fn new(vspd: &VSPD<T>) -> (r: InterpolatorSprague<T>)
        requires
            vspd.samples@.len() >= 2,
        ensures
            r.x@ == sprague_knots(vspd.samples@),
            r.y@ == sprague_vals(vspd.samples@),
            r.wf(),
    {
        let ghost s = vspd.samples@;
        let n = vspd.samples.len();
        let first = vspd.samples[0].nm;
        let last = vspd.samples[n - 1].nm;
        let interval = vspd.samples[1].nm.sub(vspd.samples[0].nm);
        let two = T::from_ratio(2, 1);
        let x1 = first.sub(interval.mul(two));
        let x2 = first.sub(interval);
        let x3 = last.add(interval);
        let x4 = last.add(interval.mul(two));

        let mut x: Vec<T> = Vec::new();
        x.push(x1);
        x.push(x2);
        let mut i: usize = 0;
        while i < n
            invariant
                i <= n,
                n == s.len(),
                s == vspd.samples@,
                x@ == seq![x1, x2] + s.take(i as int).map_values(|smp: Sample<T>| smp.nm),
            decreases n - i,
        {
            x.push(vspd.samples[i].nm);
            proof {
                assert(s.take(i + 1) == s.take(i as int).push(s[i as int]));
                assert(seq![x1, x2] + s.take(i + 1).map_values(|smp: Sample<T>| smp.nm) == (
                seq![x1, x2] + s.take(i as int).map_values(|smp: Sample<T>| smp.nm)).push(
                    s[i as int].nm,
                ));
            }
            i = i + 1;
        }
        x.push(x3);
        x.push(x4);
        proof {
            assert(s.take(n as int) == s);
            assert(x@ =~= sprague_knots(s));
        }
        let k = if n < 6 {
            n
        } else {
            6
        };
        let c0 = T::coeff_c0();
        let c1 = T::coeff_c1();
        let c2 = T::coeff_c2();
        let c3 = T::coeff_c3();
        let mut y1 = T::zero();
        let mut j: usize = 0;
        while j < k
            invariant
                j <= k,
                k == min_nat(6, s.len()),
                k <= s.len(),
                s == vspd.samples@,
                c0@ == c0_seq::<T>(),
                y1 == dot_fwd(c0_seq::<T>(), s, j as nat),
            decreases k - j,
        {
            y1 = y1.add(c0[j].mul(vspd.samples[j].v));
            j = j + 1;
        }
        let mut y2 = T::zero();
        let mut j2: usize = 0;
        while j2 < k
            invariant
                j2 <= k,
                k == min_nat(6, s.len()),
                k <= s.len(),
                s == vspd.samples@,
                c1@ == c1_seq::<T>(),
                y2 == dot_fwd(c1_seq::<T>(), s, j2 as nat),
            decreases k - j2,
        {
            y2 = y2.add(c1[j2].mul(vspd.samples[j2].v));
            j2 = j2 + 1;
        }
        let mut y3 = T::zero();
        let mut j3: usize = 0;
        while j3 < k
            invariant
                j3 <= k,
                k == min_nat(6, s.len()),
                k <= s.len(),
                n == s.len(),
                s == vspd.samples@,
                c2@ == c2_seq::<T>(),
                y3 == dot_rev(c2_seq::<T>(), s, j3 as nat),
            decreases k - j3,
        {
            y3 = y3.add(c2[6 - 1 - j3].mul(vspd.samples[n - 1 - j3].v));
            j3 = j3 + 1;
        }
        let mut y4 = T::zero();
        let mut j4: usize = 0;
        while j4 < k
            invariant
                j4 <= k,
                k == min_nat(6, s.len()),
                k <= s.len(),
                n == s.len(),
                s == vspd.samples@,
                c3@ == c3_seq::<T>(),
                y4 == dot_rev(c3_seq::<T>(), s, j4 as nat),
            decreases k - j4,
        {
            y4 = y4.add(c3[6 - 1 - j4].mul(vspd.samples[n - 1 - j4].v));
            j4 = j4 + 1;
        }
        let d209 = T::from_ratio(209, 1);
        let mut y: Vec<T> = Vec::new();
        y.push(y1.div(d209));
        y.push(y2.div(d209));
        let mut i2: usize = 0;
        while i2 < n
            invariant
                i2 <= n,
                n == s.len(),
                s == vspd.samples@,
                y@ == seq![y1.div_spec(d209), y2.div_spec(d209)] + s.take(i2 as int).map_values(
                    |smp: Sample<T>| smp.v,
                ),
            decreases n - i2,
        {
            y.push(vspd.samples[i2].v);
            proof {
                assert(s.take(i2 + 1) == s.take(i2 as int).push(s[i2 as int]));
                assert(seq![y1.div_spec(d209), y2.div_spec(d209)] + s.take(i2 + 1).map_values(
                    |smp: Sample<T>| smp.v,
                ) == (seq![y1.div_spec(d209), y2.div_spec(d209)] + s.take(i2 as int).map_values(
                    |smp: Sample<T>| smp.v,
                )).push(s[i2 as int].v));
            }
            i2 = i2 + 1;
        }
        y.push(y3.div(d209));
        y.push(y4.div(d209));
        proof {
            assert(s.take(n as int) == s);
            assert(y@ =~= sprague_vals(s));
        }
        InterpolatorSprague { x, y }
    }

    /// Evaluate the interpolant at the wavelength `x`.
    pub fn evaluate(&self, x: T) -> (r: T)
        requires
            self.wf(),
        ensures
            r == sprague_eval(self.x@, self.y@, x),
    {
        let n = self.x.len();
        let mut p: usize = 0;
        while p < n && !x.lt(self.x[p])
            invariant
                p <= n,
                n == self.x@.len(),
                find_pos(self.x@, x, 0) == find_pos(self.x@, x, p as nat),
            decreases n - p,
        {
            p = p + 1;
        }
        assert(find_pos(self.x@, x, 0) == p as nat);
        let i = if p < 3 {
            2
        } else {
            let c = p - 1;
            let m = n - 4;
            if c > m {
                m
            } else {
                c
            }
        };
        let dx = x.sub(self.x[i]).div(self.x[i + 1].sub(self.x[i]));
        let a = T::coeff_a(&self.y, i);
        a[0].add(a[1].mul(dx)).add(a[2].mul(dx.powi(2))).add(a[3].mul(dx.powi(3))).add(
            a[4].mul(dx.powi(4)),
        ).add(a[5].mul(dx.powi(5)))
    }
}

/// What constant extrapolation over a sample list returns: the first
/// sample's value below the domain, the last sample's value otherwise.
pub open spec fn constant_extrapolation<T: Scalar>(s: Seq<Sample<T>>, x: T) -> T {
    if x.lt_spec(s[0].nm) {
        s[0].v
    } else {
        s[s.len() - 1].v
    }
}

/// Evaluates to the nearest boundary sample's value outside the domain
/// of the distribution it was built over.
pub struct ExtrapolatorConstant<'a, T> {
    pub spd: &'a VSPD<T>,
}

impl<'a, T: Scalar> ExtrapolatorConstant<'a, T> {
    pub fn new(spd: &'a VSPD<T>) -> (r: ExtrapolatorConstant<'a, T>)
        ensures
            r.spd == spd,
    {
        ExtrapolatorConstant { spd }
    }

    /// The boundary value on the side of the domain that `x` lies on.
    pub fn evaluate(&self, x: T) -> (r: T)
        requires
            self.spd.samples@.len() >= 1,
        ensures
            r == constant_extrapolation(self.spd.samples@, x),
    {
        if x.lt(self.spd.samples[0].nm) {
            self.spd.samples[0].v
        } else {
            self.spd.samples[self.spd.samples.len() - 1].v
        }
    }
}

/// What linear interpolation over a sample list returns: the boundary
/// value outside the domain, and the blend of the bracketing pair by the
/// normalized offset inside it. A wavelength that no knot lies above
/// falls back to the boundary value on its side.
pub open spec fn linear_eval<T: Scalar>(s: Seq<Sample<T>>, x: T) -> T {
    if x.le_spec(s[0].nm) {
        s[0].v
    } else if s[s.len() - 1].nm.le_spec(x) {
        s[s.len() - 1].v
    } else {
        let pos = find_pos(s.map_values(|smp: Sample<T>| smp.nm), x, 0);
        if pos == 0 {
            s[0].v
        } else if pos >= s.len() {
            s[s.len() - 1].v
        } else {
            let i = pos - 1;
            let d = x.sub_spec(s[i].nm).div_spec(s[i + 1].nm.sub_spec(s[i].nm));
            (lit::<T>(1).sub_spec(d)).mul_spec(s[i].v).add_spec(d.mul_spec(s[i + 1].v))
        }
    }
}

/// Interpolates linearly between bracketing samples, clamping to the
/// boundary values outside the domain.
pub struct InterpolatorLinear<'a, T> {
    pub spd: &'a VSPD<T>,
}

impl<'a, T: Scalar> InterpolatorLinear<'a, T> {
    pub fn new(spd: &'a VSPD<T>) -> (r: InterpolatorLinear<'a, T>)
        ensures
            r.spd == spd,
    {
        InterpolatorLinear { spd }
    }

    /// The linear interpolant at the wavelength `x`.
    pub fn evaluate(&self, x: T) -> (r: T)
        requires
            self.spd.samples@.len() >= 1,
        ensures
            r == linear_eval(self.spd.samples@, x),
    {
        let ghost s = self.spd.samples@;
        let ghost nms = s.map_values(|smp: Sample<T>| smp.nm);
        let n = self.spd.samples.len();
        if x.le(self.spd.samples[0].nm) {
            self.spd.samples[0].v
        } else if self.spd.samples[n - 1].nm.le(x) {
            self.spd.samples[n - 1].v
        } else {
            let mut p: usize = 0;
            while p < n && !x.lt(self.spd.samples[p].nm)
                invariant
                    p <= n,
                    n == s.len(),
                    s == self.spd.samples@,
                    nms == s.map_values(|smp: Sample<T>| smp.nm),
                    find_pos(nms, x, 0) == find_pos(nms, x, p as nat),
                decreases n - p,
            {
                p = p + 1;
            }
            assert(find_pos(nms, x, 0) == p as nat);
            if p == 0 {
                self.spd.samples[0].v
            } else if p >= n {
                self.spd.samples[n - 1].v
            } else {
                let i = p - 1;
                let d = x.sub(self.spd.samples[i].nm).div(
                    self.spd.samples[i + 1].nm.sub(self.spd.samples[i].nm),
                );
                (T::from_ratio(1, 1).sub(d)).mul(self.spd.samples[i].v).add(
                    d.mul(self.spd.samples[i + 1].v),
                )
            }
        }
    }
}


/// Knots in strictly increasing order.
pub open spec fn strictly_increasing<T: Scalar>(xs: Seq<T>) -> bool {
    forall|i: int| 0 <= i < xs.len() - 1 ==> (#[trigger] xs[i]).lt_spec(xs[i + 1])
}

/// In a strictly increasing list, any earlier knot lies strictly below
/// any later one.
pub proof fn lemma_increasing_chain<T: Scalar>(xs: Seq<T>, a: int, b: int)
    requires
        strictly_increasing(xs),
        0 <= a < b < xs.len(),
    ensures
        xs[a].lt_spec(xs[b]),
    decreases b - a,
{
    if b == a + 1 {
        assert(xs[a].lt_spec(xs[a + 1]));
    } else {
        lemma_increasing_chain(xs, a, b - 1);
        assert(xs[b - 1].lt_spec(xs[b]));
        T::law_lt_trans(xs[a], xs[b - 1], xs[b]);
    }
}

proof fn lemma_find_pos_lands<T: Scalar>(xs: Seq<T>, x: T, i: nat, j: nat)
    requires
        i <= j,
        j + 1 < xs.len(),
        forall|m: int| i <= m <= j ==> !x.lt_spec(#[trigger] xs[m]),
        x.lt_spec(xs[j + 1int]),
    ensures
        find_pos(xs, x, i) == j + 1,
    decreases j - i,
{
    assert(!x.lt_spec(xs[i as int]));
    if i == j {
        assert(find_pos(xs, x, i) == find_pos(xs, x, i + 1));
        assert(find_pos(xs, x, i + 1) == j + 1);
    } else {
        lemma_find_pos_lands(xs, x, i + 1, j);
        assert(find_pos(xs, x, i) == find_pos(xs, x, i + 1));
    }
}

/// Sprague interpolation reproduces its samples: evaluated at the
/// wavelength of any sample but the last, it returns exactly that
/// sample's stored value, for any scalar whose algebraic laws hold and
/// whose padded knots come out strictly increasing.
pub proof fn lemma_sprague_reproduces_knot<T: Scalar>(s: Seq<Sample<T>>, k: int)
    requires
        s.len() >= 2,
        strictly_increasing(sprague_knots(s)),
        0 <= k < s.len() - 1,
    ensures
        sprague_eval(sprague_knots(s), sprague_vals(s), s[k].nm) == s[k].v,
{
    let xs = sprague_knots(s);
    let ys = sprague_vals(s);
    let n = s.len() as int;
    assert(xs.len() == n + 4);
    assert(ys.len() == n + 4);
    let x = s[k].nm;
    assert(xs[k + 2] == x);
    assert(xs[k + 3] == s[k + 1].nm);
    assert forall|m: int| 0 <= m <= k + 2 implies !x.lt_spec(#[trigger] xs[m]) by {
        if m < k + 2 {
            lemma_increasing_chain(xs, m, k + 2);
            T::law_lt_asym(xs[m], xs[k + 2]);
        } else {
            T::law_lt_irrefl(x);
        }
    };
    assert(x.lt_spec(xs[k + 3]));
    lemma_find_pos_lands(xs, x, 0, (k + 2) as nat);
    assert(find_pos(xs, x, 0) == k + 3);
    let i = k + 2;
    T::law_sub_self(x);
    assert(x.sub_spec(xs[i]) == T::zero_spec());
    T::law_zero_div(xs[i + 1].sub_spec(xs[i]));
    let dx = x.sub_spec(xs[i]).div_spec(xs[i + 1].sub_spec(xs[i]));
    assert(dx == T::zero_spec());
    T::law_powi_zero(2);
    T::law_powi_zero(3);
    T::law_powi_zero(4);
    T::law_powi_zero(5);
    T::law_mul_zero(sprague_a1(ys, i));
    T::law_mul_zero(sprague_a2(ys, i));
    T::law_mul_zero(sprague_a3(ys, i));
    T::law_mul_zero(sprague_a4(ys, i));
    T::law_mul_zero(sprague_a5(ys, i));
    T::law_add_zero(ys[i]);
    assert(ys[i] == s[k].v);
    assert(sprague_eval(xs, ys, x) == s[k].v);
}


} // verus!
