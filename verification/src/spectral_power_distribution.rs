//! The fast spectral power distribution: a flat list of wavelength and
//! value pairs with a cached spacing tag, designed for per-sample reads
//! rather than whole-spectrum transforms.

use crate::math::clamp;
use crate::math::clamp_spec;
use crate::math::lerp;
use crate::math::lerp_spec;
use crate::traits::Scalar;
use vstd::prelude::*;

verus! {

/// Spacing of the samples: evenly spaced with the contained step, or
/// not.
#[derive(Copy, Clone, Debug)]
pub enum Distribution<T> {
    Uniform(T),
    Varying,
}

/// The spacing a pair list has: the first delta when every delta equals
/// it exactly, else varying.
pub open spec fn calculate_distribution_spec<T: Scalar>(s: Seq<(T, T)>) -> Distribution<T> {
    if forall|i: int|
        1 <= i < s.len() ==> (#[trigger] s[i].0.sub_spec(s[i - 1].0)).eqv_spec(
            s[1].0.sub_spec(s[0].0),
        ) {
        Distribution::Uniform(s[1].0.sub_spec(s[0].0))
    } else {
        Distribution::Varying
    }
}

/// Derive the spacing of a pair list.
#[verifier::loop_isolation(false)]
fn calculate_distribution<T: Scalar>(samples: &Vec<(T, T)>) -> (r: Distribution<T>)
    requires
        samples@.len() >= 2,
    ensures
        r == calculate_distribution_spec(samples@),
{
    let step_size = samples[1].0.sub(samples[0].0);
    let n = samples.len();
    let mut is_uniform = true;
    let mut i: usize = 1;
    while i < n
        invariant
            1 <= i <= n,
            is_uniform == forall|j: int|
                1 <= j < i ==> (#[trigger] samples@[j].0.sub_spec(samples@[j - 1].0)).eqv_spec(
                    samples@[1].0.sub_spec(samples@[0].0),
                ),
        decreases n - i,
    {
        let ss = samples[i].0.sub(samples[i - 1].0);
        if !ss.eqv(step_size) {
            is_uniform = false;
        }
        i = i + 1;
    }
    if is_uniform {
        Distribution::Uniform(step_size)
    } else {
        Distribution::Varying
    }
}

/// A spectral power distribution over wavelength and value pairs.
#[derive(Clone)]
pub struct SPD<T> {
    pub samples: Vec<(T, T)>,
    pub distribution: Distribution<T>,
}

/// The unclamped bracketing index that interpolated reading uses: the
/// normalized position across the domain, scaled by `scale` and
/// truncated.
pub open spec fn bracket_index<T: Scalar>(s: Seq<(T, T)>, lambda: T, scale: usize) -> usize {
    lambda.sub_spec(s[0].0).div_spec(s[s.len() - 1].0.sub_spec(s[0].0)).mul_spec(
        T::from_usize_spec(scale),
    ).to_usize_spec()
}

/// The blend of the bracketing pair `i0, i1` at `lambda`: the lower
/// value when the pair shares a wavelength, else the linear blend by
/// the clamped normalized offset.
pub open spec fn bracket_blend<T: Scalar>(s: Seq<(T, T)>, lambda: T, i0: int, i1: int) -> T {
    if s[i0].0.eqv_spec(s[i1].0) {
        s[i0].1
    } else {
        lerp_spec(
            s[i0].1,
            s[i1].1,
            clamp_spec(
                lambda.sub_spec(s[i0].0).div_spec(s[i1].0.sub_spec(s[i0].0)),
                T::zero_spec(),
                T::one_spec(),
            ),
        )
    }
}

/// The clamped lower bracketing index for a raw index.
pub open spec fn clamp_low<T: Scalar>(s: Seq<(T, T)>, raw: usize) -> int {
    if raw > s.len() - 1 {
        s.len() - 1
    } else {
        raw as int
    }
}

/// The clamped upper bracketing index for a raw index.
pub open spec fn clamp_high<T: Scalar>(s: Seq<(T, T)>, raw: usize) -> int {
    if raw as int >= s.len() - 1 {
        s.len() - 1
    } else {
        raw + 1
    }
}

/// What an interpolated read returns: the blend of the clamped
/// bracketing pair.
pub open spec fn value_at_model<T: Scalar>(s: Seq<(T, T)>, lambda: T) -> T {
    bracket_blend(
        s,
        lambda,
        clamp_low(s, bracket_index(s, lambda, s.len() as usize)),
        clamp_high(s, bracket_index(s, lambda, s.len() as usize)),
    )
}

/// Linear extension beyond the domain through the two samples at `l0`
/// and `l1`.
pub open spec fn through_pair<T: Scalar>(s: Seq<(T, T)>, lambda: T, l0: int, l1: int) -> T {
    s[l1].1.add_spec(
        lambda.sub_spec(s[l1].0).div_spec(s[l0].0.sub_spec(s[l1].0)).mul_spec(
            s[l0].1.sub_spec(s[l1].1),
        ),
    )
}

/// What an extrapolating read returns: a linear extension through the
/// boundary pair outside the domain, the blend of the clamped
/// bracketing pair inside it.
pub open spec fn value_at_extrapolate_model<T: Scalar>(s: Seq<(T, T)>, lambda: T) -> T {
    if lambda.lt_spec(s[0].0) {
        through_pair(s, lambda, 0, 1)
    } else if s[s.len() - 1].0.lt_spec(lambda) {
        through_pair(s, lambda, s.len() - 1, s.len() - 2)
    } else {
        bracket_blend(
            s,
            lambda,
            clamp_low(s, bracket_index(s, lambda, (s.len() - 1) as usize)),
            clamp_high(s, bracket_index(s, lambda, (s.len() - 1) as usize)),
        )
    }
}

impl<T: Scalar> SPD<T> {
    /// At least two samples.
    pub open spec fn wf(self) -> bool {
        self.samples@.len() >= 2
    }

    /// A new distribution copying the given pairs, of which there must
    /// be at least two.
    #[verifier::loop_isolation(false)]
    pub fn new(samples: &[(T, T)]) -> (r: SPD<T>)
        requires
            samples@.len() >= 2,
        ensures
            r.samples@ == samples@,
            r.distribution == calculate_distribution_spec(samples@),
            r.wf(),
    {
        let mut v: Vec<(T, T)> = Vec::new();
        let n = samples.len();
        let mut i: usize = 0;
        while i < n
            invariant
                i <= n,
                v@ == samples@.take(i as int),
            decreases n - i,
        {
            v.push(samples[i]);
            proof {
                assert(samples@.take(i + 1) == samples@.take(i as int).push(samples@[i as int]));
            }
            i = i + 1;
        }
        proof {
            assert(samples@.take(n as int) == samples@);
        }
        let distribution = calculate_distribution(&v);
        SPD { samples: v, distribution }
    }

    /// A new distribution taking ownership of the given pairs.
    pub fn consume(samples: Vec<(T, T)>) -> (r: SPD<T>)
        requires
            samples@.len() >= 2,
        ensures
            r.samples@ == samples@,
            r.distribution == calculate_distribution_spec(samples@),
            r.wf(),
    {
        let distribution = calculate_distribution(&samples);
        SPD { samples, distribution }
    }

    /// A new distribution from parallel wavelength and value slices,
    /// paired up to the shorter length.
    #[verifier::loop_isolation(false)]
    pub fn from_wavelength_and_value(wavelength: &[T], value: &[T]) -> (r: SPD<T>)
        requires
            wavelength@.len() >= 2,
            value@.len() >= 2,
        ensures
            r.samples@.len() == crate::interpolation::min_nat(
                wavelength@.len(),
                value@.len(),
            ),
            forall|i: int|
                0 <= i < r.samples@.len() ==> #[trigger] r.samples@[i] == (
                wavelength@[i],
                value@[i],
                ),
            r.distribution == calculate_distribution_spec(r.samples@),
            r.wf(),
    {
        let len = if wavelength.len() < value.len() {
            wavelength.len()
        } else {
            value.len()
        };
        let mut samples: Vec<(T, T)> = Vec::new();
        let mut i: usize = 0;
        while i < len
            invariant
                i <= len,
                len == crate::interpolation::min_nat(wavelength@.len(), value@.len()),
                samples@.len() == i,
                forall|j: int|
                    0 <= j < i ==> #[trigger] samples@[j] == (wavelength@[j], value@[j]),
            decreases len - i,
        {
            let ghost sprev = samples@;
            samples.push((wavelength[i], value[i]));
            i = i + 1;
            proof {
                assert forall|j: int|
                    0 <= j < i implies #[trigger] samples@[j] == (wavelength@[j], value@[j]) by {
                    if j < i - 1 {
                        assert(samples@[j] == sprev[j]);
                    }
                };
            }
        }
        let distribution = calculate_distribution(&samples);
        SPD { samples, distribution }
    }

    /// The smallest wavelength of the range covered.
    pub fn start(&self) -> (r: T)
        requires
            self.wf(),
        ensures
            r == self.samples@[0].0,
    {
        self.samples[0].0
    }

    /// The largest wavelength of the range covered.
    pub fn end(&self) -> (r: T)
        requires
            self.wf(),
        ensures
            r == self.samples@[self.samples@.len() - 1].0,
    {
        self.samples[self.samples.len() - 1].0
    }

    /// The size of the range covered.
    pub fn range(&self) -> (r: T)
        requires
            self.wf(),
        ensures
            r == self.samples@[self.samples@.len() - 1].0.sub_spec(self.samples@[0].0),
    {
        self.end().sub(self.start())
    }

    /// The number of samples.
    pub fn num_samples(&self) -> (r: usize)
        ensures
            r == self.samples@.len(),
    {
        self.samples.len()
    }

    /// The spacing of the samples.
    pub fn distribution(&self) -> (r: Distribution<T>)
        ensures
            r == self.distribution,
    {
        self.distribution
    }

    /// The pair list.
    pub fn samples(&self) -> (r: &Vec<(T, T)>)
        ensures
            r@ == self.samples@,
    {
        &self.samples
    }

    /// Interpolate the value at `lambda`, clamping to the boundary
    /// samples outside the domain.
    pub fn value_at(&self, lambda: T) -> (r: T)
        requires
            self.wf(),
        ensures
            r == value_at_model(self.samples@, lambda),
    {
        let n = self.samples.len();
        let t = lambda.sub(self.start()).div(self.range());
        let raw = t.mul(T::from_usize(n)).to_usize();
        let i0 = if raw > n - 1 {
            n - 1
        } else {
            raw
        };
        let i1 = if raw >= n - 1 {
            n - 1
        } else {
            raw + 1
        };
        let s0 = self.samples[i0];
        let s1 = self.samples[i1];
        if s0.0.eqv(s1.0) {
            s0.1
        } else {
            let dt = clamp(lambda.sub(s0.0).div(s1.0.sub(s0.0)), T::zero(), T::one());
            lerp(s0.1, s1.1, dt)
        }
    }

    /// Interpolate the value at `lambda`, extending linearly through the
    /// boundary pairs outside the domain.
    pub fn value_at_extrapolate(&self, lambda: T) -> (r: T)
        requires
            self.wf(),
        ensures
            r == value_at_extrapolate_model(self.samples@, lambda),
    {
        let n = self.samples.len();
        if lambda.lt(self.start()) {
            let s0 = self.samples[0];
            let s1 = self.samples[1];
            s1.1.add(lambda.sub(s1.0).div(s0.0.sub(s1.0)).mul(s0.1.sub(s1.1)))
        } else if self.end().lt(lambda) {
            let s0 = self.samples[n - 1];
            let s1 = self.samples[n - 2];
            s1.1.add(lambda.sub(s1.0).div(s0.0.sub(s1.0)).mul(s0.1.sub(s1.1)))
        } else {
            let t = lambda.sub(self.start()).div(self.range());
            let raw = t.mul(T::from_usize(n - 1)).to_usize();
            let i0 = if raw > n - 1 {
                n - 1
            } else {
                raw
            };
            let i1 = if raw >= n - 1 {
                n - 1
            } else {
                raw + 1
            };
            let s0 = self.samples[i0];
            let s1 = self.samples[i1];
            if s0.0.eqv(s1.0) {
                s0.1
            } else {
                let dt = clamp(lambda.sub(s0.0).div(s1.0.sub(s0.0)), T::zero(), T::one());
                lerp(s0.1, s1.1, dt)
            }
        }
    }
}


impl<T: Scalar> SPD<T> {
    /// The interpolated reads over `steps` evenly spaced wavelengths
    /// from `start` to `end_inc` inclusive, each clamped below at zero.
    #[verifier::loop_isolation(false)]
    pub fn interpolate_by(&self, start: T, end_inc: T, steps: u32) -> (r: Vec<(T, T)>)
        requires
            self.wf(),
            steps >= 1,
        ensures
            r@.len() == steps,
            forall|i: int|
                0 <= i < steps ==> #[trigger] r@[i] == (
                start.add_spec(
                    end_inc.sub_spec(start).mul_spec(
                        T::from_usize_spec(i as usize).div_spec(
                            T::from_usize_spec((steps - 1) as usize),
                        ),
                    ),
                ),
                crate::traits::max_of_spec(
                    value_at_model(
                        self.samples@,
                        start.add_spec(
                            end_inc.sub_spec(start).mul_spec(
                                T::from_usize_spec(i as usize).div_spec(
                                    T::from_usize_spec((steps - 1) as usize),
                                ),
                            ),
                        ),
                    ),
                    T::zero_spec(),
                ),
                ),
    {
        let mut out: Vec<(T, T)> = Vec::new();
        let n = steps as usize;
        let mut i: usize = 0;
        while i < n
            invariant
                i <= n,
                n == steps,
                out@.len() == i,
                forall|j: int|
                    0 <= j < i ==> #[trigger] out@[j] == (
                    start.add_spec(
                        end_inc.sub_spec(start).mul_spec(
                            T::from_usize_spec(j as usize).div_spec(
                                T::from_usize_spec((steps - 1) as usize),
                            ),
                        ),
                    ),
                    crate::traits::max_of_spec(
                        value_at_model(
                            self.samples@,
                            start.add_spec(
                                end_inc.sub_spec(start).mul_spec(
                                    T::from_usize_spec(j as usize).div_spec(
                                        T::from_usize_spec((steps - 1) as usize),
                                    ),
                                ),
                            ),
                        ),
                        T::zero_spec(),
                    ),
                    ),
            decreases n - i,
        {
            let ghost oprev = out@;
            let delta = T::from_usize(i).div(T::from_usize(steps as usize - 1));
            let lambda = start.add(end_inc.sub(start).mul(delta));
            let v = crate::traits::max_of(self.value_at(lambda), T::zero());
            out.push((lambda, v));
            i = i + 1;
            proof {
                assert forall|j: int|
                    0 <= j < i implies #[trigger] out@[j] == (
                    start.add_spec(
                        end_inc.sub_spec(start).mul_spec(
                            T::from_usize_spec(j as usize).div_spec(
                                T::from_usize_spec((steps - 1) as usize),
                            ),
                        ),
                    ),
                    crate::traits::max_of_spec(
                        value_at_model(
                            self.samples@,
                            start.add_spec(
                                end_inc.sub_spec(start).mul_spec(
                                    T::from_usize_spec(j as usize).div_spec(
                                        T::from_usize_spec((steps - 1) as usize),
                                    ),
                                ),
                            ),
                        ),
                        T::zero_spec(),
                    ),
                    ) by {
                    if j < i - 1 {
                        assert(out@[j] == oprev[j]);
                    } else {
                        assert(out@[j] == (lambda, v));
                    }
                };
            }
        }
        out
    }

    /// The extrapolating reads over `steps` evenly spaced wavelengths
    /// from `start` to `end_inc` inclusive, each clamped below at zero.
    #[verifier::loop_isolation(false)]
    pub fn extrapolate_by(&self, start: T, end_inc: T, steps: u32) -> (r: Vec<(T, T)>)
        requires
            self.wf(),
            steps >= 1,
        ensures
            r@.len() == steps,
            forall|i: int|
                0 <= i < steps ==> #[trigger] r@[i] == (
                start.add_spec(
                    end_inc.sub_spec(start).mul_spec(
                        T::from_usize_spec(i as usize).div_spec(
                            T::from_usize_spec((steps - 1) as usize),
                        ),
                    ),
                ),
                crate::traits::max_of_spec(
                    value_at_extrapolate_model(
                        self.samples@,
                        start.add_spec(
                            end_inc.sub_spec(start).mul_spec(
                                T::from_usize_spec(i as usize).div_spec(
                                    T::from_usize_spec((steps - 1) as usize),
                                ),
                            ),
                        ),
                    ),
                    T::zero_spec(),
                ),
                ),
    {
        let mut out: Vec<(T, T)> = Vec::new();
        let n = steps as usize;
        let mut i: usize = 0;
        while i < n
            invariant
                i <= n,
                n == steps,
                out@.len() == i,
                forall|j: int|
                    0 <= j < i ==> #[trigger] out@[j] == (
                    start.add_spec(
                        end_inc.sub_spec(start).mul_spec(
                            T::from_usize_spec(j as usize).div_spec(
                                T::from_usize_spec((steps - 1) as usize),
                            ),
                        ),
                    ),
                    crate::traits::max_of_spec(
                        value_at_extrapolate_model(
                            self.samples@,
                            start.add_spec(
                                end_inc.sub_spec(start).mul_spec(
                                    T::from_usize_spec(j as usize).div_spec(
                                        T::from_usize_spec((steps - 1) as usize),
                                    ),
                                ),
                            ),
                        ),
                        T::zero_spec(),
                    ),
                    ),
            decreases n - i,
        {
            let ghost oprev = out@;
            let delta = T::from_usize(i).div(T::from_usize(steps as usize - 1));
            let lambda = start.add(end_inc.sub(start).mul(delta));
            let v = crate::traits::max_of(self.value_at_extrapolate(lambda), T::zero());
            out.push((lambda, v));
            i = i + 1;
            proof {
                assert forall|j: int|
                    0 <= j < i implies #[trigger] out@[j] == (
                    start.add_spec(
                        end_inc.sub_spec(start).mul_spec(
                            T::from_usize_spec(j as usize).div_spec(
                                T::from_usize_spec((steps - 1) as usize),
                            ),
                        ),
                    ),
                    crate::traits::max_of_spec(
                        value_at_extrapolate_model(
                            self.samples@,
                            start.add_spec(
                                end_inc.sub_spec(start).mul_spec(
                                    T::from_usize_spec(j as usize).div_spec(
                                        T::from_usize_spec((steps - 1) as usize),
                                    ),
                                ),
                            ),
                        ),
                        T::zero_spec(),
                    ),
                    ) by {
                    if j < i - 1 {
                        assert(out@[j] == oprev[j]);
                    } else {
                        assert(out@[j] == (lambda, v));
                    }
                };
            }
        }
        out
    }

    /// Convert this emissive spectrum to an unnormalized tristimulus
    /// value against the given observer curves.
    pub fn to_xyz(&self, cmf: &crate::spd_conversion::SpdCmf<T>) -> (r: crate::xyz::XYZ<T>)
        requires
            self.wf(),
            cmf.wf(),
        ensures
            exists|a: int, b: int|
                #[trigger] crate::spd_conversion::overlap_run(
                    self.samples@,
                    cmf.x_bar.samples@,
                    a,
                    b,
                ) && r == (crate::xyz::XYZ {
                    x: crate::spd_conversion::emissive_sum(
                        self.samples@,
                        cmf.x_bar.samples@,
                        a,
                        b,
                    ),
                    y: crate::spd_conversion::emissive_sum(
                        self.samples@,
                        cmf.y_bar.samples@,
                        a,
                        b,
                    ),
                    z: crate::spd_conversion::emissive_sum(
                        self.samples@,
                        cmf.z_bar.samples@,
                        a,
                        b,
                    ),
                }),
    {
        crate::spd_conversion::spd_to_xyz(self, cmf)
    }

    /// Convert this reflective spectrum to a tristimulus value against
    /// the given observer curves and reference illuminant.
    pub fn to_xyz_with_illuminant(
        &self,
        cmf: &crate::spd_conversion::SpdCmf<T>,
        illum: &SPD<T>,
    ) -> (r: crate::xyz::XYZ<T>)
        requires
            self.wf(),
            cmf.wf(),
            illum.wf(),
        ensures
            exists|a: int, b: int|
                #[trigger] crate::spd_conversion::overlap_run(
                    self.samples@,
                    cmf.x_bar.samples@,
                    a,
                    b,
                ) && r == (crate::xyz::XYZ {
                    x: crate::spd_conversion::reflective_sum(
                        self.samples@,
                        cmf.x_bar.samples@,
                        illum.samples@,
                        a,
                        b,
                    ).div_spec(
                        crate::spd_conversion::normalization_sum(
                            self.samples@,
                            cmf.y_bar.samples@,
                            illum.samples@,
                            a,
                            b,
                        ),
                    ),
                    y: crate::spd_conversion::reflective_sum(
                        self.samples@,
                        cmf.y_bar.samples@,
                        illum.samples@,
                        a,
                        b,
                    ).div_spec(
                        crate::spd_conversion::normalization_sum(
                            self.samples@,
                            cmf.y_bar.samples@,
                            illum.samples@,
                            a,
                            b,
                        ),
                    ),
                    z: crate::spd_conversion::reflective_sum(
                        self.samples@,
                        cmf.z_bar.samples@,
                        illum.samples@,
                        a,
                        b,
                    ).div_spec(
                        crate::spd_conversion::normalization_sum(
                            self.samples@,
                            cmf.y_bar.samples@,
                            illum.samples@,
                            a,
                            b,
                        ),
                    ),
                }),
    {
        crate::spd_conversion::spd_to_xyz_with_illuminant(self, cmf, illum)
    }
}


} // verus!
