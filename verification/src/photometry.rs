//! Photometric reduction of a spectrum to luminance.

use crate::cmf::CMF;
use crate::traits::Scalar;
use crate::vspd::is_aligned_to;
use crate::vspd::Interval;
use crate::vspd::Sample;
use crate::vspd::SpdError;
use crate::vspd::VSPD;
use vstd::prelude::*;

verus! {

/// Fold of the first `k` products of two sample lists' values,
/// accumulated from zero.
pub open spec fn sample_dot<T: Scalar>(a: Seq<Sample<T>>, b: Seq<Sample<T>>, k: nat) -> T
    decreases k,
{
    if k == 0 {
        T::zero_spec()
    } else {
        sample_dot(a, b, (k - 1) as nat).add_spec(a[k - 1].v.mul_spec(b[k - 1].v))
    }
}

/// Reduce a spectral radiance to nits: the luminance curve is aligned
/// to the spectrum's shape, the two are integrated as a plain product
/// sum, and the result is scaled by the luminous efficacy constant over
/// the sample count.
#[verifier::loop_isolation(false)]
pub fn spd_to_nit<T: Scalar>(spd: &VSPD<T>, cmf: &CMF<T>) -> (r: Result<T, SpdError>)
    requires
        cmf.y_bar.wf(),
        spd.samples@.len() >= 1,
    ensures
        r is Ok <==> ((spd.shape.interval matches Interval::Uniform(st))
            && cmf.y_bar.clamped_to(spd.shape).count_spec() is Ok),
        r matches Ok(v) ==> exists|ya: VSPD<T>|
            #[trigger] is_aligned_to(cmf.y_bar, spd.shape, ya) && v == sample_dot(
                spd.samples@,
                ya.samples@,
                crate::interpolation::min_nat(spd.samples@.len(), ya.samples@.len()),
            ).mul_spec(T::from_ratio_spec(683, 1)).div_spec(
                T::from_usize_spec(spd.samples@.len() as usize),
            ),
{
    let ya = cmf.y_bar.align(spd.shape())?;
    let n = if spd.samples.len() < ya.samples.len() {
        spd.samples.len()
    } else {
        ya.samples.len()
    };
    let mut s = T::zero();
    let mut i: usize = 0;
    while i < n
        invariant
            i <= n,
            n == crate::interpolation::min_nat(spd.samples@.len(), ya.samples@.len()),
            s == sample_dot(spd.samples@, ya.samples@, i as nat),
        decreases n - i,
    {
        s = s.add(spd.samples[i].v.mul(ya.samples[i].v));
        i = i + 1;
    }
    let out = s.mul(T::from_ratio(683, 1)).div(T::from_usize(spd.samples.len()));
    proof {
        assert(is_aligned_to(cmf.y_bar, spd.shape, ya));
    }
    Ok(out)
}

} // verus!
