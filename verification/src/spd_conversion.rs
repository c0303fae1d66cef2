//! Direct conversion of the fast spectral type to tristimulus values.

use crate::spectral_power_distribution::value_at_model;
use crate::spectral_power_distribution::SPD;
use crate::traits::max_of_spec;
use crate::traits::min_of_spec;
use crate::traits::Scalar;
use crate::xyz::XYZ;
use vstd::prelude::*;

verus! {

/// Fold of emissive conversion terms over the sample indices in
/// `[from, upto)`: each term is the sample's value times the observer
/// curve read at its wavelength, accumulated from zero.
pub open spec fn emissive_sum<T: Scalar>(
    spd: Seq<(T, T)>,
    curve: Seq<(T, T)>,
    from: int,
    upto: int,
) -> T
    decreases upto - from,
{
    if upto <= from {
        T::zero_spec()
    } else {
        emissive_sum(spd, curve, from, upto - 1).add_spec(
            spd[upto - 1].1.mul_spec(value_at_model(curve, spd[upto - 1].0)),
        )
    }
}

/// Fold of reflective conversion terms over `[from, upto)`: each term
/// is the observer read times the sample's value times the illuminant
/// read, accumulated from zero.
pub open spec fn reflective_sum<T: Scalar>(
    spd: Seq<(T, T)>,
    curve: Seq<(T, T)>,
    illum: Seq<(T, T)>,
    from: int,
    upto: int,
) -> T
    decreases upto - from,
{
    if upto <= from {
        T::zero_spec()
    } else {
        reflective_sum(spd, curve, illum, from, upto - 1).add_spec(
            value_at_model(curve, spd[upto - 1].0).mul_spec(
                spd[upto - 1].1.mul_spec(value_at_model(illum, spd[upto - 1].0)),
            ),
        )
    }
}

/// Fold of the luminance normalization terms over `[from, upto)`.
pub open spec fn normalization_sum<T: Scalar>(
    spd: Seq<(T, T)>,
    curve: Seq<(T, T)>,
    illum: Seq<(T, T)>,
    from: int,
    upto: int,
) -> T
    decreases upto - from,
{
    if upto <= from {
        T::zero_spec()
    } else {
        normalization_sum(spd, curve, illum, from, upto - 1).add_spec(
            value_at_model(curve, spd[upto - 1].0).mul_spec(
                value_at_model(illum, spd[upto - 1].0),
            ),
        )
    }
}

/// The overlap of a spectrum's domain with an observer's: a run of
/// sample indices `[a, b)` where the leading samples below the shared
/// start are skipped and the scan stops at the shared end.
pub open spec fn overlap_run<T: Scalar>(
    spd: Seq<(T, T)>,
    curve: Seq<(T, T)>,
    a: int,
    b: int,
) -> bool {
    &&& 0 <= a <= spd.len()
    &&& 0 <= b <= spd.len()
    &&& (forall|j: int|
        0 <= j < a ==> (#[trigger] spd[j]).0.lt_spec(
            max_of_spec(curve[0].0, spd[0].0),
        ))
    &&& (a < spd.len() ==> !spd[a].0.lt_spec(max_of_spec(curve[0].0, spd[0].0)))
    &&& (forall|j: int|
        0 <= j < b ==> (#[trigger] spd[j]).0.lt_spec(
            min_of_spec(curve[curve.len() - 1].0, spd[spd.len() - 1].0),
        ))
    &&& (b < spd.len() ==> !spd[b].0.lt_spec(
        min_of_spec(curve[curve.len() - 1].0, spd[spd.len() - 1].0),
    ))
}

/// A set of colour matching functions over the fast spectral type.
#[derive(Clone)]
pub struct SpdCmf<T> {
    pub x_bar: SPD<T>,
    pub y_bar: SPD<T>,
    pub z_bar: SPD<T>,
}

impl<T: Scalar> SpdCmf<T> {
    /// Every curve holds at least two samples.
    pub open spec fn wf(self) -> bool {
        self.x_bar.wf() && self.y_bar.wf() && self.z_bar.wf()
    }
}

/// Convert an emissive spectrum to an unnormalized tristimulus value by
/// summing its samples against the observer curves, over the overlap of
/// the two domains. The per-sample observer reads go through the
/// interpolated lookup, so the result is pinned only up to that lookup;
/// the summation structure itself is recorded by the loop, sample by
/// sample, from zero.
#[verifier::loop_isolation(false)]
pub fn spd_to_xyz<T: Scalar>(spd: &SPD<T>, cmf: &SpdCmf<T>) -> (r: XYZ<T>)
    requires
        spd.wf(),
        cmf.wf(),
    ensures
        exists|a: int, b: int|
            #[trigger] overlap_run(spd.samples@, cmf.x_bar.samples@, a, b) && r == (XYZ {
                x: emissive_sum(spd.samples@, cmf.x_bar.samples@, a, b),
                y: emissive_sum(spd.samples@, cmf.y_bar.samples@, a, b),
                z: emissive_sum(spd.samples@, cmf.z_bar.samples@, a, b),
            }),
{
    let ghost lam_s = max_of_spec(cmf.x_bar.samples@[0].0, spd.samples@[0].0);
    let ghost lam_e = min_of_spec(
        cmf.x_bar.samples@[cmf.x_bar.samples@.len() - 1].0,
        spd.samples@[spd.samples@.len() - 1].0,
    );
    let lambda_start = if cmf.x_bar.start().lt(spd.start()) {
        spd.start()
    } else {
        cmf.x_bar.start()
    };
    let lambda_end = if spd.end().lt(cmf.x_bar.end()) {
        spd.end()
    } else {
        cmf.x_bar.end()
    };
    assert(lambda_start == lam_s);
    assert(lambda_end == lam_e);
    let n = spd.num_samples();
    let mut idx_start: usize = 0;
    while idx_start < n && spd.samples[idx_start].0.lt(lambda_start)
        invariant
            idx_start <= n,
            forall|j: int| 0 <= j < idx_start ==> (#[trigger] spd.samples@[j]).0.lt_spec(lam_s),
        decreases n - idx_start,
    {
        idx_start = idx_start + 1;
    }
    let mut idx_end: usize = 0;
    while idx_end < n && spd.samples[idx_end].0.lt(lambda_end)
        invariant
            idx_end <= n,
            forall|j: int| 0 <= j < idx_end ==> (#[trigger] spd.samples@[j]).0.lt_spec(lam_e),
        decreases n - idx_end,
    {
        idx_end = idx_end + 1;
    }
    let ghost a = idx_start as int;
    let ghost b = idx_end as int;
    let mut out = XYZ::from_scalar(T::zero());
    let mut i: usize = idx_start;
    while i < idx_end && i < n
        invariant
            a <= i <= n,
            b <= n,
            i <= b || i == a,
            out.x == emissive_sum(spd.samples@, cmf.x_bar.samples@, a, i as int),
            out.y == emissive_sum(spd.samples@, cmf.y_bar.samples@, a, i as int),
            out.z == emissive_sum(spd.samples@, cmf.z_bar.samples@, a, i as int),
        decreases n - i,
    {
        let samp = spd.samples[i];
        out = XYZ::new(
            out.x.add(samp.1.mul(cmf.x_bar.value_at(samp.0))),
            out.y.add(samp.1.mul(cmf.y_bar.value_at(samp.0))),
            out.z.add(samp.1.mul(cmf.z_bar.value_at(samp.0))),
        );
        i = i + 1;
    }
    proof {
        assert(overlap_run(spd.samples@, cmf.x_bar.samples@, a, b));
        if b <= a {
            assert(out.x == emissive_sum(spd.samples@, cmf.x_bar.samples@, a, b));
            assert(out.y == emissive_sum(spd.samples@, cmf.y_bar.samples@, a, b));
            assert(out.z == emissive_sum(spd.samples@, cmf.z_bar.samples@, a, b));
        }
        assert(out == (XYZ {
            x: emissive_sum(spd.samples@, cmf.x_bar.samples@, a, b),
            y: emissive_sum(spd.samples@, cmf.y_bar.samples@, a, b),
            z: emissive_sum(spd.samples@, cmf.z_bar.samples@, a, b),
        }));
    }
    out
}

/// Convert a reflective spectrum to a tristimulus value against a
/// reference illuminant, normalizing by the illuminant's luminance sum
/// over the same overlap.
#[verifier::loop_isolation(false)]
pub fn spd_to_xyz_with_illuminant<T: Scalar>(
    spd: &SPD<T>,
    cmf: &SpdCmf<T>,
    illum: &SPD<T>,
) -> (r: XYZ<T>)
    requires
        spd.wf(),
        cmf.wf(),
        illum.wf(),
    ensures
        exists|a: int, b: int|
            #[trigger] overlap_run(spd.samples@, cmf.x_bar.samples@, a, b) && r == (XYZ {
                x: reflective_sum(spd.samples@, cmf.x_bar.samples@, illum.samples@, a, b).div_spec(
                    normalization_sum(spd.samples@, cmf.y_bar.samples@, illum.samples@, a, b),
                ),
                y: reflective_sum(spd.samples@, cmf.y_bar.samples@, illum.samples@, a, b).div_spec(
                    normalization_sum(spd.samples@, cmf.y_bar.samples@, illum.samples@, a, b),
                ),
                z: reflective_sum(spd.samples@, cmf.z_bar.samples@, illum.samples@, a, b).div_spec(
                    normalization_sum(spd.samples@, cmf.y_bar.samples@, illum.samples@, a, b),
                ),
            }),
{
    let ghost lam_s = max_of_spec(cmf.x_bar.samples@[0].0, spd.samples@[0].0);
    let ghost lam_e = min_of_spec(
        cmf.x_bar.samples@[cmf.x_bar.samples@.len() - 1].0,
        spd.samples@[spd.samples@.len() - 1].0,
    );
    let lambda_start = if cmf.x_bar.start().lt(spd.start()) {
        spd.start()
    } else {
        cmf.x_bar.start()
    };
    let lambda_end = if spd.end().lt(cmf.x_bar.end()) {
        spd.end()
    } else {
        cmf.x_bar.end()
    };
    assert(lambda_start == lam_s);
    assert(lambda_end == lam_e);
    let n = spd.num_samples();
    let mut idx_start: usize = 0;
    while idx_start < n && spd.samples[idx_start].0.lt(lambda_start)
        invariant
            idx_start <= n,
            forall|j: int| 0 <= j < idx_start ==> (#[trigger] spd.samples@[j]).0.lt_spec(lam_s),
        decreases n - idx_start,
    {
        idx_start = idx_start + 1;
    }
    let mut idx_end: usize = 0;
    while idx_end < n && spd.samples[idx_end].0.lt(lambda_end)
        invariant
            idx_end <= n,
            forall|j: int| 0 <= j < idx_end ==> (#[trigger] spd.samples@[j]).0.lt_spec(lam_e),
        decreases n - idx_end,
    {
        idx_end = idx_end + 1;
    }
    let ghost a = idx_start as int;
    let ghost b = idx_end as int;
    let mut out = XYZ::from_scalar(T::zero());
    let mut norm = T::zero();
    let mut i: usize = idx_start;
    while i < idx_end && i < n
        invariant
            a <= i <= n,
            b <= n,
            i <= b || i == a,
            out.x == reflective_sum(spd.samples@, cmf.x_bar.samples@, illum.samples@, a, i as int),
            out.y == reflective_sum(spd.samples@, cmf.y_bar.samples@, illum.samples@, a, i as int),
            out.z == reflective_sum(spd.samples@, cmf.z_bar.samples@, illum.samples@, a, i as int),
            norm == normalization_sum(spd.samples@, cmf.y_bar.samples@, illum.samples@, a, i as int),
        decreases n - i,
    {
        let samp = spd.samples[i];
        let m_e = samp.1.mul(illum.value_at(samp.0));
        out = XYZ::new(
            out.x.add(cmf.x_bar.value_at(samp.0).mul(m_e)),
            out.y.add(cmf.y_bar.value_at(samp.0).mul(m_e)),
            out.z.add(cmf.z_bar.value_at(samp.0).mul(m_e)),
        );
        norm = norm.add(cmf.y_bar.value_at(samp.0).mul(illum.value_at(samp.0)));
        i = i + 1;
    }
    let result = out.div_s(norm);
    proof {
        assert(overlap_run(spd.samples@, cmf.x_bar.samples@, a, b));
        if b <= a {
            assert(out.x == reflective_sum(spd.samples@, cmf.x_bar.samples@, illum.samples@, a, b));
            assert(out.y == reflective_sum(spd.samples@, cmf.y_bar.samples@, illum.samples@, a, b));
            assert(out.z == reflective_sum(spd.samples@, cmf.z_bar.samples@, illum.samples@, a, b));
            assert(norm == normalization_sum(spd.samples@, cmf.y_bar.samples@, illum.samples@, a, b));
        }
        assert(result == (XYZ {
            x: reflective_sum(spd.samples@, cmf.x_bar.samples@, illum.samples@, a, b).div_spec(
                normalization_sum(spd.samples@, cmf.y_bar.samples@, illum.samples@, a, b),
            ),
            y: reflective_sum(spd.samples@, cmf.y_bar.samples@, illum.samples@, a, b).div_spec(
                normalization_sum(spd.samples@, cmf.y_bar.samples@, illum.samples@, a, b),
            ),
            z: reflective_sum(spd.samples@, cmf.z_bar.samples@, illum.samples@, a, b).div_spec(
                normalization_sum(spd.samples@, cmf.y_bar.samples@, illum.samples@, a, b),
            ),
        }));
    }
    result
}

} // verus!
