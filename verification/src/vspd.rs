//! Spectral power distributions with varying sample lists: the shape
//! description, the sample container, and its shape-changing transforms.

use crate::interpolation::sprague_eval;
use crate::xyz::XYZ;
use crate::interpolation::sprague_knots;
use crate::interpolation::sprague_vals;
use crate::interpolation::InterpolatorSprague;
use crate::traits::max_of;
use crate::traits::max_of_spec;
use crate::traits::min_of;
use crate::traits::min_of_spec;
use crate::traits::Scalar;
use vstd::prelude::*;

verus! {

/// Why a spectral operation was refused.
#[derive(Copy, Clone, Debug, PartialEq, Eq, Structural)]
pub enum SpdError {
    /// A distribution must hold at least two samples.
    TooFewSamples,
    /// The operation needs a uniform sample interval.
    VaryingInterval,
    /// Trimming retained no samples.
    EmptyTrim,
    /// A value slice did not match the sample count implied by the shape.
    LengthMismatch,
    /// A sample count would not fit in a machine word.
    CountOverflow,
}

/// Spacing of the samples of a distribution: either one uniform step
/// between consecutive wavelengths, or irregular spacing.
#[derive(Copy, Clone, Debug)]
pub enum Interval<T> {
    Uniform(T),
    Varying,
}

/// What equality of two intervals means: same tag, and steps equal as
/// values.
pub open spec fn interval_eq_spec<T: Scalar>(a: Interval<T>, b: Interval<T>) -> bool {
    match (a, b) {
        (Interval::Uniform(x), Interval::Uniform(y)) => x.eqv_spec(y),
        (Interval::Varying, Interval::Varying) => true,
        _ => false,
    }
}

impl<T: Scalar> Interval<T> {
    /// Value equality of two intervals.
    pub fn eqv(self, o: Interval<T>) -> (r: bool)
        ensures
            r == interval_eq_spec(self, o),
    {
        match (self, o) {
            (Interval::Uniform(x), Interval::Uniform(y)) => x.eqv(y),
            (Interval::Varying, Interval::Varying) => true,
            _ => false,
        }
    }
}

/// The domain of a spectral function: start and end wavelength in
/// nanometres, and the spacing of its samples.
#[derive(Copy, Clone, Debug)]
pub struct SpdShape<T> {
    /// Start of the wavelength range, in nm.
    pub start: T,
    /// End of the wavelength range, in nm.
    pub end: T,
    /// Interval between two sample values, in nm.
    pub interval: Interval<T>,
}

/// What equality of two shapes means: both bounds and the interval agree
/// as values.
pub open spec fn shape_eq_spec<T: Scalar>(a: SpdShape<T>, b: SpdShape<T>) -> bool {
    a.start.eqv_spec(b.start) && a.end.eqv_spec(b.end) && interval_eq_spec(a.interval, b.interval)
}

impl<T: Scalar> SpdShape<T> {
    /// A shape with the given bounds and a uniform interval.
    pub fn new(start: T, end: T, interval: T) -> (r: SpdShape<T>)
        ensures
            r == (SpdShape { start, end, interval: Interval::Uniform(interval) }),
    {
        SpdShape { start, end, interval: Interval::Uniform(interval) }
    }

    /// The standard observer domain: 360 nm to 780 nm at a 1 nm step.
    pub fn astm_e308() -> (r: SpdShape<T>)
        ensures
            r == (SpdShape {
                start: T::from_ratio_spec(360, 1),
                end: T::from_ratio_spec(780, 1),
                interval: Interval::Uniform(T::from_ratio_spec(1, 1)),
            }),
    {
        SpdShape {
            start: T::from_ratio(360, 1),
            end: T::from_ratio(780, 1),
            interval: Interval::Uniform(T::from_ratio(1, 1)),
        }
    }

    /// Value equality of two shapes.
    pub fn eqv(self, o: SpdShape<T>) -> (r: bool)
        ensures
            r == shape_eq_spec(self, o),
    {
        self.start.eqv(o.start) && self.end.eqv(o.end) && self.interval.eqv(o.interval)
    }

    /// The number of samples the shape implies: one more than the number
    /// of whole steps between its bounds. Refused when the interval is
    /// varying or the count would not fit in a machine word.
    pub fn count(self) -> (r: Result<usize, SpdError>)
        ensures
            r == self.count_spec(),
    {
        match self.interval {
            Interval::Varying => Err(SpdError::VaryingInterval),
            Interval::Uniform(step) => {
                let whole: usize = self.end.sub(self.start).div(step).to_usize();
                if whole == usize::MAX {
                    Err(SpdError::CountOverflow)
                } else {
                    Ok(whole + 1)
                }
            },
        }
    }

    /// The sample count implied by the shape, at the specification level.
    pub open spec fn count_spec(self) -> Result<usize, SpdError> {
        match self.interval {
            Interval::Varying => Err(SpdError::VaryingInterval),
            Interval::Uniform(step) => {
                let whole = self.end.sub_spec(self.start).div_spec(step).to_usize_spec();
                if whole == usize::MAX {
                    Err(SpdError::CountOverflow)
                } else {
                    Ok((whole + 1) as usize)
                }
            },
        }
    }

    /// An iterator over the wavelengths the shape implies.
    /// Refused when the interval is varying, as no spacing can be assumed.
    pub fn iter(&self) -> (r: Result<SpdShapeIterator<T>, SpdError>)
        ensures
            self.count_spec() is Err ==> r is Err,
            self.count_spec() matches Ok(n) ==> r matches Ok(it) && it.current == 0 && it.end == n
                && it.start == self.start && (self.interval == Interval::Uniform(it.interval)),
    {
        let n = self.count()?;
        match self.interval {
            Interval::Varying => Err(SpdError::VaryingInterval),
            Interval::Uniform(step) => {
                Ok(SpdShapeIterator { current: 0, end: n, start: self.start, interval: step })
            },
        }
    }
}

/// The `i`-th wavelength of a uniform grid: `start + i * step`, with one
/// multiplication and one addition.
pub open spec fn grid_at<T: Scalar>(start: T, step: T, i: usize) -> T {
    start.add_spec(T::from_usize_spec(i).mul_spec(step))
}

/// The wavelength reached from `start` after `i` steps of `step`,
/// accumulating one addition per step.
pub open spec fn ladder<T: Scalar>(start: T, step: T, i: nat) -> T
    decreases i,
{
    if i == 0 {
        start
    } else {
        ladder(start, step, (i - 1) as nat).add_spec(step)
    }
}

/// Walks the wavelengths of a uniform [`SpdShape`].
pub struct SpdShapeIterator<T> {
    pub current: usize,
    pub end: usize,
    pub start: T,
    pub interval: T,
}

impl<T: Scalar> SpdShapeIterator<T> {
    /// The next wavelength, or `None` once `end` wavelengths were handed
    /// out.
    pub fn next(&mut self) -> (r: Option<T>)
        ensures
            old(self).current < old(self).end ==> r == Some(
                grid_at(old(self).start, old(self).interval, old(self).current),
            ) && final (self).current == old(self).current + 1,
            old(self).current >= old(self).end ==> r is None && final (self).current == old(self).current,
            final (self).end == old(self).end,
            final (self).start == old(self).start,
            final (self).interval == old(self).interval,
    {
        if self.current < self.end {
            let w = self.start.add(T::from_usize(self.current).mul(self.interval));
            self.current = self.current + 1;
            Some(w)
        } else {
            None
        }
    }
}

/// One spectral measurement: a wavelength in nanometres and the value
/// there.
#[derive(Copy, Clone, Debug)]
pub struct Sample<T> {
    pub nm: T,
    pub v: T,
}

/// What equality of two samples means: wavelength and value agree as
/// values.
pub open spec fn sample_eq_spec<T: Scalar>(a: Sample<T>, b: Sample<T>) -> bool {
    a.nm.eqv_spec(b.nm) && a.v.eqv_spec(b.v)
}

impl<T: Scalar> Sample<T> {
    pub fn new(nm: T, v: T) -> (r: Sample<T>)
        ensures
            r == (Sample { nm, v }),
    {
        Sample { nm, v }
    }

    /// Value equality of two samples.
    pub fn eqv(self, o: Sample<T>) -> (r: bool)
        ensures
            r == sample_eq_spec(self, o),
    {
        self.nm.eqv(o.nm) && self.v.eqv(o.v)
    }
}

/// A varying spectral power distribution: a list of [`Sample`]s ordered
/// by wavelength together with the [`SpdShape`] derived from them.
#[derive(Clone, Debug)]
pub struct VSPD<T> {
    pub samples: Vec<Sample<T>>,
    pub shape: SpdShape<T>,
}

/// The interval derived from a sample list: the first delta, provided
/// every consecutive delta is near it; otherwise varying.
pub open spec fn calculate_interval_spec<T: Scalar>(s: Seq<Sample<T>>) -> Interval<T> {
    if forall|i: int|
        1 <= i < s.len() ==> #[trigger] (s[i].nm.sub_spec(s[i - 1].nm)).near_spec(
            s[1].nm.sub_spec(s[0].nm),
        ) {
        Interval::Uniform(s[1].nm.sub_spec(s[0].nm))
    } else {
        Interval::Varying
    }
}

/// The shape derived from a sample list: its boundary wavelengths and the
/// derived interval.
pub open spec fn calculate_shape_spec<T: Scalar>(s: Seq<Sample<T>>) -> SpdShape<T> {
    SpdShape { start: s[0].nm, end: s[s.len() - 1].nm, interval: calculate_interval_spec(s) }
}

/// Derive the interval of a sample list.
fn calculate_interval<T: Scalar>(samples: &Vec<Sample<T>>) -> (r: Interval<T>)
    requires
        samples@.len() >= 2,
    ensures
        r == calculate_interval_spec(samples@),
{
    let assumed = samples[1].nm.sub(samples[0].nm);
    let n = samples.len();
    let mut i: usize = 1;
    while i < n
        invariant
            1 <= i <= n,
            n == samples@.len(),
            n >= 2,
            assumed == samples@[1].nm.sub_spec(samples@[0].nm),
            forall|j: int|
                1 <= j < i ==> #[trigger] (samples@[j].nm.sub_spec(samples@[j - 1].nm)).near_spec(
                    assumed,
                ),
        decreases n - i,
    {
        let delta = samples[i].nm.sub(samples[i - 1].nm);
        if !delta.near(assumed) {
            return Interval::Varying;
        }
        i = i + 1;
    }
    Interval::Uniform(assumed)
}

/// Derive the shape of a sample list.
fn calculate_shape<T: Scalar>(samples: &Vec<Sample<T>>) -> (r: SpdShape<T>)
    requires
        samples@.len() >= 2,
    ensures
        r == calculate_shape_spec(samples@),
{
    let start = samples[0].nm;
    let end = samples[samples.len() - 1].nm;
    let interval = calculate_interval(samples);
    SpdShape { start, end, interval }
}

/// Walks the samples of a [`VSPD`] from the lowest wavelength up.
pub struct VspdIter<'a, T> {
    pub samples: &'a Vec<Sample<T>>,
    pub at: usize,
}

impl<'a, T: Scalar> VspdIter<'a, T> {
    /// The next sample, or `None` past the end.
    pub fn next(&mut self) -> (r: Option<Sample<T>>)
        ensures
            old(self).at < old(self).samples@.len() ==> r == Some(
                old(self).samples@[old(self).at as int],
            ) && final (self).at == old(self).at + 1,
            old(self).at >= old(self).samples@.len() ==> r is None && final (self).at == old(
                self,
            ).at,
            final (self).samples@ == old(self).samples@,
    {
        if self.at < self.samples.len() {
            let s = self.samples[self.at];
            self.at = self.at + 1;
            Some(s)
        } else {
            None
        }
    }
}

/// Consecutive samples have strictly increasing wavelengths.
pub open spec fn sorted_samples<T: Scalar>(s: Seq<Sample<T>>) -> bool {
    forall|i: int| 0 <= i < s.len() - 1 ==> (#[trigger] s[i]).nm.lt_spec(s[i + 1].nm)
}

/// In a sorted sample list, any earlier wavelength lies strictly below
/// any later one.
pub proof fn lemma_sorted_chain<T: Scalar>(s: Seq<Sample<T>>, a: int, b: int)
    requires
        sorted_samples(s),
        0 <= a < b < s.len(),
    ensures
        s[a].nm.lt_spec(s[b].nm),
    decreases b - a,
{
    if b == a + 1 {
        assert(s[a].nm.lt_spec(s[a + 1].nm));
    } else {
        lemma_sorted_chain(s, a, b - 1);
        assert(s[b - 1].nm.lt_spec(s[b].nm));
        T::law_lt_trans(s[a].nm, s[b - 1].nm, s[b].nm);
    }
}

/// Number of leading samples whose wavelength lies strictly below
/// `bound`.
pub open spec fn skip_below_count<T: Scalar>(s: Seq<Sample<T>>, bound: T) -> nat
    decreases s.len(),
{
    if s.len() == 0 {
        0
    } else if s[0].nm.lt_spec(bound) {
        1 + skip_below_count(s.drop_first(), bound)
    } else {
        0
    }
}

/// Number of leading samples whose wavelength lies at or below `bound`.
pub open spec fn take_at_most_count<T: Scalar>(s: Seq<Sample<T>>, bound: T) -> nat
    decreases s.len(),
{
    if s.len() == 0 {
        0
    } else if s[0].nm.le_spec(bound) {
        1 + take_at_most_count(s.drop_first(), bound)
    } else {
        0
    }
}

/// How the sample list of an extrapolation result is laid out: `k1` new
/// samples below the original domain, the original samples unchanged,
/// and `k2` new samples above. The added wavelengths walk outward one
/// step at a time; each added value repeats the boundary value that the
/// constant extrapolator chose. A pad stops at the first wavelength past
/// its bound, or at the machine-word cap, which no realistic input
/// reaches.
pub open spec fn extrapolate_layout<T: Scalar>(
    out: Seq<Sample<T>>,
    src: Seq<Sample<T>>,
    src_shape: SpdShape<T>,
    target: SpdShape<T>,
    d: T,
    k1: nat,
    k2: nat,
) -> bool {
    &&& out.len() == k1 + src.len() + k2
    &&& (forall|i: int|
        0 <= i < k1 ==> #[trigger] out[i] == (Sample {
            nm: ladder(min_of_spec(src_shape.start, target.start), d, i as nat),
            v: src[0].v,
        }) && ladder(min_of_spec(src_shape.start, target.start), d, i as nat).lt_spec(
            src_shape.start,
        ))
    &&& (k1 == usize::MAX || !ladder(min_of_spec(src_shape.start, target.start), d, k1).lt_spec(
        src_shape.start,
    ))
    &&& out.subrange(k1 as int, (k1 + src.len()) as int) == src
    &&& (forall|i: int|
        0 <= i < k2 ==> #[trigger] out[k1 + src.len() + i] == (Sample {
            nm: ladder(src_shape.end.add_spec(d), d, i as nat),
            v: if ladder(src_shape.end.add_spec(d), d, i as nat).lt_spec(src[0].nm) {
                src[0].v
            } else {
                src[src.len() - 1].v
            },
        }) && ladder(src_shape.end.add_spec(d), d, i as nat).le_spec(
            max_of_spec(src_shape.end, target.end),
        ))
    &&& (k2 == usize::MAX || !ladder(src_shape.end.add_spec(d), d, k2).le_spec(
        max_of_spec(src_shape.end, target.end),
    ))
}



/// The step extrapolation uses: this distribution's own when uniform,
/// else the target shape's.
pub open spec fn extrapolation_step<T: Scalar>(own: Interval<T>, target: Interval<T>) -> T {
    match own {
        Interval::Uniform(v) => v,
        Interval::Varying => match target {
            Interval::Uniform(v) => v,
            Interval::Varying => T::zero_spec(),
        },
    }
}

impl<T: Scalar> VSPD<T> {
    /// At least two samples.
    pub open spec fn wf(self) -> bool {
        self.samples@.len() >= 2
    }

    /// The recorded shape boundaries are the boundary samples'
    /// wavelengths.
    pub open spec fn anchored(self) -> bool {
        self.samples@.len() >= 1 && self.shape.start == self.samples@[0].nm && self.shape.end
            == self.samples@[self.samples@.len() - 1].nm
    }

    /// Consecutive samples have strictly increasing wavelengths.
    pub open spec fn sorted(self) -> bool {
        sorted_samples(self.samples@)
    }

    /// A new distribution over the given samples, of which there must be
    /// at least two; its shape is derived from them.
    pub fn new(samples: Vec<Sample<T>>) -> (r: Result<VSPD<T>, SpdError>)
        ensures
            r is Ok <==> samples@.len() >= 2,
            samples@.len() < 2 <==> r == Err::<VSPD<T>, SpdError>(SpdError::TooFewSamples),
            r matches Ok(v) ==> v.samples@ == samples@ && v.shape == calculate_shape_spec(samples@)
                && v.wf() && v.anchored(),
    {
        if samples.len() < 2 {
            return Err(SpdError::TooFewSamples);
        }
        let shape = calculate_shape(&samples);
        Ok(VSPD { samples, shape })
    }

    /// A fresh copy of this distribution, sample by sample.
    pub fn copied(&self) -> (r: VSPD<T>)
        ensures
            r.samples@ == self.samples@,
            r.shape == self.shape,
    {
        let mut out: Vec<Sample<T>> = Vec::new();
        let n = self.samples.len();
        let mut i: usize = 0;
        while i < n
            invariant
                i <= n,
                n == self.samples@.len(),
                out@ == self.samples@.take(i as int),
            decreases n - i,
        {
            out.push(self.samples[i]);
            proof {
                assert(self.samples@.take(i + 1) == self.samples@.take(i as int).push(
                    self.samples@[i as int],
                ));
            }
            i = i + 1;
        }
        proof {
            assert(self.samples@.take(n as int) == self.samples@);
        }
        VSPD { samples: out, shape: self.shape }
    }

    /// This distribution's shape.
    pub fn shape(&self) -> (r: SpdShape<T>)
        ensures
            r == self.shape,
    {
        self.shape
    }

    /// The start wavelength of this distribution's shape.
    pub fn start(&self) -> (r: T)
        ensures
            r == self.shape.start,
    {
        self.shape.start
    }

    /// The end wavelength of this distribution's shape.
    pub fn end(&self) -> (r: T)
        ensures
            r == self.shape.end,
    {
        self.shape.end
    }

    /// The interval of this distribution's shape.
    pub fn interval(&self) -> (r: Interval<T>)
        ensures
            r == self.shape.interval,
    {
        self.shape.interval
    }

    /// The number of samples.
    pub fn len(&self) -> (r: usize)
        ensures
            r == self.samples@.len(),
    {
        self.samples.len()
    }

    /// The first sample.
    pub fn first(&self) -> (r: &Sample<T>)
        requires
            self.samples@.len() >= 1,
        ensures
            *r == self.samples@[0],
    {
        &self.samples[0]
    }

    /// The last sample.
    pub fn last(&self) -> (r: &Sample<T>)
        requires
            self.samples@.len() >= 1,
        ensures
            *r == self.samples@[self.samples@.len() - 1],
    {
        &self.samples[self.samples.len() - 1]
    }

    /// A cursor over the samples, in wavelength order.
    pub fn iter(&self) -> (r: VspdIter<T>)
        ensures
            r.samples@ == self.samples@,
            r.at == 0,
    {
        VspdIter { samples: &self.samples, at: 0 }
    }

    /// The sample list.
    pub fn samples(&self) -> (r: &Vec<Sample<T>>)
        ensures
            r@ == self.samples@,
    {
        &self.samples
    }

    /// The values of all samples, in wavelength order.
    pub fn values(&self) -> (r: Vec<T>)
        ensures
            r@ == self.samples@.map_values(|s: Sample<T>| s.v),
    {
        let mut out: Vec<T> = Vec::new();
        let n = self.samples.len();
        let mut i: usize = 0;
        while i < n
            invariant
                i <= n,
                n == self.samples@.len(),
                out@ == self.samples@.take(i as int).map_values(|s: Sample<T>| s.v),
            decreases n - i,
        {
            out.push(self.samples[i].v);
            proof {
                assert(self.samples@.take(i + 1) == self.samples@.take(i as int).push(
                    self.samples@[i as int],
                ));
            }
            i = i + 1;
        }
        proof {
            assert(self.samples@.take(n as int) == self.samples@);
        }
        out
    }

    /// The wavelengths of all samples, in order.
    pub fn wavelengths(&self) -> (r: Vec<T>)
        ensures
            r@ == self.samples@.map_values(|s: Sample<T>| s.nm),
    {
        let mut out: Vec<T> = Vec::new();
        let n = self.samples.len();
        let mut i: usize = 0;
        while i < n
            invariant
                i <= n,
                n == self.samples@.len(),
                out@ == self.samples@.take(i as int).map_values(|s: Sample<T>| s.nm),
            decreases n - i,
        {
            out.push(self.samples[i].nm);
            proof {
                assert(self.samples@.take(i + 1) == self.samples@.take(i as int).push(
                    self.samples@[i as int],
                ));
            }
            i = i + 1;
        }
        proof {
            assert(self.samples@.take(n as int) == self.samples@);
        }
        out
    }

    /// Keep only the samples whose wavelengths lie inside the given
    /// shape's bounds, without resampling. The result's boundaries are the
    /// retained boundary wavelengths; fails when nothing is retained.
    pub fn trim(&self, shape: SpdShape<T>) -> (r: Result<VSPD<T>, SpdError>)
        ensures
            ({
                let lo = skip_below_count(self.samples@, shape.start);
                let cnt = take_at_most_count(self.samples@.skip(lo as int), shape.end);
                &&& (r is Ok <==> cnt != 0)
                &&& (cnt == 0 <==> r == Err::<VSPD<T>, SpdError>(SpdError::EmptyTrim))
                &&& (r matches Ok(v) ==> {
                    &&& v.samples@ == self.samples@.subrange(lo as int, (lo + cnt) as int)
                    &&& v.shape == (SpdShape {
                        start: v.samples@[0].nm,
                        end: v.samples@[v.samples@.len() - 1].nm,
                        interval: self.shape.interval,
                    })
                    &&& forall|i: int|
                        0 <= i < v.samples@.len() ==> (#[trigger] v.samples@[i].nm).le_spec(
                            shape.end,
                        )
                    &&& self.sorted() ==> forall|i: int|
                        0 <= i < v.samples@.len() ==> !(#[trigger] v.samples@[i].nm).lt_spec(
                            shape.start,
                        )
                })
            }),
    {
        let n = self.samples.len();
        let mut i: usize = 0;
        while i < n && self.samples[i].nm.lt(shape.start)
            invariant
                i <= n,
                n == self.samples@.len(),
                i as nat == skip_below_count(self.samples@.take(i as int), shape.start),
                forall|j: int| 0 <= j < i ==> (#[trigger] self.samples@[j].nm).lt_spec(shape.start),
            decreases n - i,
        {
            proof {
                lemma_skip_below_step(self.samples@, shape.start, i as int);
            }
            i = i + 1;
        }
        proof {
            lemma_skip_below_stops(self.samples@, shape.start, i as int, n as int);
        }
        let lo = i;
        let mut out: Vec<Sample<T>> = Vec::new();
        let mut j: usize = lo;
        while j < n && self.samples[j].nm.le(shape.end)
            invariant
                lo <= j <= n,
                n == self.samples@.len(),
                lo as nat == skip_below_count(self.samples@, shape.start),
                out@ == self.samples@.subrange(lo as int, j as int),
                forall|k: int| lo <= k < j ==> (#[trigger] self.samples@[k].nm).le_spec(shape.end),
                forall|k: int| 0 <= k < lo ==> (#[trigger] self.samples@[k].nm).lt_spec(shape.start),
                (j - lo) as nat == take_at_most_count(
                    self.samples@.skip(lo as int).take((j - lo) as int),
                    shape.end,
                ),
            decreases n - j,
        {
            proof {
                assert(self.samples@.skip(lo as int)[(j - lo) as int] == self.samples@[j as int]);
                lemma_take_at_most_step(self.samples@.skip(lo as int), shape.end, (j - lo) as int);
            }
            out.push(self.samples[j]);
            proof {
                assert(self.samples@.subrange(lo as int, j + 1) == self.samples@.subrange(
                    lo as int,
                    j as int,
                ).push(self.samples@[j as int]));
            }
            j = j + 1;
        }
        proof {
            if j < n {
                assert(self.samples@.skip(lo as int)[(j - lo) as int] == self.samples@[j as int]);
            }
            lemma_take_at_most_stops(
                self.samples@.skip(lo as int),
                shape.end,
                (j - lo) as int,
                (n - lo) as int,
            );
        }
        if out.len() == 0 {
            return Err(SpdError::EmptyTrim);
        }
        let start = out[0].nm;
        let end = out[out.len() - 1].nm;
        let interval = self.shape.interval;
        proof {
            assert(forall|k: int| 0 <= k < out@.len() ==> #[trigger] out@[k] == self.samples@[lo
                + k]);
            if self.sorted() {
                assert forall|k: int| 0 <= k < out@.len() implies !(#[trigger] out@[k].nm).lt_spec(
                    shape.start,
                ) by {
                    assert(out@[k] == self.samples@[lo + k]);
                    if out@[k].nm.lt_spec(shape.start) {
                        if k > 0 {
                            lemma_sorted_chain(self.samples@, lo as int, lo + k);
                            T::law_lt_trans(
                                self.samples@[lo as int].nm,
                                self.samples@[lo + k].nm,
                                shape.start,
                            );
                        }
                        assert(false);
                    }
                };
            }
        }
        Ok(VSPD { samples: out, shape: SpdShape { start, end, interval } })
    }

    /// Extend this distribution outward to cover the union of its own
    /// range and the given shape's, repeating the nearest boundary value
    /// in the added samples. The step comes from this distribution's
    /// interval, or from the shape's when this one varies; fails when
    /// both vary. The result's recorded boundaries are its boundary
    /// samples' wavelengths. Beyond the original domain the result is
    /// flat: below it every added value is the first sample's, above it
    /// the last sample's.
    #[verifier::loop_isolation(false)]
    #[verifier::rlimit(80)]
    pub fn extrapolate(&self, shape: SpdShape<T>) -> (r: Result<VSPD<T>, SpdError>)
        requires
            self.samples@.len() >= 1,
            self.shape.start == self.samples@[0].nm,
        ensures
            (self.shape.interval matches Interval::Varying && shape.interval
                matches Interval::Varying) <==> r == Err::<VSPD<T>, SpdError>(
                SpdError::VaryingInterval,
            ),
            r is Ok <==> !(self.shape.interval matches Interval::Varying && shape.interval
                matches Interval::Varying),
            r matches Ok(v) ==> v.anchored() && v.shape == (SpdShape {
                start: v.samples@[0].nm,
                end: v.samples@[v.samples@.len() - 1].nm,
                interval: Interval::Uniform(
                    extrapolation_step(self.shape.interval, shape.interval),
                ),
            }),
            r matches Ok(v) ==> (exists|k1: nat, k2: nat|
                extrapolate_layout(
                    v.samples@,
                    self.samples@,
                    self.shape,
                    shape,
                    extrapolation_step(self.shape.interval, shape.interval),
                    k1,
                    k2,
                )),
    {
        let interval = match self.shape.interval {
            Interval::Uniform(v) => v,
            Interval::Varying => match shape.interval {
                Interval::Uniform(v) => v,
                Interval::Varying => {
                    return Err(SpdError::VaryingInterval);
                },
            },
        };
        let ghost d = interval;
        let ghost first = self.samples@[0];
        let ghost last = self.samples@[self.samples@.len() - 1];
        let ghost lstart = min_of_spec(self.shape.start, shape.start);
        let start = min_of(self.start(), shape.start);
        let end = max_of(self.end(), shape.end);
        let extrap = crate::interpolation::ExtrapolatorConstant::new(self);
        let mut samples: Vec<Sample<T>> = Vec::new();
        let mut x = start;
        let mut k: usize = 0;
        while k < usize::MAX && x.lt(self.start())
            invariant
                self.samples@.len() >= 1,
                self.shape.start == self.samples@[0].nm,
                first == self.samples@[0],
                extrap.spd == self,
                start == lstart,
                x == ladder(lstart, d, k as nat),
                samples@.len() == k,
                forall|i: int|
                    0 <= i < k ==> #[trigger] samples@[i] == (Sample {
                        nm: ladder(lstart, d, i as nat),
                        v: first.v,
                    }) && ladder(lstart, d, i as nat).lt_spec(self.shape.start),
            decreases usize::MAX - k,
        {
            let ghost xprev = x;
            let ghost sprev = samples@;
            let v0 = extrap.evaluate(x);
            proof {
                assert(v0 == first.v);
            }
            samples.push(Sample { nm: x, v: v0 });
            proof {
                assert(samples@ == sprev.push(Sample { nm: xprev, v: v0 }));
                assert(xprev == ladder(lstart, d, k as nat));
                assert(ladder(lstart, d, (k + 1) as nat) == ladder(lstart, d, k as nat).add_spec(
                    d,
                ));
            }
            x = x.add(interval);
            proof {
                assert(x == xprev.add_spec(d));
                assert(x == ladder(lstart, d, (k + 1) as nat));
            }
            k = k + 1;
            proof {
                assert(x == ladder(lstart, d, k as nat));
                assert(samples@.len() == k);
                assert(xprev.lt_spec(self.shape.start));
                assert forall|i: int|
                    0 <= i < k implies #[trigger] samples@[i] == (Sample {
                        nm: ladder(lstart, d, i as nat),
                        v: first.v,
                    }) && ladder(lstart, d, i as nat).lt_spec(self.shape.start) by {
                    if i < k - 1 {
                        assert(samples@[i] == sprev[i]);
                    } else {
                        assert(samples@[i] == (Sample { nm: xprev, v: v0 }));
                    }
                };
            }
        }
        let ghost k1 = k as nat;
        assert(k1 == usize::MAX || !ladder(lstart, d, k1).lt_spec(self.shape.start));
        let mut j: usize = 0;
        let n = self.samples.len();
        while j < n
            invariant
                j <= n,
                n == self.samples@.len(),
                samples@.len() == k1 + j,
                samples@.subrange(k1 as int, (k1 + j) as int) == self.samples@.take(j as int),
                forall|i: int|
                    0 <= i < k1 ==> #[trigger] samples@[i] == (Sample {
                        nm: ladder(lstart, d, i as nat),
                        v: first.v,
                    }) && ladder(lstart, d, i as nat).lt_spec(self.shape.start),
            decreases n - j,
        {
            let ghost mprev = samples@;
            samples.push(self.samples[j]);
            proof {
                assert(samples@.subrange(k1 as int, (k1 + j + 1) as int) == samples@.subrange(
                    k1 as int,
                    k1 + j,
                ).push(self.samples@[j as int]));
                assert(self.samples@.take(j + 1) == self.samples@.take(j as int).push(
                    self.samples@[j as int],
                ));
                assert forall|i: int|
                    0 <= i < k1 implies #[trigger] samples@[i] == (Sample {
                        nm: ladder(lstart, d, i as nat),
                        v: first.v,
                    }) && ladder(lstart, d, i as nat).lt_spec(self.shape.start) by {
                    assert(samples@[i] == mprev[i]);
                };
            }
            j = j + 1;
        }
        proof {
            assert(self.samples@.take(n as int) == self.samples@);
        }
        let ghost mid_len = (k1 + n) as int;
        let mut x2 = self.end().add(interval);
        let mut k2: usize = 0;
        let ghost hstart = self.shape.end.add_spec(d);
        let ghost hbound = max_of_spec(self.shape.end, shape.end);
        while k2 < usize::MAX && x2.le(end)
            invariant
                self.samples@.len() >= 1,
                n == self.samples@.len(),
                first == self.samples@[0],
                last == self.samples@[self.samples@.len() - 1],
                extrap.spd == self,
                end == hbound,
                x2 == ladder(hstart, d, k2 as nat),
                samples@.len() == mid_len + k2,
                samples@.subrange(k1 as int, (k1 + n) as int) == self.samples@,
                forall|i: int|
                    0 <= i < k1 ==> #[trigger] samples@[i] == (Sample {
                        nm: ladder(lstart, d, i as nat),
                        v: first.v,
                    }) && ladder(lstart, d, i as nat).lt_spec(self.shape.start),
                forall|i: int|
                    0 <= i < k2 ==> #[trigger] samples@[mid_len + i] == (Sample {
                        nm: ladder(hstart, d, i as nat),
                        v: if ladder(hstart, d, i as nat).lt_spec(first.nm) {
                            first.v
                        } else {
                            last.v
                        },
                    }) && ladder(hstart, d, i as nat).le_spec(hbound),
            decreases usize::MAX - k2,
        {
            let ghost before = samples@;
            let ghost x2prev = x2;
            let v2 = extrap.evaluate(x2);
            samples.push(Sample { nm: x2, v: v2 });
            proof {
                assert(samples@.subrange(k1 as int, (k1 + n) as int) =~= before.subrange(
                    k1 as int,
                    (k1 + n) as int,
                ));
                assert(ladder(hstart, d, (k2 + 1) as nat) == ladder(hstart, d, k2 as nat).add_spec(
                    d,
                ));
            }
            x2 = x2.add(interval);
            k2 = k2 + 1;
            proof {
                assert forall|i: int|
                    0 <= i < k1 implies #[trigger] samples@[i] == (Sample {
                        nm: ladder(lstart, d, i as nat),
                        v: first.v,
                    }) && ladder(lstart, d, i as nat).lt_spec(self.shape.start) by {
                    assert(samples@[i] == before[i]);
                };
                assert forall|i: int|
                    0 <= i < k2 implies #[trigger] samples@[mid_len + i] == (Sample {
                        nm: ladder(hstart, d, i as nat),
                        v: if ladder(hstart, d, i as nat).lt_spec(first.nm) {
                            first.v
                        } else {
                            last.v
                        },
                    }) && ladder(hstart, d, i as nat).le_spec(hbound) by {
                    if i < k2 - 1 {
                        assert(samples@[mid_len + i] == before[mid_len + i]);
                    } else {
                        assert(samples@[mid_len + i] == (Sample { nm: x2prev, v: v2 }));
                        assert(x2prev.le_spec(hbound));
                    }
                };
            }
        }
        let out_shape = SpdShape {
            start: samples[0].nm,
            end: samples[samples.len() - 1].nm,
            interval: Interval::Uniform(interval),
        };
        let result = VSPD { samples, shape: out_shape };
        proof {
            let es = extrapolation_step(self.shape.interval, shape.interval);
            assert(es == d);
            assert(k2 as nat == usize::MAX || !ladder(hstart, d, k2 as nat).le_spec(hbound));
            assert(result.samples@.len() == k1 + self.samples@.len() + (k2 as nat));
            assert forall|i: int|
                0 <= i < k1 implies #[trigger] result.samples@[i] == (Sample {
                    nm: ladder(
                        min_of_spec(self.shape.start, shape.start),
                        extrapolation_step(self.shape.interval, shape.interval),
                        i as nat,
                    ),
                    v: self.samples@[0].v,
                }) && ladder(
                min_of_spec(self.shape.start, shape.start),
                extrapolation_step(self.shape.interval, shape.interval),
                i as nat,
            ).lt_spec(self.shape.start) by {
                assert(result.samples@[i] == (Sample { nm: ladder(lstart, d, i as nat), v: first.v }));
                assert(ladder(
                    min_of_spec(self.shape.start, shape.start),
                    extrapolation_step(self.shape.interval, shape.interval),
                    i as nat,
                ) == ladder(lstart, d, i as nat));
            };
            assert(k1 == usize::MAX || !ladder(
                min_of_spec(self.shape.start, shape.start),
                extrapolation_step(self.shape.interval, shape.interval),
                k1,
            ).lt_spec(self.shape.start)) by {
                assert(ladder(
                    min_of_spec(self.shape.start, shape.start),
                    extrapolation_step(self.shape.interval, shape.interval),
                    k1,
                ) == ladder(lstart, d, k1));
            };
            assert(result.samples@.subrange(k1 as int, (k1 + self.samples@.len()) as int)
                == self.samples@);
            assert forall|i: int|
                0 <= i < (k2 as nat) implies #[trigger] result.samples@[k1 + self.samples@.len() + i]
                    == (Sample {
                    nm: ladder(
                        self.shape.end.add_spec(
                            extrapolation_step(self.shape.interval, shape.interval),
                        ),
                        extrapolation_step(self.shape.interval, shape.interval),
                        i as nat,
                    ),
                    v: if ladder(
                        self.shape.end.add_spec(
                            extrapolation_step(self.shape.interval, shape.interval),
                        ),
                        extrapolation_step(self.shape.interval, shape.interval),
                        i as nat,
                    ).lt_spec(self.samples@[0].nm) {
                        self.samples@[0].v
                    } else {
                        self.samples@[self.samples@.len() - 1].v
                    },
                }) && ladder(
                self.shape.end.add_spec(extrapolation_step(self.shape.interval, shape.interval)),
                extrapolation_step(self.shape.interval, shape.interval),
                i as nat,
            ).le_spec(max_of_spec(self.shape.end, shape.end)) by {
                assert(result.samples@[mid_len + i] == (Sample {
                    nm: ladder(hstart, d, i as nat),
                    v: if ladder(hstart, d, i as nat).lt_spec(first.nm) {
                        first.v
                    } else {
                        last.v
                    },
                }));
                assert(ladder(
                    self.shape.end.add_spec(
                        extrapolation_step(self.shape.interval, shape.interval),
                    ),
                    extrapolation_step(self.shape.interval, shape.interval),
                    i as nat,
                ) == ladder(hstart, d, i as nat));
            };
            assert((k2 as nat) == usize::MAX || !ladder(
                self.shape.end.add_spec(extrapolation_step(self.shape.interval, shape.interval)),
                extrapolation_step(self.shape.interval, shape.interval),
                k2 as nat,
            ).le_spec(max_of_spec(self.shape.end, shape.end))) by {
                assert(ladder(
                    self.shape.end.add_spec(
                        extrapolation_step(self.shape.interval, shape.interval),
                    ),
                    extrapolation_step(self.shape.interval, shape.interval),
                    k2 as nat,
                ) == ladder(hstart, d, k2 as nat));
            };
            assert(extrapolate_layout(
                result.samples@,
                self.samples@,
                self.shape,
                shape,
                extrapolation_step(self.shape.interval, shape.interval),
                k1,
                k2 as nat,
            ));
            assert(exists|a: nat, b: nat|
                extrapolate_layout(
                    result.samples@,
                    self.samples@,
                    self.shape,
                    shape,
                    extrapolation_step(self.shape.interval, shape.interval),
                    a,
                    b,
                ));
        }
        Ok(result)
    }
}

proof fn lemma_skip_below_step<T: Scalar>(s: Seq<Sample<T>>, bound: T, i: int)
    requires
        0 <= i < s.len(),
        i as nat == skip_below_count(s.take(i), bound),
        s[i].nm.lt_spec(bound),
    ensures
        (i + 1) as nat == skip_below_count(s.take(i + 1), bound),
    decreases i,
{
    if i == 0 {
        assert(s.take(1).len() == 1);
        assert(s.take(1)[0] == s[0]);
        assert(s.take(1).drop_first() == s.take(0));
    } else {
        assert(s.take(i)[0] == s[0]);
        assert(s.take(i + 1)[0] == s[0]);
        if s[0].nm.lt_spec(bound) {
            assert(s.take(i).drop_first() == s.drop_first().take(i - 1));
            assert(s.take(i + 1).drop_first() == s.drop_first().take(i));
            assert(s.drop_first()[i - 1] == s[i]);
            lemma_skip_below_step(s.drop_first(), bound, i - 1);
        } else {
            assert(skip_below_count(s.take(i), bound) == 0);
        }
    }
}

proof fn lemma_skip_below_stops<T: Scalar>(s: Seq<Sample<T>>, bound: T, i: int, n: int)
    requires
        n == s.len(),
        0 <= i <= n,
        i as nat == skip_below_count(s.take(i), bound),
        i < n ==> !s[i].nm.lt_spec(bound),
    ensures
        i as nat == skip_below_count(s, bound),
    decreases i,
{
    if i == 0 {
        if n > 0 {
            assert(!s[0].nm.lt_spec(bound));
        }
    } else {
        assert(s.take(i)[0] == s[0]);
        assert(s[0].nm.lt_spec(bound)) by {
            if !s[0].nm.lt_spec(bound) {
                assert(skip_below_count(s.take(i), bound) == 0);
            }
        };
        assert(s.take(i).drop_first() == s.drop_first().take(i - 1));
        if i < n {
            assert(s.drop_first()[i - 1] == s[i]);
        }
        lemma_skip_below_stops(s.drop_first(), bound, i - 1, n - 1);
    }
}

proof fn lemma_take_at_most_step<T: Scalar>(s: Seq<Sample<T>>, bound: T, i: int)
    requires
        0 <= i < s.len(),
        i as nat == take_at_most_count(s.take(i), bound),
        s[i].nm.le_spec(bound),
    ensures
        (i + 1) as nat == take_at_most_count(s.take(i + 1), bound),
    decreases i,
{
    if i == 0 {
        assert(s.take(1).len() == 1);
        assert(s.take(1)[0] == s[0]);
        assert(s.take(1).drop_first() == s.take(0));
    } else {
        assert(s.take(i)[0] == s[0]);
        assert(s.take(i + 1)[0] == s[0]);
        if s[0].nm.le_spec(bound) {
            assert(s.take(i).drop_first() == s.drop_first().take(i - 1));
            assert(s.take(i + 1).drop_first() == s.drop_first().take(i));
            assert(s.drop_first()[i - 1] == s[i]);
            lemma_take_at_most_step(s.drop_first(), bound, i - 1);
        } else {
            assert(take_at_most_count(s.take(i), bound) == 0);
        }
    }
}

proof fn lemma_take_at_most_stops<T: Scalar>(s: Seq<Sample<T>>, bound: T, i: int, n: int)
    requires
        n == s.len(),
        0 <= i <= n,
        i as nat == take_at_most_count(s.take(i), bound),
        i < n ==> !s[i].nm.le_spec(bound),
    ensures
        i as nat == take_at_most_count(s, bound),
    decreases i,
{
    if i == 0 {
        if n > 0 {
            assert(!s[0].nm.le_spec(bound));
        }
    } else {
        assert(s.take(i)[0] == s[0]);
        assert(s[0].nm.le_spec(bound)) by {
            if !s[0].nm.le_spec(bound) {
                assert(take_at_most_count(s.take(i), bound) == 0);
            }
        };
        assert(s.take(i).drop_first() == s.drop_first().take(i - 1));
        if i < n {
            assert(s.drop_first()[i - 1] == s[i]);
        }
        lemma_take_at_most_stops(s.drop_first(), bound, i - 1, n - 1);
    }
}


/// The scalar kinds a spectral distribution can be built over.
pub trait SpdElement: Scalar {

}

impl<T: Scalar> SpdElement for T {

}

/// The values of a distribution's samples, in wavelength order.
pub open spec fn sample_values<T: Scalar>(v: VSPD<T>) -> Seq<T> {
    v.samples@.map_values(|smp: Sample<T>| smp.v)
}

/// The step a shape prescribes, once known to be uniform.
pub open spec fn interp_step<T: Scalar>(shape: SpdShape<T>) -> T {
    match shape.interval {
        Interval::Uniform(s) => s,
        Interval::Varying => T::zero_spec(),
    }
}

/// The number of samples interpolation to `shape` produces from `src`.
pub open spec fn interp_len<T: Scalar>(src: VSPD<T>, shape: SpdShape<T>) -> nat {
    match src.clamped_to(shape).count_spec() {
        Ok(n) => n as nat,
        Err(_) => 0,
    }
}

/// The samples that interpolation to `shape` produces from `src`: the
/// uniform grid over the clamped bounds, each carrying the Sprague
/// evaluation of `src` there.
pub open spec fn interp_model<T: Scalar>(src: VSPD<T>, shape: SpdShape<T>) -> Seq<Sample<T>> {
    Seq::new(
        interp_len(src, shape),
        |i: int|
            Sample {
                nm: grid_at(src.clamped_to(shape).start, interp_step(shape), i as usize),
                v: sprague_eval(
                    sprague_knots(src.samples@),
                    sprague_vals(src.samples@),
                    grid_at(src.clamped_to(shape).start, interp_step(shape), i as usize),
                ),
            },
    )
}

impl<T: Scalar> VSPD<T> {
    /// The given shape with its bounds clamped to lie inside this
    /// distribution's own domain.
    pub open spec fn clamped_to(self, shape: SpdShape<T>) -> SpdShape<T> {
        SpdShape {
            start: max_of_spec(shape.start, self.shape.start),
            end: min_of_spec(shape.end, self.shape.end),
            interval: shape.interval,
        }
    }

    /// Resample onto the uniform grid of the given shape, clamped to lie
    /// within this distribution's own domain, using Sprague
    /// interpolation. Fails when the shape's interval is varying, or when
    /// its implied sample count does not fit in a machine word.
    #[verifier::loop_isolation(false)]
    pub fn interpolate(&self, shape: SpdShape<T>) -> (r: Result<VSPD<T>, SpdError>)
        requires
            self.wf(),
        ensures
            (shape.interval matches Interval::Varying) <==> r == Err::<VSPD<T>, SpdError>(
                SpdError::VaryingInterval,
            ),
            (shape.interval matches Interval::Uniform(st)
                && self.clamped_to(shape).count_spec() is Err) <==> r == Err::<
                VSPD<T>,
                SpdError,
            >(SpdError::CountOverflow),
            r is Ok <==> (shape.interval matches Interval::Uniform(st)
                && self.clamped_to(shape).count_spec() is Ok),
            r matches Ok(v) ==> self.clamped_to(shape).count_spec() matches Ok(n) && {
                &&& v.shape == self.clamped_to(shape)
                &&& v.samples@.len() == n
                &&& v.samples@ == interp_model(*self, shape)
                &&& forall|i: int|
                    0 <= i < n ==> #[trigger] v.samples@[i] == (Sample {
                        nm: grid_at(self.clamped_to(shape).start, interp_step(shape), i as usize),
                        v: sprague_eval(
                            sprague_knots(self.samples@),
                            sprague_vals(self.samples@),
                            grid_at(self.clamped_to(shape).start, interp_step(shape), i as usize),
                        ),
                    })
            },
    {
        let step = match shape.interval {
            Interval::Uniform(st) => st,
            Interval::Varying => {
                return Err(SpdError::VaryingInterval);
            },
        };
        let clamped = SpdShape {
            start: max_of(shape.start, self.start()),
            end: min_of(shape.end, self.end()),
            interval: shape.interval,
        };
        assert(clamped == self.clamped_to(shape));
        let n = match clamped.count() {
            Ok(n) => n,
            Err(_) => {
                return Err(SpdError::CountOverflow);
            },
        };
        let interp = InterpolatorSprague::new(self);
        let mut out: Vec<Sample<T>> = Vec::new();
        let mut i: usize = 0;
        while i < n
            invariant
                i <= n,
                out@.len() == i,
                forall|j: int|
                    0 <= j < i ==> #[trigger] out@[j] == (Sample {
                        nm: grid_at(self.clamped_to(shape).start, interp_step(shape), j as usize),
                        v: sprague_eval(
                            sprague_knots(self.samples@),
                            sprague_vals(self.samples@),
                            grid_at(self.clamped_to(shape).start, interp_step(shape), j as usize),
                        ),
                    }),
            decreases n - i,
        {
            let ghost sprev = out@;
            let nm = clamped.start.add(T::from_usize(i).mul(step));
            let val = interp.evaluate(nm);
            out.push(Sample { nm, v: val });
            i = i + 1;
            proof {
                assert forall|j: int|
                    0 <= j < i implies #[trigger] out@[j] == (Sample {
                        nm: grid_at(self.clamped_to(shape).start, interp_step(shape), j as usize),
                        v: sprague_eval(
                            sprague_knots(self.samples@),
                            sprague_vals(self.samples@),
                            grid_at(self.clamped_to(shape).start, interp_step(shape), j as usize),
                        ),
                    }) by {
                    if j < i - 1 {
                        assert(out@[j] == sprev[j]);
                    } else {
                        assert(out@[j] == (Sample { nm, v: val }));
                    }
                };
            }
        }
        let result = VSPD { samples: out, shape: clamped };
        proof {
            assert(result.samples@ =~= interp_model(*self, shape));
        }
        Ok(result)
    }

    /// Make this distribution's domain match the given shape exactly:
    /// interpolate within range, then extend the boundaries outward with
    /// flat extrapolation.
    pub fn align(&self, shape: SpdShape<T>) -> (r: Result<VSPD<T>, SpdError>)
        requires
            self.wf(),
        ensures
            r is Ok <==> (shape.interval matches Interval::Uniform(st)
                && self.clamped_to(shape).count_spec() is Ok),
            r matches Ok(v) ==> v.anchored() && v.shape == (SpdShape {
                start: v.samples@[0].nm,
                end: v.samples@[v.samples@.len() - 1].nm,
                interval: Interval::Uniform(interp_step(shape)),
            }) && (exists|k1: nat, k2: nat|
                extrapolate_layout(
                    v.samples@,
                    interp_model(*self, shape),
                    self.clamped_to(shape),
                    shape,
                    interp_step(shape),
                    k1,
                    k2,
                )),
            r matches Ok(v) ==> is_aligned_to(*self, shape, v),
    {
        let mid = match self.interpolate(shape) {
            Ok(m) => m,
            Err(e) => {
                return Err(e);
            },
        };
        proof {
            T::law_from_usize_zero();
            T::law_zero_mul(interp_step(shape));
            T::law_add_zero(self.clamped_to(shape).start);
            assert(mid.samples@[0].nm == grid_at(
                self.clamped_to(shape).start,
                interp_step(shape),
                0,
            ));
            assert(mid.samples@[0].nm == self.clamped_to(shape).start);
        }
        let out = match mid.extrapolate(shape) {
            Ok(o) => o,
            Err(e) => {
                proof {
                    assert(false);
                }
                return Err(e);
            },
        };
        proof {
            let es = extrapolation_step(mid.shape.interval, shape.interval);
            assert(es == interp_step(shape));
            let (k1, k2) = choose|k1: nat, k2: nat|
                extrapolate_layout(out.samples@, mid.samples@, mid.shape, shape, es, k1, k2);
            assert(extrapolate_layout(
                out.samples@,
                interp_model(*self, shape),
                self.clamped_to(shape),
                shape,
                interp_step(shape),
                k1,
                k2,
            ));
            assert(is_aligned_to(*self, shape, out));
        }
        Ok(out)
    }

    /// A distribution over the given shape with every sample set to the
    /// same value. Fails when the shape's interval varies, when the
    /// implied count does not fit in a machine word, or when it implies
    /// fewer than two samples.
    #[verifier::loop_isolation(false)]
    pub fn constant(shape: SpdShape<T>, value: T) -> (r: Result<VSPD<T>, SpdError>)
        ensures
            r is Ok <==> ((shape.interval matches Interval::Uniform(st)) && (
            shape.count_spec() matches Ok(n) && n >= 2)),
            (shape.interval matches Interval::Varying) <==> r == Err::<VSPD<T>, SpdError>(
                SpdError::VaryingInterval,
            ),
            r matches Ok(v) ==> shape.count_spec() matches Ok(n) && {
                &&& n >= 2
                &&& v.shape == shape
                &&& v.samples@.len() == n
                &&& forall|i: int|
                    0 <= i < n ==> #[trigger] v.samples@[i] == (Sample {
                        nm: grid_at(shape.start, interp_step(shape), i as usize),
                        v: value,
                    })
            },
    {
        let step = match shape.interval {
            Interval::Uniform(st) => st,
            Interval::Varying => {
                return Err(SpdError::VaryingInterval);
            },
        };
        let n = match shape.count() {
            Ok(n) => n,
            Err(_) => {
                return Err(SpdError::CountOverflow);
            },
        };
        if n < 2 {
            return Err(SpdError::TooFewSamples);
        }
        let mut out: Vec<Sample<T>> = Vec::new();
        let mut i: usize = 0;
        while i < n
            invariant
                i <= n,
                out@.len() == i,
                forall|j: int|
                    0 <= j < i ==> #[trigger] out@[j] == (Sample {
                        nm: grid_at(shape.start, interp_step(shape), j as usize),
                        v: value,
                    }),
            decreases n - i,
        {
            let ghost sprev = out@;
            let nm = shape.start.add(T::from_usize(i).mul(step));
            out.push(Sample { nm, v: value });
            i = i + 1;
            proof {
                assert forall|j: int|
                    0 <= j < i implies #[trigger] out@[j] == (Sample {
                        nm: grid_at(shape.start, interp_step(shape), j as usize),
                        v: value,
                    }) by {
                    if j < i - 1 {
                        assert(out@[j] == sprev[j]);
                    } else {
                        assert(out@[j] == (Sample { nm, v: value }));
                    }
                };
            }
        }
        Ok(VSPD { samples: out, shape })
    }

    /// A distribution over the given shape whose sample values are taken
    /// from the slice, in order. Fails when fewer than two values are
    /// given, when the interval varies, or when the count the shape
    /// implies does not match the slice.
    #[verifier::loop_isolation(false)]
    pub fn from_values(shape: SpdShape<T>, values: &[T]) -> (r: Result<VSPD<T>, SpdError>)
        ensures
            r is Ok <==> (values@.len() >= 2 && (shape.interval matches Interval::Uniform(st))
                && (shape.count_spec() matches Ok(n) && n == values@.len())),
            values@.len() < 2 <==> r == Err::<VSPD<T>, SpdError>(SpdError::TooFewSamples),
            (values@.len() >= 2 && shape.interval matches Interval::Varying) <==> r == Err::<
                VSPD<T>,
                SpdError,
            >(SpdError::VaryingInterval),
            r matches Ok(v) ==> shape.count_spec() matches Ok(n) && {
                &&& n == values@.len()
                &&& v.shape == shape
                &&& v.samples@.len() == n
                &&& forall|i: int|
                    0 <= i < n ==> #[trigger] v.samples@[i] == (Sample {
                        nm: grid_at(shape.start, interp_step(shape), i as usize),
                        v: values@[i],
                    })
            },
    {
        if values.len() < 2 {
            return Err(SpdError::TooFewSamples);
        }
        let step = match shape.interval {
            Interval::Uniform(st) => st,
            Interval::Varying => {
                return Err(SpdError::VaryingInterval);
            },
        };
        let n = match shape.count() {
            Ok(n) => n,
            Err(_) => {
                return Err(SpdError::CountOverflow);
            },
        };
        if n != values.len() {
            return Err(SpdError::LengthMismatch);
        }
        let mut out: Vec<Sample<T>> = Vec::new();
        let mut i: usize = 0;
        while i < n
            invariant
                i <= n,
                n == values@.len(),
                out@.len() == i,
                forall|j: int|
                    0 <= j < i ==> #[trigger] out@[j] == (Sample {
                        nm: grid_at(shape.start, interp_step(shape), j as usize),
                        v: values@[j],
                    }),
            decreases n - i,
        {
            let ghost sprev = out@;
            let nm = shape.start.add(T::from_usize(i).mul(step));
            let vv = values[i];
            out.push(Sample { nm, v: vv });
            i = i + 1;
            proof {
                assert forall|j: int|
                    0 <= j < i implies #[trigger] out@[j] == (Sample {
                        nm: grid_at(shape.start, interp_step(shape), j as usize),
                        v: values@[j],
                    }) by {
                    if j < i - 1 {
                        assert(out@[j] == sprev[j]);
                    } else {
                        assert(out@[j] == (Sample { nm, v: vv }));
                    }
                };
            }
        }
        Ok(VSPD { samples: out, shape })
    }
}

/// Extrapolation is flat beyond the original domain: in a result laid
/// out by [`extrapolate_layout`] over sorted source samples, every
/// sample strictly below the first source wavelength carries the first
/// source value, and every sample strictly above the last source
/// wavelength carries the last source value.
pub proof fn lemma_extrapolate_flat<T: Scalar>(
    out: Seq<Sample<T>>,
    src: Seq<Sample<T>>,
    src_shape: SpdShape<T>,
    target: SpdShape<T>,
    d: T,
    k1: nat,
    k2: nat,
)
    requires
        extrapolate_layout(out, src, src_shape, target, d, k1, k2),
        sorted_samples(src),
        src.len() >= 1,
        src_shape.start == src[0].nm,
    ensures
        forall|i: int|
            0 <= i < out.len() && (#[trigger] out[i].nm).lt_spec(src[0].nm) ==> out[i].v
                == src[0].v,
        forall|i: int|
            0 <= i < out.len() && src[src.len() - 1].nm.lt_spec(#[trigger] out[i].nm) ==> out[i].v
                == src[src.len() - 1].v,
{
    let first = src[0];
    let last = src[src.len() - 1];
    assert forall|i: int|
        0 <= i < out.len() && (#[trigger] out[i].nm).lt_spec(src[0].nm) implies out[i].v
        == src[0].v by {
        if i < k1 {
            assert(out[i] == (Sample {
                nm: ladder(min_of_spec(src_shape.start, target.start), d, i as nat),
                v: src[0].v,
            }));
        } else if i < k1 + src.len() {
            let j = i - k1;
            assert(src[j] == out.subrange(k1 as int, (k1 + src.len()) as int)[j]);
            assert(out[i] == src[j]);
            if j > 0 {
                lemma_sorted_chain(src, 0, j);
                T::law_lt_trans(src[0].nm, src[j].nm, src[0].nm);
            }
            T::law_lt_irrefl(src[0].nm);
            assert(false);
        } else {
            let j = i - k1 - src.len();
            assert(out[k1 + src.len() + j] == (Sample {
                nm: ladder(src_shape.end.add_spec(d), d, j as nat),
                v: if ladder(src_shape.end.add_spec(d), d, j as nat).lt_spec(src[0].nm) {
                    src[0].v
                } else {
                    src[src.len() - 1].v
                },
            }));
        }
    };
    assert forall|i: int|
        0 <= i < out.len() && src[src.len() - 1].nm.lt_spec(#[trigger] out[i].nm) implies out[i].v
        == src[src.len() - 1].v by {
        if i < k1 {
            // a low-pad sample lies below the recorded start, which is the
            // first wavelength; the first wavelength is at or below the
            // last, so the pad cannot lie above the last
            assert(out[i] == (Sample {
                nm: ladder(min_of_spec(src_shape.start, target.start), d, i as nat),
                v: src[0].v,
            }));
            assert(out[i].nm.lt_spec(src_shape.start));
            if src.len() > 1 {
                lemma_sorted_chain(src, 0, src.len() - 1);
                T::law_lt_trans(last.nm, out[i].nm, first.nm);
                T::law_lt_trans(first.nm, last.nm, first.nm);
                T::law_lt_irrefl(first.nm);
            } else {
                T::law_lt_trans(last.nm, out[i].nm, first.nm);
                T::law_lt_irrefl(first.nm);
            }
            assert(false);
        } else if i < k1 + src.len() {
            let j = i - k1;
            assert(src[j] == out.subrange(k1 as int, (k1 + src.len()) as int)[j]);
            assert(out[i] == src[j]);
            if j < src.len() - 1 {
                lemma_sorted_chain(src, j, src.len() - 1);
                T::law_lt_trans(last.nm, src[j].nm, last.nm);
            }
            T::law_lt_irrefl(last.nm);
            assert(false);
        } else {
            let j = i - k1 - src.len();
            assert(out[k1 + src.len() + j] == (Sample {
                nm: ladder(src_shape.end.add_spec(d), d, j as nat),
                v: if ladder(src_shape.end.add_spec(d), d, j as nat).lt_spec(src[0].nm) {
                    src[0].v
                } else {
                    src[src.len() - 1].v
                },
            }));
            if out[i].nm.lt_spec(first.nm) {
                if src.len() > 1 {
                    lemma_sorted_chain(src, 0, src.len() - 1);
                    T::law_lt_trans(first.nm, last.nm, out[i].nm);
                    T::law_lt_trans(first.nm, out[i].nm, first.nm);
                    T::law_lt_irrefl(first.nm);
                    assert(false);
                }
            }
        }
    };
}



/// A distribution stands in the align relation to a source and a shape:
/// its recorded shape carries the target's step and is anchored to its
/// own boundary samples, and its samples are an extrapolation layout
/// over the interpolation of the source.
pub open spec fn is_aligned_to<T: Scalar>(src: VSPD<T>, shape: SpdShape<T>, out: VSPD<T>) -> bool {
    &&& out.shape == (SpdShape {
        start: out.samples@[0].nm,
        end: out.samples@[out.samples@.len() - 1].nm,
        interval: Interval::Uniform(interp_step(shape)),
    })
    &&& exists|k1: nat, k2: nat|
        extrapolate_layout(
            out.samples@,
            interp_model(src, shape),
            src.clamped_to(shape),
            shape,
            interp_step(shape),
            k1,
            k2,
        )
}

/// Fold of the first `k` products of two sample lists' values with the
/// interval width, accumulated from zero.
pub open spec fn pair_sum<T: Scalar>(a: Seq<Sample<T>>, b: Seq<Sample<T>>, dw: T, k: nat) -> T
    decreases k,
{
    if k == 0 {
        T::zero_spec()
    } else {
        pair_sum(a, b, dw, (k - 1) as nat).add_spec(
            a[k - 1].v.mul_spec(b[k - 1].v).mul_spec(dw),
        )
    }
}

/// Fold of the first `k` products of three sample lists' values with the
/// interval width, accumulated from zero.
pub open spec fn triple_sum<T: Scalar>(
    s: Seq<Sample<T>>,
    a: Seq<Sample<T>>,
    b: Seq<Sample<T>>,
    dw: T,
    k: nat,
) -> T
    decreases k,
{
    if k == 0 {
        T::zero_spec()
    } else {
        triple_sum(s, a, b, dw, (k - 1) as nat).add_spec(
            s[k - 1].v.mul_spec(a[k - 1].v).mul_spec(b[k - 1].v).mul_spec(dw),
        )
    }
}

/// What the direct integration over aligned inputs returns, given the
/// five aligned distributions.
pub open spec fn integration_value<T: Scalar>(
    sa: VSPD<T>,
    ia: VSPD<T>,
    xa: VSPD<T>,
    ya: VSPD<T>,
    za: VSPD<T>,
    dw: T,
) -> XYZ<T> {
    XYZ {
        x: T::from_ratio_spec(100, 1).div_spec(
            pair_sum(
                ia.samples@,
                ya.samples@,
                dw,
                crate::interpolation::min_nat(ia.samples@.len(), ya.samples@.len()),
            ),
        ).mul_spec(
            triple_sum(
                sa.samples@,
                ia.samples@,
                xa.samples@,
                dw,
                crate::interpolation::min_nat(
                    sa.samples@.len(),
                    crate::interpolation::min_nat(ia.samples@.len(), xa.samples@.len()),
                ),
            ),
        ),
        y: T::from_ratio_spec(100, 1).div_spec(
            pair_sum(
                ia.samples@,
                ya.samples@,
                dw,
                crate::interpolation::min_nat(ia.samples@.len(), ya.samples@.len()),
            ),
        ).mul_spec(
            triple_sum(
                sa.samples@,
                ia.samples@,
                ya.samples@,
                dw,
                crate::interpolation::min_nat(
                    sa.samples@.len(),
                    crate::interpolation::min_nat(ia.samples@.len(), ya.samples@.len()),
                ),
            ),
        ),
        z: T::from_ratio_spec(100, 1).div_spec(
            pair_sum(
                ia.samples@,
                ya.samples@,
                dw,
                crate::interpolation::min_nat(ia.samples@.len(), ya.samples@.len()),
            ),
        ).mul_spec(
            triple_sum(
                sa.samples@,
                ia.samples@,
                za.samples@,
                dw,
                crate::interpolation::min_nat(
                    sa.samples@.len(),
                    crate::interpolation::min_nat(ia.samples@.len(), za.samples@.len()),
                ),
            ),
        ),
    }
}

/// The direct-integration relation: the output is the normalized
/// Riemann sum of the inputs once all five curves are aligned to the
/// integration shape.
pub open spec fn integration_rel<T: Scalar>(
    spd: VSPD<T>,
    illuminant: VSPD<T>,
    cmf: crate::cmf::CMF<T>,
    shape: SpdShape<T>,
    out: XYZ<T>,
) -> bool {
    exists|sa: VSPD<T>, ia: VSPD<T>, xa: VSPD<T>, ya: VSPD<T>, za: VSPD<T>|
        {
            &&& is_aligned_to(spd, shape, sa)
            &&& is_aligned_to(illuminant, shape, ia)
            &&& is_aligned_to(cmf.x_bar, shape, xa)
            &&& is_aligned_to(cmf.y_bar, shape, ya)
            &&& is_aligned_to(cmf.z_bar, shape, za)
            &&& #[trigger] integration_value(sa, ia, xa, ya, za, interp_step(shape)) == out
        }
}

/// Convert a spectrum, an illuminant and a set of colour matching
/// functions into a tristimulus value by direct Riemann summation: all
/// five curves are aligned to the given shape, the normalization
/// constant makes a perfect diffuser's luminance one hundred, and each
/// channel is the normalized triple-product sum.
#[verifier::loop_isolation(false)]
#[verifier::rlimit(100)]
pub fn spd_to_xyz_integration<T: Scalar>(
    spd: &VSPD<T>,
    illuminant: &VSPD<T>,
    cmf: &crate::cmf::CMF<T>,
    shape: SpdShape<T>,
) -> (r: Result<crate::xyz::XYZ<T>, SpdError>)
    requires
        spd.wf(),
        illuminant.wf(),
        cmf.wf(),
    ensures
        r is Ok <==> ((shape.interval matches Interval::Uniform(st))
            && cmf.x_bar.clamped_to(shape).count_spec() is Ok && cmf.y_bar.clamped_to(
            shape,
        ).count_spec() is Ok && cmf.z_bar.clamped_to(shape).count_spec() is Ok
            && illuminant.clamped_to(shape).count_spec() is Ok && spd.clamped_to(
            shape,
        ).count_spec() is Ok),
        r matches Ok(out) ==> integration_rel(*spd, *illuminant, *cmf, shape, out),
{
    let cmf_x = cmf.x_bar.align(shape)?;
    let cmf_y = cmf.y_bar.align(shape)?;
    let cmf_z = cmf.z_bar.align(shape)?;
    let ill = illuminant.align(shape)?;
    let spd_a = spd.align(shape)?;
    let dw = match shape.interval {
        Interval::Uniform(i) => i,
        Interval::Varying => {
            proof {
                assert(false);
            }
            return Err(SpdError::VaryingInterval);
        },
    };
    let ghost dws = interp_step(shape);
    assert(dw == dws);
    let np = if ill.samples.len() < cmf_y.samples.len() {
        ill.samples.len()
    } else {
        cmf_y.samples.len()
    };
    let mut ky = T::zero();
    let mut m: usize = 0;
    while m < np
        invariant
            m <= np,
            np == crate::interpolation::min_nat(ill.samples@.len(), cmf_y.samples@.len()),
            ky == pair_sum(ill.samples@, cmf_y.samples@, dws, m as nat),
        decreases np - m,
    {
        ky = ky.add(ill.samples[m].v.mul(cmf_y.samples[m].v).mul(dw));
        m = m + 1;
    }
    let k = T::from_ratio(100, 1).div(ky);
    let nx = min3(spd_a.samples.len(), ill.samples.len(), cmf_x.samples.len());
    let mut ax = T::zero();
    let mut mx: usize = 0;
    while mx < nx
        invariant
            mx <= nx,
            nx == crate::interpolation::min_nat(
                spd_a.samples@.len(),
                crate::interpolation::min_nat(ill.samples@.len(), cmf_x.samples@.len()),
            ),
            ax == triple_sum(spd_a.samples@, ill.samples@, cmf_x.samples@, dws, mx as nat),
        decreases nx - mx,
    {
        ax = ax.add(spd_a.samples[mx].v.mul(ill.samples[mx].v).mul(cmf_x.samples[mx].v).mul(dw));
        mx = mx + 1;
    }
    let ny = min3(spd_a.samples.len(), ill.samples.len(), cmf_y.samples.len());
    let mut ay = T::zero();
    let mut my: usize = 0;
    while my < ny
        invariant
            my <= ny,
            ny == crate::interpolation::min_nat(
                spd_a.samples@.len(),
                crate::interpolation::min_nat(ill.samples@.len(), cmf_y.samples@.len()),
            ),
            ay == triple_sum(spd_a.samples@, ill.samples@, cmf_y.samples@, dws, my as nat),
        decreases ny - my,
    {
        ay = ay.add(spd_a.samples[my].v.mul(ill.samples[my].v).mul(cmf_y.samples[my].v).mul(dw));
        my = my + 1;
    }
    let nz = min3(spd_a.samples.len(), ill.samples.len(), cmf_z.samples.len());
    let mut az = T::zero();
    let mut mz: usize = 0;
    while mz < nz
        invariant
            mz <= nz,
            nz == crate::interpolation::min_nat(
                spd_a.samples@.len(),
                crate::interpolation::min_nat(ill.samples@.len(), cmf_z.samples@.len()),
            ),
            az == triple_sum(spd_a.samples@, ill.samples@, cmf_z.samples@, dws, mz as nat),
        decreases nz - mz,
    {
        az = az.add(spd_a.samples[mz].v.mul(ill.samples[mz].v).mul(cmf_z.samples[mz].v).mul(dw));
        mz = mz + 1;
    }
    let out = crate::xyz::xyz(k.mul(ax), k.mul(ay), k.mul(az));
    proof {
        assert(out == integration_value(spd_a, ill, cmf_x, cmf_y, cmf_z, interp_step(shape)));
        assert(is_aligned_to(*spd, shape, spd_a) && is_aligned_to(*illuminant, shape, ill)
            && is_aligned_to(cmf.x_bar, shape, cmf_x) && is_aligned_to(cmf.y_bar, shape, cmf_y)
            && is_aligned_to(cmf.z_bar, shape, cmf_z));
        assert(integration_rel(*spd, *illuminant, *cmf, shape, out));
    }
    Ok(out)
}

/// The smallest of three lengths.
fn min3(a: usize, b: usize, c: usize) -> (r: usize)
    ensures
        r as nat == crate::interpolation::min_nat(
            a as nat,
            crate::interpolation::min_nat(b as nat, c as nat),
        ),
{
    let bc = if b < c {
        b
    } else {
        c
    };
    if a < bc {
        a
    } else {
        bc
    }
}



/// Partial product of the Lagrange basis polynomial `j` evaluated at
/// `r`, over the factor indices below `upto`, in ascending order.
pub open spec fn lag_partial<T: Scalar>(r: T, j: int, upto: int) -> T
    decreases upto,
{
    if upto <= 0 {
        T::one_spec()
    } else if upto - 1 == j {
        lag_partial(r, j, upto - 1)
    } else {
        lag_partial(r, j, upto - 1).mul_spec(
            r.sub_spec(T::from_usize_spec((upto - 1) as usize)).div_spec(
                T::from_usize_spec(j as usize).sub_spec(T::from_usize_spec((upto - 1) as usize)),
            ),
        )
    }
}

/// The classical Lagrange basis coefficients for `n` points evaluated
/// at the fractional position `r`.
#[verifier::loop_isolation(false)]
pub fn lagrange_coefficients<T: Scalar>(r: T, n: usize) -> (out: Vec<T>)
    ensures
        out@.len() == n,
        forall|j: int| 0 <= j < n ==> #[trigger] out@[j] == lag_partial(r, j, n as int),
{
    let mut l: Vec<T> = Vec::new();
    let mut j: usize = 0;
    while j < n
        invariant
            j <= n,
            l@.len() == j,
            forall|m: int| 0 <= m < j ==> #[trigger] l@[m] == lag_partial(r, m, n as int),
        decreases n - j,
    {
        let ghost lprev = l@;
        let mut acc = T::one();
        let mut i: usize = 0;
        while i < n
            invariant
                i <= n,
                j < n,
                acc == lag_partial(r, j as int, i as int),
            decreases n - i,
        {
            if i != j {
                acc = acc.mul(
                    r.sub(T::from_usize(i)).div(T::from_usize(j).sub(T::from_usize(i))),
                );
            }
            i = i + 1;
        }
        l.push(acc);
        proof {
            assert forall|m: int| 0 <= m < j + 1 implies #[trigger] l@[m] == lag_partial(
                r,
                m,
                n as int,
            ) by {
                if m < j {
                    assert(l@[m] == lprev[m]);
                } else {
                    assert(l@[m] == acc);
                }
            };
        }
        j = j + 1;
    }
    l
}

/// `steps` evenly spaced values from `start` to `end` inclusive: the
/// `i`-th is `i` times the step width, added to `start`.
#[verifier::loop_isolation(false)]
pub fn linspace<T: Scalar>(start: T, end: T, steps: usize) -> (out: Vec<T>)
    requires
        steps >= 2,
    ensures
        out@.len() == steps,
        forall|i: int|
            0 <= i < steps ==> #[trigger] out@[i] == T::from_usize_spec(i as usize).mul_spec(
                end.sub_spec(start).div_spec(T::from_usize_spec((steps - 1) as usize)),
            ).add_spec(start),
{
    let delta = end.sub(start).div(T::from_usize(steps - 1));
    let mut out: Vec<T> = Vec::new();
    let mut i: usize = 0;
    while i < steps
        invariant
            i <= steps,
            out@.len() == i,
            delta == end.sub_spec(start).div_spec(T::from_usize_spec((steps - 1) as usize)),
            forall|m: int|
                0 <= m < i ==> #[trigger] out@[m] == T::from_usize_spec(m as usize).mul_spec(
                    delta,
                ).add_spec(start),
        decreases steps - i,
    {
        let ghost oprev = out@;
        let v = T::from_usize(i).mul(delta).add(start);
        out.push(v);
        i = i + 1;
        proof {
            assert forall|m: int|
                0 <= m < i implies #[trigger] out@[m] == T::from_usize_spec(m as usize).mul_spec(
                    delta,
                ).add_spec(start) by {
                if m < i - 1 {
                    assert(out@[m] == oprev[m]);
                } else {
                    assert(out@[m] == v);
                }
            };
        }
    }
    out
}

/// Coefficient `j` of stencil row `i` of the ASTM E2022 method at the
/// given measurement interval: the Lagrange basis coefficient at the
/// `i`-th interior position of the interval, shifted up by one for the
/// four-point interior stencils.
pub open spec fn e2022_row<T: Scalar>(interval: T, degree: usize, i: int, j: int) -> T {
    lag_partial(
        T::from_usize_spec(i as usize).mul_spec(
            T::one_spec().sub_spec(T::one_spec().div_spec(interval)).sub_spec(
                T::one_spec().div_spec(interval),
            ).div_spec(T::from_usize_spec((interval.to_usize_spec() - 2) as usize)),
        ).add_spec(T::one_spec().div_spec(interval)).add_spec(
            if degree == 4 {
                T::one_spec()
            } else {
                T::zero_spec()
            },
        ),
        j,
        degree as int,
    )
}

/// The per-subinterval Lagrange stencils of the ASTM E2022 method, for
/// the given measurement interval: one row of `degree` coefficients per
/// interior wavelength of a measurement interval.
#[verifier::loop_isolation(false)]
pub fn lagrange_coefficients_astm_e2022<T: Scalar>(interval: T, degree: usize) -> (out: Vec<
    Vec<T>,
>)
    requires
        interval.to_usize_spec() >= 3,
    ensures
        out@.len() == interval.to_usize_spec() - 1,
        forall|i: int| 0 <= i < out@.len() ==> (#[trigger] out@[i])@.len() == degree,
        forall|i: int, j: int|
            0 <= i < out@.len() && 0 <= j < degree ==> out@[i]@[j] == #[trigger] e2022_row(
                interval,
                degree,
                i,
                j,
            ),
{
    let num = interval.to_usize() - 1;
    let d = if degree == 4 {
        T::one()
    } else {
        T::zero()
    };
    let grid = linspace(
        T::one().div(interval),
        T::one().sub(T::one().div(interval)),
        num,
    );
    let mut out: Vec<Vec<T>> = Vec::new();
    let mut i: usize = 0;
    while i < num
        invariant
            i <= num,
            num >= 2,
            num == interval.to_usize_spec() - 1,
            grid@.len() == num,
            d == (if degree == 4 {
                T::one_spec()
            } else {
                T::zero_spec()
            }),
            forall|m: int|
                0 <= m < num ==> #[trigger] grid@[m] == T::from_usize_spec(m as usize).mul_spec(
                    T::one_spec().sub_spec(T::one_spec().div_spec(interval)).sub_spec(
                        T::one_spec().div_spec(interval),
                    ).div_spec(T::from_usize_spec((interval.to_usize_spec() - 2) as usize)),
                ).add_spec(T::one_spec().div_spec(interval)),
            out@.len() == i,
            forall|m: int| 0 <= m < i ==> (#[trigger] out@[m])@.len() == degree,
            forall|m: int, j: int|
                0 <= m < i && 0 <= j < degree ==> out@[m]@[j] == #[trigger] e2022_row(
                    interval,
                    degree,
                    m,
                    j,
                ),
        decreases num - i,
    {
        let ghost oprev = out@;
        let row = lagrange_coefficients(grid[i].add(d), degree);
        out.push(row);
        i = i + 1;
        proof {
            assert forall|m: int| 0 <= m < i implies (#[trigger] out@[m])@.len() == degree by {
                if m < i - 1 {
                    assert(out@[m] == oprev[m]);
                }
            };
            assert forall|m: int, j: int|
                0 <= m < i && 0 <= j < degree implies out@[m]@[j] == #[trigger] e2022_row(
                interval,
                degree,
                m,
                j,
            ) by {
                if m < i - 1 {
                    assert(out@[m] == oprev[m]);
                } else {
                    assert(out@[m] == row);
                }
            };
        }
    }
    out
}

/// Fold of the first `k` products of weights with sample values,
/// accumulated from zero.
pub open spec fn weight_dot<T: Scalar>(w: Seq<T>, s: Seq<Sample<T>>, k: nat) -> T
    decreases k,
{
    if k == 0 {
        T::zero_spec()
    } else {
        weight_dot(w, s, (k - 1) as nat).add_spec(w[k - 1].mul_spec(s[k - 1].v))
    }
}

/// One value list is another scaled entrywise by a constant.
pub open spec fn scaled_by<T: Scalar>(out: Seq<T>, pre: Seq<T>, k: T) -> bool {
    &&& out.len() == pre.len()
    &&& forall|i: int| 0 <= i < pre.len() ==> #[trigger] out[i] == pre[i].mul_spec(k)
}

/// Fold of the first `k` entries of a value list, accumulated from
/// zero.
pub open spec fn seq_sum<T: Scalar>(s: Seq<T>, k: nat) -> T
    decreases k,
{
    if k == 0 {
        T::zero_spec()
    } else {
        seq_sum(s, (k - 1) as nat).add_spec(s[k - 1])
    }
}

/// What trimming keeps: the contiguous run of samples after those below
/// the start bound, up to those at or below the end bound.
pub open spec fn trim_model<T: Scalar>(src: VSPD<T>, shape: SpdShape<T>) -> Seq<Sample<T>> {
    src.samples@.subrange(
        skip_below_count(src.samples@, shape.start) as int,
        (skip_below_count(src.samples@, shape.start) + take_at_most_count(
            src.samples@.skip(skip_below_count(src.samples@, shape.start) as int),
            shape.end,
        )) as int,
    )
}


/// The stride-sampled base table of the E2022 construction: entry `t`
/// is the illuminant times the observer curve at the `t`-th measurement
/// wavelength.
pub open spec fn twf_base<T: Scalar>(s: Seq<T>, yc: Seq<T>, m: int, cnt: nat) -> Seq<T> {
    Seq::new(cnt, |t: int| s[t * m].mul_spec(yc[t * m]))
}

/// One first-interval quadrature contribution: the `j`-th interior
/// wavelength's product, weighted by the degree-three stencil row `j`,
/// added to the first three weights.
pub open spec fn twf_first_step<T: Scalar>(
    w: Seq<T>,
    s: Seq<T>,
    yc: Seq<T>,
    interval: T,
    j: int,
) -> Seq<T> {
    w.update(
        0,
        w[0].add_spec(e2022_row(interval, 3, j, 0).mul_spec(s[j + 1]).mul_spec(yc[j + 1])),
    ).update(
        1,
        w[1].add_spec(e2022_row(interval, 3, j, 1).mul_spec(s[j + 1]).mul_spec(yc[j + 1])),
    ).update(
        2,
        w[2].add_spec(e2022_row(interval, 3, j, 2).mul_spec(s[j + 1]).mul_spec(yc[j + 1])),
    )
}

/// The first `j` first-interval contributions, applied in order.
pub open spec fn twf_first<T: Scalar>(
    w: Seq<T>,
    s: Seq<T>,
    yc: Seq<T>,
    interval: T,
    j: int,
) -> Seq<T>
    decreases j,
{
    if j <= 0 {
        w
    } else {
        twf_first_step(twf_first(w, s, yc, interval, j - 1), s, yc, interval, j - 1)
    }
}

/// One last-interval quadrature contribution: the `j`-th wavelength of
/// the last full interval, weighted by the mirrored degree-three
/// stencil, added to the last three weights from the highest down.
pub open spec fn twf_last_step<T: Scalar>(
    w: Seq<T>,
    s: Seq<T>,
    yc: Seq<T>,
    interval: T,
    icm: int,
    wl: int,
    j: int,
) -> Seq<T> {
    w.update(
        icm,
        w[icm].add_spec(
            e2022_row(interval, 3, interval.to_usize_spec() - 2 - j, 0).mul_spec(
                s[j + wl],
            ).mul_spec(yc[j + wl]),
        ),
    ).update(
        icm - 1,
        w[icm - 1].add_spec(
            e2022_row(interval, 3, interval.to_usize_spec() - 2 - j, 1).mul_spec(
                s[j + wl],
            ).mul_spec(yc[j + wl]),
        ),
    ).update(
        icm - 2,
        w[icm - 2].add_spec(
            e2022_row(interval, 3, interval.to_usize_spec() - 2 - j, 2).mul_spec(
                s[j + wl],
            ).mul_spec(yc[j + wl]),
        ),
    )
}

/// The first `j` last-interval contributions, applied in order.
pub open spec fn twf_last<T: Scalar>(
    w: Seq<T>,
    s: Seq<T>,
    yc: Seq<T>,
    interval: T,
    icm: int,
    wl: int,
    j: int,
) -> Seq<T>
    decreases j,
{
    if j <= 0 {
        w
    } else {
        twf_last_step(twf_last(w, s, yc, interval, icm, wl, j - 1), s, yc, interval, icm, wl, j - 1)
    }
}

/// One interior quadrature contribution: the `k`-th interior wavelength
/// of measurement interval `j3`, weighted by the degree-four stencil
/// row `k`, spread over the four surrounding weights.
pub open spec fn twf_inner_step<T: Scalar>(
    w: Seq<T>,
    s: Seq<T>,
    yc: Seq<T>,
    interval: T,
    j3: int,
    k: int,
) -> Seq<T> {
    w.update(
        j3,
        w[j3].add_spec(
            e2022_row(interval, 4, k, 0).mul_spec(
                s[interval.to_usize_spec() * (j3 + 1) + 1 + k],
            ).mul_spec(yc[interval.to_usize_spec() * (j3 + 1) + 1 + k]),
        ),
    ).update(
        j3 + 1,
        w[j3 + 1].add_spec(
            e2022_row(interval, 4, k, 1).mul_spec(
                s[interval.to_usize_spec() * (j3 + 1) + 1 + k],
            ).mul_spec(yc[interval.to_usize_spec() * (j3 + 1) + 1 + k]),
        ),
    ).update(
        j3 + 2,
        w[j3 + 2].add_spec(
            e2022_row(interval, 4, k, 2).mul_spec(
                s[interval.to_usize_spec() * (j3 + 1) + 1 + k],
            ).mul_spec(yc[interval.to_usize_spec() * (j3 + 1) + 1 + k]),
        ),
    ).update(
        j3 + 3,
        w[j3 + 3].add_spec(
            e2022_row(interval, 4, k, 3).mul_spec(
                s[interval.to_usize_spec() * (j3 + 1) + 1 + k],
            ).mul_spec(yc[interval.to_usize_spec() * (j3 + 1) + 1 + k]),
        ),
    )
}

/// The first `k` interior contributions of measurement interval `j3`.
pub open spec fn twf_inner_row<T: Scalar>(
    w: Seq<T>,
    s: Seq<T>,
    yc: Seq<T>,
    interval: T,
    j3: int,
    k: int,
) -> Seq<T>
    decreases k,
{
    if k <= 0 {
        w
    } else {
        twf_inner_step(twf_inner_row(w, s, yc, interval, j3, k - 1), s, yc, interval, j3, k - 1)
    }
}

/// The interior contributions of the first `j3` measurement intervals.
pub open spec fn twf_inner<T: Scalar>(
    w: Seq<T>,
    s: Seq<T>,
    yc: Seq<T>,
    interval: T,
    rc: int,
    j3: int,
) -> Seq<T>
    decreases j3,
{
    if j3 <= 0 {
        w
    } else {
        twf_inner_row(twf_inner(w, s, yc, interval, rc, j3 - 1), s, yc, interval, j3 - 1, rc)
    }
}

/// The trailing partial-interval mass: every wavelength past the last
/// whole measurement interval folded into the final weight, in order.
pub open spec fn twf_trail<T: Scalar>(
    w: Seq<T>,
    s: Seq<T>,
    yc: Seq<T>,
    icm: int,
    from: int,
    upto: int,
) -> Seq<T>
    decreases upto - from,
{
    if upto <= from {
        w
    } else {
        twf_trail(w, s, yc, icm, from, upto - 1).update(
            icm,
            twf_trail(w, s, yc, icm, from, upto - 1)[icm].add_spec(
                s[upto - 1].mul_spec(yc[upto - 1]),
            ),
        )
    }
}

/// The whole unnormalized E2022 weighting table for one observer curve:
/// the stride-sampled base, plus the first-interval, last-interval and
/// interior Lagrange quadrature contributions, plus the trailing mass.
pub open spec fn twf_table<T: Scalar>(s: Seq<T>, yc: Seq<T>, interval: T, w_c: int) -> Seq<T> {
    twf_trail(
        twf_inner(
            twf_last(
                twf_first(
                    twf_base(
                        s,
                        yc,
                        interval.to_usize_spec() as int,
                        ((w_c - 1) / (interval.to_usize_spec() as int) + 1) as nat,
                    ),
                    s,
                    yc,
                    interval,
                    interval.to_usize_spec() - 1,
                ),
                s,
                yc,
                interval,
                (w_c - 1) / (interval.to_usize_spec() as int),
                w_c - (w_c - 1) % (interval.to_usize_spec() as int) - 1 - (
                interval.to_usize_spec() - 1),
                interval.to_usize_spec() - 1,
            ),
            s,
            yc,
            interval,
            interval.to_usize_spec() - 1,
            (w_c - 1) / (interval.to_usize_spec() as int) + 1 - 3,
        ),
        s,
        yc,
        (w_c - 1) / (interval.to_usize_spec() as int),
        w_c - (w_c - 1) % (interval.to_usize_spec() as int),
        w_c,
    )
}

/// The inputs the E2022 weighting construction accepts: observer curves
/// at one nanometre matching the illuminant's spacing, a whole
/// measurement interval of a tractable size, curves long enough, and at
/// least three measurement intervals with a complete last one.
pub open spec fn twf_inputs_ok<T: Scalar>(
    cmf: crate::cmf::CMF<T>,
    illuminant: VSPD<T>,
    shape: SpdShape<T>,
) -> bool {
    &&& (cmf.x_bar.shape.interval matches Interval::Uniform(ci) && ci.eqv_spec(
        T::from_ratio_spec(1, 1),
    ))
    &&& interval_eq_spec(illuminant.shape.interval, cmf.x_bar.shape.interval)
    &&& (shape.interval matches Interval::Uniform(st) && 3 <= st.to_usize_spec() <= 1000)
    &&& 1 <= cmf.x_bar.samples@.len() <= 1_000_000_000
    &&& illuminant.samples@.len() >= cmf.x_bar.samples@.len()
    &&& cmf.y_bar.samples@.len() >= cmf.x_bar.samples@.len()
    &&& cmf.z_bar.samples@.len() >= cmf.x_bar.samples@.len()
    &&& (cmf.x_bar.samples@.len() - 1) / (interp_step(shape).to_usize_spec() as int) + 1 >= 3
    &&& (cmf.x_bar.samples@.len() - 1) % (interp_step(shape).to_usize_spec() as int) + 1 + (
    interp_step(shape).to_usize_spec() - 1) <= cmf.x_bar.samples@.len()
}

/// The tristimulus weighting factors of ASTM E2022: for each observer
/// curve, one weight per measurement interval, baking the illuminant
/// and the Lagrange subinterval quadrature into a single table,
/// normalized so the luminance weights sum to one hundred. The output
/// is the [`twf_table`] construction of each curve, rescaled by one
/// hundred over the sum of the unnormalized luminance weights.
#[verifier::loop_isolation(false)]
#[verifier::rlimit(100)]
pub fn tristimulus_weighting_factors_astme2022<T: Scalar>(
    cmf: &crate::cmf::CMF<T>,
    illuminant: &VSPD<T>,
    shape: SpdShape<T>,
) -> (r: Result<(Vec<T>, Vec<T>, Vec<T>), SpdError>)
    ensures
        r is Ok <==> twf_inputs_ok(*cmf, *illuminant, shape),
        r matches Ok(w) ==> w.0@.len() == w.1@.len() && w.1@.len() == w.2@.len(),
        r matches Ok(w) ==> {
            &&& scaled_by(
                w.0@,
                twf_table(
                    sample_values(*illuminant),
                    sample_values(cmf.x_bar),
                    interp_step(shape),
                    cmf.x_bar.samples@.len() as int,
                ),
                T::from_ratio_spec(100, 1).div_spec(
                    seq_sum(
                        twf_table(
                            sample_values(*illuminant),
                            sample_values(cmf.y_bar),
                            interp_step(shape),
                            cmf.x_bar.samples@.len() as int,
                        ),
                        twf_table(
                            sample_values(*illuminant),
                            sample_values(cmf.y_bar),
                            interp_step(shape),
                            cmf.x_bar.samples@.len() as int,
                        ).len(),
                    ),
                ),
            )
            &&& scaled_by(
                w.1@,
                twf_table(
                    sample_values(*illuminant),
                    sample_values(cmf.y_bar),
                    interp_step(shape),
                    cmf.x_bar.samples@.len() as int,
                ),
                T::from_ratio_spec(100, 1).div_spec(
                    seq_sum(
                        twf_table(
                            sample_values(*illuminant),
                            sample_values(cmf.y_bar),
                            interp_step(shape),
                            cmf.x_bar.samples@.len() as int,
                        ),
                        twf_table(
                            sample_values(*illuminant),
                            sample_values(cmf.y_bar),
                            interp_step(shape),
                            cmf.x_bar.samples@.len() as int,
                        ).len(),
                    ),
                ),
            )
            &&& scaled_by(
                w.2@,
                twf_table(
                    sample_values(*illuminant),
                    sample_values(cmf.z_bar),
                    interp_step(shape),
                    cmf.x_bar.samples@.len() as int,
                ),
                T::from_ratio_spec(100, 1).div_spec(
                    seq_sum(
                        twf_table(
                            sample_values(*illuminant),
                            sample_values(cmf.y_bar),
                            interp_step(shape),
                            cmf.x_bar.samples@.len() as int,
                        ),
                        twf_table(
                            sample_values(*illuminant),
                            sample_values(cmf.y_bar),
                            interp_step(shape),
                            cmf.x_bar.samples@.len() as int,
                        ).len(),
                    ),
                ),
            )
        },
{
    let one = T::from_ratio(1, 1);
    let cmf_interval = match cmf.shape().interval {
        Interval::Uniform(i) => i,
        Interval::Varying => {
            return Err(SpdError::VaryingInterval);
        },
    };
    if !cmf_interval.eqv(one) {
        return Err(SpdError::VaryingInterval);
    }
    if !illuminant.interval().eqv(cmf.shape().interval) {
        return Err(SpdError::VaryingInterval);
    }
    let y_x = cmf.x_bar.values();
    let y_y = cmf.y_bar.values();
    let y_z = cmf.z_bar.values();
    let s = illuminant.values();
    let interval = match shape.interval {
        Interval::Uniform(i) => i,
        Interval::Varying => {
            return Err(SpdError::VaryingInterval);
        },
    };
    let interval_i = interval.to_usize();
    if interval_i < 3 {
        return Err(SpdError::VaryingInterval);
    }
    if interval_i > 1000 {
        return Err(SpdError::CountOverflow);
    }
    let w_c = y_x.len();
    if w_c < 1 || s.len() < w_c || y_y.len() < w_c || y_z.len() < w_c {
        return Err(SpdError::LengthMismatch);
    }
    if w_c > 1_000_000_000 {
        return Err(SpdError::CountOverflow);
    }
    let c_c = lagrange_coefficients_astm_e2022(interval, 3);
    let c_b = lagrange_coefficients_astm_e2022(interval, 4);
    let r_c = c_b.len();
    // the base table, one entry per measurement interval
    let mut w_x: Vec<T> = Vec::new();
    let mut w_y: Vec<T> = Vec::new();
    let mut w_z: Vec<T> = Vec::new();
    let mut m: usize = 0;
    proof {
        assert(0int * (interval_i as int) == 0) by (nonlinear_arith);
    }
    loop
        invariant
            interval_i == interval.to_usize_spec(),
            3 <= interval_i <= 1000,
            1 <= w_c <= 1_000_000_000,
            w_c == y_x@.len(),
            w_c <= s@.len() && w_c <= y_y@.len() && w_c <= y_z@.len(),
            m == w_x@.len() * interval_i,
            m < w_c,
            w_x@ == twf_base(s@, y_x@, interval_i as int, w_x@.len()),
            w_y@ == twf_base(s@, y_y@, interval_i as int, w_y@.len()),
            w_z@ == twf_base(s@, y_z@, interval_i as int, w_z@.len()),
            w_y@.len() == w_x@.len() && w_z@.len() == w_x@.len(),
        decreases w_c - m,
    {
        let ghost px = w_x@;
        let ghost py = w_y@;
        let ghost pz = w_z@;
        w_x.push(s[m].mul(y_x[m]));
        w_y.push(s[m].mul(y_y[m]));
        w_z.push(s[m].mul(y_z[m]));
        proof {
            assert(w_x@ =~= twf_base(s@, y_x@, interval_i as int, w_x@.len()));
            assert(w_y@ =~= twf_base(s@, y_y@, interval_i as int, w_y@.len()));
            assert(w_z@ =~= twf_base(s@, y_z@, interval_i as int, w_z@.len()));
        }
        if w_c - m <= interval_i {
            break ;
        }
        proof {
            assert((w_x@.len() as int) * (interval_i as int) == ((w_x@.len() - 1) as int) * (
            interval_i as int) + interval_i) by (nonlinear_arith);
        }
        m = m + interval_i;
    }
    let i_c = w_x.len();
    proof {
        assert(i_c as int == (w_c - 1) as int / (interval_i as int) + 1) by (nonlinear_arith)
            requires
                interval_i >= 3,
                m == (i_c - 1) * interval_i,
                m < w_c,
                w_c - m <= interval_i,
                i_c >= 1,
        ;
    }
    if i_c < 3 {
        return Err(SpdError::LengthMismatch);
    }
    let i_cm = i_c - 1;
    if (w_c - 1) % interval_i + 1 + r_c > w_c {
        return Err(SpdError::LengthMismatch);
    }
    let w_lif = w_c - (w_c - 1) % interval_i - 1 - r_c;
    proof {
        // the last-interval condition forces at least one whole interval
        assert(w_c >= interval_i) by (nonlinear_arith)
            requires
                interval_i >= 3,
                w_c >= 1,
                (w_c - 1) % (interval_i as int) + 1 + (interval_i - 1) <= w_c,
        ;
    }
    let ghost base_x = w_x@;
    let ghost base_y = w_y@;
    let ghost base_z = w_z@;
    // first measurement interval
    let mut j: usize = 0;
    while j < r_c
        invariant
            j <= r_c,
            w_x@ == twf_first(base_x, s@, y_x@, interval, j as int),
            w_y@ == twf_first(base_y, s@, y_y@, interval, j as int),
            w_z@ == twf_first(base_z, s@, y_z@, interval, j as int),
            w_x@.len() == i_c && w_y@.len() == i_c && w_z@.len() == i_c,
        decreases r_c - j,
    {
        let row = &c_c[j];
        let sv = s[j + 1];
        let t0 = row[0].mul(sv).mul(y_x[j + 1]);
        let t0y = row[0].mul(sv).mul(y_y[j + 1]);
        let t0z = row[0].mul(sv).mul(y_z[j + 1]);
        let t1 = row[1].mul(sv).mul(y_x[j + 1]);
        let t1y = row[1].mul(sv).mul(y_y[j + 1]);
        let t1z = row[1].mul(sv).mul(y_z[j + 1]);
        let t2 = row[2].mul(sv).mul(y_x[j + 1]);
        let t2y = row[2].mul(sv).mul(y_y[j + 1]);
        let t2z = row[2].mul(sv).mul(y_z[j + 1]);
        w_x[0] = w_x[0].add(t0);
        w_x[1] = w_x[1].add(t1);
        w_x[2] = w_x[2].add(t2);
        w_y[0] = w_y[0].add(t0y);
        w_y[1] = w_y[1].add(t1y);
        w_y[2] = w_y[2].add(t2y);
        w_z[0] = w_z[0].add(t0z);
        w_z[1] = w_z[1].add(t1z);
        w_z[2] = w_z[2].add(t2z);
        proof {
            assert(w_x@ =~= twf_first(base_x, s@, y_x@, interval, j + 1));
            assert(w_y@ =~= twf_first(base_y, s@, y_y@, interval, j + 1));
            assert(w_z@ =~= twf_first(base_z, s@, y_z@, interval, j + 1));
        }
        j = j + 1;
    }
    let ghost first_x = w_x@;
    let ghost first_y = w_y@;
    let ghost first_z = w_z@;
    // last whole measurement interval
    let mut j2: usize = 0;
    while j2 < r_c
        invariant
            j2 <= r_c,
            w_x@ == twf_last(first_x, s@, y_x@, interval, i_cm as int, w_lif as int, j2 as int),
            w_y@ == twf_last(first_y, s@, y_y@, interval, i_cm as int, w_lif as int, j2 as int),
            w_z@ == twf_last(first_z, s@, y_z@, interval, i_cm as int, w_lif as int, j2 as int),
            w_x@.len() == i_c && w_y@.len() == i_c && w_z@.len() == i_c,
        decreases r_c - j2,
    {
        let row = &c_c[r_c - j2 - 1];
        let sv = s[j2 + w_lif];
        let u0 = row[0].mul(sv).mul(y_x[j2 + w_lif]);
        let u0y = row[0].mul(sv).mul(y_y[j2 + w_lif]);
        let u0z = row[0].mul(sv).mul(y_z[j2 + w_lif]);
        let u1 = row[1].mul(sv).mul(y_x[j2 + w_lif]);
        let u1y = row[1].mul(sv).mul(y_y[j2 + w_lif]);
        let u1z = row[1].mul(sv).mul(y_z[j2 + w_lif]);
        let u2 = row[2].mul(sv).mul(y_x[j2 + w_lif]);
        let u2y = row[2].mul(sv).mul(y_y[j2 + w_lif]);
        let u2z = row[2].mul(sv).mul(y_z[j2 + w_lif]);
        w_x[i_cm] = w_x[i_cm].add(u0);
        w_x[i_cm - 1] = w_x[i_cm - 1].add(u1);
        w_x[i_cm - 2] = w_x[i_cm - 2].add(u2);
        w_y[i_cm] = w_y[i_cm].add(u0y);
        w_y[i_cm - 1] = w_y[i_cm - 1].add(u1y);
        w_y[i_cm - 2] = w_y[i_cm - 2].add(u2y);
        w_z[i_cm] = w_z[i_cm].add(u0z);
        w_z[i_cm - 1] = w_z[i_cm - 1].add(u1z);
        w_z[i_cm - 2] = w_z[i_cm - 2].add(u2z);
        proof {
            assert(w_x@ =~= twf_last(
                first_x,
                s@,
                y_x@,
                interval,
                i_cm as int,
                w_lif as int,
                j2 + 1,
            ));
            assert(w_y@ =~= twf_last(
                first_y,
                s@,
                y_y@,
                interval,
                i_cm as int,
                w_lif as int,
                j2 + 1,
            ));
            assert(w_z@ =~= twf_last(
                first_z,
                s@,
                y_z@,
                interval,
                i_cm as int,
                w_lif as int,
                j2 + 1,
            ));
        }
        j2 = j2 + 1;
    }
    let ghost last_x = w_x@;
    let ghost last_y = w_y@;
    let ghost last_z = w_z@;
    // interior measurement intervals
    let mut j3: usize = 0;
    while j3 < i_c - 3
        invariant
            j3 <= i_c - 3,
            w_x@ == twf_inner(last_x, s@, y_x@, interval, r_c as int, j3 as int),
            w_y@ == twf_inner(last_y, s@, y_y@, interval, r_c as int, j3 as int),
            w_z@ == twf_inner(last_z, s@, y_z@, interval, r_c as int, j3 as int),
            w_x@.len() == i_c && w_y@.len() == i_c && w_z@.len() == i_c,
        decreases i_c - 3 - j3,
    {
        let mut k: usize = 0;
        while k < r_c
            invariant
                k <= r_c,
                j3 < i_c - 3,
                w_x@ == twf_inner_row(
                    twf_inner(last_x, s@, y_x@, interval, r_c as int, j3 as int),
                    s@,
                    y_x@,
                    interval,
                    j3 as int,
                    k as int,
                ),
                w_y@ == twf_inner_row(
                    twf_inner(last_y, s@, y_y@, interval, r_c as int, j3 as int),
                    s@,
                    y_y@,
                    interval,
                    j3 as int,
                    k as int,
                ),
                w_z@ == twf_inner_row(
                    twf_inner(last_z, s@, y_z@, interval, r_c as int, j3 as int),
                    s@,
                    y_z@,
                    interval,
                    j3 as int,
                    k as int,
                ),
                w_x@.len() == i_c && w_y@.len() == i_c && w_z@.len() == i_c,
            decreases r_c - k,
        {
            proof {
                assert(interval_i * (j3 + 1) + 1 + k < w_c) by (nonlinear_arith)
                    requires
                        interval_i >= 3,
                        i_c as int == (w_c - 1) as int / (interval_i as int) + 1,
                        j3 < i_c - 3,
                        k < r_c,
                        r_c == interval_i - 1,
                        w_c >= 1,
                ;
            }
            let w_i = interval_i * (j3 + 1) + 1 + k;
            let row = &c_b[k];
            let sv = s[w_i];
            let v0 = row[0].mul(sv).mul(y_x[w_i]);
            let v0y = row[0].mul(sv).mul(y_y[w_i]);
            let v0z = row[0].mul(sv).mul(y_z[w_i]);
            let v1 = row[1].mul(sv).mul(y_x[w_i]);
            let v1y = row[1].mul(sv).mul(y_y[w_i]);
            let v1z = row[1].mul(sv).mul(y_z[w_i]);
            let v2 = row[2].mul(sv).mul(y_x[w_i]);
            let v2y = row[2].mul(sv).mul(y_y[w_i]);
            let v2z = row[2].mul(sv).mul(y_z[w_i]);
            let v3 = row[3].mul(sv).mul(y_x[w_i]);
            let v3y = row[3].mul(sv).mul(y_y[w_i]);
            let v3z = row[3].mul(sv).mul(y_z[w_i]);
            w_x[j3] = w_x[j3].add(v0);
            w_x[j3 + 1] = w_x[j3 + 1].add(v1);
            w_x[j3 + 2] = w_x[j3 + 2].add(v2);
            w_x[j3 + 3] = w_x[j3 + 3].add(v3);
            w_y[j3] = w_y[j3].add(v0y);
            w_y[j3 + 1] = w_y[j3 + 1].add(v1y);
            w_y[j3 + 2] = w_y[j3 + 2].add(v2y);
            w_y[j3 + 3] = w_y[j3 + 3].add(v3y);
            w_z[j3] = w_z[j3].add(v0z);
            w_z[j3 + 1] = w_z[j3 + 1].add(v1z);
            w_z[j3 + 2] = w_z[j3 + 2].add(v2z);
            w_z[j3 + 3] = w_z[j3 + 3].add(v3z);
            proof {
                assert(w_x@ =~= twf_inner_row(
                    twf_inner(last_x, s@, y_x@, interval, r_c as int, j3 as int),
                    s@,
                    y_x@,
                    interval,
                    j3 as int,
                    k + 1,
                ));
                assert(w_y@ =~= twf_inner_row(
                    twf_inner(last_y, s@, y_y@, interval, r_c as int, j3 as int),
                    s@,
                    y_y@,
                    interval,
                    j3 as int,
                    k + 1,
                ));
                assert(w_z@ =~= twf_inner_row(
                    twf_inner(last_z, s@, y_z@, interval, r_c as int, j3 as int),
                    s@,
                    y_z@,
                    interval,
                    j3 as int,
                    k + 1,
                ));
            }
            k = k + 1;
        }
        j3 = j3 + 1;
    }
    let ghost inner_x = w_x@;
    let ghost inner_y = w_y@;
    let ghost inner_z = w_z@;
    // any incomplete trailing interval folds into the last weight
    let trail_from = w_c - ((w_c - 1) % interval_i);
    let mut j4: usize = trail_from;
    while j4 < w_c
        invariant
            trail_from <= j4 <= w_c,
            i_cm == i_c - 1,
            w_x@ == twf_trail(inner_x, s@, y_x@, i_cm as int, trail_from as int, j4 as int),
            w_y@ == twf_trail(inner_y, s@, y_y@, i_cm as int, trail_from as int, j4 as int),
            w_z@ == twf_trail(inner_z, s@, y_z@, i_cm as int, trail_from as int, j4 as int),
            w_x@.len() == i_c && w_y@.len() == i_c && w_z@.len() == i_c,
        decreases w_c - j4,
    {
        w_x[i_cm] = w_x[i_cm].add(s[j4].mul(y_x[j4]));
        w_y[i_cm] = w_y[i_cm].add(s[j4].mul(y_y[j4]));
        w_z[i_cm] = w_z[i_cm].add(s[j4].mul(y_z[j4]));
        proof {
            assert(w_x@ =~= twf_trail(inner_x, s@, y_x@, i_cm as int, trail_from as int, j4 + 1));
            assert(w_y@ =~= twf_trail(inner_y, s@, y_y@, i_cm as int, trail_from as int, j4 + 1));
            assert(w_z@ =~= twf_trail(inner_z, s@, y_z@, i_cm as int, trail_from as int, j4 + 1));
        }
        j4 = j4 + 1;
    }
    proof {
        assert(w_x@ == twf_table(s@, y_x@, interval, w_c as int));
        assert(w_y@ == twf_table(s@, y_y@, interval, w_c as int));
        assert(w_z@ == twf_table(s@, y_z@, interval, w_c as int));
    }
    // normalize so the luminance weights sum to one hundred
    let ghost px = w_x@;
    let ghost py = w_y@;
    let ghost pz = w_z@;
    let mut total = T::zero();
    let mut m2: usize = 0;
    while m2 < w_y.len()
        invariant
            w_x@.len() == w_y@.len() && w_y@.len() == w_z@.len(),
            w_y@ == py,
            m2 <= py.len(),
            total == seq_sum(py, m2 as nat),
        decreases w_y@.len() - m2,
    {
        total = total.add(w_y[m2]);
        m2 = m2 + 1;
    }
    let kf = T::from_ratio(100, 1).div(total);
    assert(kf == T::from_ratio_spec(100, 1).div_spec(seq_sum(py, py.len())));
    let mut m3: usize = 0;
    while m3 < w_x.len()
        invariant
            w_x@.len() == w_y@.len() && w_y@.len() == w_z@.len(),
            w_x@.len() == px.len() && w_y@.len() == py.len() && w_z@.len() == pz.len(),
            m3 <= px.len(),
            forall|i: int| 0 <= i < m3 ==> #[trigger] w_x@[i] == px[i].mul_spec(kf),
            forall|i: int| 0 <= i < m3 ==> #[trigger] w_y@[i] == py[i].mul_spec(kf),
            forall|i: int| 0 <= i < m3 ==> #[trigger] w_z@[i] == pz[i].mul_spec(kf),
            forall|i: int| m3 <= i < px.len() ==> #[trigger] w_x@[i] == px[i],
            forall|i: int| m3 <= i < py.len() ==> #[trigger] w_y@[i] == py[i],
            forall|i: int| m3 <= i < pz.len() ==> #[trigger] w_z@[i] == pz[i],
        decreases w_x@.len() - m3,
    {
        w_x[m3] = w_x[m3].mul(kf);
        w_y[m3] = w_y[m3].mul(kf);
        w_z[m3] = w_z[m3].mul(kf);
        m3 = m3 + 1;
    }
    let result = (w_x, w_y, w_z);
    proof {
        let ghost sv = sample_values(*illuminant);
        let ghost xv = sample_values(cmf.x_bar);
        let ghost yv = sample_values(cmf.y_bar);
        let ghost zv = sample_values(cmf.z_bar);
        assert(s@ == sv && y_x@ == xv && y_y@ == yv && y_z@ == zv);
        assert(px == twf_table(sv, xv, interp_step(shape), cmf.x_bar.samples@.len() as int));
        assert(py == twf_table(sv, yv, interp_step(shape), cmf.x_bar.samples@.len() as int));
        assert(pz == twf_table(sv, zv, interp_step(shape), cmf.x_bar.samples@.len() as int));
        let rr: Result<(Vec<T>, Vec<T>, Vec<T>), SpdError> = Ok(result);
        assert(scaled_by(
            rr.unwrap().0@,
            twf_table(sv, xv, interp_step(shape), cmf.x_bar.samples@.len() as int),
            T::from_ratio_spec(100, 1).div_spec(
                seq_sum(
                    twf_table(sv, yv, interp_step(shape), cmf.x_bar.samples@.len() as int),
                    twf_table(sv, yv, interp_step(shape), cmf.x_bar.samples@.len() as int).len(),
                ),
            ),
        ));
        assert(scaled_by(
            rr.unwrap().1@,
            twf_table(sv, yv, interp_step(shape), cmf.x_bar.samples@.len() as int),
            T::from_ratio_spec(100, 1).div_spec(
                seq_sum(
                    twf_table(sv, yv, interp_step(shape), cmf.x_bar.samples@.len() as int),
                    twf_table(sv, yv, interp_step(shape), cmf.x_bar.samples@.len() as int).len(),
                ),
            ),
        ));
        assert(scaled_by(
            rr.unwrap().2@,
            twf_table(sv, zv, interp_step(shape), cmf.x_bar.samples@.len() as int),
            T::from_ratio_spec(100, 1).div_spec(
                seq_sum(
                    twf_table(sv, yv, interp_step(shape), cmf.x_bar.samples@.len() as int),
                    twf_table(sv, yv, interp_step(shape), cmf.x_bar.samples@.len() as int).len(),
                ),
            ),
        ));
        assert(twf_inputs_ok(*cmf, *illuminant, shape));
    }
    Ok(result)
}

/// The mass-fold a boundary adjustment performs at the low end: the
/// retained entry at `first`, with the first `k` dropped leading
/// entries added on, in order.
pub open spec fn fold_low_mass<T: Scalar>(w: Seq<T>, first: int, k: int) -> T
    decreases k,
{
    if k <= 0 {
        w[first]
    } else {
        fold_low_mass(w, first, k - 1).add_spec(w[k - 1])
    }
}

/// The mass-fold a boundary adjustment performs at the high end: the
/// entry at `tgt`, with the last `k` entries added on, highest first.
pub open spec fn fold_high_mass<T: Scalar>(w: Seq<T>, tgt: int, k: int) -> T
    decreases k,
{
    if k <= 0 {
        w[tgt]
    } else {
        fold_high_mass(w, tgt, k - 1).add_spec(w[w.len() - k])
    }
}

/// What boundary adjustment does to one weight channel: the first
/// retained weight absorbs all dropped leading mass, the last retained
/// weight absorbs all dropped trailing mass, and the retained run
/// `[first, last)` is returned — edge mass is folded inward, never
/// dropped.
pub open spec fn adjusted_channel<T: Scalar>(w: Seq<T>, first: int, last: int) -> Seq<T> {
    w.update(first, fold_low_mass(w, first, first)).update(
        last - 1,
        fold_high_mass(
            w.update(first, fold_low_mass(w, first, first)),
            last - 1,
            w.len() - last,
        ),
    ).subrange(first, last)
}

/// Fold boundary weighting factors inward when the measured spectrum
/// covers a narrower domain than the weighting table: the mass of the
/// dropped leading and trailing weights is added to the nearest
/// retained weight, and the retained run is returned.
#[verifier::loop_isolation(false)]
pub fn adjust_tristimulus_weighting_factors_astme308<T: Scalar>(
    w_x: &Vec<T>,
    w_y: &Vec<T>,
    w_z: &Vec<T>,
    shape_r: SpdShape<T>,
    shape_t: SpdShape<T>,
) -> (r: Result<(Vec<T>, Vec<T>, Vec<T>), SpdError>)
    requires
        w_x@.len() == w_y@.len(),
        w_y@.len() == w_z@.len(),
    ensures
        r is Ok <==> ((shape_r.interval matches Interval::Uniform(st)) && shape_t.start.sub_spec(
            shape_r.start,
        ).div_spec(interp_step(shape_r)).to_usize_spec() < w_x@.len() && shape_r.end.sub_spec(
            shape_t.end,
        ).div_spec(interp_step(shape_r)).to_usize_spec() < w_x@.len() && shape_t.start.sub_spec(
            shape_r.start,
        ).div_spec(interp_step(shape_r)).to_usize_spec() + shape_r.end.sub_spec(
            shape_t.end,
        ).div_spec(interp_step(shape_r)).to_usize_spec() <= w_x@.len()),
        r matches Ok(w) ==> w.0@.len() == w.1@.len() && w.1@.len() == w.2@.len(),
        r matches Ok(w) ==> {
            &&& w.0@ == adjusted_channel(
                w_x@,
                shape_t.start.sub_spec(shape_r.start).div_spec(
                    interp_step(shape_r),
                ).to_usize_spec() as int,
                w_x@.len() - shape_r.end.sub_spec(shape_t.end).div_spec(
                    interp_step(shape_r),
                ).to_usize_spec(),
            )
            &&& w.1@ == adjusted_channel(
                w_y@,
                shape_t.start.sub_spec(shape_r.start).div_spec(
                    interp_step(shape_r),
                ).to_usize_spec() as int,
                w_y@.len() - shape_r.end.sub_spec(shape_t.end).div_spec(
                    interp_step(shape_r),
                ).to_usize_spec(),
            )
            &&& w.2@ == adjusted_channel(
                w_z@,
                shape_t.start.sub_spec(shape_r.start).div_spec(
                    interp_step(shape_r),
                ).to_usize_spec() as int,
                w_z@.len() - shape_r.end.sub_spec(shape_t.end).div_spec(
                    interp_step(shape_r),
                ).to_usize_spec(),
            )
        },
{
    let r_interval = match shape_r.interval {
        Interval::Uniform(i) => i,
        Interval::Varying => {
            return Err(SpdError::VaryingInterval);
        },
    };
    let n = w_x.len();
    let start_index = shape_t.start.sub(shape_r.start).div(r_interval).to_usize();
    if start_index >= n {
        return Err(SpdError::LengthMismatch);
    }
    let end_index = shape_r.end.sub(shape_t.end).div(r_interval).to_usize();
    if end_index >= n || start_index > n - end_index {
        return Err(SpdError::LengthMismatch);
    }
    let mut a_x: Vec<T> = Vec::new();
    let mut a_y: Vec<T> = Vec::new();
    let mut a_z: Vec<T> = Vec::new();
    let mut c: usize = 0;
    while c < n
        invariant
            a_x@ == w_x@.take(c as int),
            a_y@ == w_y@.take(c as int),
            a_z@ == w_z@.take(c as int),
            c <= n,
        decreases n - c,
    {
        a_x.push(w_x[c]);
        a_y.push(w_y[c]);
        a_z.push(w_z[c]);
        proof {
            assert(w_x@.take(c + 1) == w_x@.take(c as int).push(w_x@[c as int]));
            assert(w_y@.take(c + 1) == w_y@.take(c as int).push(w_y@[c as int]));
            assert(w_z@.take(c + 1) == w_z@.take(c as int).push(w_z@[c as int]));
        }
        c = c + 1;
    }
    proof {
        assert(w_x@.take(n as int) == w_x@);
        assert(w_y@.take(n as int) == w_y@);
        assert(w_z@.take(n as int) == w_z@);
    }
    let mut i: usize = 0;
    while i < start_index
        invariant
            start_index < n,
            a_x@.len() == n && a_y@.len() == n && a_z@.len() == n,
            a_x@[start_index as int] == fold_low_mass(w_x@, start_index as int, i as int),
            a_y@[start_index as int] == fold_low_mass(w_y@, start_index as int, i as int),
            a_z@[start_index as int] == fold_low_mass(w_z@, start_index as int, i as int),
            forall|j: int| 0 <= j < n && j != start_index ==> #[trigger] a_x@[j] == w_x@[j],
            forall|j: int| 0 <= j < n && j != start_index ==> #[trigger] a_y@[j] == w_y@[j],
            forall|j: int| 0 <= j < n && j != start_index ==> #[trigger] a_z@[j] == w_z@[j],
            i <= start_index,
        decreases start_index - i,
    {
        a_x[start_index] = a_x[start_index].add(a_x[i]);
        a_y[start_index] = a_y[start_index].add(a_y[i]);
        a_z[start_index] = a_z[start_index].add(a_z[i]);
        i = i + 1;
    }
    let ghost after1_x = a_x@;
    let ghost after1_y = a_y@;
    let ghost after1_z = a_z@;
    proof {
        assert(after1_x =~= w_x@.update(
            start_index as int,
            fold_low_mass(w_x@, start_index as int, start_index as int),
        ));
        assert(after1_y =~= w_y@.update(
            start_index as int,
            fold_low_mass(w_y@, start_index as int, start_index as int),
        ));
        assert(after1_z =~= w_z@.update(
            start_index as int,
            fold_low_mass(w_z@, start_index as int, start_index as int),
        ));
    }
    let last = n - end_index;
    let mut i2: usize = 0;
    while i2 < end_index
        invariant
            end_index < n,
            last == n - end_index,
            1 <= last <= n,
            a_x@.len() == n && a_y@.len() == n && a_z@.len() == n,
            a_x@[last - 1] == fold_high_mass(after1_x, last - 1, i2 as int),
            a_y@[last - 1] == fold_high_mass(after1_y, last - 1, i2 as int),
            a_z@[last - 1] == fold_high_mass(after1_z, last - 1, i2 as int),
            forall|j: int| 0 <= j < n && j != last - 1 ==> #[trigger] a_x@[j] == after1_x[j],
            forall|j: int| 0 <= j < n && j != last - 1 ==> #[trigger] a_y@[j] == after1_y[j],
            forall|j: int| 0 <= j < n && j != last - 1 ==> #[trigger] a_z@[j] == after1_z[j],
            i2 <= end_index,
        decreases end_index - i2,
    {
        proof {
            assert(n - i2 - 1 > last - 1);
            assert(fold_high_mass(after1_x, last - 1, i2 + 1) == fold_high_mass(
                after1_x,
                last - 1,
                i2 as int,
            ).add_spec(after1_x[n - (i2 + 1)]));
            assert(fold_high_mass(after1_y, last - 1, i2 + 1) == fold_high_mass(
                after1_y,
                last - 1,
                i2 as int,
            ).add_spec(after1_y[n - (i2 + 1)]));
            assert(fold_high_mass(after1_z, last - 1, i2 + 1) == fold_high_mass(
                after1_z,
                last - 1,
                i2 as int,
            ).add_spec(after1_z[n - (i2 + 1)]));
        }
        a_x[n - end_index - 1] = a_x[n - end_index - 1].add(a_x[n - i2 - 1]);
        a_y[n - end_index - 1] = a_y[n - end_index - 1].add(a_y[n - i2 - 1]);
        a_z[n - end_index - 1] = a_z[n - end_index - 1].add(a_z[n - i2 - 1]);
        i2 = i2 + 1;
    }
    let ghost after2_x = after1_x.update(last - 1, fold_high_mass(after1_x, last - 1, end_index as int));
    let ghost after2_y = after1_y.update(last - 1, fold_high_mass(after1_y, last - 1, end_index as int));
    let ghost after2_z = after1_z.update(last - 1, fold_high_mass(after1_z, last - 1, end_index as int));
    proof {
        assert(a_x@ =~= after2_x);
        assert(a_y@ =~= after2_y);
        assert(a_z@ =~= after2_z);
    }
    let first = start_index;
    let mut o_x: Vec<T> = Vec::new();
    let mut o_y: Vec<T> = Vec::new();
    let mut o_z: Vec<T> = Vec::new();
    let mut p: usize = first;
    while p < last
        invariant
            first <= p <= last,
            last <= n,
            a_x@.len() == n && a_y@.len() == n && a_z@.len() == n,
            o_x@ == a_x@.subrange(first as int, p as int),
            o_y@ == a_y@.subrange(first as int, p as int),
            o_z@ == a_z@.subrange(first as int, p as int),
        decreases last - p,
    {
        o_x.push(a_x[p]);
        o_y.push(a_y[p]);
        o_z.push(a_z[p]);
        proof {
            assert(a_x@.subrange(first as int, p + 1) == a_x@.subrange(
                first as int,
                p as int,
            ).push(a_x@[p as int]));
            assert(a_y@.subrange(first as int, p + 1) == a_y@.subrange(
                first as int,
                p as int,
            ).push(a_y@[p as int]));
            assert(a_z@.subrange(first as int, p + 1) == a_z@.subrange(
                first as int,
                p as int,
            ).push(a_z@[p as int]));
        }
        p = p + 1;
    }
    proof {
        assert(o_x@ == adjusted_channel(w_x@, first as int, last as int));
        assert(o_y@ == adjusted_channel(w_y@, first as int, last as int));
        assert(o_z@ == adjusted_channel(w_z@, first as int, last as int));
    }
    Ok((o_x, o_y, o_z))
}



/// The illuminant the weighting path works with is determined: whatever
/// stands in the path's illuminant relation for the same inputs has the
/// same samples and shape.
proof fn lemma_twf_illuminant_determined<T: Scalar>(
    illuminant: VSPD<T>,
    cshape: SpdShape<T>,
    a: VSPD<T>,
    b: VSPD<T>,
)
    requires
        shape_eq_spec(illuminant.shape, cshape) ==> a.samples@ == illuminant.samples@ && a.shape
            == illuminant.shape,
        !shape_eq_spec(illuminant.shape, cshape) ==> is_aligned_to(illuminant, cshape, a)
            && a.samples@.len() <= usize::MAX,
        shape_eq_spec(illuminant.shape, cshape) ==> b.samples@ == illuminant.samples@ && b.shape
            == illuminant.shape,
        !shape_eq_spec(illuminant.shape, cshape) ==> is_aligned_to(illuminant, cshape, b)
            && b.samples@.len() <= usize::MAX,
    ensures
        a.samples@ == b.samples@,
        a.shape == b.shape,
{
    if !shape_eq_spec(illuminant.shape, cshape) {
        lemma_align_deterministic(illuminant, cshape, a, b);
    }
}

/// The inputs the ten-nanometre weighting-factor path accepts, relative
/// to the illuminant it would work with: a uniform spectrum, an
/// illuminant on the observer's shape (or alignable to it), a non-empty
/// trim, acceptable weighting-table inputs, and boundary-adjustment
/// indices that land inside the table.
pub open spec fn twf_path_ready<T: Scalar>(
    spd: VSPD<T>,
    illuminant: VSPD<T>,
    cmf: crate::cmf::CMF<T>,
    ill2v: VSPD<T>,
) -> bool {
    &&& (spd.shape.interval matches Interval::Uniform(st))
    &&& (shape_eq_spec(illuminant.shape, cmf.x_bar.shape) ==> ill2v.samples@
        == illuminant.samples@ && ill2v.shape == illuminant.shape)
    &&& (!shape_eq_spec(illuminant.shape, cmf.x_bar.shape) ==> ((
    cmf.x_bar.shape.interval matches Interval::Uniform(ci2)) && illuminant.clamped_to(
        cmf.x_bar.shape,
    ).count_spec() is Ok && is_aligned_to(illuminant, cmf.x_bar.shape, ill2v)
        && ill2v.samples@.len() <= usize::MAX))
    &&& take_at_most_count(
        spd.samples@.skip(skip_below_count(spd.samples@, cmf.x_bar.shape.start) as int),
        cmf.x_bar.shape.end,
    ) != 0
    &&& twf_inputs_ok(
        cmf,
        ill2v,
        SpdShape {
            start: cmf.x_bar.shape.start,
            end: cmf.x_bar.shape.end,
            interval: spd.shape.interval,
        },
    )
    &&& twf_table(
        sample_values(ill2v),
        sample_values(cmf.x_bar),
        interp_step(spd.shape),
        cmf.x_bar.samples@.len() as int,
    ).len() >= 1
    &&& trim_model(spd, cmf.x_bar.shape)[0].nm.sub_spec(cmf.x_bar.shape.start).div_spec(
        interp_step(spd.shape),
    ).to_usize_spec() < twf_table(
        sample_values(ill2v),
        sample_values(cmf.x_bar),
        interp_step(spd.shape),
        cmf.x_bar.samples@.len() as int,
    ).len()
    &&& cmf.x_bar.shape.start.add_spec(
        interp_step(spd.shape).mul_spec(
            T::from_usize_spec(
                (twf_table(
                    sample_values(ill2v),
                    sample_values(cmf.x_bar),
                    interp_step(spd.shape),
                    cmf.x_bar.samples@.len() as int,
                ).len() - 1) as usize,
            ),
        ),
    ).sub_spec(
        trim_model(spd, cmf.x_bar.shape)[trim_model(spd, cmf.x_bar.shape).len() - 1].nm,
    ).div_spec(interp_step(spd.shape)).to_usize_spec() < twf_table(
        sample_values(ill2v),
        sample_values(cmf.x_bar),
        interp_step(spd.shape),
        cmf.x_bar.samples@.len() as int,
    ).len()
    &&& trim_model(spd, cmf.x_bar.shape)[0].nm.sub_spec(cmf.x_bar.shape.start).div_spec(
        interp_step(spd.shape),
    ).to_usize_spec() + cmf.x_bar.shape.start.add_spec(
        interp_step(spd.shape).mul_spec(
            T::from_usize_spec(
                (twf_table(
                    sample_values(ill2v),
                    sample_values(cmf.x_bar),
                    interp_step(spd.shape),
                    cmf.x_bar.samples@.len() as int,
                ).len() - 1) as usize,
            ),
        ),
    ).sub_spec(
        trim_model(spd, cmf.x_bar.shape)[trim_model(spd, cmf.x_bar.shape).len() - 1].nm,
    ).div_spec(interp_step(spd.shape)).to_usize_spec() <= twf_table(
        sample_values(ill2v),
        sample_values(cmf.x_bar),
        interp_step(spd.shape),
        cmf.x_bar.samples@.len() as int,
    ).len()
}

/// What the ten-nanometre weighting-factor path produced: for some
/// illuminant brought onto the observer's shape (or taken as is when
/// the shapes already agree), the output channels are dot products of
/// the boundary-adjusted, rescaled E2022 weighting tables against the
/// spectrum trimmed to the observer's domain.
pub open spec fn twf_path_outcome<T: Scalar>(
    spd: VSPD<T>,
    illuminant: VSPD<T>,
    cmf: crate::cmf::CMF<T>,
    out: XYZ<T>,
) -> bool {
    exists|ill2v: VSPD<T>, wx: Seq<T>, wy: Seq<T>, wz: Seq<T>|
        {
                &&& (shape_eq_spec(illuminant.shape, cmf.x_bar.shape) ==> ill2v.samples@
                    == illuminant.samples@ && ill2v.shape == illuminant.shape)
                &&& (!shape_eq_spec(illuminant.shape, cmf.x_bar.shape) ==> is_aligned_to(
                    illuminant,
                    cmf.x_bar.shape,
                    ill2v,
                ))
                &&& #[trigger] scaled_by(
                    wx,
                    twf_table(
                        sample_values(ill2v),
                        sample_values(cmf.x_bar),
                        interp_step(spd.shape),
                        cmf.x_bar.samples@.len() as int,
                    ),
                    T::from_ratio_spec(100, 1).div_spec(
                        seq_sum(
                            twf_table(
                                sample_values(ill2v),
                                sample_values(cmf.y_bar),
                                interp_step(spd.shape),
                                cmf.x_bar.samples@.len() as int,
                            ),
                            twf_table(
                                sample_values(ill2v),
                                sample_values(cmf.y_bar),
                                interp_step(spd.shape),
                                cmf.x_bar.samples@.len() as int,
                            ).len(),
                        ),
                    ),
                )
                &&& #[trigger] scaled_by(
                    wy,
                    twf_table(
                        sample_values(ill2v),
                        sample_values(cmf.y_bar),
                        interp_step(spd.shape),
                        cmf.x_bar.samples@.len() as int,
                    ),
                    T::from_ratio_spec(100, 1).div_spec(
                        seq_sum(
                            twf_table(
                                sample_values(ill2v),
                                sample_values(cmf.y_bar),
                                interp_step(spd.shape),
                                cmf.x_bar.samples@.len() as int,
                            ),
                            twf_table(
                                sample_values(ill2v),
                                sample_values(cmf.y_bar),
                                interp_step(spd.shape),
                                cmf.x_bar.samples@.len() as int,
                            ).len(),
                        ),
                    ),
                )
                &&& #[trigger] scaled_by(
                    wz,
                    twf_table(
                        sample_values(ill2v),
                        sample_values(cmf.z_bar),
                        interp_step(spd.shape),
                        cmf.x_bar.samples@.len() as int,
                    ),
                    T::from_ratio_spec(100, 1).div_spec(
                        seq_sum(
                            twf_table(
                                sample_values(ill2v),
                                sample_values(cmf.y_bar),
                                interp_step(spd.shape),
                                cmf.x_bar.samples@.len() as int,
                            ),
                            twf_table(
                                sample_values(ill2v),
                                sample_values(cmf.y_bar),
                                interp_step(spd.shape),
                                cmf.x_bar.samples@.len() as int,
                            ).len(),
                        ),
                    ),
                )
                &&& out.x == weight_dot(
                    adjusted_channel(
                        wx,
                        trim_model(spd, cmf.x_bar.shape)[0].nm.sub_spec(
                            cmf.x_bar.shape.start,
                        ).div_spec(interp_step(spd.shape)).to_usize_spec() as int,
                        wx.len() - cmf.x_bar.shape.start.add_spec(
                            interp_step(spd.shape).mul_spec(
                                T::from_usize_spec((wx.len() - 1) as usize),
                            ),
                        ).sub_spec(
                            trim_model(spd, cmf.x_bar.shape)[trim_model(
                                spd,
                                cmf.x_bar.shape,
                            ).len() - 1].nm,
                        ).div_spec(interp_step(spd.shape)).to_usize_spec(),
                    ),
                    trim_model(spd, cmf.x_bar.shape),
                    crate::interpolation::min_nat(
                        adjusted_channel(
                            wx,
                            trim_model(spd, cmf.x_bar.shape)[0].nm.sub_spec(
                                cmf.x_bar.shape.start,
                            ).div_spec(interp_step(spd.shape)).to_usize_spec() as int,
                            wx.len() - cmf.x_bar.shape.start.add_spec(
                                interp_step(spd.shape).mul_spec(
                                    T::from_usize_spec((wx.len() - 1) as usize),
                                ),
                            ).sub_spec(
                                trim_model(spd, cmf.x_bar.shape)[trim_model(
                                    spd,
                                    cmf.x_bar.shape,
                                ).len() - 1].nm,
                            ).div_spec(interp_step(spd.shape)).to_usize_spec(),
                        ).len(),
                        trim_model(spd, cmf.x_bar.shape).len(),
                    ),
                )
                &&& out.y == weight_dot(
                    adjusted_channel(
                        wy,
                        trim_model(spd, cmf.x_bar.shape)[0].nm.sub_spec(
                            cmf.x_bar.shape.start,
                        ).div_spec(interp_step(spd.shape)).to_usize_spec() as int,
                        wy.len() - cmf.x_bar.shape.start.add_spec(
                            interp_step(spd.shape).mul_spec(
                                T::from_usize_spec((wy.len() - 1) as usize),
                            ),
                        ).sub_spec(
                            trim_model(spd, cmf.x_bar.shape)[trim_model(
                                spd,
                                cmf.x_bar.shape,
                            ).len() - 1].nm,
                        ).div_spec(interp_step(spd.shape)).to_usize_spec(),
                    ),
                    trim_model(spd, cmf.x_bar.shape),
                    crate::interpolation::min_nat(
                        adjusted_channel(
                            wy,
                            trim_model(spd, cmf.x_bar.shape)[0].nm.sub_spec(
                                cmf.x_bar.shape.start,
                            ).div_spec(interp_step(spd.shape)).to_usize_spec() as int,
                            wy.len() - cmf.x_bar.shape.start.add_spec(
                                interp_step(spd.shape).mul_spec(
                                    T::from_usize_spec((wy.len() - 1) as usize),
                                ),
                            ).sub_spec(
                                trim_model(spd, cmf.x_bar.shape)[trim_model(
                                    spd,
                                    cmf.x_bar.shape,
                                ).len() - 1].nm,
                            ).div_spec(interp_step(spd.shape)).to_usize_spec(),
                        ).len(),
                        trim_model(spd, cmf.x_bar.shape).len(),
                    ),
                )
                &&& out.z == weight_dot(
                    adjusted_channel(
                        wz,
                        trim_model(spd, cmf.x_bar.shape)[0].nm.sub_spec(
                            cmf.x_bar.shape.start,
                        ).div_spec(interp_step(spd.shape)).to_usize_spec() as int,
                        wz.len() - cmf.x_bar.shape.start.add_spec(
                            interp_step(spd.shape).mul_spec(
                                T::from_usize_spec((wz.len() - 1) as usize),
                            ),
                        ).sub_spec(
                            trim_model(spd, cmf.x_bar.shape)[trim_model(
                                spd,
                                cmf.x_bar.shape,
                            ).len() - 1].nm,
                        ).div_spec(interp_step(spd.shape)).to_usize_spec(),
                    ),
                    trim_model(spd, cmf.x_bar.shape),
                    crate::interpolation::min_nat(
                        adjusted_channel(
                            wz,
                            trim_model(spd, cmf.x_bar.shape)[0].nm.sub_spec(
                                cmf.x_bar.shape.start,
                            ).div_spec(interp_step(spd.shape)).to_usize_spec() as int,
                            wz.len() - cmf.x_bar.shape.start.add_spec(
                                interp_step(spd.shape).mul_spec(
                                    T::from_usize_spec((wz.len() - 1) as usize),
                                ),
                            ).sub_spec(
                                trim_model(spd, cmf.x_bar.shape)[trim_model(
                                    spd,
                                    cmf.x_bar.shape,
                                ).len() - 1].nm,
                            ).div_spec(interp_step(spd.shape)).to_usize_spec(),
                        ).len(),
                        trim_model(spd, cmf.x_bar.shape).len(),
                    ),
                )
            }
}

/// The ten-nanometre fast path: convert through the ASTM E308
/// tristimulus weighting factors: the illuminant is brought onto the
/// observer's shape when it differs, the E2022 weighting tables are
/// built at the spectrum's measurement interval, their boundary mass is
/// folded inward to the trimmed spectrum's domain, and each channel is
/// the dot product of the adjusted table against the trimmed samples.
pub fn spd_to_xyz_tristimulus_weighting_factors_astme308<T: Scalar>(
    spd: &VSPD<T>,
    illuminant: &VSPD<T>,
    cmf: &crate::cmf::CMF<T>,
) -> (r: Result<crate::xyz::XYZ<T>, SpdError>)
    requires
        illuminant.wf(),
        cmf.wf(),
    ensures
        r is Ok <==> exists|ill2v: VSPD<T>| #[trigger] twf_path_ready(
            *spd,
            *illuminant,
            *cmf,
            ill2v,
        ),
        r matches Ok(out) ==> twf_path_outcome(*spd, *illuminant, *cmf, out),
{
    let interval = match spd.interval() {
        Interval::Uniform(i) => i,
        Interval::Varying => {
            return Err(SpdError::VaryingInterval);
        },
    };
    let ghost shapes_equal = shape_eq_spec(illuminant.shape, cmf.x_bar.shape);
    let ill2 = if !illuminant.shape().eqv(cmf.shape()) {
        match illuminant.align(cmf.shape()) {
            Ok(v) => v,
            Err(e) => {
                proof {
                    if exists|ill2v: VSPD<T>|
                        #[trigger] twf_path_ready(*spd, *illuminant, *cmf, ill2v) {
                        let ill2v = choose|ill2v: VSPD<T>|
                            #[trigger] twf_path_ready(*spd, *illuminant, *cmf, ill2v);
                        assert(illuminant.clamped_to(cmf.x_bar.shape).count_spec() is Ok);
                        assert(false);
                    }
                }
                return Err(e);
            },
        }
    } else {
        illuminant.copied()
    };
    let ill2_len: usize = ill2.samples.len();
    proof {
        assert(ill2.samples@.len() == ill2_len);
    }
    let trimmed = match spd.trim(cmf.shape()) {
        Ok(v) => v,
        Err(e) => {
            return Err(e);
        },
    };
    let w = match tristimulus_weighting_factors_astme2022(
        cmf,
        &ill2,
        SpdShape::new(cmf.shape().start, cmf.shape().end, interval),
    ) {
        Ok(v) => v,
        Err(e) => {
            proof {
                if exists|ill2v: VSPD<T>| #[trigger] twf_path_ready(*spd, *illuminant, *cmf, ill2v) {
                    let ill2v = choose|ill2v: VSPD<T>|
                        #[trigger] twf_path_ready(*spd, *illuminant, *cmf, ill2v);
                    lemma_twf_illuminant_determined(*illuminant, cmf.x_bar.shape, ill2, ill2v);
                    assert(twf_inputs_ok(
                        *cmf,
                        ill2,
                        SpdShape {
                            start: cmf.x_bar.shape.start,
                            end: cmf.x_bar.shape.end,
                            interval: spd.shape.interval,
                        },
                    ));
                    assert(false);
                }
            }
            return Err(e);
        },
    };
    let (t_x, t_y, t_z) = w;
    let ghost iv = interp_step(spd.shape);
    assert(iv == interval);
    let ghost tm = trim_model(*spd, cmf.x_bar.shape);
    assert(trimmed.samples@ == tm);
    if t_x.len() < 1 {
        proof {
            if exists|ill2v: VSPD<T>| #[trigger] twf_path_ready(*spd, *illuminant, *cmf, ill2v) {
                let ill2v = choose|ill2v: VSPD<T>|
                    #[trigger] twf_path_ready(*spd, *illuminant, *cmf, ill2v);
                lemma_twf_illuminant_determined(*illuminant, cmf.x_bar.shape, ill2, ill2v);
                assert(sample_values(ill2) == sample_values(ill2v));
                assert(t_x@.len() == twf_table(
                    sample_values(ill2v),
                    sample_values(cmf.x_bar),
                    iv,
                    cmf.x_bar.samples@.len() as int,
                ).len());
                assert(false);
            }
        }
        return Err(SpdError::LengthMismatch);
    }
    let start_w = cmf.shape().start;
    let end_w = cmf.shape().start.add(interval.mul(T::from_usize(t_x.len() - 1)));
    let wadj = match adjust_tristimulus_weighting_factors_astme308(
        &t_x,
        &t_y,
        &t_z,
        SpdShape::new(start_w, end_w, interval),
        trimmed.shape(),
    ) {
        Ok(v) => v,
        Err(e) => {
            proof {
                if exists|ill2v: VSPD<T>| #[trigger] twf_path_ready(*spd, *illuminant, *cmf, ill2v) {
                    let ill2v = choose|ill2v: VSPD<T>|
                        #[trigger] twf_path_ready(*spd, *illuminant, *cmf, ill2v);
                    lemma_twf_illuminant_determined(*illuminant, cmf.x_bar.shape, ill2, ill2v);
                    assert(sample_values(ill2) == sample_values(ill2v));
                    assert(t_x@.len() == twf_table(
                        sample_values(ill2v),
                        sample_values(cmf.x_bar),
                        iv,
                        cmf.x_bar.samples@.len() as int,
                    ).len());
                    assert(trimmed.shape.start == tm[0].nm && trimmed.shape.end == tm[tm.len()
                        - 1].nm);
                    assert(false);
                }
            }
            return Err(e);
        },
    };
    let (a_x, a_y, a_z) = wadj;
    let nx = if a_x.len() < trimmed.samples.len() {
        a_x.len()
    } else {
        trimmed.samples.len()
    };
    let mut sx = T::zero();
    let mut m: usize = 0;
    while m < nx
        invariant
            m <= nx,
            nx == crate::interpolation::min_nat(a_x@.len(), tm.len()),
            trimmed.samples@ == tm,
            sx == weight_dot(a_x@, tm, m as nat),
        decreases nx - m,
    {
        sx = sx.add(a_x[m].mul(trimmed.samples[m].v));
        m = m + 1;
    }
    let ny = if a_y.len() < trimmed.samples.len() {
        a_y.len()
    } else {
        trimmed.samples.len()
    };
    let mut sy = T::zero();
    let mut m2: usize = 0;
    while m2 < ny
        invariant
            m2 <= ny,
            ny == crate::interpolation::min_nat(a_y@.len(), tm.len()),
            trimmed.samples@ == tm,
            sy == weight_dot(a_y@, tm, m2 as nat),
        decreases ny - m2,
    {
        sy = sy.add(a_y[m2].mul(trimmed.samples[m2].v));
        m2 = m2 + 1;
    }
    let nz = if a_z.len() < trimmed.samples.len() {
        a_z.len()
    } else {
        trimmed.samples.len()
    };
    let mut sz = T::zero();
    let mut m3: usize = 0;
    while m3 < nz
        invariant
            m3 <= nz,
            nz == crate::interpolation::min_nat(a_z@.len(), tm.len()),
            trimmed.samples@ == tm,
            sz == weight_dot(a_z@, tm, m3 as nat),
        decreases nz - m3,
    {
        sz = sz.add(a_z[m3].mul(trimmed.samples[m3].v));
        m3 = m3 + 1;
    }
    let out = crate::xyz::xyz(sx, sy, sz);
    proof {
        let ghost svals = sample_values(ill2);
        let ghost xvals = sample_values(cmf.x_bar);
        let ghost yvals = sample_values(cmf.y_bar);
        let ghost zvals = sample_values(cmf.z_bar);
        let ghost wcn = cmf.x_bar.samples@.len() as int;
        let ghost kf = T::from_ratio_spec(100, 1).div_spec(
            seq_sum(twf_table(svals, yvals, iv, wcn), twf_table(svals, yvals, iv, wcn).len()),
        );
        assert(scaled_by(t_x@, twf_table(svals, xvals, iv, wcn), kf));
        assert(scaled_by(t_y@, twf_table(svals, yvals, iv, wcn), kf));
        assert(scaled_by(t_z@, twf_table(svals, zvals, iv, wcn), kf));
        // the adjustment indices the contract speaks of are the ones the
        // executable computed
        let ghost first_idx = tm[0].nm.sub_spec(cmf.x_bar.shape.start).div_spec(
            iv,
        ).to_usize_spec() as int;
        let ghost last_idx = t_x@.len() - cmf.x_bar.shape.start.add_spec(
            iv.mul_spec(T::from_usize_spec((t_x@.len() - 1) as usize)),
        ).sub_spec(tm[tm.len() - 1].nm).div_spec(iv).to_usize_spec();
        assert(trimmed.shape.start == tm[0].nm && trimmed.shape.end == tm[tm.len() - 1].nm);
        assert(a_x@ == adjusted_channel(t_x@, first_idx, last_idx));
        assert(a_y@ == adjusted_channel(t_y@, first_idx, last_idx));
        assert(a_z@ == adjusted_channel(t_z@, first_idx, last_idx));
        assert(out.x == weight_dot(
            adjusted_channel(t_x@, first_idx, last_idx),
            tm,
            crate::interpolation::min_nat(
                adjusted_channel(t_x@, first_idx, last_idx).len(),
                tm.len(),
            ),
        ));
        assert(out.y == weight_dot(
            adjusted_channel(t_y@, first_idx, last_idx),
            tm,
            crate::interpolation::min_nat(
                adjusted_channel(t_y@, first_idx, last_idx).len(),
                tm.len(),
            ),
        ));
        assert(out.z == weight_dot(
            adjusted_channel(t_z@, first_idx, last_idx),
            tm,
            crate::interpolation::min_nat(
                adjusted_channel(t_z@, first_idx, last_idx).len(),
                tm.len(),
            ),
        ));
        // success was owed: the path's readiness holds of the illuminant
        // it worked with
        assert(twf_path_ready(*spd, *illuminant, *cmf, ill2));
    }
    Ok(out)
}




/// The standard-domain alignment a conversion relies on: the source
/// aligns successfully to the observer domain, and the aligned curve is
/// a usable spectrum.
pub open spec fn std_aligned_ok<T: Scalar>(src: VSPD<T>, out: VSPD<T>) -> bool {
    &&& src.clamped_to(
        SpdShape {
            start: T::from_ratio_spec(360, 1),
            end: T::from_ratio_spec(780, 1),
            interval: Interval::Uniform(T::from_ratio_spec(1, 1)),
        },
    ).count_spec() is Ok
    &&& is_aligned_to(
        src,
        SpdShape {
            start: T::from_ratio_spec(360, 1),
            end: T::from_ratio_spec(780, 1),
            interval: Interval::Uniform(T::from_ratio_spec(1, 1)),
        },
        out,
    )
    &&& 2 <= out.samples@.len() <= usize::MAX
}

/// Direct integration succeeds at a shape when every curve clamps to it
/// with a representable grid.
pub open spec fn curves_ok_at<T: Scalar>(
    spd: VSPD<T>,
    ia: VSPD<T>,
    cax: VSPD<T>,
    cay: VSPD<T>,
    caz: VSPD<T>,
    shape: SpdShape<T>,
) -> bool {
    &&& spd.clamped_to(shape).count_spec() is Ok
    &&& ia.clamped_to(shape).count_spec() is Ok
    &&& cax.clamped_to(shape).count_spec() is Ok
    &&& cay.clamped_to(shape).count_spec() is Ok
    &&& caz.clamped_to(shape).count_spec() is Ok
}

impl<T: Scalar> VSPD<T> {
    /// Convert this spectrum to a tristimulus value by the ASTM E308
    /// method: the illuminant and observer curves are aligned to the
    /// standard domain, and the integration path is chosen by this
    /// spectrum's native interval. One and five nanometre data is
    /// integrated directly at that resolution; ten nanometre data goes
    /// through the tristimulus weighting factor tables; anything else,
    /// including irregular spacing, falls back to interpolation and
    /// direct integration at one nanometre.
    #[verifier::rlimit(100)]
    #[verifier::spinoff_prover]
    pub fn to_xyz(
        &self,
        illuminant: &VSPD<T>,
        cmf: &crate::cmf::CMF<T>,
    ) -> (r: Result<XYZ<T>, SpdError>)
        requires
            self.wf(),
            illuminant.wf(),
            cmf.wf(),
        ensures
            !(self.shape.interval matches Interval::Uniform(iv) && iv.to_usize_spec() == 10)
                ==> (r is Ok <==> exists|ia: VSPD<T>, cax: VSPD<T>, cay: VSPD<T>, caz: VSPD<T>|
                {
                    &&& #[trigger] std_aligned_ok(*illuminant, ia)
                    &&& #[trigger] std_aligned_ok(cmf.x_bar, cax)
                    &&& #[trigger] std_aligned_ok(cmf.y_bar, cay)
                    &&& #[trigger] std_aligned_ok(cmf.z_bar, caz)
                    &&& match self.shape.interval {
                        Interval::Varying => self.clamped_to(
                            (SpdShape {
                                start: self.shape.start,
                                end: self.shape.end,
                                interval: Interval::Uniform(T::from_ratio_spec(1, 1)),
                            }),
                        ).count_spec() is Ok && exists|s1: VSPD<T>|
                            #[trigger] is_aligned_to(
                                *self,
                                (SpdShape {
                                    start: self.shape.start,
                                    end: self.shape.end,
                                    interval: Interval::Uniform(T::from_ratio_spec(1, 1)),
                                }),
                                s1,
                            ) && 2 <= s1.samples@.len() <= usize::MAX && curves_ok_at(
                                s1,
                                ia,
                                cax,
                                cay,
                                caz,
                                s1.shape,
                            ),
                        Interval::Uniform(iv) => if iv.to_usize_spec() == 5 {
                            curves_ok_at(
                                *self,
                                ia,
                                cax,
                                cay,
                                caz,
                                (SpdShape {
                                    start: T::from_ratio_spec(360, 1),
                                    end: T::from_ratio_spec(780, 1),
                                    interval: Interval::Uniform(T::from_ratio_spec(5, 1)),
                                }),
                            )
                        } else {
                            curves_ok_at(
                                *self,
                                ia,
                                cax,
                                cay,
                                caz,
                                (SpdShape {
                                    start: T::from_ratio_spec(360, 1),
                                    end: T::from_ratio_spec(780, 1),
                                    interval: Interval::Uniform(T::from_ratio_spec(1, 1)),
                                }),
                            )
                        },
                    }
                }),
            r matches Ok(out) ==> exists|ia: VSPD<T>, ca: crate::cmf::CMF<T>|
                {
                    &&& #[trigger] is_aligned_to(
                        *illuminant,
                        (SpdShape {
                            start: T::from_ratio_spec(360, 1),
                            end: T::from_ratio_spec(780, 1),
                            interval: Interval::Uniform(T::from_ratio_spec(1, 1)),
                        }),
                        ia,
                    )
                    &&& #[trigger] is_aligned_to(
                        cmf.x_bar,
                        (SpdShape {
                            start: T::from_ratio_spec(360, 1),
                            end: T::from_ratio_spec(780, 1),
                            interval: Interval::Uniform(T::from_ratio_spec(1, 1)),
                        }),
                        ca.x_bar,
                    )
                    &&& is_aligned_to(
                        cmf.y_bar,
                        (SpdShape {
                            start: T::from_ratio_spec(360, 1),
                            end: T::from_ratio_spec(780, 1),
                            interval: Interval::Uniform(T::from_ratio_spec(1, 1)),
                        }),
                        ca.y_bar,
                    )
                    &&& is_aligned_to(
                        cmf.z_bar,
                        (SpdShape {
                            start: T::from_ratio_spec(360, 1),
                            end: T::from_ratio_spec(780, 1),
                            interval: Interval::Uniform(T::from_ratio_spec(1, 1)),
                        }),
                        ca.z_bar,
                    )
                    &&& match self.shape.interval {
                        Interval::Varying => exists|s1: VSPD<T>|
                            #[trigger] is_aligned_to(
                                *self,
                                (SpdShape {
                                    start: self.shape.start,
                                    end: self.shape.end,
                                    interval: Interval::Uniform(T::from_ratio_spec(1, 1)),
                                }),
                                s1,
                            ) && integration_rel(s1, ia, ca, s1.shape, out),
                        Interval::Uniform(iv) => if iv.to_usize_spec() == 10 {
                            twf_path_outcome(*self, ia, ca, out) && exists|ill2v: VSPD<T>|
                                #[trigger] twf_path_ready(*self, ia, ca, ill2v)
                        } else if iv.to_usize_spec() == 5 {
                            integration_rel(
                                *self,
                                ia,
                                ca,
                                (SpdShape {
                                    start: T::from_ratio_spec(360, 1),
                                    end: T::from_ratio_spec(780, 1),
                                    interval: Interval::Uniform(T::from_ratio_spec(5, 1)),
                                }),
                                out,
                            )
                        } else {
                            integration_rel(
                                *self,
                                ia,
                                ca,
                                (SpdShape {
                                    start: T::from_ratio_spec(360, 1),
                                    end: T::from_ratio_spec(780, 1),
                                    interval: Interval::Uniform(T::from_ratio_spec(1, 1)),
                                }),
                                out,
                            )
                        },
                    }
                },
    {
        let ghost stdg: SpdShape<T> = SpdShape {
            start: T::from_ratio_spec(360, 1),
            end: T::from_ratio_spec(780, 1),
            interval: Interval::Uniform(T::from_ratio_spec(1, 1)),
        };
        let std_shape = SpdShape::astm_e308();
        assert(std_shape == stdg);
        let ill_a = match illuminant.align(std_shape) {
            Ok(v) => v,
            Err(e) => {
                proof {
                    assert(illuminant.clamped_to(stdg).count_spec() is Err);
                    assert forall|ia: VSPD<T>| !(#[trigger] std_aligned_ok(
                        *illuminant,
                        ia,
                    )) by {}
                }
                return Err(e);
            },
        };
        let cmf_a = match cmf.align(std_shape) {
            Ok(v) => v,
            Err(e) => {
                proof {
                    if exists|ia: VSPD<T>, cax: VSPD<T>, cay: VSPD<T>, caz: VSPD<T>|
                        #[trigger] std_aligned_ok(*illuminant, ia) && #[trigger] std_aligned_ok(
                            cmf.x_bar,
                            cax,
                        ) && #[trigger] std_aligned_ok(cmf.y_bar, cay)
                            && #[trigger] std_aligned_ok(cmf.z_bar, caz) {
                        let (ia, cax, cay, caz) = choose|
                            ia: VSPD<T>,
                            cax: VSPD<T>,
                            cay: VSPD<T>,
                            caz: VSPD<T>,
                        |
                            #[trigger] std_aligned_ok(*illuminant, ia)
                                && #[trigger] std_aligned_ok(cmf.x_bar, cax)
                                && #[trigger] std_aligned_ok(cmf.y_bar, cay)
                                && #[trigger] std_aligned_ok(cmf.z_bar, caz);
                        assert(cmf.x_bar.clamped_to(stdg).count_spec() is Ok);
                        assert(cmf.y_bar.clamped_to(stdg).count_spec() is Ok);
                        assert(cmf.z_bar.clamped_to(stdg).count_spec() is Ok);
                        assert(false);
                    }
                }
                return Err(e);
            },
        };
        if ill_a.samples.len() < 2 || cmf_a.x_bar.samples.len() < 2 || cmf_a.y_bar.samples.len()
            < 2 || cmf_a.z_bar.samples.len() < 2 {
            proof {
                if exists|ia: VSPD<T>, cax: VSPD<T>, cay: VSPD<T>, caz: VSPD<T>|
                    #[trigger] std_aligned_ok(*illuminant, ia) && #[trigger] std_aligned_ok(
                        cmf.x_bar,
                        cax,
                    ) && #[trigger] std_aligned_ok(cmf.y_bar, cay) && #[trigger] std_aligned_ok(
                        cmf.z_bar,
                        caz,
                    ) {
                    let (ia, cax, cay, caz) = choose|
                        ia: VSPD<T>,
                        cax: VSPD<T>,
                        cay: VSPD<T>,
                        caz: VSPD<T>,
                    |
                        #[trigger] std_aligned_ok(*illuminant, ia) && #[trigger] std_aligned_ok(
                            cmf.x_bar,
                            cax,
                        ) && #[trigger] std_aligned_ok(cmf.y_bar, cay)
                            && #[trigger] std_aligned_ok(cmf.z_bar, caz);
                    lemma_align_deterministic(*illuminant, stdg, ill_a, ia);
                    lemma_align_deterministic(cmf.x_bar, stdg, cmf_a.x_bar, cax);
                    lemma_align_deterministic(cmf.y_bar, stdg, cmf_a.y_bar, cay);
                    lemma_align_deterministic(cmf.z_bar, stdg, cmf_a.z_bar, caz);
                    assert(false);
                }
            }
            return Err(SpdError::TooFewSamples);
        }
        match self.interval() {
            Interval::Varying => {
                let ghost own: SpdShape<T> = SpdShape {
                    start: self.shape.start,
                    end: self.shape.end,
                    interval: Interval::Uniform(T::from_ratio_spec(1, 1)),
                };
                let own_shape = SpdShape::new(self.start(), self.end(), T::from_ratio(1, 1));
                assert(own_shape == own);
                let spd1 = match self.align(own_shape) {
                    Ok(v) => v,
                    Err(e) => {
                        proof {
                            assert(self.clamped_to(own).count_spec() is Err);
                        }
                        return Err(e);
                    },
                };
                if spd1.samples.len() < 2 {
                    proof {
                        if exists|s1: VSPD<T>|
                            #[trigger] is_aligned_to(*self, own, s1) && 2 <= s1.samples@.len()
                                <= usize::MAX {
                            let s1 = choose|s1: VSPD<T>|
                                #[trigger] is_aligned_to(*self, own, s1) && 2 <= s1.samples@.len()
                                    <= usize::MAX;
                            lemma_align_deterministic(*self, own, spd1, s1);
                            assert(false);
                        }
                    }
                    return Err(SpdError::TooFewSamples);
                }
                let out = match spd_to_xyz_integration(&spd1, &ill_a, &cmf_a, spd1.shape()) {
                    Ok(v) => v,
                    Err(e) => {
                        proof {
                            if exists|
                                ia: VSPD<T>,
                                cax: VSPD<T>,
                                cay: VSPD<T>,
                                caz: VSPD<T>,
                                s1: VSPD<T>,
                            |
                                #[trigger] std_aligned_ok(*illuminant, ia)
                                    && #[trigger] std_aligned_ok(cmf.x_bar, cax)
                                    && #[trigger] std_aligned_ok(cmf.y_bar, cay)
                                    && #[trigger] std_aligned_ok(cmf.z_bar, caz)
                                    && #[trigger] is_aligned_to(*self, own, s1) && 2
                                    <= s1.samples@.len() <= usize::MAX && curves_ok_at(
                                    s1,
                                    ia,
                                    cax,
                                    cay,
                                    caz,
                                    s1.shape,
                                ) {
                                let (ia, cax, cay, caz, s1) = choose|
                                    ia: VSPD<T>,
                                    cax: VSPD<T>,
                                    cay: VSPD<T>,
                                    caz: VSPD<T>,
                                    s1: VSPD<T>,
                                |
                                    #[trigger] std_aligned_ok(*illuminant, ia)
                                        && #[trigger] std_aligned_ok(cmf.x_bar, cax)
                                        && #[trigger] std_aligned_ok(cmf.y_bar, cay)
                                        && #[trigger] std_aligned_ok(cmf.z_bar, caz)
                                        && #[trigger] is_aligned_to(*self, own, s1) && 2
                                        <= s1.samples@.len() <= usize::MAX && curves_ok_at(
                                        s1,
                                        ia,
                                        cax,
                                        cay,
                                        caz,
                                        s1.shape,
                                    );
                                lemma_align_deterministic(*illuminant, stdg, ill_a, ia);
                                lemma_align_deterministic(cmf.x_bar, stdg, cmf_a.x_bar, cax);
                                lemma_align_deterministic(cmf.y_bar, stdg, cmf_a.y_bar, cay);
                                lemma_align_deterministic(cmf.z_bar, stdg, cmf_a.z_bar, caz);
                                lemma_align_deterministic(*self, own, spd1, s1);
                                assert(spd1.shape.interval matches Interval::Uniform(_));
                                assert(false);
                            }
                        }
                        return Err(e);
                    },
                };
                proof {
                    assert(std_aligned_ok(*illuminant, ill_a));
                    assert(std_aligned_ok(cmf.x_bar, cmf_a.x_bar));
                    assert(std_aligned_ok(cmf.y_bar, cmf_a.y_bar));
                    assert(std_aligned_ok(cmf.z_bar, cmf_a.z_bar));
                    assert(is_aligned_to(*self, own, spd1));
                    assert(curves_ok_at(spd1, ill_a, cmf_a.x_bar, cmf_a.y_bar, cmf_a.z_bar, spd1.shape));
                }
                Ok(out)
            },
            Interval::Uniform(interval) => {
                let code = interval.to_usize();
                if code == 10 {
                    let out = spd_to_xyz_tristimulus_weighting_factors_astme308(
                        self,
                        &ill_a,
                        &cmf_a,
                    )?;
                    Ok(out)
                } else if code == 5 {
                    let ghost five: SpdShape<T> = SpdShape {
                        start: T::from_ratio_spec(360, 1),
                        end: T::from_ratio_spec(780, 1),
                        interval: Interval::Uniform(T::from_ratio_spec(5, 1)),
                    };
                    let shape5 = SpdShape {
                        start: T::from_ratio(360, 1),
                        end: T::from_ratio(780, 1),
                        interval: Interval::Uniform(T::from_ratio(5, 1)),
                    };
                    assert(shape5 == five);
                    let out = match spd_to_xyz_integration(self, &ill_a, &cmf_a, shape5) {
                        Ok(v) => v,
                        Err(e) => {
                            proof {
                                if exists|ia: VSPD<T>, cax: VSPD<T>, cay: VSPD<T>, caz: VSPD<T>|
                                    #[trigger] std_aligned_ok(*illuminant, ia)
                                        && #[trigger] std_aligned_ok(cmf.x_bar, cax)
                                        && #[trigger] std_aligned_ok(cmf.y_bar, cay)
                                        && #[trigger] std_aligned_ok(cmf.z_bar, caz)
                                        && curves_ok_at(*self, ia, cax, cay, caz, five) {
                                    let (ia, cax, cay, caz) = choose|
                                        ia: VSPD<T>,
                                        cax: VSPD<T>,
                                        cay: VSPD<T>,
                                        caz: VSPD<T>,
                                    |
                                        #[trigger] std_aligned_ok(*illuminant, ia)
                                            && #[trigger] std_aligned_ok(cmf.x_bar, cax)
                                            && #[trigger] std_aligned_ok(cmf.y_bar, cay)
                                            && #[trigger] std_aligned_ok(cmf.z_bar, caz)
                                            && curves_ok_at(*self, ia, cax, cay, caz, five);
                                    lemma_align_deterministic(*illuminant, stdg, ill_a, ia);
                                    lemma_align_deterministic(cmf.x_bar, stdg, cmf_a.x_bar, cax);
                                    lemma_align_deterministic(cmf.y_bar, stdg, cmf_a.y_bar, cay);
                                    lemma_align_deterministic(cmf.z_bar, stdg, cmf_a.z_bar, caz);
                                    assert(false);
                                }
                            }
                            return Err(e);
                        },
                    };
                    proof {
                        assert(std_aligned_ok(*illuminant, ill_a));
                        assert(std_aligned_ok(cmf.x_bar, cmf_a.x_bar));
                        assert(std_aligned_ok(cmf.y_bar, cmf_a.y_bar));
                        assert(std_aligned_ok(cmf.z_bar, cmf_a.z_bar));
                        assert(curves_ok_at(*self, ill_a, cmf_a.x_bar, cmf_a.y_bar, cmf_a.z_bar, five));
                    }
                    Ok(out)
                } else {
                    let out = match spd_to_xyz_integration(self, &ill_a, &cmf_a, SpdShape::astm_e308()) {
                        Ok(v) => v,
                        Err(e) => {
                            proof {
                                if exists|ia: VSPD<T>, cax: VSPD<T>, cay: VSPD<T>, caz: VSPD<T>|
                                    #[trigger] std_aligned_ok(*illuminant, ia)
                                        && #[trigger] std_aligned_ok(cmf.x_bar, cax)
                                        && #[trigger] std_aligned_ok(cmf.y_bar, cay)
                                        && #[trigger] std_aligned_ok(cmf.z_bar, caz)
                                        && curves_ok_at(*self, ia, cax, cay, caz, stdg) {
                                    let (ia, cax, cay, caz) = choose|
                                        ia: VSPD<T>,
                                        cax: VSPD<T>,
                                        cay: VSPD<T>,
                                        caz: VSPD<T>,
                                    |
                                        #[trigger] std_aligned_ok(*illuminant, ia)
                                            && #[trigger] std_aligned_ok(cmf.x_bar, cax)
                                            && #[trigger] std_aligned_ok(cmf.y_bar, cay)
                                            && #[trigger] std_aligned_ok(cmf.z_bar, caz)
                                            && curves_ok_at(*self, ia, cax, cay, caz, stdg);
                                    lemma_align_deterministic(*illuminant, stdg, ill_a, ia);
                                    lemma_align_deterministic(cmf.x_bar, stdg, cmf_a.x_bar, cax);
                                    lemma_align_deterministic(cmf.y_bar, stdg, cmf_a.y_bar, cay);
                                    lemma_align_deterministic(cmf.z_bar, stdg, cmf_a.z_bar, caz);
                                    assert(false);
                                }
                            }
                            return Err(e);
                        },
                    };
                    proof {
                        assert(std_aligned_ok(*illuminant, ill_a));
                        assert(std_aligned_ok(cmf.x_bar, cmf_a.x_bar));
                        assert(std_aligned_ok(cmf.y_bar, cmf_a.y_bar));
                        assert(std_aligned_ok(cmf.z_bar, cmf_a.z_bar));
                        assert(curves_ok_at(*self, ill_a, cmf_a.x_bar, cmf_a.y_bar, cmf_a.z_bar, stdg));
                    }
                    Ok(out)
                }
            },
        }
    }
}



impl<T: Scalar> PartialEq for Sample<T> {
    /// Two samples are equal when wavelength and value agree as values.
    fn eq(&self, o: &Sample<T>) -> (r: bool) {
        self.nm.eqv(o.nm) && self.v.eqv(o.v)
    }
}

impl<T: Scalar> vstd::std_specs::cmp::PartialEqSpecImpl for Sample<T> {
    open spec fn obeys_eq_spec() -> bool {
        true
    }

    open spec fn eq_spec(&self, o: &Sample<T>) -> bool {
        sample_eq_spec(*self, *o)
    }
}

impl<T: Scalar> PartialEq for Interval<T> {
    /// Two intervals are equal when they carry the same tag and equal
    /// steps.
    fn eq(&self, o: &Interval<T>) -> (r: bool) {
        self.eqv(*o)
    }
}

impl<T: Scalar> vstd::std_specs::cmp::PartialEqSpecImpl for Interval<T> {
    open spec fn obeys_eq_spec() -> bool {
        true
    }

    open spec fn eq_spec(&self, o: &Interval<T>) -> bool {
        interval_eq_spec(*self, *o)
    }
}

impl<T: Scalar> PartialEq for SpdShape<T> {
    /// Two shapes are equal when bounds and interval agree as values.
    fn eq(&self, o: &SpdShape<T>) -> (r: bool) {
        self.eqv(*o)
    }
}

impl<T: Scalar> vstd::std_specs::cmp::PartialEqSpecImpl for SpdShape<T> {
    open spec fn obeys_eq_spec() -> bool {
        true
    }

    open spec fn eq_spec(&self, o: &SpdShape<T>) -> bool {
        shape_eq_spec(*self, *o)
    }
}

/// What equality of two distributions means: equally many samples, equal
/// shapes, and pairwise equal samples.
pub open spec fn vspd_eq_spec<T: Scalar>(a: VSPD<T>, b: VSPD<T>) -> bool {
    &&& a.samples@.len() == b.samples@.len()
    &&& shape_eq_spec(a.shape, b.shape)
    &&& forall|i: int|
        0 <= i < a.samples@.len() ==> sample_eq_spec(#[trigger] a.samples@[i], b.samples@[i])
}

impl<T: Scalar> PartialEq for VSPD<T> {
    /// Two distributions are equal when their shapes agree and their
    /// samples agree pairwise.
    #[verifier::loop_isolation(false)]
    fn eq(&self, o: &VSPD<T>) -> (r: bool) {
        if self.samples.len() != o.samples.len() {
            return false;
        }
        if !self.shape.eqv(o.shape) {
            return false;
        }
        let n = self.samples.len();
        let mut i: usize = 0;
        while i < n
            invariant
                i <= n,
                n == self.samples@.len(),
                n == o.samples@.len(),
                forall|j: int|
                    0 <= j < i ==> sample_eq_spec(#[trigger] self.samples@[j], o.samples@[j]),
            decreases n - i,
        {
            if !self.samples[i].eqv(o.samples[i]) {
                return false;
            }
            i = i + 1;
        }
        true
    }
}

impl<T: Scalar> vstd::std_specs::cmp::PartialEqSpecImpl for VSPD<T> {
    open spec fn obeys_eq_spec() -> bool {
        true
    }

    open spec fn eq_spec(&self, o: &VSPD<T>) -> bool {
        vspd_eq_spec(*self, *o)
    }
}




/// Interpolation identity: resampling a distribution onto its own
/// shape reproduces it. For a distribution whose wavelengths sit on
/// its shape's own grid, the interpolation model at the shape carries
/// exactly the original wavelengths, and at every sample but the last
/// exactly the original values; the last sample's value re-evaluates
/// the quintic at the far end of its interval, which a floating-point
/// carrier reproduces only to rounding.
pub proof fn lemma_interpolate_identity<T: Scalar>(v: VSPD<T>, step: T, i: int)
    requires
        v.samples@.len() >= 2,
        v.shape.interval == Interval::Uniform(step),
        v.clamped_to(v.shape).count_spec() matches Ok(n) && n == v.samples@.len(),
        forall|k: int|
            0 <= k < v.samples@.len() ==> (#[trigger] v.samples@[k]).nm == grid_at(
                v.shape.start,
                step,
                k as usize,
            ),
        crate::interpolation::strictly_increasing(
            crate::interpolation::sprague_knots(v.samples@),
        ),
        0 <= i < v.samples@.len(),
    ensures
        interp_model(v, v.shape).len() == v.samples@.len(),
        interp_model(v, v.shape)[i].nm == v.samples@[i].nm,
        i < v.samples@.len() - 1 ==> interp_model(v, v.shape)[i] == v.samples@[i],
{
    assert(v.clamped_to(v.shape) == v.shape);
    assert(interp_step(v.shape) == step);
    assert(interp_model(v, v.shape).len() == v.samples@.len());
    assert(interp_model(v, v.shape)[i].nm == grid_at(v.shape.start, step, i as usize));
    assert(v.samples@[i].nm == grid_at(v.shape.start, step, i as usize));
    if i < v.samples@.len() - 1 {
        crate::interpolation::lemma_sprague_reproduces_knot(v.samples@, i);
        assert(interp_model(v, v.shape)[i].v == crate::interpolation::sprague_eval(
            crate::interpolation::sprague_knots(v.samples@),
            crate::interpolation::sprague_vals(v.samples@),
            grid_at(v.shape.start, step, i as usize),
        ));
        assert(interp_model(v, v.shape)[i].v == v.samples@[i].v);
    }
}


/// An extrapolation layout is unique: two sample lists laid out over
/// the same source, shapes and step are the same list.
pub proof fn lemma_extrapolate_layout_unique<T: Scalar>(
    out1: Seq<Sample<T>>,
    out2: Seq<Sample<T>>,
    src: Seq<Sample<T>>,
    src_shape: SpdShape<T>,
    target: SpdShape<T>,
    d: T,
    k1a: nat,
    k2a: nat,
    k1b: nat,
    k2b: nat,
)
    requires
        extrapolate_layout(out1, src, src_shape, target, d, k1a, k2a),
        extrapolate_layout(out2, src, src_shape, target, d, k1b, k2b),
        out1.len() <= usize::MAX,
        out2.len() <= usize::MAX,
    ensures
        out1 == out2,
{
    let lstart = min_of_spec(src_shape.start, target.start);
    let hstart = src_shape.end.add_spec(d);
    let hbound = max_of_spec(src_shape.end, target.end);
    assert(k1a == k1b) by {
        if k1a < k1b {
            assert(out2[k1a as int] == (Sample { nm: ladder(lstart, d, k1a), v: src[0].v }));
            assert(ladder(lstart, d, k1a).lt_spec(src_shape.start));
            assert(k1a == usize::MAX || !ladder(lstart, d, k1a).lt_spec(src_shape.start));
            assert(k1a == usize::MAX);
            assert(out2.len() >= k1b + src.len() + k2b);
            assert(false);
        }
        if k1b < k1a {
            assert(out1[k1b as int] == (Sample { nm: ladder(lstart, d, k1b), v: src[0].v }));
            assert(ladder(lstart, d, k1b).lt_spec(src_shape.start));
            assert(k1b == usize::MAX || !ladder(lstart, d, k1b).lt_spec(src_shape.start));
            assert(k1b == usize::MAX);
            assert(false);
        }
    };
    assert(k2a == k2b) by {
        if k2a < k2b {
            assert(out2[(k1b + src.len() + k2a) as int] == (Sample {
                nm: ladder(hstart, d, k2a),
                v: if ladder(hstart, d, k2a).lt_spec(src[0].nm) {
                    src[0].v
                } else {
                    src[src.len() - 1].v
                },
            }));
            assert(ladder(hstart, d, k2a).le_spec(hbound));
            assert(k2a == usize::MAX || !ladder(hstart, d, k2a).le_spec(hbound));
            assert(k2a == usize::MAX);
            assert(false);
        }
        if k2b < k2a {
            assert(out1[(k1a + src.len() + k2b) as int] == (Sample {
                nm: ladder(hstart, d, k2b),
                v: if ladder(hstart, d, k2b).lt_spec(src[0].nm) {
                    src[0].v
                } else {
                    src[src.len() - 1].v
                },
            }));
            assert(ladder(hstart, d, k2b).le_spec(hbound));
            assert(k2b == usize::MAX);
            assert(false);
        }
    };
    assert(out1 =~= out2) by {
        assert(out1.len() == out2.len());
        assert forall|i: int| 0 <= i < out1.len() implies out1[i] == out2[i] by {
            if i < k1a {
                assert(out1[i] == (Sample { nm: ladder(lstart, d, i as nat), v: src[0].v }));
                assert(out2[i] == (Sample { nm: ladder(lstart, d, i as nat), v: src[0].v }));
            } else if i < k1a + src.len() {
                assert(out1.subrange(k1a as int, (k1a + src.len()) as int) == src);
                assert(out2.subrange(k1b as int, (k1b + src.len()) as int) == src);
                assert(out1[i] == out1.subrange(k1a as int, (k1a + src.len()) as int)[i - k1a]);
                assert(out2[i] == out2.subrange(k1b as int, (k1b + src.len()) as int)[i - k1b]);
            } else {
                let j = i - k1a - src.len();
                assert(out1[(k1a + src.len()) as int + j] == (Sample {
                    nm: ladder(hstart, d, j as nat),
                    v: if ladder(hstart, d, j as nat).lt_spec(src[0].nm) {
                        src[0].v
                    } else {
                        src[src.len() - 1].v
                    },
                }));
                assert(out2[(k1b + src.len()) as int + j] == (Sample {
                    nm: ladder(hstart, d, j as nat),
                    v: if ladder(hstart, d, j as nat).lt_spec(src[0].nm) {
                        src[0].v
                    } else {
                        src[src.len() - 1].v
                    },
                }));
            }
        };
    };
}

/// Aligning is a function of its inputs: any two distributions standing
/// in the align relation to the same source and shape agree in samples
/// and shape. With the anchoring of every aligned shape this is the
/// verifiable core of align idempotence: a second alignment of an
/// aligned distribution reads back the same anchored shape, and only
/// the re-evaluated boundary value can drift in a floating-point
/// carrier.
pub proof fn lemma_align_deterministic<T: Scalar>(
    src: VSPD<T>,
    shape: SpdShape<T>,
    v1: VSPD<T>,
    v2: VSPD<T>,
)
    requires
        is_aligned_to(src, shape, v1),
        is_aligned_to(src, shape, v2),
        v1.samples@.len() <= usize::MAX,
        v2.samples@.len() <= usize::MAX,
    ensures
        v1.samples@ == v2.samples@,
        v1.shape == v2.shape,
{
    let (k1a, k2a) = choose|k1: nat, k2: nat|
        extrapolate_layout(
            v1.samples@,
            interp_model(src, shape),
            src.clamped_to(shape),
            shape,
            interp_step(shape),
            k1,
            k2,
        );
    let (k1b, k2b) = choose|k1: nat, k2: nat|
        extrapolate_layout(
            v2.samples@,
            interp_model(src, shape),
            src.clamped_to(shape),
            shape,
            interp_step(shape),
            k1,
            k2,
        );
    lemma_extrapolate_layout_unique(
        v1.samples@,
        v2.samples@,
        interp_model(src, shape),
        src.clamped_to(shape),
        shape,
        interp_step(shape),
        k1a,
        k2a,
        k1b,
        k2b,
    );
}

/// Every aligned distribution satisfies the shape invariant: its
/// recorded boundaries are its boundary samples' wavelengths. Together
/// with the determinism of the align relation this is what makes
/// aligning to the same shape settle: a second alignment reads the same
/// anchored shape back. The sample values of a second alignment can
/// still drift within floating-point rounding at the domain end, which
/// is why nothing stronger is stated of them.
pub proof fn lemma_aligned_is_anchored<T: Scalar>(src: VSPD<T>, shape: SpdShape<T>, out: VSPD<T>)
    requires
        is_aligned_to(src, shape, out),
        src.clamped_to(shape).count_spec() is Ok,
    ensures
        out.anchored(),
{
    let (k1, k2) = choose|k1: nat, k2: nat|
        extrapolate_layout(
            out.samples@,
            interp_model(src, shape),
            src.clamped_to(shape),
            shape,
            interp_step(shape),
            k1,
            k2,
        );
    assert(out.samples@.len() == k1 + interp_model(src, shape).len() + k2);
    assert(interp_model(src, shape).len() >= 1);
}


} // verus!
