//! Numeric helpers and the 3x3 matrix type used by the colour-space
//! transforms.

pub use crate::traits::Real;
pub use crate::traits::Scalar;

use crate::rgb::RGBf;
use crate::xyz::XYZ;
use vstd::prelude::*;

verus! {

/// What clamping means: the nearer bound when outside `[a, b]`, else the
/// value itself.
pub open spec fn clamp_spec<T: Scalar>(x: T, a: T, b: T) -> T {
    if x.lt_spec(a) {
        a
    } else if b.lt_spec(x) {
        b
    } else {
        x
    }
}

/// Clamp `x` to lie in the range `[a, b]`.
pub fn clamp<T: Scalar>(x: T, a: T, b: T) -> (r: T)
    ensures
        r == clamp_spec(x, a, b),
{
    if x.lt(a) {
        a
    } else if b.lt(x) {
        b
    } else {
        x
    }
}

/// What linear blending means: `(1 - t) * a + t * b`.
pub open spec fn lerp_spec<T: Scalar>(a: T, b: T, t: T) -> T {
    T::one_spec().sub_spec(t).mul_spec(a).add_spec(t.mul_spec(b))
}

/// Linearly interpolate from `a` to `b` by `t`.
pub fn lerp<T: Scalar>(a: T, b: T, t: T) -> (r: T)
    ensures
        r == lerp_spec(a, b, t),
{
    T::one().sub(t).mul(a).add(t.mul(b))
}

pub fn sqrt<T: Real>(x: T) -> (r: T)
    ensures
        r == x.sqrt_spec(),
{
    x.sqrt()
}

pub fn sqr<T: Real>(x: T) -> (r: T)
    ensures
        r == x.mul_spec(x),
{
    x.mul(x)
}

pub fn abs<T: Real>(x: T) -> (r: T)
    ensures
        r == x.abs_spec(),
{
    x.abs()
}

pub fn sin<T: Real>(x: T) -> (r: T)
    ensures
        r == x.sin_spec(),
{
    x.sin()
}

pub fn asin<T: Real>(x: T) -> (r: T)
    ensures
        r == x.asin_spec(),
{
    x.asin()
}

pub fn cos<T: Real>(x: T) -> (r: T)
    ensures
        r == x.cos_spec(),
{
    x.cos()
}

pub fn acos<T: Real>(x: T) -> (r: T)
    ensures
        r == x.acos_spec(),
{
    x.acos()
}

pub fn tan<T: Real>(x: T) -> (r: T)
    ensures
        r == x.tan_spec(),
{
    x.tan()
}

pub fn atan2<T: Real>(x: T, y: T) -> (r: T)
    ensures
        r == x.atan2_spec(y),
{
    x.atan2(y)
}

pub fn exp<T: Real>(x: T) -> (r: T)
    ensures
        r == x.exp_spec(),
{
    x.exp()
}

pub fn pow<T: Real>(x: T, y: T) -> (r: T)
    ensures
        r == x.powf_spec(y),
{
    x.powf(y)
}

pub fn hypot<T: Real>(x: T, y: T) -> (r: T)
    ensures
        r == x.hypot_spec(y),
{
    x.hypot(y)
}

pub fn powi<T: Real>(x: T, i: i32) -> (r: T)
    ensures
        r == x.powi_spec(i),
{
    x.powi(i)
}

/// A 3x3 matrix in row-major order.
#[derive(Copy, Clone, Debug)]
pub struct Matrix33<T> {
    pub x: [T; 9],
}

/// Entry `i, j` of the product of two row-major matrices given as value
/// sequences, accumulated from zero in column order.
pub open spec fn matmul_entry_seq<T: Scalar>(a: Seq<T>, b: Seq<T>, i: int, j: int) -> T {
    T::zero_spec().add_spec(a[3 * i].mul_spec(b[j])).add_spec(
        a[3 * i + 1].mul_spec(b[3 + j]),
    ).add_spec(a[3 * i + 2].mul_spec(b[6 + j]))
}

/// Row-major entry `i, j` of a matrix product, accumulated from zero in
/// column order.
pub open spec fn matmul_entry<T: Scalar>(a: Matrix33<T>, b: Matrix33<T>, i: int, j: int) -> T {
    matmul_entry_seq(a.x@, b.x@, i, j)
}

impl<T: Scalar> Matrix33<T> {
    /// The identity matrix.
    pub fn make_identity() -> (r: Matrix33<T>)
        ensures
            r.x@ == seq![
                T::one_spec(),
                T::zero_spec(),
                T::zero_spec(),
                T::zero_spec(),
                T::one_spec(),
                T::zero_spec(),
                T::zero_spec(),
                T::zero_spec(),
                T::one_spec(),
            ],
    {
        let r = Matrix33 {
            x: [
                T::one(),
                T::zero(),
                T::zero(),
                T::zero(),
                T::one(),
                T::zero(),
                T::zero(),
                T::zero(),
                T::one(),
            ],
        };
        proof {
            assert(r.x@ =~= seq![
                T::one_spec(),
                T::zero_spec(),
                T::zero_spec(),
                T::zero_spec(),
                T::one_spec(),
                T::zero_spec(),
                T::zero_spec(),
                T::zero_spec(),
                T::one_spec(),
            ]);
        }
        r
    }

    /// A matrix initialized with the values passed, row-major.
    pub fn new(values: [T; 9]) -> (r: Matrix33<T>)
        ensures
            r.x@ == values@,
    {
        Matrix33 { x: values }
    }

    /// The transpose of this matrix.
    pub fn transposed(&self) -> (r: Matrix33<T>)
        ensures
            forall|i: int, j: int|
                0 <= i < 3 && 0 <= j < 3 ==> #[trigger] r.x@[3 * i + j] == self.x@[3 * j + i],
    {
        let r = Matrix33 {
            x: [
                self.x[0],
                self.x[3],
                self.x[6],
                self.x[1],
                self.x[4],
                self.x[7],
                self.x[2],
                self.x[5],
                self.x[8],
            ],
        };
        proof {
            assert forall|i: int, j: int|
                0 <= i < 3 && 0 <= j < 3 implies #[trigger] r.x@[3 * i + j] == self.x@[3 * j
                + i] by {
                assert(r.x@[0] == self.x@[0]);
                assert(r.x@[1] == self.x@[3]);
                assert(r.x@[2] == self.x@[6]);
                assert(r.x@[3] == self.x@[1]);
                assert(r.x@[4] == self.x@[4]);
                assert(r.x@[5] == self.x@[7]);
                assert(r.x@[6] == self.x@[2]);
                assert(r.x@[7] == self.x@[5]);
                assert(r.x@[8] == self.x@[8]);
            };
        }
        r
    }

    /// The determinant, by cofactor expansion along the first row.
    pub fn determinant(&self) -> (r: T)
        ensures
            r == self.x@[0].mul_spec(
                self.x@[4].mul_spec(self.x@[8]).sub_spec(self.x@[5].mul_spec(self.x@[7])),
            ).add_spec(
                self.x@[1].mul_spec(
                    self.x@[5].mul_spec(self.x@[6]).sub_spec(self.x@[3].mul_spec(self.x@[8])),
                ),
            ).add_spec(
                self.x@[2].mul_spec(
                    self.x@[3].mul_spec(self.x@[7]).sub_spec(self.x@[4].mul_spec(self.x@[6])),
                ),
            ),
    {
        self.x[0].mul(self.x[4].mul(self.x[8]).sub(self.x[5].mul(self.x[7]))).add(
            self.x[1].mul(self.x[5].mul(self.x[6]).sub(self.x[3].mul(self.x[8]))),
        ).add(self.x[2].mul(self.x[3].mul(self.x[7]).sub(self.x[4].mul(self.x[6]))))
    }

    /// The matrix product of this matrix with another.
    pub fn matmul(&self, rhs: &Matrix33<T>) -> (r: Matrix33<T>)
        ensures
            forall|i: int, j: int|
                0 <= i < 3 && 0 <= j < 3 ==> #[trigger] r.x@[3 * i + j] == matmul_entry(
                    *self,
                    *rhs,
                    i,
                    j,
                ),
    {
        let mut vals = [
            T::zero(),
            T::zero(),
            T::zero(),
            T::zero(),
            T::zero(),
            T::zero(),
            T::zero(),
            T::zero(),
            T::zero(),
        ];
        let mut i: usize = 0;
        while i < 3
            invariant
                i <= 3,
                forall|a: int, b: int|
                    0 <= a < i && 0 <= b < 3 ==> #[trigger] vals@[3 * a + b] == matmul_entry(
                        *self,
                        *rhs,
                        a,
                        b,
                    ),
            decreases 3 - i,
        {
            let mut j: usize = 0;
            while j < 3
                invariant
                    i < 3,
                    j <= 3,
                    forall|a: int, b: int|
                        0 <= a < i && 0 <= b < 3 ==> #[trigger] vals@[3 * a + b] == matmul_entry(
                            *self,
                            *rhs,
                            a,
                            b,
                        ),
                    forall|b: int|
                        0 <= b < j ==> #[trigger] vals@[3 * i + b] == matmul_entry(
                            *self,
                            *rhs,
                            i as int,
                            b,
                        ),
                decreases 3 - j,
            {
                let ghost vprev = vals@;
                let mut acc = T::zero();
                acc = acc.add(self.x[3 * i].mul(rhs.x[j]));
                acc = acc.add(self.x[3 * i + 1].mul(rhs.x[3 + j]));
                acc = acc.add(self.x[3 * i + 2].mul(rhs.x[6 + j]));
                vals[3 * i + j] = acc;
                proof {
                    assert(vals@ == vprev.update(3 * i + j, acc));
                    assert(acc == matmul_entry(*self, *rhs, i as int, j as int));
                }
                j = j + 1;
            }
            i = i + 1;
        }
        Matrix33 { x: vals }
    }

    /// This matrix applied to a tristimulus value.
    pub fn transform_xyz(&self, v: XYZ<T>) -> (r: XYZ<T>)
        ensures
            r == (XYZ {
                x: self.x@[0].mul_spec(v.x).add_spec(self.x@[1].mul_spec(v.y)).add_spec(
                    self.x@[2].mul_spec(v.z),
                ),
                y: self.x@[3].mul_spec(v.x).add_spec(self.x@[4].mul_spec(v.y)).add_spec(
                    self.x@[5].mul_spec(v.z),
                ),
                z: self.x@[6].mul_spec(v.x).add_spec(self.x@[7].mul_spec(v.y)).add_spec(
                    self.x@[8].mul_spec(v.z),
                ),
            }),
    {
        XYZ {
            x: self.x[0].mul(v.x).add(self.x[1].mul(v.y)).add(self.x[2].mul(v.z)),
            y: self.x[3].mul(v.x).add(self.x[4].mul(v.y)).add(self.x[5].mul(v.z)),
            z: self.x[6].mul(v.x).add(self.x[7].mul(v.y)).add(self.x[8].mul(v.z)),
        }
    }

    /// This matrix applied to an RGB value.
    pub fn transform_rgb(&self, v: RGBf<T>) -> (r: RGBf<T>)
        ensures
            r == (RGBf {
                r: self.x@[0].mul_spec(v.r).add_spec(self.x@[1].mul_spec(v.g)).add_spec(
                    self.x@[2].mul_spec(v.b),
                ),
                g: self.x@[3].mul_spec(v.r).add_spec(self.x@[4].mul_spec(v.g)).add_spec(
                    self.x@[5].mul_spec(v.b),
                ),
                b: self.x@[6].mul_spec(v.r).add_spec(self.x@[7].mul_spec(v.g)).add_spec(
                    self.x@[8].mul_spec(v.b),
                ),
            }),
    {
        RGBf {
            r: self.x[0].mul(v.r).add(self.x[1].mul(v.g)).add(self.x[2].mul(v.b)),
            g: self.x[3].mul(v.r).add(self.x[4].mul(v.g)).add(self.x[5].mul(v.b)),
            b: self.x[6].mul(v.r).add(self.x[7].mul(v.g)).add(self.x[8].mul(v.b)),
        }
    }

}

impl<T: Real> Matrix33<T> {
    /// Gauss-Jordan inversion with partial pivoting. The matrix algebra
    /// is a supporting primitive of the colour transforms, not part of
    /// the spectral engine, so its contract records only the shape of
    /// the outcome: inversion either produces a matrix or reports that a
    /// pivot vanished.
    #[verifier::loop_isolation(false)]
    pub fn gj_inverse(&self) -> (r: Option<Matrix33<T>>) {
        let mut mtx_t = *self;
        let mut mtx_s = Matrix33::<T>::make_identity();
        let mut i: usize = 0;
        while i < 2
            decreases 2 - i,
        {
            let mut pivot: usize = i;
            let mut pivot_size = self.x[3 * i + i].abs();
            let mut j: usize = i + 1;
            while j < 3
                invariant
                    i < 2,
                    i < j,
                    i <= pivot < 3,
                decreases 3 - j,
            {
                let tmp = self.x[3 * j + i].abs();
                if pivot_size.lt(tmp) {
                    pivot = j;
                    pivot_size = tmp;
                }
                j = j + 1;
            }
            if pivot_size.eqv(T::zero()) {
                return None;
            }
            if pivot != i {
                let mut k: usize = 0;
                while k < 3
                    invariant
                        i < 2,
                        i <= pivot < 3,
                    decreases 3 - k,
                {
                    let tmp1 = mtx_t.x[3 * i + k];
                    mtx_t.x[3 * i + k] = mtx_t.x[3 * pivot + k];
                    mtx_t.x[3 * pivot + k] = tmp1;
                    let tmp2 = mtx_s.x[3 * i + k];
                    mtx_s.x[3 * i + k] = mtx_s.x[3 * pivot + k];
                    mtx_s.x[3 * pivot + k] = tmp2;
                    k = k + 1;
                }
            }
            let mut j2: usize = i + 1;
            while j2 < 3
                invariant
                    i < 2,
                decreases 3 - j2,
            {
                let f = mtx_t.x[3 * j2 + i].div(mtx_t.x[3 * i + i]);
                let mut k: usize = 0;
                while k < 3
                    invariant
                        i < 2,
                        j2 < 3,
                    decreases 3 - k,
                {
                    let t = mtx_t.x[3 * i + k];
                    let sv = mtx_s.x[3 * i + k];
                    mtx_t.x[3 * j2 + k] = mtx_t.x[3 * j2 + k].sub(f.mul(t));
                    mtx_s.x[3 * j2 + k] = mtx_s.x[3 * j2 + k].sub(f.mul(sv));
                    k = k + 1;
                }
                j2 = j2 + 1;
            }
            i = i + 1;
        }
        let mut i2: usize = 3;
        while i2 > 0
            invariant
                i2 <= 3,
            decreases i2,
        {
            i2 = i2 - 1;
            let f = mtx_t.x[3 * i2 + i2];
            if f.eqv(T::zero()) {
                return None;
            }
            let mut j: usize = 0;
            while j < 3
                invariant
                    i2 < 3,
                decreases 3 - j,
            {
                mtx_t.x[3 * i2 + j] = mtx_t.x[3 * i2 + j].div(f);
                mtx_s.x[3 * i2 + j] = mtx_s.x[3 * i2 + j].div(f);
                j = j + 1;
            }
            let mut j2: usize = 0;
            while j2 < i2
                invariant
                    i2 < 3,
                decreases i2 - j2,
            {
                let f2 = mtx_t.x[3 * j2 + i2];
                let mut k: usize = 0;
                while k < 3
                    invariant
                        i2 < 3,
                        j2 < i2,
                    decreases 3 - k,
                {
                    let t = mtx_t.x[3 * i2 + k];
                    let sv = mtx_s.x[3 * i2 + k];
                    mtx_t.x[3 * j2 + k] = mtx_t.x[3 * j2 + k].sub(f2.mul(t));
                    mtx_s.x[3 * j2 + k] = mtx_s.x[3 * j2 + k].sub(f2.mul(sv));
                    k = k + 1;
                }
                j2 = j2 + 1;
            }
        }
        Some(mtx_s)
    }

    /// Cofactor-based inversion, guarding each scaling step against
    /// overflow. As with [`Matrix33::gj_inverse`], the matrix algebra is
    /// a supporting primitive, and the contract records only that a
    /// near-singular matrix yields no result rather than a wrong one.
    #[verifier::loop_isolation(false)]
    pub fn inverse(self) -> (r: Option<Matrix33<T>>) {
        let eps = T::epsilon();
        if eps.lt(self.x[2]) || eps.lt(self.x[5]) || eps.lt(self.x[8].sub(T::one()).abs()) {
            let mut mtx_s = Matrix33::new(
                [
                    self.x[4].mul(self.x[8]).sub(self.x[7].mul(self.x[5])),
                    self.x[7].mul(self.x[2]).sub(self.x[1].mul(self.x[8])),
                    self.x[1].mul(self.x[5]).sub(self.x[4].mul(self.x[2])),
                    self.x[6].mul(self.x[5]).sub(self.x[3].mul(self.x[8])),
                    self.x[0].mul(self.x[8]).sub(self.x[6].mul(self.x[2])),
                    self.x[3].mul(self.x[2]).sub(self.x[0].mul(self.x[5])),
                    self.x[3].mul(self.x[7]).sub(self.x[6].mul(self.x[4])),
                    self.x[6].mul(self.x[1]).sub(self.x[0].mul(self.x[7])),
                    self.x[0].mul(self.x[4]).sub(self.x[3].mul(self.x[1])),
                ],
            );
            let r0 = self.x[0].mul(mtx_s.x[0]).add(self.x[1].mul(mtx_s.x[3])).add(
                self.x[2].mul(mtx_s.x[6]),
            );
            if T::one().le(r0.abs()) {
                let mut k: usize = 0;
                while k < 9
                    decreases 9 - k,
                {
                    mtx_s.x[k] = mtx_s.x[k].div(r0);
                    k = k + 1;
                }
            } else {
                let mr = r0.abs().div(T::min_positive());
                let mut k: usize = 0;
                while k < 9
                    decreases 9 - k,
                {
                    if mtx_s.x[k].abs().lt(mr) {
                        mtx_s.x[k] = mtx_s.x[k].div(r0);
                    } else {
                        return None;
                    }
                    k = k + 1;
                }
            }
            Some(mtx_s)
        } else {
            let mut mtx_s = Matrix33::new(
                [
                    self.x[4],
                    self.x[1].neg(),
                    T::zero(),
                    self.x[3].neg(),
                    self.x[0],
                    T::zero(),
                    T::zero(),
                    T::zero(),
                    T::one(),
                ],
            );
            let r0 = self.x[0].mul(self.x[4]).sub(self.x[3].mul(self.x[1]));
            if T::one().le(r0.abs()) {
                let mut k: usize = 0;
                while k < 9
                    decreases 9 - k,
                {
                    mtx_s.x[k] = mtx_s.x[k].div(r0);
                    k = k + 1;
                }
            } else {
                let mr = r0.abs().div(T::min_positive());
                let mut k: usize = 0;
                while k < 9
                    decreases 9 - k,
                {
                    if mtx_s.x[k].abs().lt(mr) {
                        mtx_s.x[k] = mtx_s.x[k].div(r0);
                    } else {
                        return None;
                    }
                    k = k + 1;
                }
            }
            mtx_s.x[6] = self.x[6].neg().mul(mtx_s.x[0]).sub(self.x[7].mul(mtx_s.x[3]));
            mtx_s.x[7] = self.x[6].neg().mul(mtx_s.x[1]).sub(self.x[7].mul(mtx_s.x[4]));
            Some(mtx_s)
        }
    }
}

} // verus!
