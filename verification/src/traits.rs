//! The numeric capability traits that the whole library is generic over.
//!
//! `Scalar` asks for the field operations, comparisons and conversions that
//! the spectral engine needs; `Real` adds the transcendental operations used
//! by the colour-space modules. Every executable operation is pinned to a
//! specification-level shadow of itself, so two calls on equal inputs are
//! interchangeable in proofs, and a small set of algebraic laws must be
//! proved by every implementation that Verus sees.

use vstd::prelude::*;

verus! {

pub trait Scalar: Sized + Copy {
    /// The additive identity, at the specification level.
    spec fn zero_spec() -> Self;

    /// The multiplicative identity, at the specification level.
    spec fn one_spec() -> Self;

    /// Specification shadow of `add`.
    spec fn add_spec(self, o: Self) -> Self;

    /// Specification shadow of `sub`.
    spec fn sub_spec(self, o: Self) -> Self;

    /// Specification shadow of `mul`.
    spec fn mul_spec(self, o: Self) -> Self;

    /// Specification shadow of `div`.
    spec fn div_spec(self, o: Self) -> Self;

    /// Specification shadow of `neg`.
    spec fn neg_spec(self) -> Self;

    /// Specification shadow of `powi`.
    spec fn powi_spec(self, e: i32) -> Self;

    /// Specification shadow of `lt`.
    spec fn lt_spec(self, o: Self) -> bool;

    /// Specification shadow of `le`.
    spec fn le_spec(self, o: Self) -> bool;

    /// Specification shadow of `eqv`.
    spec fn eqv_spec(self, o: Self) -> bool;

    /// Specification shadow of `near`.
    spec fn near_spec(self, o: Self) -> bool;

    /// Specification shadow of `from_usize`.
    spec fn from_usize_spec(n: usize) -> Self;

    /// Specification shadow of `from_ratio`.
    spec fn from_ratio_spec(n: i64, d: i64) -> Self;

    /// Specification shadow of `to_usize`.
    spec fn to_usize_spec(self) -> usize;

    /// A value never compares strictly below itself.
    proof fn law_lt_irrefl(x: Self)
        ensures
            !x.lt_spec(x),
    ;

    /// The strict order is asymmetric.
    proof fn law_lt_asym(x: Self, y: Self)
        requires
            x.lt_spec(y),
        ensures
            !y.lt_spec(x),
    ;

    /// The strict order is transitive.
    proof fn law_lt_trans(x: Self, y: Self, z: Self)
        requires
            x.lt_spec(y),
            y.lt_spec(z),
        ensures
            x.lt_spec(z),
    ;

    /// The non-strict order is reflexive.
    proof fn law_le_refl(x: Self)
        ensures
            x.le_spec(x),
    ;

    /// Adding the additive identity changes nothing.
    proof fn law_add_zero(x: Self)
        ensures
            x.add_spec(Self::zero_spec()) == x,
    ;

    /// Subtracting a value from itself gives the additive identity.
    proof fn law_sub_self(x: Self)
        ensures
            x.sub_spec(x) == Self::zero_spec(),
    ;

    /// Multiplying by the additive identity gives the additive identity.
    proof fn law_mul_zero(x: Self)
        ensures
            x.mul_spec(Self::zero_spec()) == Self::zero_spec(),
    ;

    /// Multiplying the additive identity by anything gives it back.
    proof fn law_zero_mul(x: Self)
        ensures
            Self::zero_spec().mul_spec(x) == Self::zero_spec(),
    ;

    /// Embedding the machine integer zero gives the additive identity.
    proof fn law_from_usize_zero()
        ensures
            Self::from_usize_spec(0) == Self::zero_spec(),
    ;

    /// Dividing the additive identity by anything gives it back.
    proof fn law_zero_div(x: Self)
        ensures
            Self::zero_spec().div_spec(x) == Self::zero_spec(),
    ;

    /// A positive power of the additive identity is the additive identity.
    proof fn law_powi_zero(e: i32)
        requires
            e >= 1,
        ensures
            Self::zero_spec().powi_spec(e) == Self::zero_spec(),
    ;

    fn zero() -> (r: Self)
        ensures
            r == Self::zero_spec(),
    ;

    fn one() -> (r: Self)
        ensures
            r == Self::one_spec(),
    ;

    fn add(self, o: Self) -> (r: Self)
        ensures
            r == self.add_spec(o),
    ;

    fn sub(self, o: Self) -> (r: Self)
        ensures
            r == self.sub_spec(o),
    ;

    fn mul(self, o: Self) -> (r: Self)
        ensures
            r == self.mul_spec(o),
    ;

    fn div(self, o: Self) -> (r: Self)
        ensures
            r == self.div_spec(o),
    ;

    fn neg(self) -> (r: Self)
        ensures
            r == self.neg_spec(),
    ;

    /// Raise to an integer power.
    fn powi(self, e: i32) -> (r: Self)
        ensures
            r == self.powi_spec(e),
    ;

    fn lt(self, o: Self) -> (r: bool)
        ensures
            r == self.lt_spec(o),
    ;

    fn le(self, o: Self) -> (r: bool)
        ensures
            r == self.le_spec(o),
    ;

    /// Value equality; distinct from structural equality on the carrier.
    fn eqv(self, o: Self) -> (r: bool)
        ensures
            r == self.eqv_spec(o),
    ;

    /// Approximate equality, used when deciding whether sample spacing is
    /// uniform; an implementation may make this as tight as exact equality.
    fn near(self, o: Self) -> (r: bool)
        ensures
            r == self.near_spec(o),
    ;

    /// Embed a machine integer.
    fn from_usize(n: usize) -> (r: Self)
        ensures
            r == Self::from_usize_spec(n),
    ;

    /// The value nearest to the fraction `n / d`; this is how the library
    /// writes all of its literal constants.
    fn from_ratio(n: i64, d: i64) -> (r: Self)
        ensures
            r == Self::from_ratio_spec(n, d),
    ;

    /// Truncate towards zero, saturating into `usize`.
    fn to_usize(self) -> (r: usize)
        ensures
            r == self.to_usize_spec(),
    ;
}

/// The smaller of two scalars, deciding by the trait's strict order.
pub fn min_of<T: Scalar>(a: T, b: T) -> (r: T)
    ensures
        r == min_of_spec(a, b),
{
    if b.lt(a) {
        b
    } else {
        a
    }
}

pub open spec fn min_of_spec<T: Scalar>(a: T, b: T) -> T {
    if b.lt_spec(a) {
        b
    } else {
        a
    }
}

/// The larger of two scalars, deciding by the trait's strict order.
pub fn max_of<T: Scalar>(a: T, b: T) -> (r: T)
    ensures
        r == max_of_spec(a, b),
{
    if a.lt(b) {
        b
    } else {
        a
    }
}

pub open spec fn max_of_spec<T: Scalar>(a: T, b: T) -> T {
    if a.lt_spec(b) {
        b
    } else {
        a
    }
}

pub trait Real: Scalar {
    /// Specification shadow of `abs`.
    spec fn abs_spec(self) -> Self;

    /// Specification shadow of `sqrt`.
    spec fn sqrt_spec(self) -> Self;

    /// Specification shadow of `powf`.
    spec fn powf_spec(self, e: Self) -> Self;

    /// Specification shadow of `sin`.
    spec fn sin_spec(self) -> Self;

    /// Specification shadow of `cos`.
    spec fn cos_spec(self) -> Self;

    /// Specification shadow of `tan`.
    spec fn tan_spec(self) -> Self;

    /// Specification shadow of `asin`.
    spec fn asin_spec(self) -> Self;

    /// Specification shadow of `acos`.
    spec fn acos_spec(self) -> Self;

    /// Specification shadow of `atan2`.
    spec fn atan2_spec(self, o: Self) -> Self;

    /// Specification shadow of `exp`.
    spec fn exp_spec(self) -> Self;

    /// Specification shadow of `hypot`.
    spec fn hypot_spec(self, o: Self) -> Self;

    /// Specification shadow of `log10`.
    spec fn log10_spec(self) -> Self;

    /// Specification shadow of `to_degrees`.
    spec fn to_degrees_spec(self) -> Self;

    /// Specification shadow of `to_radians`.
    spec fn to_radians_spec(self) -> Self;

    /// Specification shadow of `round`.
    spec fn round_spec(self) -> Self;

    /// Specification shadow of `epsilon`.
    spec fn epsilon_spec() -> Self;

    /// Specification shadow of `min_positive`.
    spec fn min_positive_spec() -> Self;

    fn abs(self) -> (r: Self)
        ensures
            r == self.abs_spec(),
    ;

    fn sqrt(self) -> (r: Self)
        ensures
            r == self.sqrt_spec(),
    ;

    fn powf(self, e: Self) -> (r: Self)
        ensures
            r == self.powf_spec(e),
    ;

    fn sin(self) -> (r: Self)
        ensures
            r == self.sin_spec(),
    ;

    fn cos(self) -> (r: Self)
        ensures
            r == self.cos_spec(),
    ;

    fn tan(self) -> (r: Self)
        ensures
            r == self.tan_spec(),
    ;

    fn asin(self) -> (r: Self)
        ensures
            r == self.asin_spec(),
    ;

    fn acos(self) -> (r: Self)
        ensures
            r == self.acos_spec(),
    ;

    fn atan2(self, o: Self) -> (r: Self)
        ensures
            r == self.atan2_spec(o),
    ;

    fn exp(self) -> (r: Self)
        ensures
            r == self.exp_spec(),
    ;

    fn hypot(self, o: Self) -> (r: Self)
        ensures
            r == self.hypot_spec(o),
    ;

    fn log10(self) -> (r: Self)
        ensures
            r == self.log10_spec(),
    ;

    fn to_degrees(self) -> (r: Self)
        ensures
            r == self.to_degrees_spec(),
    ;

    fn to_radians(self) -> (r: Self)
        ensures
            r == self.to_radians_spec(),
    ;

    fn round(self) -> (r: Self)
        ensures
            r == self.round_spec(),
    ;

    /// The difference between the multiplicative identity and the next
    /// larger representable value.
    fn epsilon() -> (r: Self)
        ensures
            r == Self::epsilon_spec(),
    ;

    /// The smallest positive representable value.
    fn min_positive() -> (r: Self)
        ensures
            r == Self::min_positive_spec(),
    ;
}

} // verus!
