//! RGB colour types: a generic floating component triple and the
//! fixed-depth storage triples.

use crate::math::clamp;
use crate::math::clamp_spec;
use crate::traits::Real;
use crate::traits::Scalar;
use vstd::prelude::*;

verus! {

/// An RGB colour with scalar components.
#[derive(Copy, Clone, Debug)]
pub struct RGBf<T> {
    pub r: T,
    pub g: T,
    pub b: T,
}

impl<T: Scalar> RGBf<T> {
    pub fn new(r: T, g: T, b: T) -> (c: RGBf<T>)
        ensures
            c == (RGBf { r, g, b }),
    {
        RGBf { r, g, b }
    }

    pub fn from_scalar(s: T) -> (c: RGBf<T>)
        ensures
            c == (RGBf { r: s, g: s, b: s }),
    {
        RGBf { r: s, g: s, b: s }
    }
}

impl<T: Real> RGBf<T> {
    /// Each component raised to the power `x`.
    pub fn powf(&self, x: T) -> (c: RGBf<T>)
        ensures
            c == (RGBf {
                r: self.r.powf_spec(x),
                g: self.g.powf_spec(x),
                b: self.b.powf_spec(x),
            }),
    {
        RGBf { r: self.r.powf(x), g: self.g.powf(x), b: self.b.powf(x) }
    }

    /// The componentwise absolute value.
    pub fn abs(&self) -> (c: RGBf<T>)
        ensures
            c == (RGBf { r: self.r.abs_spec(), g: self.g.abs_spec(), b: self.b.abs_spec() }),
    {
        RGBf { r: self.r.abs(), g: self.g.abs(), b: self.b.abs() }
    }
}

pub fn rgbf<T: Scalar>(r: T, g: T, b: T) -> (c: RGBf<T>)
    ensures
        c == (RGBf { r, g, b }),
{
    RGBf { r, g, b }
}

/// The largest component of `c`, by the scalar order.
pub fn hmax<T: Scalar>(c: RGBf<T>) -> (r: T)
    ensures
        r == crate::traits::max_of_spec(c.r, crate::traits::max_of_spec(c.g, c.b)),
{
    crate::traits::max_of(c.r, crate::traits::max_of(c.g, c.b))
}

/// The colour scaled so that its largest component becomes one.
pub fn normalize<T: Scalar>(c: RGBf<T>) -> (r: RGBf<T>)
    ensures
        r == (RGBf {
            r: c.r.div_spec(crate::traits::max_of_spec(c.r, crate::traits::max_of_spec(c.g, c.b))),
            g: c.g.div_spec(crate::traits::max_of_spec(c.r, crate::traits::max_of_spec(c.g, c.b))),
            b: c.b.div_spec(crate::traits::max_of_spec(c.r, crate::traits::max_of_spec(c.g, c.b))),
        }),
{
    let m = hmax(c);
    RGBf { r: c.r.div(m), g: c.g.div(m), b: c.b.div(m) }
}

/// Each component clamped to lie between `a` and `b`.
pub fn clamprgb<T: Scalar>(c: RGBf<T>, a: T, b: T) -> (r: RGBf<T>)
    ensures
        r == (RGBf {
            r: clamp_spec(c.r, a, b),
            g: clamp_spec(c.g, a, b),
            b: clamp_spec(c.b, a, b),
        }),
{
    RGBf { r: clamp(c.r, a, b), g: clamp(c.g, a, b), b: clamp(c.b, a, b) }
}

/// An RGB colour with eight bits per component, for storage.
#[derive(Copy, Clone, Debug, PartialEq, Eq, Structural)]
pub struct RGBu8 {
    pub r: u8,
    pub g: u8,
    pub b: u8,
}

/// An RGB colour with sixteen bits per component, for storage.
#[derive(Copy, Clone, Debug, PartialEq, Eq, Structural)]
pub struct RGBu16 {
    pub r: u16,
    pub g: u16,
    pub b: u16,
}

pub fn rgbu8(r: u8, g: u8, b: u8) -> (c: RGBu8)
    ensures
        c == (RGBu8 { r, g, b }),
{
    RGBu8 { r, g, b }
}

pub fn rgbu16(r: u16, g: u16, b: u16) -> (c: RGBu16)
    ensures
        c == (RGBu16 { r, g, b }),
{
    RGBu16 { r, g, b }
}

} // verus!
