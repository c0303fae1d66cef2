//! The CIE XYZ tristimulus colour type.

use crate::chromaticity::XYY;
use crate::traits::Real;
use crate::traits::Scalar;
use vstd::prelude::*;

verus! {

/// A tristimulus value.
#[derive(Copy, Clone, Debug)]
pub struct XYZ<T> {
    pub x: T,
    pub y: T,
    pub z: T,
}

/// What equality of two tristimulus values means: all components agree
/// as values.
pub open spec fn xyz_eq_spec<T: Scalar>(a: XYZ<T>, b: XYZ<T>) -> bool {
    a.x.eqv_spec(b.x) && a.y.eqv_spec(b.y) && a.z.eqv_spec(b.z)
}

/// The tristimulus value a chromaticity pair with a luminance defines,
/// scaled so unit luminance maps to one hundred.
pub open spec fn chroma_to_xyz_spec<T: Scalar>(c: XYY<T>) -> XYZ<T> {
    XYZ {
        x: c.x.mul_spec(c.Y).div_spec(c.y).mul_spec(T::from_ratio_spec(100, 1)),
        y: c.Y.mul_spec(T::from_ratio_spec(100, 1)),
        z: T::one_spec().sub_spec(c.x).sub_spec(c.y).mul_spec(c.Y).div_spec(c.y).mul_spec(
            T::from_ratio_spec(100, 1),
        ),
    }
}

pub fn xyz<T: Scalar>(x: T, y: T, z: T) -> (r: XYZ<T>)
    ensures
        r == (XYZ { x, y, z }),
{
    XYZ { x, y, z }
}

impl<T: Scalar> XYZ<T> {
    pub fn new(x: T, y: T, z: T) -> (r: XYZ<T>)
        ensures
            r == (XYZ { x, y, z }),
    {
        XYZ { x, y, z }
    }

    pub fn from_scalar(a: T) -> (r: XYZ<T>)
        ensures
            r == (XYZ { x: a, y: a, z: a }),
    {
        XYZ { x: a, y: a, z: a }
    }

    /// Value equality of two tristimulus values.
    pub fn eqv(self, o: XYZ<T>) -> (r: bool)
        ensures
            r == xyz_eq_spec(self, o),
    {
        self.x.eqv(o.x) && self.y.eqv(o.y) && self.z.eqv(o.z)
    }

    /// A unit-luminance version of this colour: every component divided
    /// by the luminance.
    pub fn normalized(&self) -> (r: XYZ<T>)
        ensures
            r == (XYZ {
                x: self.x.div_spec(self.y),
                y: self.y.div_spec(self.y),
                z: self.z.div_spec(self.y),
            }),
    {
        XYZ { x: self.x.div(self.y), y: self.y.div(self.y), z: self.z.div(self.y) }
    }

    /// Componentwise product.
    pub fn mul_elem(self, o: XYZ<T>) -> (r: XYZ<T>)
        ensures
            r == (XYZ {
                x: self.x.mul_spec(o.x),
                y: self.y.mul_spec(o.y),
                z: self.z.mul_spec(o.z),
            }),
    {
        XYZ { x: self.x.mul(o.x), y: self.y.mul(o.y), z: self.z.mul(o.z) }
    }

    /// Componentwise quotient.
    pub fn div_elem(self, o: XYZ<T>) -> (r: XYZ<T>)
        ensures
            r == (XYZ {
                x: self.x.div_spec(o.x),
                y: self.y.div_spec(o.y),
                z: self.z.div_spec(o.z),
            }),
    {
        XYZ { x: self.x.div(o.x), y: self.y.div(o.y), z: self.z.div(o.z) }
    }

    /// Every component multiplied by a scalar.
    pub fn mul_s(self, s: T) -> (r: XYZ<T>)
        ensures
            r == (XYZ { x: self.x.mul_spec(s), y: self.y.mul_spec(s), z: self.z.mul_spec(s) }),
    {
        XYZ { x: self.x.mul(s), y: self.y.mul(s), z: self.z.mul(s) }
    }

    /// Every component divided by a scalar.
    pub fn div_s(self, s: T) -> (r: XYZ<T>)
        ensures
            r == (XYZ { x: self.x.div_spec(s), y: self.y.div_spec(s), z: self.z.div_spec(s) }),
    {
        XYZ { x: self.x.div(s), y: self.y.div(s), z: self.z.div(s) }
    }

    /// A colour from chromaticity coordinates, scaled so a luminance of
    /// one maps to one hundred.
    pub fn from_chromaticity(c: XYY<T>) -> (r: XYZ<T>)
        ensures
            r == (XYZ {
                x: c.x.mul_spec(c.Y).div_spec(c.y).mul_spec(T::from_ratio_spec(100, 1)),
                y: c.Y.mul_spec(T::from_ratio_spec(100, 1)),
                z: T::one_spec().sub_spec(c.x).sub_spec(c.y).mul_spec(c.Y).div_spec(c.y).mul_spec(
                    T::from_ratio_spec(100, 1),
                ),
            }),
            r == chroma_to_xyz_spec(c),
    {
        let h = T::from_ratio(100, 1);
        XYZ {
            x: c.x.mul(c.Y).div(c.y).mul(h),
            y: c.Y.mul(h),
            z: T::one().sub(c.x).sub(c.y).mul(c.Y).div(c.y).mul(h),
        }
    }

    /// A colour from a bare chromaticity pair with unit luminance.
    pub fn from_xy(x: T, y: T) -> (r: XYZ<T>)
        ensures
            r == (XYZ {
                x: x.mul_spec(T::one_spec()).div_spec(y).mul_spec(T::from_ratio_spec(100, 1)),
                y: T::one_spec().mul_spec(T::from_ratio_spec(100, 1)),
                z: T::one_spec().sub_spec(x).sub_spec(y).mul_spec(T::one_spec()).div_spec(
                    y,
                ).mul_spec(T::from_ratio_spec(100, 1)),
            }),
    {
        Self::from_chromaticity(XYY { x, y, Y: T::one() })
    }

    /// This colour scaled so its luminance is one hundred.
    pub fn normalized_y(&self) -> (r: XYZ<T>)
        ensures
            r == (XYZ {
                x: self.x.div_spec(self.y).mul_spec(T::from_ratio_spec(100, 1)),
                y: self.y.div_spec(self.y).mul_spec(T::from_ratio_spec(100, 1)),
                z: self.z.div_spec(self.y).mul_spec(T::from_ratio_spec(100, 1)),
            }),
    {
        let h = T::from_ratio(100, 1);
        XYZ {
            x: self.x.div(self.y).mul(h),
            y: self.y.div(self.y).mul(h),
            z: self.z.div(self.y).mul(h),
        }
    }
}

impl<T: Real> XYZ<T> {
    /// The componentwise absolute value.
    pub fn abs(&self) -> (r: XYZ<T>)
        ensures
            r == (XYZ { x: self.x.abs_spec(), y: self.y.abs_spec(), z: self.z.abs_spec() }),
    {
        XYZ { x: self.x.abs(), y: self.y.abs(), z: self.z.abs() }
    }
}

} // verus!
