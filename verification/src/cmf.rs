//! Colour matching functions: the three observer curves bundled over a
//! shared shape.

use crate::traits::Scalar;
use crate::vspd::is_aligned_to;
use crate::vspd::Interval;
use crate::vspd::SpdError;
use crate::vspd::SpdShape;
use crate::vspd::VSPD;
use vstd::prelude::*;

verus! {

/// A set of colour matching functions.
#[derive(Clone)]
pub struct CMF<T> {
    pub x_bar: VSPD<T>,
    pub y_bar: VSPD<T>,
    pub z_bar: VSPD<T>,
}

impl<T: Scalar> CMF<T> {
    /// Every curve holds at least two samples.
    pub open spec fn wf(self) -> bool {
        self.x_bar.wf() && self.y_bar.wf() && self.z_bar.wf()
    }

    /// The shape shared by the three curves, read from the first.
    pub fn shape(&self) -> (r: SpdShape<T>)
        ensures
            r == self.x_bar.shape,
    {
        self.x_bar.shape()
    }

    /// All three curves aligned to the given shape.
    pub fn align(&self, shape: SpdShape<T>) -> (r: Result<CMF<T>, SpdError>)
        requires
            self.wf(),
        ensures
            r is Ok <==> ((shape.interval matches Interval::Uniform(st))
                && self.x_bar.clamped_to(shape).count_spec() is Ok && self.y_bar.clamped_to(
                shape,
            ).count_spec() is Ok && self.z_bar.clamped_to(shape).count_spec() is Ok),
            r matches Ok(c) ==> is_aligned_to(self.x_bar, shape, c.x_bar) && is_aligned_to(
                self.y_bar,
                shape,
                c.y_bar,
            ) && is_aligned_to(self.z_bar, shape, c.z_bar),
    {
        let x_bar = self.x_bar.align(shape)?;
        let y_bar = self.y_bar.align(shape)?;
        let z_bar = self.z_bar.align(shape)?;
        Ok(CMF { x_bar, y_bar, z_bar })
    }
}

} // verus!
