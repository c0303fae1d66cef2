//! Chromaticity coordinates and conversion from tristimulus values.

use crate::traits::Scalar;
use crate::xyz::XYZ;
use vstd::prelude::*;

verus! {

/// A pair of chromaticity coordinates with a luminance.
#[derive(Copy, Clone, Debug)]
#[allow(non_snake_case)]
pub struct XYY<T> {
    pub x: T,
    pub y: T,
    pub Y: T,
}

/// A chromaticity pair with unit luminance.
pub fn xy<T: Scalar>(x: T, y: T) -> (r: XYY<T>)
    ensures
        r == (XYY { x, y, Y: T::one_spec() }),
{
    XYY { x, y, Y: T::one() }
}

impl<T: Scalar> XYY<T> {
    #[allow(non_snake_case)]
    pub fn new(x: T, y: T, Y: T) -> (r: XYY<T>)
        ensures
            r == (XYY { x, y, Y }),
    {
        XYY { x, y, Y }
    }

    /// The chromaticity of a tristimulus value: each of the first two
    /// components of the colour, scaled down by one hundred, as a share
    /// of their scaled-down sum.
    pub fn from_xyz(c: XYZ<T>) -> (r: XYY<T>)
        ensures
            r == (XYY {
                x: c.x.div_spec(T::from_ratio_spec(100, 1)).div_spec(
                    c.x.div_spec(T::from_ratio_spec(100, 1)).add_spec(
                        c.y.div_spec(T::from_ratio_spec(100, 1)),
                    ).add_spec(c.z.div_spec(T::from_ratio_spec(100, 1))),
                ),
                y: c.y.div_spec(T::from_ratio_spec(100, 1)).div_spec(
                    c.x.div_spec(T::from_ratio_spec(100, 1)).add_spec(
                        c.y.div_spec(T::from_ratio_spec(100, 1)),
                    ).add_spec(c.z.div_spec(T::from_ratio_spec(100, 1))),
                ),
                Y: c.y.div_spec(T::from_ratio_spec(100, 1)),
            }),
    {
        let h = T::from_ratio(100, 1);
        let cx = c.x.div(h);
        let cy = c.y.div(h);
        let cz = c.z.div(h);
        XYY { x: cx.div(cx.add(cy).add(cz)), y: cy.div(cx.add(cy).add(cz)), Y: cy }
    }
}

} // verus!
