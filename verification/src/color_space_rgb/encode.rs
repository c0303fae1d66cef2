//! Opto-electrical transfer functions: scene-linear light in, encoded
//! signal out.

use crate::rgb::RGBf;
use crate::traits::Real;
use vstd::prelude::*;

verus! {

/// What the sRGB curve encodes a component to.
pub open spec fn srgb_t_spec<T: Real>(x: T) -> T {
    if x.le_spec(T::from_ratio_spec(31308, 10000000)) {
        x.mul_spec(T::from_ratio_spec(1292, 100))
    } else {
        T::one_spec().add_spec(T::from_ratio_spec(55, 1000)).mul_spec(
            x.powf_spec(T::one_spec().div_spec(T::from_ratio_spec(24, 10))),
        ).sub_spec(T::from_ratio_spec(55, 1000))
    }
}

/// The sRGB curve on one component.
pub fn srgb_t<T: Real>(x: T) -> (r: T)
    ensures
        r == srgb_t_spec(x),
{
    if x.le(T::from_ratio(31308, 10000000)) {
        x.mul(T::from_ratio(1292, 100))
    } else {
        T::one().add(T::from_ratio(55, 1000)).mul(
            x.powf(T::one().div(T::from_ratio(24, 10))),
        ).sub(T::from_ratio(55, 1000))
    }
}

/// The sRGB curve on each component.
pub fn srgb<T: Real>(x: RGBf<T>) -> (r: RGBf<T>)
    ensures
        r == (RGBf { r: srgb_t_spec(x.r), g: srgb_t_spec(x.g), b: srgb_t_spec(x.b) }),
{
    RGBf { r: srgb_t(x.r), g: srgb_t(x.g), b: srgb_t(x.b) }
}

/// What the BT.709 curve encodes a component to.
pub open spec fn bt709_t_spec<T: Real>(x: T) -> T {
    if x.le_spec(T::from_ratio_spec(18, 1000)) {
        x.mul_spec(T::from_ratio_spec(45, 10))
    } else {
        T::from_ratio_spec(1099, 1000).mul_spec(
            x.powf_spec(T::from_ratio_spec(45, 100)),
        ).sub_spec(T::from_ratio_spec(99, 1000))
    }
}

/// The BT.709 curve on one component.
pub fn bt709_t<T: Real>(x: T) -> (r: T)
    ensures
        r == bt709_t_spec(x),
{
    if x.le(T::from_ratio(18, 1000)) {
        x.mul(T::from_ratio(45, 10))
    } else {
        T::from_ratio(1099, 1000).mul(x.powf(T::from_ratio(45, 100))).sub(
            T::from_ratio(99, 1000),
        )
    }
}

/// The BT.709 curve on each component.
pub fn bt709<T: Real>(x: RGBf<T>) -> (r: RGBf<T>)
    ensures
        r == (RGBf { r: bt709_t_spec(x.r), g: bt709_t_spec(x.g), b: bt709_t_spec(x.b) }),
{
    RGBf { r: bt709_t(x.r), g: bt709_t(x.g), b: bt709_t(x.b) }
}

/// What the BT.2020 curve encodes a component to.
pub open spec fn bt2020_t_spec<T: Real>(x: T) -> T {
    if x.lt_spec(T::from_ratio_spec(18, 1000)) {
        x.mul_spec(T::from_ratio_spec(45, 10))
    } else {
        T::from_ratio_spec(1099, 1000).mul_spec(
            x.powf_spec(T::from_ratio_spec(45, 100)),
        ).sub_spec(T::from_ratio_spec(1099, 1000).sub_spec(T::one_spec()))
    }
}

/// The BT.2020 curve on one component.
pub fn bt2020_t<T: Real>(x: T) -> (r: T)
    ensures
        r == bt2020_t_spec(x),
{
    let alpha = T::from_ratio(1099, 1000);
    let beta = T::from_ratio(18, 1000);
    if x.lt(beta) {
        x.mul(T::from_ratio(45, 10))
    } else {
        alpha.mul(x.powf(T::from_ratio(45, 100))).sub(alpha.sub(T::one()))
    }
}

/// The BT.2020 curve on each component.
pub fn bt2020<T: Real>(x: RGBf<T>) -> (r: RGBf<T>)
    ensures
        r == (RGBf { r: bt2020_t_spec(x.r), g: bt2020_t_spec(x.g), b: bt2020_t_spec(x.b) }),
{
    RGBf { r: bt2020_t(x.r), g: bt2020_t(x.g), b: bt2020_t(x.b) }
}

/// The identity transfer on one component.
pub fn linear_t<T: Real>(x: T) -> (r: T)
    ensures
        r == x,
{
    x
}

/// The identity transfer on each component.
pub fn linear<T: Real>(x: RGBf<T>) -> (r: RGBf<T>)
    ensures
        r == (RGBf { r: x.r, g: x.g, b: x.b }),
{
    RGBf { r: linear_t(x.r), g: linear_t(x.g), b: linear_t(x.b) }
}

/// What the Alexa LogC V3 curve, at exposure index 800, encodes a
/// component to.
pub open spec fn alexa_logc_v3_t_spec<T: Real>(x: T) -> T {
    if T::from_ratio_spec(10591, 1000000).lt_spec(x) {
        T::from_ratio_spec(247190, 1000000).mul_spec(
            T::from_ratio_spec(5555556, 1000000).mul_spec(x).add_spec(
                T::from_ratio_spec(52272, 1000000),
            ).log10_spec(),
        ).add_spec(T::from_ratio_spec(385537, 1000000))
    } else {
        T::from_ratio_spec(5367655, 1000000).mul_spec(x).add_spec(
            T::from_ratio_spec(92809, 1000000),
        )
    }
}

/// The Alexa LogC V3 curve on one component, at exposure index 800.
pub fn alexa_logc_v3_t<T: Real>(x: T) -> (r: T)
    ensures
        r == alexa_logc_v3_t_spec(x),
{
    let cut = T::from_ratio(10591, 1000000);
    let a = T::from_ratio(5555556, 1000000);
    let b = T::from_ratio(52272, 1000000);
    let c = T::from_ratio(247190, 1000000);
    let d = T::from_ratio(385537, 1000000);
    let e = T::from_ratio(5367655, 1000000);
    let f = T::from_ratio(92809, 1000000);
    if cut.lt(x) {
        c.mul(a.mul(x).add(b).log10()).add(d)
    } else {
        e.mul(x).add(f)
    }
}

/// The Alexa LogC V3 curve on each component.
pub fn alexa_logc_v3<T: Real>(x: RGBf<T>) -> (r: RGBf<T>)
    ensures
        r == (RGBf {
            r: alexa_logc_v3_t_spec(x.r),
            g: alexa_logc_v3_t_spec(x.g),
            b: alexa_logc_v3_t_spec(x.b),
        }),
{
    RGBf { r: alexa_logc_v3_t(x.r), g: alexa_logc_v3_t(x.g), b: alexa_logc_v3_t(x.b) }
}

} // verus!
