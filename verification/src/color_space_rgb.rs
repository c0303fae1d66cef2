//! RGB colour spaces: primaries, whitepoint, transfer functions, and
//! the derived conversion matrices.

pub mod decode;
pub mod encode;

use crate::chromaticity::XYY;
use crate::math::Matrix33;
use crate::traits::Real;
use crate::traits::Scalar;
use crate::rgb::RGBf;
use vstd::prelude::*;

verus! {

/// The transfer curves a colour space can carry.
#[derive(Copy, Clone, Debug)]
pub enum TransferFunction<T> {
    Srgb,
    Bt709,
    Bt2020,
    Linear,
    AlexaLogCV3,
    /// A plain power curve: encoding raises to the reciprocal of the
    /// exponent, decoding to the exponent itself.
    Gamma(T),
}

/// What encoding through a transfer curve returns.
pub open spec fn encode_model<T: Real>(tf: TransferFunction<T>, c: RGBf<T>) -> RGBf<T> {
    match tf {
        TransferFunction::Srgb => RGBf {
            r: encode::srgb_t_spec(c.r),
            g: encode::srgb_t_spec(c.g),
            b: encode::srgb_t_spec(c.b),
        },
        TransferFunction::Bt709 => RGBf {
            r: encode::bt709_t_spec(c.r),
            g: encode::bt709_t_spec(c.g),
            b: encode::bt709_t_spec(c.b),
        },
        TransferFunction::Bt2020 => RGBf {
            r: encode::bt2020_t_spec(c.r),
            g: encode::bt2020_t_spec(c.g),
            b: encode::bt2020_t_spec(c.b),
        },
        TransferFunction::Linear => c,
        TransferFunction::AlexaLogCV3 => RGBf {
            r: encode::alexa_logc_v3_t_spec(c.r),
            g: encode::alexa_logc_v3_t_spec(c.g),
            b: encode::alexa_logc_v3_t_spec(c.b),
        },
        TransferFunction::Gamma(g) => RGBf {
            r: c.r.powf_spec(T::one_spec().div_spec(g)),
            g: c.g.powf_spec(T::one_spec().div_spec(g)),
            b: c.b.powf_spec(T::one_spec().div_spec(g)),
        },
    }
}

/// What decoding through a transfer curve returns.
pub open spec fn decode_model<T: Real>(tf: TransferFunction<T>, c: RGBf<T>) -> RGBf<T> {
    match tf {
        TransferFunction::Srgb => RGBf {
            r: decode::srgb_t_spec(c.r),
            g: decode::srgb_t_spec(c.g),
            b: decode::srgb_t_spec(c.b),
        },
        TransferFunction::Bt709 => RGBf {
            r: decode::bt709_t_spec(c.r),
            g: decode::bt709_t_spec(c.g),
            b: decode::bt709_t_spec(c.b),
        },
        TransferFunction::Bt2020 => RGBf {
            r: decode::bt2020_t_spec(c.r),
            g: decode::bt2020_t_spec(c.g),
            b: decode::bt2020_t_spec(c.b),
        },
        TransferFunction::Linear => c,
        TransferFunction::AlexaLogCV3 => RGBf {
            r: decode::alexa_logc_v3_t_spec(c.r),
            g: decode::alexa_logc_v3_t_spec(c.g),
            b: decode::alexa_logc_v3_t_spec(c.b),
        },
        TransferFunction::Gamma(g) => RGBf {
            r: c.r.powf_spec(g),
            g: c.g.powf_spec(g),
            b: c.b.powf_spec(g),
        },
    }
}

/// The third chromaticity coordinate implied by the first two.
pub open spec fn z_of<T: Scalar>(c: XYY<T>) -> T {
    T::one_spec().sub_spec(c.x.add_spec(c.y))
}

/// Red-row cofactors of the primary matrix.
pub open spec fn rx_of<T: Scalar>(g: XYY<T>, b: XYY<T>) -> T {
    g.y.mul_spec(z_of(b)).sub_spec(b.y.mul_spec(z_of(g)))
}

pub open spec fn ry_of<T: Scalar>(g: XYY<T>, b: XYY<T>) -> T {
    b.x.mul_spec(z_of(g)).sub_spec(g.x.mul_spec(z_of(b)))
}

pub open spec fn rz_of<T: Scalar>(g: XYY<T>, b: XYY<T>) -> T {
    g.x.mul_spec(b.y).sub_spec(b.x.mul_spec(g.y))
}

/// The white scaling factor of one primary row.
pub open spec fn row_scale<T: Scalar>(cx: T, cy: T, cz: T, w: XYY<T>) -> T {
    cx.mul_spec(w.x).add_spec(cy.mul_spec(w.y)).add_spec(cz.mul_spec(z_of(w))).div_spec(w.y)
}

/// The XYZ-to-RGB matrix a set of primaries and a white point define:
/// each row is the corresponding cofactor row of the primary matrix,
/// scaled so the white point maps to unit luminance.
pub open spec fn built_matrix_seq<T: Scalar>(
    red: XYY<T>,
    green: XYY<T>,
    blue: XYY<T>,
    white: XYY<T>,
) -> Seq<T> {
    seq![
        rx_of(green, blue).div_spec(
            row_scale(rx_of(green, blue), ry_of(green, blue), rz_of(green, blue), white),
        ),
        ry_of(green, blue).div_spec(
            row_scale(rx_of(green, blue), ry_of(green, blue), rz_of(green, blue), white),
        ),
        rz_of(green, blue).div_spec(
            row_scale(rx_of(green, blue), ry_of(green, blue), rz_of(green, blue), white),
        ),
        rx_of(blue, red).div_spec(
            row_scale(rx_of(blue, red), ry_of(blue, red), rz_of(blue, red), white),
        ),
        ry_of(blue, red).div_spec(
            row_scale(rx_of(blue, red), ry_of(blue, red), rz_of(blue, red), white),
        ),
        rz_of(blue, red).div_spec(
            row_scale(rx_of(blue, red), ry_of(blue, red), rz_of(blue, red), white),
        ),
        rx_of(red, green).div_spec(
            row_scale(rx_of(red, green), ry_of(red, green), rz_of(red, green), white),
        ),
        ry_of(red, green).div_spec(
            row_scale(rx_of(red, green), ry_of(red, green), rz_of(red, green), white),
        ),
        rz_of(red, green).div_spec(
            row_scale(rx_of(red, green), ry_of(red, green), rz_of(red, green), white),
        ),
    ]
}

/// Derive the XYZ-to-RGB matrix from primaries and a white point.
fn build_xyz_to_rgb_matrix<T: Real>(
    red: &XYY<T>,
    green: &XYY<T>,
    blue: &XYY<T>,
    white: &XYY<T>,
) -> (r: Matrix33<T>)
    ensures
        r.x@ == built_matrix_seq(*red, *green, *blue, *white),
{
    let xr = red.x;
    let yr = red.y;
    let zr = T::one().sub(xr.add(yr));
    let xg = green.x;
    let yg = green.y;
    let zg = T::one().sub(xg.add(yg));
    let xb = blue.x;
    let yb = blue.y;
    let zb = T::one().sub(xb.add(yb));
    let xw = white.x;
    let yw = white.y;
    let zw = T::one().sub(xw.add(yw));

    let rx = yg.mul(zb).sub(yb.mul(zg));
    let ry = xb.mul(zg).sub(xg.mul(zb));
    let rz = xg.mul(yb).sub(xb.mul(yg));
    let gx = yb.mul(zr).sub(yr.mul(zb));
    let gy = xr.mul(zb).sub(xb.mul(zr));
    let gz = xb.mul(yr).sub(xr.mul(yb));
    let bx = yr.mul(zg).sub(yg.mul(zr));
    let by = xg.mul(zr).sub(xr.mul(zg));
    let bz = xr.mul(yg).sub(xg.mul(yr));

    let rw = rx.mul(xw).add(ry.mul(yw)).add(rz.mul(zw)).div(yw);
    let gw = gx.mul(xw).add(gy.mul(yw)).add(gz.mul(zw)).div(yw);
    let bw = bx.mul(xw).add(by.mul(yw)).add(bz.mul(zw)).div(yw);

    let m = Matrix33::new(
        [
            rx.div(rw),
            ry.div(rw),
            rz.div(rw),
            gx.div(gw),
            gy.div(gw),
            gz.div(gw),
            bx.div(bw),
            by.div(bw),
            bz.div(bw),
        ],
    );
    proof {
        assert(m.x@ =~= built_matrix_seq(*red, *green, *blue, *white));
    }
    m
}

/// A tristimulus RGB colour space: primaries, white point, conversion
/// matrices and transfer curves.
#[derive(Clone)]
pub struct ColorSpaceRGB<T> {
    pub xf_xyz_to_rgb: Matrix33<T>,
    pub xf_rgb_to_xyz: Matrix33<T>,
    pub red: XYY<T>,
    pub green: XYY<T>,
    pub blue: XYY<T>,
    pub white: XYY<T>,
    pub oetf: TransferFunction<T>,
    pub eotf: TransferFunction<T>,
}

impl<T: Real> ColorSpaceRGB<T> {
    /// A colour space whose conversion matrices are derived from its
    /// primaries and white point; an absent result reports that the
    /// derived matrix could not be inverted.
    pub fn new(
        red: XYY<T>,
        green: XYY<T>,
        blue: XYY<T>,
        white: XYY<T>,
        oetf: TransferFunction<T>,
        eotf: TransferFunction<T>,
    ) -> (r: Option<ColorSpaceRGB<T>>)
        ensures
            r matches Some(cs) ==> cs.red == red && cs.green == green && cs.blue == blue
                && cs.white == white && cs.oetf == oetf && cs.eotf == eotf
                && cs.xf_xyz_to_rgb.x@ == built_matrix_seq(red, green, blue, white),
    {
        let xf_xyz_to_rgb = build_xyz_to_rgb_matrix(&red, &green, &blue, &white);
        let xf_rgb_to_xyz = match xf_xyz_to_rgb.inverse() {
            Some(m) => m,
            None => {
                return None;
            },
        };
        Some(
            ColorSpaceRGB { xf_xyz_to_rgb, xf_rgb_to_xyz, red, green, blue, white, oetf, eotf },
        )
    }

    /// A colour space with explicitly supplied conversion matrices, for
    /// standards whose published matrices differ from the derived ones
    /// by rounding.
    pub fn new_with_specified_matrices(
        red: XYY<T>,
        green: XYY<T>,
        blue: XYY<T>,
        white: XYY<T>,
        xf_xyz_to_rgb: Matrix33<T>,
        xf_rgb_to_xyz: Matrix33<T>,
        oetf: TransferFunction<T>,
        eotf: TransferFunction<T>,
    ) -> (r: ColorSpaceRGB<T>)
        ensures
            r.red == red && r.green == green && r.blue == blue && r.white == white && r.oetf
                == oetf && r.eotf == eotf && r.xf_xyz_to_rgb == xf_xyz_to_rgb && r.xf_rgb_to_xyz
                == xf_rgb_to_xyz,
    {
        ColorSpaceRGB { xf_xyz_to_rgb, xf_rgb_to_xyz, red, green, blue, white, oetf, eotf }
    }

    /// Convert a scene-referred, linear colour to a display-referred one
    /// using the opto-electrical transfer function.
    pub fn encode(&self, c: RGBf<T>) -> (r: RGBf<T>)
        ensures
            r == encode_model(self.oetf, c),
    {
        match self.oetf {
            TransferFunction::Srgb => encode::srgb(c),
            TransferFunction::Bt709 => encode::bt709(c),
            TransferFunction::Bt2020 => encode::bt2020(c),
            TransferFunction::Linear => c,
            TransferFunction::AlexaLogCV3 => encode::alexa_logc_v3(c),
            TransferFunction::Gamma(g) => c.powf(T::one().div(g)),
        }
    }

    /// Convert a display-referred, possibly non-linear colour back to a
    /// scene-referred, linear one using the electro-optical transfer
    /// function.
    pub fn decode(&self, c: RGBf<T>) -> (r: RGBf<T>)
        ensures
            r == decode_model(self.eotf, c),
    {
        match self.eotf {
            TransferFunction::Srgb => decode::srgb(c),
            TransferFunction::Bt709 => decode::bt709(c),
            TransferFunction::Bt2020 => decode::bt2020(c),
            TransferFunction::Linear => c,
            TransferFunction::AlexaLogCV3 => decode::alexa_logc_v3(c),
            TransferFunction::Gamma(g) => c.powf(g),
        }
    }
}

} // verus!
