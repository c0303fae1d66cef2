//! Conversions between tristimulus values and RGB colour spaces.

use crate::chromatic_adaptation::cat02;
use crate::chromatic_adaptation::cat02_outcome;
use crate::chromaticity::XYY;
use crate::color_space_rgb::ColorSpaceRGB;
use crate::math::matmul_entry;
use crate::math::Matrix33;
use crate::rgb::rgbf;
use crate::rgb::RGBf;
use crate::traits::Real;
use crate::traits::Scalar;
use crate::xyz::chroma_to_xyz_spec;
use crate::xyz::XYZ;
use vstd::prelude::*;

verus! {

/// A three-matrix product `a * c * b`, with `mid` the intermediate
/// `a * c`.
pub open spec fn chained_product<T: Scalar>(
    m: Matrix33<T>,
    a: Matrix33<T>,
    c: Matrix33<T>,
    b: Matrix33<T>,
    mid: Matrix33<T>,
) -> bool {
    &&& (forall|i: int, j: int|
        0 <= i < 3 && 0 <= j < 3 ==> #[trigger] mid.x@[3 * i + j] == matmul_entry(a, c, i, j))
    &&& (forall|i: int, j: int|
        0 <= i < 3 && 0 <= j < 3 ==> #[trigger] m.x@[3 * i + j] == matmul_entry(mid, b, i, j))
}

/// The matrix taking tristimulus values under the given white to the
/// colour space's RGB, adapting chromatically with CAT02; an absent
/// result reports a refused cone-matrix inversion.
pub fn xyz_to_rgb_matrix<T: Real>(xyz_white: XYY<T>, color_space_rgb: &ColorSpaceRGB<T>) -> (r:
    Option<Matrix33<T>>)
    ensures
        r matches Some(m) ==> exists|c: Matrix33<T>|
            #[trigger] cat02_outcome(
                chroma_to_xyz_spec(xyz_white),
                chroma_to_xyz_spec(color_space_rgb.white),
                c,
            ) && forall|i: int, j: int|
                0 <= i < 3 && 0 <= j < 3 ==> #[trigger] m.x@[3 * i + j] == matmul_entry(
                    color_space_rgb.xf_xyz_to_rgb,
                    c,
                    i,
                    j,
                ),
{
    let w_src = XYZ::from_chromaticity(xyz_white);
    let w_dst = XYZ::from_chromaticity(color_space_rgb.white);
    let cat = match cat02(w_src, w_dst) {
        Some(c) => c,
        None => {
            return None;
        },
    };
    let m = color_space_rgb.xf_xyz_to_rgb.matmul(&cat);
    Some(m)
}

/// The matrix taking tristimulus values to the colour space's RGB with
/// a caller-supplied chromatic adaptation matrix.
pub fn xyz_to_rgb_matrix_with_cat<T: Real>(
    cat_mtx: &Matrix33<T>,
    color_space_rgb: &ColorSpaceRGB<T>,
) -> (r: Matrix33<T>)
    ensures
        forall|i: int, j: int|
            0 <= i < 3 && 0 <= j < 3 ==> #[trigger] r.x@[3 * i + j] == matmul_entry(
                color_space_rgb.xf_xyz_to_rgb,
                *cat_mtx,
                i,
                j,
            ),
{
    color_space_rgb.xf_xyz_to_rgb.matmul(cat_mtx)
}

/// The matrix taking the colour space's RGB to tristimulus values under
/// the given white, adapting chromatically with CAT02.
pub fn rgb_to_xyz_matrix<T: Real>(xyz_white: XYY<T>, color_space_rgb: &ColorSpaceRGB<T>) -> (r:
    Option<Matrix33<T>>)
    ensures
        r matches Some(m) ==> exists|c: Matrix33<T>|
            #[trigger] cat02_outcome(
                chroma_to_xyz_spec(color_space_rgb.white),
                chroma_to_xyz_spec(xyz_white),
                c,
            ) && forall|i: int, j: int|
                0 <= i < 3 && 0 <= j < 3 ==> #[trigger] m.x@[3 * i + j] == matmul_entry(
                    c,
                    color_space_rgb.xf_rgb_to_xyz,
                    i,
                    j,
                ),
{
    let w_src = XYZ::from_chromaticity(color_space_rgb.white);
    let w_dst = XYZ::from_chromaticity(xyz_white);
    let cat = match cat02(w_src, w_dst) {
        Some(c) => c,
        None => {
            return None;
        },
    };
    let m = cat.matmul(&color_space_rgb.xf_rgb_to_xyz);
    Some(m)
}

/// What a tristimulus value maps to through an XYZ-to-RGB matrix: the
/// colour scaled down by one hundred, then transformed.
pub open spec fn xyz_to_rgb_model<T: Scalar>(mtx: Matrix33<T>, v: XYZ<T>) -> RGBf<T> {
    RGBf {
        r: mtx.x@[0].mul_spec(v.x.div_spec(T::from_ratio_spec(100, 1))).add_spec(
            mtx.x@[1].mul_spec(v.y.div_spec(T::from_ratio_spec(100, 1))),
        ).add_spec(mtx.x@[2].mul_spec(v.z.div_spec(T::from_ratio_spec(100, 1)))),
        g: mtx.x@[3].mul_spec(v.x.div_spec(T::from_ratio_spec(100, 1))).add_spec(
            mtx.x@[4].mul_spec(v.y.div_spec(T::from_ratio_spec(100, 1))),
        ).add_spec(mtx.x@[5].mul_spec(v.z.div_spec(T::from_ratio_spec(100, 1)))),
        b: mtx.x@[6].mul_spec(v.x.div_spec(T::from_ratio_spec(100, 1))).add_spec(
            mtx.x@[7].mul_spec(v.y.div_spec(T::from_ratio_spec(100, 1))),
        ).add_spec(mtx.x@[8].mul_spec(v.z.div_spec(T::from_ratio_spec(100, 1)))),
    }
}

/// Convert one tristimulus value to linear RGB through the given
/// matrix.
pub fn xyz_to_rgb<T: Real>(mtx: &Matrix33<T>, xyz_v: XYZ<T>) -> (r: RGBf<T>)
    ensures
        r == xyz_to_rgb_model(*mtx, xyz_v),
{
    let h = T::from_ratio(100, 1);
    let scaled = xyz_v.div_s(h);
    let t = mtx.transform_xyz(scaled);
    rgbf(t.x, t.y, t.z)
}

/// Convert a slice of tristimulus values to linear RGB through the
/// given matrix.
#[verifier::loop_isolation(false)]
pub fn xyz_slice_to_rgb<T: Real>(mtx: &Matrix33<T>, xyzs: &[XYZ<T>]) -> (r: Vec<RGBf<T>>)
    ensures
        r@.len() == xyzs@.len(),
        forall|i: int|
            0 <= i < xyzs@.len() ==> #[trigger] r@[i] == xyz_to_rgb_model(*mtx, xyzs@[i]),
{
    let mut out: Vec<RGBf<T>> = Vec::new();
    let n = xyzs.len();
    let mut i: usize = 0;
    while i < n
        invariant
            i <= n,
            n == xyzs@.len(),
            out@.len() == i,
            forall|j: int| 0 <= j < i ==> #[trigger] out@[j] == xyz_to_rgb_model(*mtx, xyzs@[j]),
        decreases n - i,
    {
        let ghost oprev = out@;
        let h = T::from_ratio(100, 1);
        let scaled = xyzs[i].div_s(h);
        let t = mtx.transform_xyz(scaled);
        out.push(rgbf(t.x, t.y, t.z));
        i = i + 1;
        proof {
            assert forall|j: int|
                0 <= j < i implies #[trigger] out@[j] == xyz_to_rgb_model(*mtx, xyzs@[j]) by {
                if j < i - 1 {
                    assert(out@[j] == oprev[j]);
                } else {
                    assert(out@[j] == (RGBf { r: t.x, g: t.y, b: t.z }));
                }
            };
        }
    }
    out
}

/// What an RGB value maps to through an RGB-to-XYZ matrix: the
/// transformed colour, scaled up by one hundred.
pub open spec fn rgb_to_xyz_model<T: Scalar>(mtx: Matrix33<T>, v: RGBf<T>) -> XYZ<T> {
    XYZ {
        x: mtx.x@[0].mul_spec(v.r).add_spec(mtx.x@[1].mul_spec(v.g)).add_spec(
            mtx.x@[2].mul_spec(v.b),
        ).mul_spec(T::from_ratio_spec(100, 1)),
        y: mtx.x@[3].mul_spec(v.r).add_spec(mtx.x@[4].mul_spec(v.g)).add_spec(
            mtx.x@[5].mul_spec(v.b),
        ).mul_spec(T::from_ratio_spec(100, 1)),
        z: mtx.x@[6].mul_spec(v.r).add_spec(mtx.x@[7].mul_spec(v.g)).add_spec(
            mtx.x@[8].mul_spec(v.b),
        ).mul_spec(T::from_ratio_spec(100, 1)),
    }
}

/// Convert one linear RGB value to a tristimulus value through the
/// given matrix.
pub fn rgb_to_xyz<T: Real>(mtx: &Matrix33<T>, rgb: RGBf<T>) -> (r: XYZ<T>)
    ensures
        r == rgb_to_xyz_model(*mtx, rgb),
{
    let t = mtx.transform_rgb(rgb);
    let h = T::from_ratio(100, 1);
    XYZ::new(t.r, t.g, t.b).mul_elem(XYZ::from_scalar(h))
}

/// The matrix taking one colour space's RGB directly to another's,
/// adapting between their whites with CAT02.
pub fn rgb_to_rgb_matrix<T: Real>(
    from_space: &ColorSpaceRGB<T>,
    to_space: &ColorSpaceRGB<T>,
) -> (r: Option<Matrix33<T>>)
    ensures
        r matches Some(m) ==> exists|c: Matrix33<T>, mid: Matrix33<T>|
            #[trigger] cat02_outcome(
                chroma_to_xyz_spec(from_space.white),
                chroma_to_xyz_spec(to_space.white),
                c,
            ) && #[trigger] chained_product(
                m,
                to_space.xf_xyz_to_rgb,
                c,
                from_space.xf_rgb_to_xyz,
                mid,
            ),
{
    let w_src = XYZ::from_chromaticity(from_space.white);
    let w_dst = XYZ::from_chromaticity(to_space.white);
    let cat = match cat02(w_src, w_dst) {
        Some(c) => c,
        None => {
            return None;
        },
    };
    let mid = to_space.xf_xyz_to_rgb.matmul(&cat);
    let m = mid.matmul(&from_space.xf_rgb_to_xyz);
    proof {
        assert(cat02_outcome(
            chroma_to_xyz_spec(from_space.white),
            chroma_to_xyz_spec(to_space.white),
            cat,
        ));
        assert(chained_product(
            m,
            to_space.xf_xyz_to_rgb,
            cat,
            from_space.xf_rgb_to_xyz,
            mid,
        ));
        assert(chained_product(
            Some(m).unwrap(),
            to_space.xf_xyz_to_rgb,
            cat,
            from_space.xf_rgb_to_xyz,
            mid,
        ));
        assert(exists|c: Matrix33<T>, mid2: Matrix33<T>|
            #[trigger] cat02_outcome(
                chroma_to_xyz_spec(from_space.white),
                chroma_to_xyz_spec(to_space.white),
                c,
            ) && #[trigger] chained_product(
                Some(m).unwrap(),
                to_space.xf_xyz_to_rgb,
                c,
                from_space.xf_rgb_to_xyz,
                mid2,
            ));
    }
    Some(m)
}

} // verus!
