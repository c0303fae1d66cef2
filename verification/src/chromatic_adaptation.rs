//! Chromatic adaptation transform matrices: Bradford, Von Kries and
//! CAT02, each mapping colours between two reference whites.

#![allow(non_snake_case)]

use crate::math::matmul_entry_seq;
use crate::math::Matrix33;
use crate::traits::Real;
use crate::traits::Scalar;
use crate::xyz::xyz_eq_spec;
use crate::xyz::XYZ;
use vstd::prelude::*;

verus! {

/// The first component of a row-major matrix applied to a colour.
pub open spec fn apply_seq_x<T: Scalar>(m: Seq<T>, v: XYZ<T>) -> T {
    m[0].mul_spec(v.x).add_spec(m[1].mul_spec(v.y)).add_spec(m[2].mul_spec(v.z))
}

/// The second component of a row-major matrix applied to a colour.
pub open spec fn apply_seq_y<T: Scalar>(m: Seq<T>, v: XYZ<T>) -> T {
    m[3].mul_spec(v.x).add_spec(m[4].mul_spec(v.y)).add_spec(m[5].mul_spec(v.z))
}

/// The third component of a row-major matrix applied to a colour.
pub open spec fn apply_seq_z<T: Scalar>(m: Seq<T>, v: XYZ<T>) -> T {
    m[6].mul_spec(v.x).add_spec(m[7].mul_spec(v.y)).add_spec(m[8].mul_spec(v.z))
}

/// The diagonal whitepoint-ratio matrix of an adaptation transform over
/// the given cone matrix: both whites are taken into cone space, and
/// each diagonal entry is the destination response over the source one.
pub open spec fn wp_seq<T: Scalar>(cone: Seq<T>, src: XYZ<T>, dst: XYZ<T>) -> Seq<T> {
    seq![
        apply_seq_x(cone, dst).div_spec(apply_seq_x(cone, src)),
        T::zero_spec(),
        T::zero_spec(),
        T::zero_spec(),
        apply_seq_y(cone, dst).div_spec(apply_seq_y(cone, src)),
        T::zero_spec(),
        T::zero_spec(),
        T::zero_spec(),
        apply_seq_z(cone, dst).div_spec(apply_seq_z(cone, src)),
    ]
}

/// The identity matrix, as a value sequence.
pub open spec fn identity_seq<T: Scalar>() -> Seq<T> {
    seq![
        T::one_spec(),
        T::zero_spec(),
        T::zero_spec(),
        T::zero_spec(),
        T::one_spec(),
        T::zero_spec(),
        T::zero_spec(),
        T::zero_spec(),
        T::one_spec(),
    ]
}

/// The adaptation product over a cone matrix: `m` is `inv` times the
/// whitepoint-ratio diagonal, times the cone matrix, with `mid` the
/// intermediate product.
pub open spec fn adapted_entries<T: Scalar>(
    m: Matrix33<T>,
    inv: Seq<T>,
    mid: Seq<T>,
    cone: Seq<T>,
    src: XYZ<T>,
    dst: XYZ<T>,
) -> bool {
    &&& mid.len() == 9
    &&& (forall|i: int, j: int|
        0 <= i < 3 && 0 <= j < 3 ==> #[trigger] mid[3 * i + j] == matmul_entry_seq(
            inv,
            wp_seq(cone, src, dst),
            i,
            j,
        ))
    &&& (forall|i: int, j: int|
        0 <= i < 3 && 0 <= j < 3 ==> #[trigger] m.x@[3 * i + j] == matmul_entry_seq(
            mid,
            cone,
            i,
            j,
        ))
}

/// What a CAT02 adaptation returned: the identity for equal whites,
/// else an adaptation product over the CAT02 cone matrix.
pub open spec fn cat02_outcome<T: Scalar>(src: XYZ<T>, dst: XYZ<T>, m: Matrix33<T>) -> bool {
    if xyz_eq_spec(src, dst) {
        m.x@ == identity_seq::<T>()
    } else {
        exists|inv: Seq<T>, mid: Seq<T>|
            #[trigger] adapted_entries(m, inv, mid, cat02_cone_seq::<T>(), src, dst)
    }
}

/// The Bradford cone response matrix.
pub open spec fn bradford_cone_seq<T: Scalar>() -> Seq<T> {
    seq![
        T::from_ratio_spec(8951, 10000),
        T::from_ratio_spec(2664, 10000),
        T::from_ratio_spec((-1614) as i64, 10000),
        T::from_ratio_spec((-7502) as i64, 10000),
        T::from_ratio_spec(17135, 10000),
        T::from_ratio_spec(367, 10000),
        T::from_ratio_spec(389, 10000),
        T::from_ratio_spec((-685) as i64, 10000),
        T::from_ratio_spec(10296, 10000),
    ]
}

/// The CAT02 cone response matrix.
pub open spec fn cat02_cone_seq<T: Scalar>() -> Seq<T> {
    seq![
        T::from_ratio_spec(7328, 10000),
        T::from_ratio_spec(4296, 10000),
        T::from_ratio_spec((-1624) as i64, 10000),
        T::from_ratio_spec((-7036) as i64, 10000),
        T::from_ratio_spec(16975, 10000),
        T::from_ratio_spec(61, 10000),
        T::from_ratio_spec(30, 10000),
        T::from_ratio_spec(136, 10000),
        T::from_ratio_spec(9834, 10000),
    ]
}

/// The Von Kries cone response matrix.
pub open spec fn von_kries_cone_seq<T: Scalar>() -> Seq<T> {
    seq![
        T::from_ratio_spec(40024, 100000),
        T::from_ratio_spec(70760, 100000),
        T::from_ratio_spec((-8081) as i64, 100000),
        T::from_ratio_spec((-22630) as i64, 100000),
        T::from_ratio_spec(116532, 100000),
        T::from_ratio_spec(4570, 100000),
        T::from_ratio_spec(0, 100000),
        T::from_ratio_spec(0, 100000),
        T::from_ratio_spec(91822, 100000),
    ]
}

/// The published inverse of the Von Kries cone matrix.
pub open spec fn von_kries_cone_inv_seq<T: Scalar>() -> Seq<T> {
    seq![
        T::from_ratio_spec(18599364, 10000000),
        T::from_ratio_spec((-11293816) as i64, 10000000),
        T::from_ratio_spec(2198974, 10000000),
        T::from_ratio_spec(3611914, 10000000),
        T::from_ratio_spec(6388125, 10000000),
        T::from_ratio_spec((-64) as i64, 10000000),
        T::from_ratio_spec(0, 10000000),
        T::from_ratio_spec(0, 10000000),
        T::from_ratio_spec(10890636, 10000000),
    ]
}

/// Assemble the product of an inverse cone matrix, the whitepoint ratio
/// diagonal, and the cone matrix.
fn adapt_product<T: Real>(
    ma: Matrix33<T>,
    ma_inv: Matrix33<T>,
    wp_src: XYZ<T>,
    wp_dst: XYZ<T>,
) -> (r: Matrix33<T>)
    ensures
        exists|mid: Seq<T>|
            #[trigger] adapted_entries(r, ma_inv.x@, mid, ma.x@, wp_src, wp_dst),
{
    let wp_src_a = ma.transform_xyz(wp_src);
    let wp_dst_a = ma.transform_xyz(wp_dst);
    let m_wp = Matrix33::new(
        [
            wp_dst_a.x.div(wp_src_a.x),
            T::zero(),
            T::zero(),
            T::zero(),
            wp_dst_a.y.div(wp_src_a.y),
            T::zero(),
            T::zero(),
            T::zero(),
            wp_dst_a.z.div(wp_src_a.z),
        ],
    );
    proof {
        assert(m_wp.x@ =~= wp_seq(ma.x@, wp_src, wp_dst));
    }
    let mid = ma_inv.matmul(&m_wp);
    let out = mid.matmul(&ma);
    proof {
        assert(adapted_entries(out, ma_inv.x@, mid.x@, ma.x@, wp_src, wp_dst));
    }
    out
}

/// The Bradford chromatic adaptation transform matrix between two
/// reference whites. Equal whites adapt by the identity; otherwise the
/// result is the adaptation product over the Bradford cone matrix, and
/// an absent result reports that the cone matrix inversion was refused.
pub fn bradford<T: Real>(wp_src: XYZ<T>, wp_dst: XYZ<T>) -> (r: Option<Matrix33<T>>)
    ensures
        xyz_eq_spec(wp_src, wp_dst) ==> (r matches Some(m) && m.x@ == identity_seq::<T>()),
        (!xyz_eq_spec(wp_src, wp_dst) && r is Some) ==> exists|inv: Seq<T>, mid: Seq<T>|
            #[trigger] adapted_entries(
                r.unwrap(),
                inv,
                mid,
                bradford_cone_seq::<T>(),
                wp_src,
                wp_dst,
            ),
{
    if wp_src.eqv(wp_dst) {
        return Some(Matrix33::make_identity());
    }
    assert(!xyz_eq_spec(wp_src, wp_dst));
    let ma = Matrix33::new(
        [
            T::from_ratio(8951, 10000),
            T::from_ratio(2664, 10000),
            T::from_ratio(-1614, 10000),
            T::from_ratio(-7502, 10000),
            T::from_ratio(17135, 10000),
            T::from_ratio(367, 10000),
            T::from_ratio(389, 10000),
            T::from_ratio(-685, 10000),
            T::from_ratio(10296, 10000),
        ],
    );
    proof {
        assert(ma.x@ =~= bradford_cone_seq::<T>());
    }
    let ma_inv = match ma.inverse() {
        Some(m) => m,
        None => {
            return None;
        },
    };
    let prod = adapt_product(ma, ma_inv, wp_src, wp_dst);
    proof {
        let midw = choose|mid: Seq<T>|
            #[trigger] adapted_entries(prod, ma_inv.x@, mid, ma.x@, wp_src, wp_dst);
        assert(adapted_entries(prod, ma_inv.x@, midw, bradford_cone_seq::<T>(), wp_src, wp_dst));
        assert(adapted_entries(
            Some(prod).unwrap(),
            ma_inv.x@,
            midw,
            bradford_cone_seq::<T>(),
            wp_src,
            wp_dst,
        ));
        assert(exists|inv: Seq<T>, mid: Seq<T>|
            #[trigger] adapted_entries(
                Some(prod).unwrap(),
                inv,
                mid,
                bradford_cone_seq::<T>(),
                wp_src,
                wp_dst,
            ));
    }
    Some(prod)
}

/// The Von Kries chromatic adaptation transform matrix between two
/// reference whites, using the published cone matrix and its published
/// inverse; equal whites adapt by the identity.
pub fn von_kries<T: Real>(wp_src: XYZ<T>, wp_dst: XYZ<T>) -> (r: Matrix33<T>)
    ensures
        xyz_eq_spec(wp_src, wp_dst) ==> r.x@ == identity_seq::<T>(),
        !xyz_eq_spec(wp_src, wp_dst) ==> exists|mid: Seq<T>|
            #[trigger] adapted_entries(
                r,
                von_kries_cone_inv_seq::<T>(),
                mid,
                von_kries_cone_seq::<T>(),
                wp_src,
                wp_dst,
            ),
{
    if wp_src.eqv(wp_dst) {
        return Matrix33::make_identity();
    }
    let ma = Matrix33::new(
        [
            T::from_ratio(40024, 100000),
            T::from_ratio(70760, 100000),
            T::from_ratio(-8081, 100000),
            T::from_ratio(-22630, 100000),
            T::from_ratio(116532, 100000),
            T::from_ratio(4570, 100000),
            T::from_ratio(0, 100000),
            T::from_ratio(0, 100000),
            T::from_ratio(91822, 100000),
        ],
    );
    let ma_inv = Matrix33::new(
        [
            T::from_ratio(18599364, 10000000),
            T::from_ratio(-11293816, 10000000),
            T::from_ratio(2198974, 10000000),
            T::from_ratio(3611914, 10000000),
            T::from_ratio(6388125, 10000000),
            T::from_ratio(-64, 10000000),
            T::from_ratio(0, 10000000),
            T::from_ratio(0, 10000000),
            T::from_ratio(10890636, 10000000),
        ],
    );
    proof {
        assert(ma.x@ =~= von_kries_cone_seq::<T>());
        assert(ma_inv.x@ =~= von_kries_cone_inv_seq::<T>());
    }
    let prod = adapt_product(ma, ma_inv, wp_src, wp_dst);
    proof {
        let midw = choose|mid: Seq<T>|
            #[trigger] adapted_entries(prod, ma_inv.x@, mid, ma.x@, wp_src, wp_dst);
        assert(adapted_entries(
            prod,
            von_kries_cone_inv_seq::<T>(),
            midw,
            von_kries_cone_seq::<T>(),
            wp_src,
            wp_dst,
        ));
    }
    prod
}

/// The CAT02 chromatic adaptation transform matrix between two
/// reference whites. Equal whites adapt by the identity; an absent
/// result reports that the cone matrix inversion was refused.
pub fn cat02<T: Real>(wp_src: XYZ<T>, wp_dst: XYZ<T>) -> (r: Option<Matrix33<T>>)
    ensures
        xyz_eq_spec(wp_src, wp_dst) ==> (r matches Some(m) && m.x@ == identity_seq::<T>()),
        (!xyz_eq_spec(wp_src, wp_dst) && r is Some) ==> exists|inv: Seq<T>, mid: Seq<T>|
            #[trigger] adapted_entries(r.unwrap(), inv, mid, cat02_cone_seq::<T>(), wp_src, wp_dst),
        r is Some ==> cat02_outcome(wp_src, wp_dst, r.unwrap()),
{
    if wp_src.eqv(wp_dst) {
        let ident = Matrix33::make_identity();
        proof {
            assert(cat02_outcome(wp_src, wp_dst, Some(ident).unwrap()));
        }
        return Some(ident);
    }
    let ma = Matrix33::new(
        [
            T::from_ratio(7328, 10000),
            T::from_ratio(4296, 10000),
            T::from_ratio(-1624, 10000),
            T::from_ratio(-7036, 10000),
            T::from_ratio(16975, 10000),
            T::from_ratio(61, 10000),
            T::from_ratio(30, 10000),
            T::from_ratio(136, 10000),
            T::from_ratio(9834, 10000),
        ],
    );
    proof {
        assert(ma.x@ =~= cat02_cone_seq::<T>());
    }
    let ma_inv = match ma.inverse() {
        Some(m) => m,
        None => {
            return None;
        },
    };
    let prod = adapt_product(ma, ma_inv, wp_src, wp_dst);
    proof {
        let midw = choose|mid: Seq<T>|
            #[trigger] adapted_entries(prod, ma_inv.x@, mid, ma.x@, wp_src, wp_dst);
        assert(adapted_entries(prod, ma_inv.x@, midw, cat02_cone_seq::<T>(), wp_src, wp_dst));
        assert(adapted_entries(
            Some(prod).unwrap(),
            ma_inv.x@,
            midw,
            cat02_cone_seq::<T>(),
            wp_src,
            wp_dst,
        ));
        assert(exists|inv: Seq<T>, mid: Seq<T>|
            #[trigger] adapted_entries(
                Some(prod).unwrap(),
                inv,
                mid,
                cat02_cone_seq::<T>(),
                wp_src,
                wp_dst,
            ));
        assert(cat02_outcome(wp_src, wp_dst, Some(prod).unwrap()));
    }
    Some(prod)
}

} // verus!
