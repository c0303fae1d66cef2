//! The L*a*b* colour space and colour difference formulas.

#![allow(non_snake_case)]

use crate::traits::Real;
use crate::traits::Scalar;
use crate::xyz::XYZ;
use vstd::prelude::*;

verus! {

/// An L*a*b* colour value.
#[derive(Copy, Clone, Debug)]
pub struct Lab<T> {
    pub L: T,
    pub a: T,
    pub b: T,
}

/// Short constructor for a Lab value.
pub fn lab<T: Scalar>(L: T, a: T, b: T) -> (r: Lab<T>)
    ensures
        r == (Lab { L, a, b }),
{
    Lab { L, a, b }
}

/// The Lab cube-root companding of one normalized component.
pub open spec fn lab_f<T: Real>(t: T) -> T {
    if T::from_ratio_spec(216, 24389).lt_spec(t) {
        t.powf_spec(T::one_spec().div_spec(T::from_ratio_spec(3, 1)))
    } else {
        T::from_ratio_spec(24389, 27).mul_spec(t).add_spec(T::from_ratio_spec(16, 1)).div_spec(
            T::from_ratio_spec(116, 1),
        )
    }
}

/// What a tristimulus value maps to in Lab under a reference white.
pub open spec fn xyz_to_lab_model<T: Real>(v: XYZ<T>, ref_white: XYZ<T>) -> Lab<T> {
    Lab {
        L: T::from_ratio_spec(116, 1).mul_spec(lab_f(v.y.div_spec(ref_white.y))).sub_spec(
            T::from_ratio_spec(16, 1),
        ),
        a: T::from_ratio_spec(500, 1).mul_spec(
            lab_f(v.x.div_spec(ref_white.x)).sub_spec(lab_f(v.y.div_spec(ref_white.y))),
        ),
        b: T::from_ratio_spec(200, 1).mul_spec(
            lab_f(v.y.div_spec(ref_white.y)).sub_spec(lab_f(v.z.div_spec(ref_white.z))),
        ),
    }
}

/// Convert a tristimulus value to Lab under the given reference white.
pub fn xyz_to_lab<T: Real>(v: XYZ<T>, ref_white: XYZ<T>) -> (r: Lab<T>)
    ensures
        r == xyz_to_lab_model(v, ref_white),
{
    let xyz_r = v.div_elem(ref_white);
    let epsilon = T::from_ratio(216, 24389);
    let kappa = T::from_ratio(24389, 27);
    let f_x = if epsilon.lt(xyz_r.x) {
        xyz_r.x.powf(T::one().div(T::from_ratio(3, 1)))
    } else {
        kappa.mul(xyz_r.x).add(T::from_ratio(16, 1)).div(T::from_ratio(116, 1))
    };
    let f_y = if epsilon.lt(xyz_r.y) {
        xyz_r.y.powf(T::one().div(T::from_ratio(3, 1)))
    } else {
        kappa.mul(xyz_r.y).add(T::from_ratio(16, 1)).div(T::from_ratio(116, 1))
    };
    let f_z = if epsilon.lt(xyz_r.z) {
        xyz_r.z.powf(T::one().div(T::from_ratio(3, 1)))
    } else {
        kappa.mul(xyz_r.z).add(T::from_ratio(16, 1)).div(T::from_ratio(116, 1))
    };
    lab(
        T::from_ratio(116, 1).mul(f_y).sub(T::from_ratio(16, 1)),
        T::from_ratio(500, 1).mul(f_x.sub(f_y)),
        T::from_ratio(200, 1).mul(f_y.sub(f_z)),
    )
}

/// The inverse companding of one Lab ratio.
pub open spec fn lab_finv_x<T: Real>(fx: T) -> T {
    if T::from_ratio_spec(216, 24389).lt_spec(fx.powi_spec(3)) {
        fx.powi_spec(3)
    } else {
        T::from_ratio_spec(116, 1).mul_spec(fx).sub_spec(T::from_ratio_spec(16, 1)).div_spec(
            T::from_ratio_spec(24389, 27),
        )
    }
}

/// What a Lab value maps back to in XYZ under a reference white.
pub open spec fn lab_to_xyz_model<T: Real>(c: Lab<T>, ref_white: XYZ<T>) -> XYZ<T> {
    XYZ {
        x: lab_finv_x(
            c.a.div_spec(T::from_ratio_spec(500, 1)).add_spec(
                c.L.add_spec(T::from_ratio_spec(16, 1)).div_spec(T::from_ratio_spec(116, 1)),
            ),
        ).mul_spec(ref_white.x),
        y: (if T::from_ratio_spec(24389, 27).mul_spec(T::from_ratio_spec(216, 24389)).lt_spec(
            c.L,
        ) {
            c.L.add_spec(T::from_ratio_spec(16, 1)).div_spec(
                T::from_ratio_spec(116, 1),
            ).powi_spec(3)
        } else {
            c.L.div_spec(T::from_ratio_spec(24389, 27))
        }).mul_spec(ref_white.y),
        z: lab_finv_x(
            c.L.add_spec(T::from_ratio_spec(16, 1)).div_spec(
                T::from_ratio_spec(116, 1),
            ).sub_spec(c.b.div_spec(T::from_ratio_spec(200, 1))),
        ).mul_spec(ref_white.z),
    }
}

/// Convert a Lab value back to XYZ under the given reference white.
pub fn lab_to_xyz<T: Real>(c: Lab<T>, ref_white: XYZ<T>) -> (r: XYZ<T>)
    ensures
        r == lab_to_xyz_model(c, ref_white),
{
    let epsilon = T::from_ratio(216, 24389);
    let kappa = T::from_ratio(24389, 27);
    let f_y = c.L.add(T::from_ratio(16, 1)).div(T::from_ratio(116, 1));
    let f_z = f_y.sub(c.b.div(T::from_ratio(200, 1)));
    let f_x = c.a.div(T::from_ratio(500, 1)).add(f_y);
    let f_x3 = f_x.powi(3);
    let x_r = if epsilon.lt(f_x3) {
        f_x3
    } else {
        T::from_ratio(116, 1).mul(f_x).sub(T::from_ratio(16, 1)).div(kappa)
    };
    let y_r = if kappa.mul(epsilon).lt(c.L) {
        c.L.add(T::from_ratio(16, 1)).div(T::from_ratio(116, 1)).powi(3)
    } else {
        c.L.div(kappa)
    };
    let f_z3 = f_z.powi(3);
    let z_r = if epsilon.lt(f_z3) {
        f_z3
    } else {
        T::from_ratio(116, 1).mul(f_z).sub(T::from_ratio(16, 1)).div(kappa)
    };
    XYZ::new(x_r, y_r, z_r).mul_elem(ref_white)
}

/// What the CIE 1976 colour difference of two Lab values is: the
/// euclidean distance.
pub open spec fn delta_e_1976_model<T: Real>(c1: Lab<T>, c2: Lab<T>) -> T {
    c1.L.sub_spec(c2.L).powi_spec(2).add_spec(c1.a.sub_spec(c2.a).powi_spec(2)).add_spec(
        c1.b.sub_spec(c2.b).powi_spec(2),
    ).sqrt_spec()
}

/// The CIE 1976 colour difference of two Lab values.
pub fn delta_E_1976<T: Real>(c1: Lab<T>, c2: Lab<T>) -> (r: T)
    ensures
        r == delta_e_1976_model(c1, c2),
{
    c1.L.sub(c2.L).powi(2).add(c1.a.sub(c2.a).powi(2)).add(c1.b.sub(c2.b).powi(2)).sqrt()
}

/// The mean chroma of two Lab values.
pub open spec fn de_cbar_ab<T: Real>(c1: Lab<T>, c2: Lab<T>) -> T {
    c1.a.hypot_spec(c1.b).add_spec(c2.a.hypot_spec(c2.b)).div_spec(T::from_ratio_spec(2, 1))
}

/// The chroma compensation factor of the CIEDE2000 formula.
pub open spec fn de_g<T: Real>(c1: Lab<T>, c2: Lab<T>) -> T {
    T::from_ratio_spec(5, 10).mul_spec(
        T::one_spec().sub_spec(
            de_cbar_ab(c1, c2).powi_spec(7).div_spec(
                de_cbar_ab(c1, c2).powi_spec(7).add_spec(
                    T::from_ratio_spec(25, 1).powi_spec(7),
                ),
            ).sqrt_spec(),
        ),
    )
}

/// The adjusted chroma of the first colour.
pub open spec fn de_cp1<T: Real>(c1: Lab<T>, c2: Lab<T>) -> T {
    T::one_spec().add_spec(de_g(c1, c2)).mul_spec(c1.a).hypot_spec(c1.b)
}

/// The adjusted chroma of the second colour.
pub open spec fn de_cp2<T: Real>(c1: Lab<T>, c2: Lab<T>) -> T {
    T::one_spec().add_spec(de_g(c1, c2)).mul_spec(c2.a).hypot_spec(c2.b)
}

/// The adjusted hue angle of the first colour, in degrees within one
/// turn.
pub open spec fn de_hp1<T: Real>(c1: Lab<T>, c2: Lab<T>) -> T {
    if c1.b.atan2_spec(T::one_spec().add_spec(de_g(c1, c2)).mul_spec(c1.a)).to_degrees_spec(
    ).lt_spec(T::zero_spec()) {
        c1.b.atan2_spec(T::one_spec().add_spec(de_g(c1, c2)).mul_spec(c1.a)).to_degrees_spec(
        ).add_spec(T::from_ratio_spec(360, 1))
    } else {
        c1.b.atan2_spec(T::one_spec().add_spec(de_g(c1, c2)).mul_spec(c1.a)).to_degrees_spec()
    }
}

/// The adjusted hue angle of the second colour, in degrees within one
/// turn.
pub open spec fn de_hp2<T: Real>(c1: Lab<T>, c2: Lab<T>) -> T {
    if c2.b.atan2_spec(T::one_spec().add_spec(de_g(c1, c2)).mul_spec(c2.a)).to_degrees_spec(
    ).lt_spec(T::zero_spec()) {
        c2.b.atan2_spec(T::one_spec().add_spec(de_g(c1, c2)).mul_spec(c2.a)).to_degrees_spec(
        ).add_spec(T::from_ratio_spec(360, 1))
    } else {
        c2.b.atan2_spec(T::one_spec().add_spec(de_g(c1, c2)).mul_spec(c2.a)).to_degrees_spec()
    }
}

/// The hue difference of the two colours, folded into a half turn.
pub open spec fn de_delta_hp<T: Real>(c1: Lab<T>, c2: Lab<T>) -> T {
    if de_cp1(c1, c2).mul_spec(de_cp2(c1, c2)).eqv_spec(T::zero_spec()) {
        T::zero_spec()
    } else if de_hp2(c1, c2).sub_spec(de_hp1(c1, c2)).abs_spec().le_spec(
        T::from_ratio_spec(180, 1),
    ) {
        de_hp2(c1, c2).sub_spec(de_hp1(c1, c2))
    } else if T::from_ratio_spec(180, 1).lt_spec(de_hp2(c1, c2).sub_spec(de_hp1(c1, c2))) {
        de_hp2(c1, c2).sub_spec(de_hp1(c1, c2)).sub_spec(T::from_ratio_spec(360, 1))
    } else {
        de_hp2(c1, c2).sub_spec(de_hp1(c1, c2)).add_spec(T::from_ratio_spec(360, 1))
    }
}

/// The combined hue difference term.
pub open spec fn de_delta_big_h<T: Real>(c1: Lab<T>, c2: Lab<T>) -> T {
    T::from_ratio_spec(2, 1).mul_spec(
        de_cp1(c1, c2).mul_spec(de_cp2(c1, c2)).sqrt_spec(),
    ).mul_spec(
        de_delta_hp(c1, c2).div_spec(T::from_ratio_spec(2, 1)).to_radians_spec().sin_spec(),
    )
}

/// The mean adjusted chroma.
pub open spec fn de_cbar_p<T: Real>(c1: Lab<T>, c2: Lab<T>) -> T {
    de_cp1(c1, c2).add_spec(de_cp2(c1, c2)).div_spec(T::from_ratio_spec(2, 1))
}

/// The mean hue angle, folded into one turn.
pub open spec fn de_hbar_p<T: Real>(c1: Lab<T>, c2: Lab<T>) -> T {
    if de_cp1(c1, c2).mul_spec(de_cp2(c1, c2)).eqv_spec(T::zero_spec()) {
        de_hp1(c1, c2).add_spec(de_hp2(c1, c2))
    } else if de_hp1(c1, c2).sub_spec(de_hp2(c1, c2)).abs_spec().le_spec(
        T::from_ratio_spec(180, 1),
    ) {
        de_hp1(c1, c2).add_spec(de_hp2(c1, c2)).div_spec(T::from_ratio_spec(2, 1))
    } else if de_hp1(c1, c2).add_spec(de_hp2(c1, c2)).lt_spec(T::from_ratio_spec(360, 1)) {
        de_hp1(c1, c2).add_spec(de_hp2(c1, c2)).add_spec(T::from_ratio_spec(360, 1)).div_spec(
            T::from_ratio_spec(2, 1),
        )
    } else {
        de_hp1(c1, c2).add_spec(de_hp2(c1, c2)).sub_spec(T::from_ratio_spec(360, 1)).div_spec(
            T::from_ratio_spec(2, 1),
        )
    }
}

/// The hue rotation profile.
pub open spec fn de_t<T: Real>(c1: Lab<T>, c2: Lab<T>) -> T {
    T::one_spec().sub_spec(
        T::from_ratio_spec(17, 100).mul_spec(
            de_hbar_p(c1, c2).sub_spec(T::from_ratio_spec(30, 1)).to_radians_spec().cos_spec(),
        ),
    ).add_spec(
        T::from_ratio_spec(24, 100).mul_spec(
            T::from_ratio_spec(2, 1).mul_spec(de_hbar_p(c1, c2)).to_radians_spec().cos_spec(),
        ),
    ).add_spec(
        T::from_ratio_spec(32, 100).mul_spec(
            T::from_ratio_spec(3, 1).mul_spec(de_hbar_p(c1, c2)).add_spec(
                T::from_ratio_spec(6, 1),
            ).to_radians_spec().cos_spec(),
        ),
    ).sub_spec(
        T::from_ratio_spec(20, 100).mul_spec(
            T::from_ratio_spec(4, 1).mul_spec(de_hbar_p(c1, c2)).sub_spec(
                T::from_ratio_spec(63, 1),
            ).to_radians_spec().cos_spec(),
        ),
    )
}

/// The hue rotation angle.
pub open spec fn de_delta_theta<T: Real>(c1: Lab<T>, c2: Lab<T>) -> T {
    T::from_ratio_spec(30, 1).mul_spec(
        de_hbar_p(c1, c2).sub_spec(T::from_ratio_spec(275, 1)).div_spec(
            T::from_ratio_spec(25, 1),
        ).mul_spec(
            de_hbar_p(c1, c2).sub_spec(T::from_ratio_spec(275, 1)).div_spec(
                T::from_ratio_spec(25, 1),
            ),
        ).neg_spec().exp_spec(),
    )
}

/// The chroma rotation factor.
pub open spec fn de_r_c<T: Real>(c1: Lab<T>, c2: Lab<T>) -> T {
    T::from_ratio_spec(2, 1).mul_spec(
        de_cbar_p(c1, c2).powi_spec(7).div_spec(
            de_cbar_p(c1, c2).powi_spec(7).add_spec(T::from_ratio_spec(25, 1).powi_spec(7)),
        ).sqrt_spec(),
    )
}

/// The lightness weighting.
pub open spec fn de_s_l<T: Real>(c1: Lab<T>, c2: Lab<T>) -> T {
    T::one_spec().add_spec(
        T::from_ratio_spec(15, 1000).mul_spec(
            c1.L.add_spec(c2.L).div_spec(T::from_ratio_spec(2, 1)).sub_spec(
                T::from_ratio_spec(50, 1),
            ).powi_spec(2),
        ).div_spec(
            T::from_ratio_spec(20, 1).add_spec(
                c1.L.add_spec(c2.L).div_spec(T::from_ratio_spec(2, 1)).sub_spec(
                    T::from_ratio_spec(50, 1),
                ).powi_spec(2),
            ).sqrt_spec(),
        ),
    )
}

/// The chroma weighting.
pub open spec fn de_s_c<T: Real>(c1: Lab<T>, c2: Lab<T>) -> T {
    T::one_spec().add_spec(T::from_ratio_spec(45, 1000).mul_spec(de_cbar_p(c1, c2)))
}

/// The hue weighting.
pub open spec fn de_s_h<T: Real>(c1: Lab<T>, c2: Lab<T>) -> T {
    T::one_spec().add_spec(
        T::from_ratio_spec(15, 1000).mul_spec(de_cbar_p(c1, c2)).mul_spec(de_t(c1, c2)),
    )
}

/// The rotation term.
pub open spec fn de_r_t<T: Real>(c1: Lab<T>, c2: Lab<T>) -> T {
    T::from_ratio_spec(2, 1).mul_spec(de_delta_theta(c1, c2)).to_radians_spec().sin_spec(
    ).neg_spec().mul_spec(de_r_c(c1, c2))
}

/// What the CIEDE2000 colour difference of two Lab values is.
pub open spec fn delta_e_2000_model<T: Real>(c1: Lab<T>, c2: Lab<T>) -> T {
    c2.L.sub_spec(c1.L).div_spec(T::one_spec().mul_spec(de_s_l(c1, c2))).mul_spec(
        c2.L.sub_spec(c1.L).div_spec(T::one_spec().mul_spec(de_s_l(c1, c2))),
    ).add_spec(
        de_cp2(c1, c2).sub_spec(de_cp1(c1, c2)).div_spec(
            T::one_spec().mul_spec(de_s_c(c1, c2)),
        ).mul_spec(
            de_cp2(c1, c2).sub_spec(de_cp1(c1, c2)).div_spec(
                T::one_spec().mul_spec(de_s_c(c1, c2)),
            ),
        ),
    ).add_spec(
        de_delta_big_h(c1, c2).div_spec(T::one_spec().mul_spec(de_s_h(c1, c2))).mul_spec(
            de_delta_big_h(c1, c2).div_spec(T::one_spec().mul_spec(de_s_h(c1, c2))),
        ),
    ).add_spec(
        de_r_t(c1, c2).mul_spec(
            de_cp2(c1, c2).sub_spec(de_cp1(c1, c2)).div_spec(
                T::one_spec().mul_spec(de_s_c(c1, c2)),
            ).mul_spec(
                de_delta_big_h(c1, c2).div_spec(T::one_spec().mul_spec(de_s_h(c1, c2))),
            ),
        ),
    ).sqrt_spec()
}

/// The CIEDE2000 colour difference of two Lab values, following the
/// implementation notes of Sharma and colleagues.
pub fn delta_E_2000<T: Real>(c1: Lab<T>, c2: Lab<T>) -> (r: T)
    ensures
        r == delta_e_2000_model(c1, c2),
{
    let two = T::from_ratio(2, 1);
    let d180 = T::from_ratio(180, 1);
    let d360 = T::from_ratio(360, 1);
    let C_1_ab = c1.a.hypot(c1.b);
    let C_2_ab = c2.a.hypot(c2.b);
    let C_bar_ab = C_1_ab.add(C_2_ab).div(two);
    let G = T::from_ratio(5, 10).mul(
        T::one().sub(
            C_bar_ab.powi(7).div(C_bar_ab.powi(7).add(T::from_ratio(25, 1).powi(7))).sqrt(),
        ),
    );
    let a_p_1 = T::one().add(G).mul(c1.a);
    let a_p_2 = T::one().add(G).mul(c2.a);
    let C_p_1 = a_p_1.hypot(c1.b);
    let C_p_2 = a_p_2.hypot(c2.b);
    let h_p_1_raw = c1.b.atan2(a_p_1).to_degrees();
    let h_p_1 = if h_p_1_raw.lt(T::zero()) {
        h_p_1_raw.add(d360)
    } else {
        h_p_1_raw
    };
    let h_p_2_raw = c2.b.atan2(a_p_2).to_degrees();
    let h_p_2 = if h_p_2_raw.lt(T::zero()) {
        h_p_2_raw.add(d360)
    } else {
        h_p_2_raw
    };
    let delta_L_p = c2.L.sub(c1.L);
    let delta_C_p = C_p_2.sub(C_p_1);
    let dh = h_p_2.sub(h_p_1);
    let delta_h_p = if C_p_1.mul(C_p_2).eqv(T::zero()) {
        T::zero()
    } else if dh.abs().le(d180) {
        dh
    } else if d180.lt(dh) {
        dh.sub(d360)
    } else {
        dh.add(d360)
    };
    let delta_H_p = two.mul(C_p_1.mul(C_p_2).sqrt()).mul(
        delta_h_p.div(two).to_radians().sin(),
    );
    let L_bar_p = c1.L.add(c2.L).div(two);
    let C_bar_p = C_p_1.add(C_p_2).div(two);
    let h_1_m_h_2 = h_p_1.sub(h_p_2).abs();
    let h_bar_p = if C_p_1.mul(C_p_2).eqv(T::zero()) {
        h_p_1.add(h_p_2)
    } else if h_1_m_h_2.le(d180) {
        h_p_1.add(h_p_2).div(two)
    } else if h_p_1.add(h_p_2).lt(d360) {
        h_p_1.add(h_p_2).add(d360).div(two)
    } else {
        h_p_1.add(h_p_2).sub(d360).div(two)
    };
    let T_f = T::one().sub(
        T::from_ratio(17, 100).mul(h_bar_p.sub(T::from_ratio(30, 1)).to_radians().cos()),
    ).add(T::from_ratio(24, 100).mul(two.mul(h_bar_p).to_radians().cos())).add(
        T::from_ratio(32, 100).mul(
            T::from_ratio(3, 1).mul(h_bar_p).add(T::from_ratio(6, 1)).to_radians().cos(),
        ),
    ).sub(
        T::from_ratio(20, 100).mul(
            T::from_ratio(4, 1).mul(h_bar_p).sub(T::from_ratio(63, 1)).to_radians().cos(),
        ),
    );
    let hh = h_bar_p.sub(T::from_ratio(275, 1)).div(T::from_ratio(25, 1));
    let delta_theta = T::from_ratio(30, 1).mul(hh.mul(hh).neg().exp());
    let R_C = two.mul(
        C_bar_p.powi(7).div(C_bar_p.powi(7).add(T::from_ratio(25, 1).powi(7))).sqrt(),
    );
    let lm50 = L_bar_p.sub(T::from_ratio(50, 1));
    let S_L = T::one().add(
        T::from_ratio(15, 1000).mul(lm50.powi(2)).div(
            T::from_ratio(20, 1).add(lm50.powi(2)).sqrt(),
        ),
    );
    let S_C = T::one().add(T::from_ratio(45, 1000).mul(C_bar_p));
    let S_H = T::one().add(T::from_ratio(15, 1000).mul(C_bar_p).mul(T_f));
    let R_T = two.mul(delta_theta).to_radians().sin().neg().mul(R_C);
    let K_L = T::one();
    let K_C = T::one();
    let K_H = T::one();
    let tl = delta_L_p.div(K_L.mul(S_L));
    let tc = delta_C_p.div(K_C.mul(S_C));
    let th = delta_H_p.div(K_H.mul(S_H));
    tl.mul(tl).add(tc.mul(tc)).add(th.mul(th)).add(R_T.mul(tc.mul(th))).sqrt()
}

} // verus!
