//! A fixed-point scalar with twelve decimal places, the library's own
//! verified implementation of [`Scalar`].
//!
//! Values are stored as a signed count of trillionths. Arithmetic that
//! leaves the representable range saturates, and multiplication and
//! division truncate towards zero. The point of this carrier is exactness
//! where it can be had: every operation is proved equal to its
//! specification shadow, and the algebraic laws of [`Scalar`] are proved
//! rather than assumed, so every lemma of the spectral engine holds for it.

use crate::traits::Scalar;
use vstd::prelude::*;

verus! {

/// Number of raw units in one; twelve decimal places.
pub const UNIT: i64 = 1_000_000_000_000;

#[derive(Copy, Clone, Debug, PartialEq, Eq, Structural)]
pub struct Fixed {
    pub raw: i64,
}

/// Clamp a mathematical integer into the `i64` range.
pub open spec fn sat64(v: int) -> int {
    if v > i64::MAX as int {
        i64::MAX as int
    } else if v < i64::MIN as int {
        i64::MIN as int
    } else {
        v
    }
}

/// Quotient truncated towards zero, for a positive divisor.
pub open spec fn tdiv(p: int, q: int) -> int {
    if p >= 0 {
        p / q
    } else {
        -((-p) / q)
    }
}

/// Quotient truncated towards zero, for any non-zero divisor.
pub open spec fn tdiv_signed(p: int, q: int) -> int {
    if q >= 0 {
        tdiv(p, q)
    } else {
        -tdiv(p, -q)
    }
}

/// Repeated multiplication, the model of `powi` on a non-negative exponent.
pub open spec fn pow_nat(x: Fixed, k: nat) -> Fixed
    decreases k,
{
    if k == 0 {
        Fixed { raw: UNIT }
    } else {
        pow_nat(x, (k - 1) as nat).mul_spec(x)
    }
}

/// The product of two values in the `i64` range stays strictly inside the
/// `i128` range.
proof fn lemma_prod_fits_i128(a: int, b: int)
    requires
        -0x8000_0000_0000_0000 <= a <= 0x7fff_ffff_ffff_ffff,
        -0x8000_0000_0000_0000 <= b <= 0x7fff_ffff_ffff_ffff,
    ensures
        -0x4000_0000_0000_0000_0000_0000_0000_0000 <= a * b
            <= 0x4000_0000_0000_0000_0000_0000_0000_0000,
{
    assert(-0x4000_0000_0000_0000_0000_0000_0000_0000 <= a * b
        <= 0x4000_0000_0000_0000_0000_0000_0000_0000) by (nonlinear_arith)
        requires
            -0x8000_0000_0000_0000 <= a <= 0x8000_0000_0000_0000,
            -0x8000_0000_0000_0000 <= b <= 0x8000_0000_0000_0000,
    ;
}

/// Clamp a wide intermediate into `i64`.
fn sat_to_i64(v: i128) -> (r: i64)
    ensures
        r as int == sat64(v as int),
{
    if v > i64::MAX as i128 {
        i64::MAX
    } else if v < i64::MIN as i128 {
        i64::MIN
    } else {
        v as i64
    }
}

/// Divide magnitudes and reapply the sign: the quotient of `p` by `q`,
/// truncated towards zero. Requires `q > 0`.
fn div_trunc(p: i128, q: i128) -> (r: i128)
    requires
        q > 0,
        p > i128::MIN,
    ensures
        r as int == tdiv(p as int, q as int),
{
    if p >= 0 {
        let m: u128 = p as u128;
        let d: u128 = q as u128;
        let quo: u128 = m / d;
        assert(quo <= p as u128 <= i128::MAX as u128) by {
            assert(quo <= m) by (nonlinear_arith)
                requires
                    d >= 1,
                    quo == m / d,
            ;
        };
        quo as i128
    } else {
        let m: u128 = (-p) as u128;
        let d: u128 = q as u128;
        let quo: u128 = m / d;
        assert(quo <= m <= i128::MAX as u128) by {
            assert(quo <= m) by (nonlinear_arith)
                requires
                    d >= 1,
                    quo == m / d,
            ;
        };
        let qs: i128 = quo as i128;
        -qs
    }
}

impl Scalar for Fixed {
    open spec fn zero_spec() -> Fixed {
        Fixed { raw: 0 }
    }

    open spec fn one_spec() -> Fixed {
        Fixed { raw: UNIT }
    }

    open spec fn add_spec(self, o: Fixed) -> Fixed {
        Fixed { raw: sat64(self.raw + o.raw) as i64 }
    }

    open spec fn sub_spec(self, o: Fixed) -> Fixed {
        Fixed { raw: sat64(self.raw - o.raw) as i64 }
    }

    open spec fn mul_spec(self, o: Fixed) -> Fixed {
        Fixed { raw: sat64(tdiv(self.raw * o.raw, UNIT as int)) as i64 }
    }

    open spec fn div_spec(self, o: Fixed) -> Fixed {
        if o.raw == 0 {
            Fixed { raw: 0 }
        } else {
            Fixed { raw: sat64(tdiv_signed(self.raw * UNIT, o.raw as int)) as i64 }
        }
    }

    open spec fn neg_spec(self) -> Fixed {
        Fixed { raw: sat64(-(self.raw as int)) as i64 }
    }

    open spec fn powi_spec(self, e: i32) -> Fixed {
        if e >= 0 {
            pow_nat(self, e as nat)
        } else {
            Fixed { raw: UNIT }.div_spec(pow_nat(self, (-(e as int)) as nat))
        }
    }

    open spec fn lt_spec(self, o: Fixed) -> bool {
        self.raw < o.raw
    }

    open spec fn le_spec(self, o: Fixed) -> bool {
        self.raw <= o.raw
    }

    open spec fn eqv_spec(self, o: Fixed) -> bool {
        self.raw == o.raw
    }

    open spec fn near_spec(self, o: Fixed) -> bool {
        self.raw == o.raw
    }

    open spec fn from_usize_spec(n: usize) -> Fixed {
        Fixed { raw: sat64(n * UNIT) as i64 }
    }

    open spec fn from_ratio_spec(n: i64, d: i64) -> Fixed {
        if d == 0 {
            Fixed { raw: 0 }
        } else {
            Fixed { raw: sat64(tdiv_signed(n * UNIT, d as int)) as i64 }
        }
    }

    open spec fn to_usize_spec(self) -> usize {
        if self.raw <= 0 {
            0
        } else {
            (self.raw / UNIT) as usize
        }
    }

    proof fn law_lt_irrefl(x: Fixed) {
    }

    proof fn law_lt_asym(x: Fixed, y: Fixed) {
    }

    proof fn law_lt_trans(x: Fixed, y: Fixed, z: Fixed) {
    }

    proof fn law_le_refl(x: Fixed) {
    }

    proof fn law_add_zero(x: Fixed) {
    }

    proof fn law_sub_self(x: Fixed) {
    }

    proof fn law_mul_zero(x: Fixed) {
    }

    proof fn law_zero_mul(x: Fixed) {
    }

    proof fn law_from_usize_zero() {
    }

    proof fn law_zero_div(x: Fixed) {
    }

    proof fn law_powi_zero(e: i32) {
        let k = e as nat;
        assert(pow_nat(Fixed { raw: 0 }, k) == pow_nat(Fixed { raw: 0 }, (k - 1) as nat).mul_spec(
            Fixed { raw: 0 },
        ));
    }

    fn zero() -> Fixed {
        Fixed { raw: 0 }
    }

    fn one() -> Fixed {
        Fixed { raw: UNIT }
    }

    fn add(self, o: Fixed) -> Fixed {
        Fixed { raw: sat_to_i64(self.raw as i128 + o.raw as i128) }
    }

    fn sub(self, o: Fixed) -> Fixed {
        Fixed { raw: sat_to_i64(self.raw as i128 - o.raw as i128) }
    }

    fn mul(self, o: Fixed) -> Fixed {
        proof {
            lemma_prod_fits_i128(self.raw as int, o.raw as int);
        }
        let p: i128 = self.raw as i128 * o.raw as i128;
        Fixed { raw: sat_to_i64(div_trunc(p, UNIT as i128)) }
    }

    fn div(self, o: Fixed) -> Fixed {
        if o.raw == 0 {
            Fixed { raw: 0 }
        } else {
            proof {
                lemma_prod_fits_i128(self.raw as int, UNIT as int);
            }
            let p: i128 = self.raw as i128 * UNIT as i128;
            if o.raw > 0 {
                Fixed { raw: sat_to_i64(div_trunc(p, o.raw as i128)) }
            } else {
                let q: i128 = -(o.raw as i128);
                let m: i128 = div_trunc(p, q);
                assert(tdiv_signed(p as int, o.raw as int) == -tdiv(p as int, q as int));
                Fixed { raw: sat_to_i64(-m) }
            }
        }
    }

    fn neg(self) -> Fixed {
        Fixed { raw: sat_to_i64(-(self.raw as i128)) }
    }

    fn powi(self, e: i32) -> Fixed {
        if e >= 0 {
            pow_loop(self, e as u64)
        } else {
            let k: u64 = (-(e as i64)) as u64;
            let p = pow_loop(self, k);
            Fixed { raw: UNIT }.div(p)
        }
    }

    fn lt(self, o: Fixed) -> bool {
        self.raw < o.raw
    }

    fn le(self, o: Fixed) -> bool {
        self.raw <= o.raw
    }

    fn eqv(self, o: Fixed) -> bool {
        self.raw == o.raw
    }

    fn near(self, o: Fixed) -> bool {
        self.raw == o.raw
    }

    fn from_usize(n: usize) -> Fixed {
        let w: u128 = n as u128 * UNIT as u128;
        if w > i64::MAX as u128 {
            Fixed { raw: i64::MAX }
        } else {
            Fixed { raw: w as i64 }
        }
    }

    fn from_ratio(n: i64, d: i64) -> Fixed {
        if d == 0 {
            Fixed { raw: 0 }
        } else {
            proof {
                lemma_prod_fits_i128(n as int, UNIT as int);
            }
            let p: i128 = n as i128 * UNIT as i128;
            if d > 0 {
                Fixed { raw: sat_to_i64(div_trunc(p, d as i128)) }
            } else {
                let q: i128 = -(d as i128);
                let m: i128 = div_trunc(p, q);
                assert(tdiv_signed(p as int, d as int) == -tdiv(p as int, q as int));
                Fixed { raw: sat_to_i64(-m) }
            }
        }
    }

    fn to_usize(self) -> usize {
        if self.raw <= 0 {
            0
        } else {
            let m: u64 = self.raw as u64;
            let q: u64 = m / (UNIT as u64);
            q as usize
        }
    }
}

/// Repeated multiplication; the executable side of [`pow_nat`].
fn pow_loop(x: Fixed, k: u64) -> (r: Fixed)
    ensures
        r == pow_nat(x, k as nat),
{
    let mut acc = Fixed { raw: UNIT };
    let mut i: u64 = 0;
    while i < k
        invariant
            i <= k,
            acc == pow_nat(x, i as nat),
        decreases k - i,
    {
        acc = acc.mul(x);
        i = i + 1;
    }
    acc
}

} // verus!
