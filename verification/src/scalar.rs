//! The scalar field that all column data is encoded into.
//!
//! Commitments and hashes are computed in the prime field of order
//! `FIELD_MODULUS` (the Mersenne prime `2^61 - 1`). A `Scalar` is a
//! canonical residue: a value strictly below the modulus.

use vstd::prelude::*;

verus! {

/// Order of the scalar field: the Mersenne prime `2^61 - 1`.
pub const FIELD_MODULUS: u64 = 2305843009213693951;

/// Reduction of a mathematical integer into the canonical residue range
/// `[0, FIELD_MODULUS)`.
pub open spec fn emod(x: int) -> int {
    x % (FIELD_MODULUS as int)
}

/// An element of the scalar field, stored as its canonical residue.
#[derive(Clone, Copy, Debug, PartialEq, Eq, Structural, Hash)]
pub struct Scalar {
    pub value: u64,
}

impl Scalar {
    /// A scalar is canonical when its representative is fully reduced.
    pub open spec fn is_canonical(self) -> bool {
        self.value < FIELD_MODULUS
    }

    /// Field addition.
    pub fn add(self, rhs: Scalar) -> (r: Scalar)
        requires
            self.is_canonical(),
            rhs.is_canonical(),
        ensures
            r.is_canonical(),
            r.value == emod(self.value + rhs.value),
    {
        let s: u128 = self.value as u128 + rhs.value as u128;
        Scalar { value: (s % (FIELD_MODULUS as u128)) as u64 }
    }

    /// Field multiplication.
    pub fn mul(self, rhs: Scalar) -> (r: Scalar)
        requires
            self.is_canonical(),
            rhs.is_canonical(),
        ensures
            r.is_canonical(),
            r.value == emod(self.value * rhs.value),
    {
        proof {
            lemma_u64_mul_in_u128(self.value, rhs.value);
        }
        let p: u128 = self.value as u128 * rhs.value as u128;
        Scalar { value: (p % (FIELD_MODULUS as u128)) as u64 }
    }

    /// Encode a 64-bit signed integer as its residue.
    pub fn from_i64(v: i64) -> (r: Scalar)
        ensures
            r.is_canonical(),
            r.value == emod(v as int),
    {
        Scalar::from_i128(v as i128)
    }

    /// Encode a 128-bit signed integer as its residue.
    pub fn from_i128(v: i128) -> (r: Scalar)
        ensures
            r.is_canonical(),
            r.value == emod(v as int),
    {
        if v >= 0 {
            let r: u128 = (v as u128) % (FIELD_MODULUS as u128);
            Scalar { value: r as u64 }
        } else {
            // -v may overflow i128 when v is the minimum, so negate via v + 1.
            let neg: u128 = ((-(v + 1)) as u128) + 1;
            let rem: u128 = neg % (FIELD_MODULUS as u128);
            proof {
                lemma_neg_mod(v as int, neg as int, rem as int);
            }
            if rem == 0 {
                Scalar { value: 0 }
            } else {
                Scalar { value: FIELD_MODULUS - (rem as u64) }
            }
        }
    }
}

proof fn lemma_u64_mul_in_u128(a: u64, b: u64)
    ensures
        (a as int) * (b as int) <= (u64::MAX as int) * (u64::MAX as int),
{
    assert((a as int) * (b as int) <= (u64::MAX as int) * (u64::MAX as int))
        by (nonlinear_arith)
        requires
            a <= u64::MAX,
            b <= u64::MAX,
    ;
}

proof fn lemma_neg_mod(v: int, neg: int, rem: int)
    requires
        v < 0,
        neg == -v,
        rem == neg % (FIELD_MODULUS as int),
    ensures
        rem == 0 ==> emod(v) == 0,
        rem != 0 ==> emod(v) == FIELD_MODULUS - rem,
{
    let m = FIELD_MODULUS as int;
    let q = neg / m;
    vstd::arithmetic::div_mod::lemma_fundamental_div_mod(neg, m);
    assert(v == m * (-q) + (-rem)) by {
        assert(neg == m * q + rem);
    }
    vstd::arithmetic::div_mod::lemma_mod_multiples_vanish(-q, -rem, m);
    assert(emod(v) == (-rem) % m);
    if rem != 0 {
        vstd::arithmetic::div_mod::lemma_mod_multiples_vanish(1, -rem, m);
        assert((m - rem) % m == (-rem) % m);
        vstd::arithmetic::div_mod::lemma_small_mod((m - rem) as nat, m as nat);
    }
}

} // verus!
