//! Signed 80.48 fixed-point numbers: an `i128` whose lowest 48 bits are the fraction.
//!
//! The value of `x` is `x.bits / 2^48`. Addition, subtraction, comparison and conversion from
//! integers are exact operations on the bits and are written here. Multiplication, division,
//! rounding and conversion back to integers are done by the `fixed` crate, whose behaviour is
//! stated on the wrappers below.
use vstd::prelude::*;

verus! {

/// `2^48`, the scale of the 80.48 format.
pub open spec fn scale() -> int {
    0x1_0000_0000_0000
}

/// The bits of `2^48` as an executable constant.
pub const ONE_BITS: i128 = 0x1_0000_0000_0000;

/// `x` is representable as an `i128`.
pub open spec fn in_i128(x: int) -> bool {
    i128::MIN <= x <= i128::MAX
}

pub open spec fn abs(x: int) -> int {
    if x < 0 {
        -x
    } else {
        x
    }
}

/// `x` clamped to the range of `i128`.
pub open spec fn clamp_i128(x: int) -> int {
    if x > i128::MAX {
        i128::MAX as int
    } else if x < i128::MIN {
        i128::MIN as int
    } else {
        x
    }
}

/// Bits of the product: the exact product of the two values, rounded toward negative infinity.
pub open spec fn mul_bits(a: int, b: int) -> int {
    (a * b) / scale()
}

/// Bits of the quotient `a / b` (both given by their bits): the exact quotient rounded toward zero.
pub open spec fn div_bits(a: int, b: int) -> int {
    let n = a * scale();
    let q = abs(n) / abs(b);
    if (n < 0) != (b < 0) {
        -q
    } else {
        q
    }
}

/// The integer part of a value given by its bits, rounded toward negative infinity.
pub open spec fn floor_int(a: int) -> int {
    a / scale()
}

/// Bits of the value rounded to the nearest integer, ties away from zero.
pub open spec fn round_bits(a: int) -> int {
    if a >= 0 {
        ((a + scale() / 2) / scale()) * scale()
    } else {
        -(((-a + scale() / 2) / scale()) * scale())
    }
}

/// Dividing the fixed-point integer `n` by the fixed-point integer `k` (both non-negative, `k`
/// positive) gives the bits `n * 2^48 / k`, rounded down.
pub proof fn lemma_div_of_integers(n: int, k: int)
    requires
        0 <= n,
        0 < k,
    ensures
        div_bits(n * scale(), k * scale()) == (n * scale()) / k,
        0 <= (n * scale()) / k <= n * scale(),
{
    let s = scale();
    let m = n * s;
    assert(m >= 0) by (nonlinear_arith)
        requires
            n >= 0,
            s > 0,
            m == n * s,
    ;
    assert(m * s >= 0) by (nonlinear_arith)
        requires
            m >= 0,
            s > 0,
    ;
    assert(k * s > 0) by (nonlinear_arith)
        requires
            k > 0,
            s > 0,
    ;
    vstd::arithmetic::div_mod::lemma_div_denominator(m * s, s, k);
    vstd::arithmetic::div_mod::lemma_div_by_multiple(m, s);
    assert(s * k == k * s) by (nonlinear_arith);
    vstd::arithmetic::div_mod::lemma_div_is_ordered_by_denominator(m, 1, k);
    vstd::arithmetic::div_mod::lemma_div_pos_is_pos(m, k);
}

/// Multiplying by the fixed-point integer `n` is exact.
pub proof fn lemma_mul_by_integer(a: int, n: int)
    ensures
        mul_bits(a, n * scale()) == a * n,
{
    let s = scale();
    assert(a * (n * s) == s * (a * n)) by (nonlinear_arith);
    vstd::arithmetic::div_mod::lemma_div_multiples_vanish(a * n, s);
}

/// A quotient by a divisor of magnitude at least one is no larger in magnitude than the dividend.
pub proof fn lemma_div_bits_bound(a: int, b: int)
    requires
        abs(b) >= scale(),
    ensures
        abs(div_bits(a, b)) <= abs(a),
{
    let s = scale();
    let n = a * s;
    assert(abs(n) == abs(a) * s) by (nonlinear_arith)
        requires
            n == a * s,
            s > 0,
    ;
    assert(abs(a) * s >= 0) by (nonlinear_arith)
        requires
            s > 0,
    ;
    vstd::arithmetic::div_mod::lemma_div_is_ordered_by_denominator(abs(a) * s, s, abs(b));
    vstd::arithmetic::div_mod::lemma_div_by_multiple(abs(a), s);
    vstd::arithmetic::div_mod::lemma_div_pos_is_pos(abs(n), abs(b));
}

/// A signed 80.48 fixed-point number.
#[derive(Clone, Copy, Debug, PartialEq, Eq, Structural)]
pub struct I80F48 {
    pub bits: i128,
}

impl I80F48 {
    /// The value `bits / 2^48`.
    pub fn from_bits(bits: i128) -> (r: I80F48)
        ensures
            r.bits == bits,
    {
        I80F48 { bits }
    }

    pub fn to_bits(self) -> (r: i128)
        ensures
            r == self.bits,
    {
        self.bits
    }

    pub fn zero() -> (r: I80F48)
        ensures
            r.bits == 0,
    {
        I80F48 { bits: 0 }
    }

    pub fn one() -> (r: I80F48)
        ensures
            r.bits == scale(),
    {
        I80F48 { bits: ONE_BITS }
    }

    /// The integer `n` as a fixed-point number.
    pub fn from_u64(n: u64) -> (r: I80F48)
        ensures
            r.bits == n * scale(),
    {
        assert(n * scale() <= 0xffff_ffff_ffff_ffff * scale()) by (nonlinear_arith)
            requires
                n <= 0xffff_ffff_ffff_ffffu64,
        ;
        I80F48 { bits: (n as i128) * ONE_BITS }
    }

    /// The integer `n` as a fixed-point number; `n` must have at most 79 significant bits.
    pub fn from_u128(n: u128) -> (r: I80F48)
        requires
            n < 0x8000_0000_0000_0000_0000,
        ensures
            r.bits == n * scale(),
    {
        assert(n * scale() < 0x8000_0000_0000_0000_0000 * scale()) by (nonlinear_arith)
            requires
                n < 0x8000_0000_0000_0000_0000u128,
        ;
        I80F48 { bits: (n as i128) * ONE_BITS }
    }

    pub fn is_zero(self) -> (r: bool)
        ensures
            r == (self.bits == 0),
    {
        self.bits == 0
    }

    pub fn lt(self, other: I80F48) -> (r: bool)
        ensures
            r == (self.bits < other.bits),
    {
        self.bits < other.bits
    }

    pub fn le(self, other: I80F48) -> (r: bool)
        ensures
            r == (self.bits <= other.bits),
    {
        self.bits <= other.bits
    }

    pub fn min(self, other: I80F48) -> (r: I80F48)
        ensures
            r.bits == if self.bits <= other.bits {
                self.bits
            } else {
                other.bits
            },
    {
        if self.bits <= other.bits {
            self
        } else {
            other
        }
    }

    /// Sum; `None` when it does not fit.
    pub fn checked_add(self, other: I80F48) -> (r: Option<I80F48>)
        ensures
            r matches Some(v) ==> v.bits == self.bits + other.bits,
            r is None <==> !in_i128(self.bits + other.bits),
    {
        match self.bits.checked_add(other.bits) {
            Some(b) => Some(I80F48 { bits: b }),
            None => None,
        }
    }

    /// Sum of two values whose sum fits.
    pub fn add(self, other: I80F48) -> (r: I80F48)
        requires
            in_i128(self.bits + other.bits),
        ensures
            r.bits == self.bits + other.bits,
    {
        I80F48 { bits: self.bits + other.bits }
    }

    /// Difference of two values whose difference fits.
    pub fn sub(self, other: I80F48) -> (r: I80F48)
        requires
            in_i128(self.bits - other.bits),
        ensures
            r.bits == self.bits - other.bits,
    {
        I80F48 { bits: self.bits - other.bits }
    }

    /// Sum, clamped to the representable range.
    pub fn saturating_add(self, other: I80F48) -> (r: I80F48)
        ensures
            r.bits == clamp_i128(self.bits + other.bits),
    {
        match self.bits.checked_add(other.bits) {
            Some(b) => I80F48 { bits: b },
            None => if other.bits > 0 {
                I80F48 { bits: i128::MAX }
            } else {
                I80F48 { bits: i128::MIN }
            },
        }
    }

    /// Difference, clamped to the representable range.
    pub fn saturating_sub(self, other: I80F48) -> (r: I80F48)
        ensures
            r.bits == clamp_i128(self.bits - other.bits),
    {
        match self.bits.checked_sub(other.bits) {
            Some(b) => I80F48 { bits: b },
            None => if other.bits < 0 {
                I80F48 { bits: i128::MAX }
            } else {
                I80F48 { bits: i128::MIN }
            },
        }
    }

    /// Product, computed by `fixed`'s `*` on `I80F48` (which panics on overflow when debug
    /// assertions are on): the exact product rounded toward negative infinity.
    #[verifier::external_body]
    pub(crate) fn mul(self, other: I80F48) -> (r: I80F48)
        requires
            in_i128(mul_bits(self.bits as int, other.bits as int)),
        ensures
            r.bits == mul_bits(self.bits as int, other.bits as int),
    {
        let a = fixed::types::I80F48::from_bits(self.bits);
        let b = fixed::types::I80F48::from_bits(other.bits);
        I80F48 { bits: (a * b).to_bits() }
    }

    /// `fixed`'s `checked_mul` on `I80F48`: the product rounded toward negative infinity, or
    /// `None` when it does not fit.
    #[verifier::external_body]
    pub(crate) fn checked_mul(self, other: I80F48) -> (r: Option<I80F48>)
        ensures
            r matches Some(v) ==> v.bits == mul_bits(self.bits as int, other.bits as int),
            r is None <==> !in_i128(mul_bits(self.bits as int, other.bits as int)),
    {
        let a = fixed::types::I80F48::from_bits(self.bits);
        let b = fixed::types::I80F48::from_bits(other.bits);
        a.checked_mul(b).map(|v| I80F48 { bits: v.to_bits() })
    }

    /// Quotient, computed by `fixed`'s `/` on `I80F48` (which panics on a zero divisor, and on
    /// overflow when debug assertions are on): the exact quotient rounded toward zero.
    #[verifier::external_body]
    pub(crate) fn div(self, other: I80F48) -> (r: I80F48)
        requires
            other.bits != 0,
            in_i128(div_bits(self.bits as int, other.bits as int)),
        ensures
            r.bits == div_bits(self.bits as int, other.bits as int),
    {
        let a = fixed::types::I80F48::from_bits(self.bits);
        let b = fixed::types::I80F48::from_bits(other.bits);
        I80F48 { bits: (a / b).to_bits() }
    }

    /// `fixed`'s `checked_div` on `I80F48`: the quotient rounded toward zero, or `None` on a zero
    /// divisor or when it does not fit.
    #[verifier::external_body]
    pub(crate) fn checked_div(self, other: I80F48) -> (r: Option<I80F48>)
        ensures
            r matches Some(v) ==> other.bits != 0 && v.bits == div_bits(
                self.bits as int,
                other.bits as int,
            ),
            r is None <==> (other.bits == 0 || !in_i128(
                div_bits(self.bits as int, other.bits as int),
            )),
    {
        let a = fixed::types::I80F48::from_bits(self.bits);
        let b = fixed::types::I80F48::from_bits(other.bits);
        a.checked_div(b).map(|v| I80F48 { bits: v.to_bits() })
    }

    /// `fixed`'s `round` on `I80F48` (which panics on overflow when debug assertions are on): the
    /// nearest integer, ties away from zero.
    #[verifier::external_body]
    pub(crate) fn round(self) -> (r: I80F48)
        requires
            in_i128(round_bits(self.bits as int)),
        ensures
            r.bits == round_bits(self.bits as int),
    {
        I80F48 { bits: fixed::types::I80F48::from_bits(self.bits).round().to_bits() }
    }

    /// `fixed`'s `floor` on `I80F48`: the largest integer not above the value.
    #[verifier::external_body]
    pub(crate) fn floor(self) -> (r: I80F48)
        ensures
            r.bits == floor_int(self.bits as int) * scale(),
    {
        I80F48 { bits: fixed::types::I80F48::from_bits(self.bits).floor().to_bits() }
    }

    /// `fixed`'s `to_num::<u32>` on `I80F48` (which panics, when debug assertions are on, on a
    /// value that does not fit): the integer part, rounded toward negative infinity.
    #[verifier::external_body]
    pub(crate) fn to_u32(self) -> (r: u32)
        requires
            0 <= floor_int(self.bits as int) <= u32::MAX,
        ensures
            r == floor_int(self.bits as int),
    {
        fixed::types::I80F48::from_bits(self.bits).to_num::<u32>()
    }

    /// `fixed`'s `to_num::<u64>` on `I80F48` (which panics, when debug assertions are on, on a
    /// value that does not fit): the integer part, rounded toward negative infinity.
    #[verifier::external_body]
    pub(crate) fn to_u64(self) -> (r: u64)
        requires
            0 <= floor_int(self.bits as int) <= u64::MAX,
        ensures
            r == floor_int(self.bits as int),
    {
        fixed::types::I80F48::from_bits(self.bits).to_num::<u64>()
    }

    /// `fixed`'s `checked_to_num::<u64>` on `I80F48`: the integer part rounded toward negative
    /// infinity, or `None` when it does not fit in a `u64`.
    #[verifier::external_body]
    pub(crate) fn checked_to_u64(self) -> (r: Option<u64>)
        ensures
            r matches Some(v) ==> v == floor_int(self.bits as int),
            r is None <==> !(0 <= floor_int(self.bits as int) <= u64::MAX),
    {
        fixed::types::I80F48::from_bits(self.bits).checked_to_num::<u64>()
    }
}

} // verus!
