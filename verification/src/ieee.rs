//! IEEE 754 data held as bit patterns.
//!
//! Times, coordinates and magnitudes reach the engine as binary64 and
//! binary32 data.  The verified code never does arithmetic on them; it only
//! needs to tell which of two values is the smaller one and whether a value
//! is a number at all, and to widen a binary32 datum to the binary64 datum
//! of the same value.  All of this has exact answers on the bit patterns,
//! and this module gives them, with the proof that the answers are those
//! that hold of the values the patterns stand for.
use vstd::prelude::*;
use vstd::arithmetic::power2::{
    lemma2_to64, lemma_pow2_adds, lemma_pow2_pos, lemma_pow2_strictly_increases, pow2,
};

verus! {

/// An IEEE 754 binary64 datum: one sign bit, eleven exponent bits and
/// fifty-two fraction bits, most significant first.  `==` compares the
/// patterns; `equals` compares the values.
#[derive(Debug, Clone, Copy, PartialEq, Eq, Hash, Structural)]
pub struct Binary64 {
    pub bits: u64,
}

/// An IEEE 754 binary32 datum: one sign bit, eight exponent bits and
/// twenty-three fraction bits, most significant first.  `==` compares the
/// patterns.
#[derive(Debug, Clone, Copy, PartialEq, Eq, Hash, Structural)]
pub struct Binary32 {
    pub bits: u32,
}

impl Binary64 {
    /// The pattern without its sign bit.
    pub open spec fn magnitude(self) -> int {
        self.bits as int % 0x8000_0000_0000_0000
    }

    /// Whether the sign bit is set.
    pub open spec fn is_negative(self) -> bool {
        self.bits >= 0x8000_0000_0000_0000
    }

    /// Whether the datum is not a number: all exponent bits set and a
    /// fraction other than zero.
    pub open spec fn spec_is_nan(self) -> bool {
        self.magnitude() > 0x7ff0_0000_0000_0000
    }

    /// An integer that orders the data as IEEE 754 orders the values they
    /// stand for.  Both zeros have key 0; the infinities have the keys of
    /// greatest magnitude among the numbers.
    pub open spec fn key(self) -> int {
        if self.is_negative() {
            -self.magnitude()
        } else {
            self.magnitude()
        }
    }

    /// `self < other` as IEEE 754 defines it: false if either is not a number.
    pub open spec fn spec_lt(self, other: Binary64) -> bool {
        !self.spec_is_nan() && !other.spec_is_nan() && self.key() < other.key()
    }

    /// `self <= other` as IEEE 754 defines it: false if either is not a number.
    pub open spec fn spec_le(self, other: Binary64) -> bool {
        !self.spec_is_nan() && !other.spec_is_nan() && self.key() <= other.key()
    }

    /// `self == other` as IEEE 754 defines it: the zeros are equal to each
    /// other, and what is not a number equals nothing.
    pub open spec fn spec_equals(self, other: Binary64) -> bool {
        !self.spec_is_nan() && !other.spec_is_nan() && self.key() == other.key()
    }

    pub fn from_bits(bits: u64) -> (r: Binary64)
        ensures
            r.bits == bits,
    {
        Binary64 { bits }
    }

    pub fn to_bits(self) -> (bits: u64)
        ensures
            bits == self.bits,
    {
        self.bits
    }

    #[verifier::when_used_as_spec(spec_is_nan)]
    pub fn is_nan(self) -> (r: bool)
        ensures
            r == self.spec_is_nan(),
    {
        self.bits % 0x8000_0000_0000_0000 > 0x7ff0_0000_0000_0000
    }

    /// The key as a machine integer.
    pub fn ordinal(self) -> (k: i64)
        ensures
            k == self.key(),
    {
        let magnitude: u64 = self.bits % 0x8000_0000_0000_0000;
        if self.bits >= 0x8000_0000_0000_0000 {
            -(magnitude as i64)
        } else {
            magnitude as i64
        }
    }

    #[verifier::when_used_as_spec(spec_lt)]
    pub fn lt(self, other: Binary64) -> (r: bool)
        ensures
            r == self.spec_lt(other),
    {
        !self.is_nan() && !other.is_nan() && self.ordinal() < other.ordinal()
    }

    #[verifier::when_used_as_spec(spec_le)]
    pub fn le(self, other: Binary64) -> (r: bool)
        ensures
            r == self.spec_le(other),
    {
        !self.is_nan() && !other.is_nan() && self.ordinal() <= other.ordinal()
    }

    #[verifier::when_used_as_spec(spec_equals)]
    pub fn equals(self, other: Binary64) -> (r: bool)
        ensures
            r == self.spec_equals(other),
    {
        !self.is_nan() && !other.is_nan() && self.ordinal() == other.ordinal()
    }
}

impl Binary32 {
    /// The pattern without its sign bit.
    pub open spec fn magnitude(self) -> int {
        self.bits as int % 0x8000_0000
    }

    /// Whether the sign bit is set.
    pub open spec fn is_negative(self) -> bool {
        self.bits >= 0x8000_0000
    }

    /// Whether the datum is not a number: all exponent bits set and a
    /// fraction other than zero.
    pub open spec fn spec_is_nan(self) -> bool {
        self.magnitude() > 0x7f80_0000
    }

    /// An integer that orders the data as IEEE 754 orders the values they
    /// stand for.  Both zeros have key 0.
    pub open spec fn key(self) -> int {
        if self.is_negative() {
            -self.magnitude()
        } else {
            self.magnitude()
        }
    }

    /// `self < other` as IEEE 754 defines it: false if either is not a number.
    pub open spec fn spec_lt(self, other: Binary32) -> bool {
        !self.spec_is_nan() && !other.spec_is_nan() && self.key() < other.key()
    }

    /// `self <= other` as IEEE 754 defines it: false if either is not a number.
    pub open spec fn spec_le(self, other: Binary32) -> bool {
        !self.spec_is_nan() && !other.spec_is_nan() && self.key() <= other.key()
    }

    pub fn from_bits(bits: u32) -> (r: Binary32)
        ensures
            r.bits == bits,
    {
        Binary32 { bits }
    }

    pub fn to_bits(self) -> (bits: u32)
        ensures
            bits == self.bits,
    {
        self.bits
    }

    #[verifier::when_used_as_spec(spec_is_nan)]
    pub fn is_nan(self) -> (r: bool)
        ensures
            r == self.spec_is_nan(),
    {
        self.bits % 0x8000_0000 > 0x7f80_0000
    }

    /// The key as a machine integer.
    pub fn ordinal(self) -> (k: i32)
        ensures
            k == self.key(),
    {
        let magnitude: u32 = self.bits % 0x8000_0000;
        if self.bits >= 0x8000_0000 {
            -(magnitude as i32)
        } else {
            magnitude as i32
        }
    }

    #[verifier::when_used_as_spec(spec_lt)]
    pub fn lt(self, other: Binary32) -> (r: bool)
        ensures
            r == self.spec_lt(other),
    {
        !self.is_nan() && !other.is_nan() && self.ordinal() < other.ordinal()
    }

    #[verifier::when_used_as_spec(spec_le)]
    pub fn le(self, other: Binary32) -> (r: bool)
        ensures
            r == self.spec_le(other),
    {
        !self.is_nan() && !other.is_nan() && self.ordinal() <= other.ordinal()
    }
}


// What the patterns stand for.  Every finite binary64 value, and so every
// finite binary32 value, is a whole multiple of 2^-1074, the least positive
// binary64 value; the multiple is the value in quanta.

impl Binary64 {
    /// The eleven exponent bits.
    pub open spec fn exponent_field(self) -> int {
        self.magnitude() / 0x10_0000_0000_0000
    }

    /// The fifty-two fraction bits.
    pub open spec fn fraction_field(self) -> int {
        self.magnitude() % 0x10_0000_0000_0000
    }

    /// Whether the datum is a number other than an infinity.
    pub open spec fn is_finite(self) -> bool {
        self.magnitude() < 0x7ff0_0000_0000_0000
    }

    /// Whether the datum is an infinity.
    pub open spec fn is_infinite(self) -> bool {
        self.magnitude() == 0x7ff0_0000_0000_0000
    }

    /// The significand in units of its last place: the fraction, with the
    /// implicit leading bit unless the exponent field is zero.
    pub open spec fn significand(self) -> int {
        if self.exponent_field() == 0 {
            self.fraction_field()
        } else {
            0x10_0000_0000_0000 + self.fraction_field()
        }
    }

    /// The binary logarithm of the quanta in one unit of the significand's
    /// last place.
    pub open spec fn quantum_exponent(self) -> nat {
        if self.exponent_field() == 0 {
            0
        } else {
            (self.exponent_field() - 1) as nat
        }
    }

    /// The value of a finite datum, in quanta of 2^-1074.
    pub open spec fn quanta(self) -> int {
        let absolute = self.significand() * pow2(self.quantum_exponent());
        if self.is_negative() {
            -absolute
        } else {
            absolute
        }
    }

    /// A zero of either sign is no quanta.
    proof fn lemma_zero_has_no_quanta(a: Binary64)
        requires
            a.magnitude() == 0,
        ensures
            a.significand() * pow2(a.quantum_exponent()) == 0,
            a.quanta() == 0,
    {
        assert(a.significand() == 0);
        assert(a.significand() * pow2(a.quantum_exponent()) == 0) by (nonlinear_arith)
            requires
                a.significand() == 0,
        ;
    }

    /// Among finite data of one sign, a greater pattern stands for a greater
    /// absolute value.
    proof fn lemma_magnitude_orders_quanta(a: Binary64, b: Binary64)
        requires
            a.is_finite(),
            b.is_finite(),
            a.magnitude() < b.magnitude(),
        ensures
            a.significand() * pow2(a.quantum_exponent()) < b.significand() * pow2(
                b.quantum_exponent(),
            ),
            0 <= a.significand() * pow2(a.quantum_exponent()),
    {
        let ma = a.significand();
        let mb = b.significand();
        let qa = a.quantum_exponent();
        let qb = b.quantum_exponent();
        lemma_pow2_pos(qa);
        lemma_pow2_pos(qb);
        lemma2_to64();
        assert(0 <= ma * pow2(qa)) by (nonlinear_arith)
            requires
                0 <= ma,
                0 < pow2(qa),
        ;
        if a.exponent_field() == b.exponent_field() {
            assert(ma < mb);
            assert(ma * pow2(qa) < mb * pow2(qb)) by (nonlinear_arith)
                requires
                    ma < mb,
                    qa == qb,
                    0 < pow2(qa),
            ;
        } else {
            assert(a.exponent_field() < b.exponent_field());
            assert(ma < 0x20_0000_0000_0000);
            assert(mb >= 0x10_0000_0000_0000);
            if a.exponent_field() == 0 {
                assert(ma < 0x10_0000_0000_0000);
                assert(ma * pow2(qa) < mb * pow2(qb)) by (nonlinear_arith)
                    requires
                        0 <= ma < 0x10_0000_0000_0000,
                        mb >= 0x10_0000_0000_0000,
                        pow2(qa) == 1,
                        1 <= pow2(qb),
                ;
            } else {
                assert(qb >= qa + 1);
                lemma_pow2_adds(qa, 1);
                assert(pow2(1) == 2) by {
                    lemma2_to64();
                }
                if qb > qa + 1 {
                    lemma_pow2_strictly_increases((qa + 1) as nat, qb);
                }
                assert(pow2(qb) >= 2 * pow2(qa));
                assert(ma * pow2(qa) < mb * pow2(qb)) by (nonlinear_arith)
                    requires
                        0 <= ma < 0x20_0000_0000_0000,
                        mb >= 0x10_0000_0000_0000,
                        0 < pow2(qa),
                        pow2(qb) >= 2 * pow2(qa),
                ;
            }
        }
    }

    /// The key orders finite data as their values are ordered, and two finite
    /// data have the same key just when they have the same value.
    pub proof fn lemma_key_orders_values(a: Binary64, b: Binary64)
        requires
            a.is_finite(),
            b.is_finite(),
        ensures
            a.key() < b.key() <==> a.quanta() < b.quanta(),
            a.key() == b.key() <==> a.quanta() == b.quanta(),
    {
        let zero = Binary64 { bits: 0 };
        lemma2_to64();
        assert(zero.magnitude() == 0);
        Self::lemma_zero_has_no_quanta(zero);
        if a.magnitude() < b.magnitude() {
            Self::lemma_magnitude_orders_quanta(a, b);
        }
        if b.magnitude() < a.magnitude() {
            Self::lemma_magnitude_orders_quanta(b, a);
        }
        if 0 < a.magnitude() {
            Self::lemma_magnitude_orders_quanta(zero, a);
        }
        if 0 < b.magnitude() {
            Self::lemma_magnitude_orders_quanta(zero, b);
        }
        if a.magnitude() == b.magnitude() {
            assert(a.significand() == b.significand());
            assert(a.quantum_exponent() == b.quantum_exponent());
        }
        if a.magnitude() == 0 {
            Self::lemma_zero_has_no_quanta(a);
        }
        if b.magnitude() == 0 {
            Self::lemma_zero_has_no_quanta(b);
        }
    }

    /// An infinity lies beyond every finite datum, on its own side.
    pub proof fn lemma_key_bounds_finite(a: Binary64, infinity: Binary64)
        requires
            a.is_finite(),
            infinity.is_infinite(),
        ensures
            infinity.is_negative() ==> infinity.key() < a.key(),
            !infinity.is_negative() ==> a.key() < infinity.key(),
    {
    }
}

impl Binary32 {
    /// The eight exponent bits.
    pub open spec fn exponent_field(self) -> int {
        self.magnitude() / 0x80_0000
    }

    /// The twenty-three fraction bits.
    pub open spec fn fraction_field(self) -> int {
        self.magnitude() % 0x80_0000
    }

    /// Whether the datum is a number other than an infinity.
    pub open spec fn is_finite(self) -> bool {
        self.magnitude() < 0x7f80_0000
    }

    /// Whether the datum is an infinity.
    pub open spec fn is_infinite(self) -> bool {
        self.magnitude() == 0x7f80_0000
    }

    /// The significand in units of its last place: the fraction, with the
    /// implicit leading bit unless the exponent field is zero.
    pub open spec fn significand(self) -> int {
        if self.exponent_field() == 0 {
            self.fraction_field()
        } else {
            0x80_0000 + self.fraction_field()
        }
    }

    /// The binary logarithm of the quanta in one unit of the significand's
    /// last place.  The least positive binary32 value is 2^-149, which is
    /// 2^925 quanta.
    pub open spec fn quantum_exponent(self) -> nat {
        if self.exponent_field() == 0 {
            925
        } else {
            (self.exponent_field() + 924) as nat
        }
    }

    /// The value of a finite datum, in quanta of 2^-1074.
    pub open spec fn quanta(self) -> int {
        let absolute = self.significand() * pow2(self.quantum_exponent());
        if self.is_negative() {
            -absolute
        } else {
            absolute
        }
    }

    /// A zero of either sign is no quanta.
    proof fn lemma_zero_has_no_quanta(a: Binary32)
        requires
            a.magnitude() == 0,
        ensures
            a.significand() * pow2(a.quantum_exponent()) == 0,
            a.quanta() == 0,
    {
        assert(a.significand() == 0);
        assert(a.significand() * pow2(a.quantum_exponent()) == 0) by (nonlinear_arith)
            requires
                a.significand() == 0,
        ;
    }

    /// Among finite data of one sign, a greater pattern stands for a greater
    /// absolute value.
    proof fn lemma_magnitude_orders_quanta(a: Binary32, b: Binary32)
        requires
            a.is_finite(),
            b.is_finite(),
            a.magnitude() < b.magnitude(),
        ensures
            a.significand() * pow2(a.quantum_exponent()) < b.significand() * pow2(
                b.quantum_exponent(),
            ),
            0 <= a.significand() * pow2(a.quantum_exponent()),
    {
        let ma = a.significand();
        let mb = b.significand();
        let qa = a.quantum_exponent();
        let qb = b.quantum_exponent();
        lemma_pow2_pos(qa);
        lemma_pow2_pos(qb);
        assert(0 <= ma * pow2(qa)) by (nonlinear_arith)
            requires
                0 <= ma,
                0 < pow2(qa),
        ;
        if a.exponent_field() == b.exponent_field() {
            assert(ma < mb);
            assert(ma * pow2(qa) < mb * pow2(qb)) by (nonlinear_arith)
                requires
                    ma < mb,
                    qa == qb,
                    0 < pow2(qa),
            ;
        } else {
            assert(a.exponent_field() < b.exponent_field());
            assert(ma < 0x100_0000);
            assert(mb >= 0x80_0000);
            if a.exponent_field() == 0 {
                assert(ma < 0x80_0000);
                if qa < qb {
                    lemma_pow2_strictly_increases(qa, qb);
                }
                assert(ma * pow2(qa) < mb * pow2(qb)) by (nonlinear_arith)
                    requires
                        0 <= ma < 0x80_0000,
                        mb >= 0x80_0000,
                        0 < pow2(qa) <= pow2(qb),
                ;
            } else {
                assert(qb >= qa + 1);
                lemma_pow2_adds(qa, 1);
                assert(pow2(1) == 2) by {
                    lemma2_to64();
                }
                if qb > qa + 1 {
                    lemma_pow2_strictly_increases((qa + 1) as nat, qb);
                }
                assert(pow2(qb) >= 2 * pow2(qa));
                assert(ma * pow2(qa) < mb * pow2(qb)) by (nonlinear_arith)
                    requires
                        0 <= ma < 0x100_0000,
                        mb >= 0x80_0000,
                        0 < pow2(qa),
                        pow2(qb) >= 2 * pow2(qa),
                ;
            }
        }
    }

    /// The key orders finite data as their values are ordered, and two finite
    /// data have the same key just when they have the same value.
    pub proof fn lemma_key_orders_values(a: Binary32, b: Binary32)
        requires
            a.is_finite(),
            b.is_finite(),
        ensures
            a.key() < b.key() <==> a.quanta() < b.quanta(),
            a.key() == b.key() <==> a.quanta() == b.quanta(),
    {
        let zero = Binary32 { bits: 0 };
        assert(zero.magnitude() == 0);
        Self::lemma_zero_has_no_quanta(zero);
        if a.magnitude() < b.magnitude() {
            Self::lemma_magnitude_orders_quanta(a, b);
        }
        if b.magnitude() < a.magnitude() {
            Self::lemma_magnitude_orders_quanta(b, a);
        }
        if 0 < a.magnitude() {
            Self::lemma_magnitude_orders_quanta(zero, a);
        }
        if 0 < b.magnitude() {
            Self::lemma_magnitude_orders_quanta(zero, b);
        }
        if a.magnitude() == b.magnitude() {
            assert(a.significand() == b.significand());
            assert(a.quantum_exponent() == b.quantum_exponent());
        }
        if a.magnitude() == 0 {
            Self::lemma_zero_has_no_quanta(a);
        }
        if b.magnitude() == 0 {
            Self::lemma_zero_has_no_quanta(b);
        }
    }

    /// An infinity lies beyond every finite datum, on its own side.
    pub proof fn lemma_key_bounds_finite(a: Binary32, infinity: Binary32)
        requires
            a.is_finite(),
            infinity.is_infinite(),
        ensures
            infinity.is_negative() ==> infinity.key() < a.key(),
            !infinity.is_negative() ==> a.key() < infinity.key(),
    {
    }

    /// The sign bit of the wider datum.
    pub open spec fn wide_sign(self) -> int {
        if self.is_negative() {
            0x8000_0000_0000_0000
        } else {
            0
        }
    }

    /// `wide` is finite and has the sign and the value of `self`.
    pub open spec fn has_value_of(self, wide: Binary64) -> bool {
        wide.is_finite() && wide.is_negative() == self.is_negative() && wide.quanta()
            == self.quanta()
    }

    /// The binary64 datum that stands for what `self` stands for: for a
    /// finite datum the one of the same sign and value, for an infinity the
    /// infinity of the same sign, and for what is not a number the quiet
    /// datum of that kind with the same sign and the same payload.
    pub open spec fn spec_widen(self) -> Binary64 {
        if self.is_finite() {
            choose|wide: Binary64| self.has_value_of(wide)
        } else if self.is_infinite() {
            Binary64 { bits: (self.wide_sign() + 0x7ff0_0000_0000_0000) as u64 }
        } else {
            Binary64 {
                bits: (self.wide_sign() + 0x7ff8_0000_0000_0000 + 0x2000_0000 * (
                self.fraction_field() % 0x40_0000)) as u64,
            }
        }
    }

    /// No two binary64 data have the sign and the value of one finite
    /// binary32 datum.
    pub proof fn lemma_one_datum_of_a_value(self, first: Binary64, second: Binary64)
        requires
            self.has_value_of(first),
            self.has_value_of(second),
        ensures
            first == second,
    {
        Binary64::lemma_key_orders_values(first, second);
        assert(first.magnitude() == second.magnitude());
        assert(first.bits == second.bits);
    }

    /// The wider datum of a zero: the zero of the same sign.
    proof fn lemma_wide_zero(self, wide: Binary64)
        requires
            self.magnitude() == 0,
            wide.bits == self.wide_sign(),
        ensures
            self.has_value_of(wide),
            wide == self.spec_widen(),
    {
        assert(wide.magnitude() == 0);
        Binary64::lemma_zero_has_no_quanta(wide);
        Self::lemma_zero_has_no_quanta(self);
        self.lemma_one_datum_of_a_value(wide, self.spec_widen());
    }

    /// The wider datum of a normal one: the exponent moves from one bias to
    /// the other, and the fraction gains twenty-nine zero bits.
    proof fn lemma_wide_normal(self, wide: Binary64)
        requires
            1 <= self.exponent_field() <= 254,
            wide.bits == self.wide_sign() + 0x10_0000_0000_0000 * (self.exponent_field() + 896)
                + 0x2000_0000 * self.fraction_field(),
        ensures
            self.has_value_of(wide),
            wide == self.spec_widen(),
    {
        let exponent = self.exponent_field();
        let fraction = self.fraction_field();
        lemma2_to64();
        assert(wide.magnitude() == 0x10_0000_0000_0000 * (exponent + 896) + 0x2000_0000
            * fraction);
        assert(wide.exponent_field() == exponent + 896);
        assert(wide.fraction_field() == 0x2000_0000 * fraction);
        assert(wide.significand() == 0x2000_0000 * (0x80_0000 + fraction));
        assert(wide.quantum_exponent() == exponent + 895);
        assert(self.significand() == 0x80_0000 + fraction);
        assert(self.quantum_exponent() == exponent + 924);
        lemma_pow2_adds(29, (exponent + 895) as nat);
        assert(pow2(29) == 0x2000_0000);
        let q = pow2((exponent + 895) as nat);
        assert(0x2000_0000 * (0x80_0000 + fraction) * q == (0x80_0000 + fraction) * pow2(
            (exponent + 924) as nat,
        )) by (nonlinear_arith)
            requires
                pow2((exponent + 924) as nat) == 0x2000_0000 * q,
        ;
        assert(self.has_value_of(wide));
        self.lemma_one_datum_of_a_value(wide, self.spec_widen());
    }

    /// The wider datum of a subnormal one, whose fraction reaches the
    /// leading place of a significand when shifted by `shift` bits: a normal
    /// datum, of an exponent that is the smaller the longer the shift.
    proof fn lemma_wide_subnormal(self, shift: nat, wide: Binary64)
        requires
            self.exponent_field() == 0,
            shift <= 23,
            0x80_0000 <= self.fraction_field() * pow2(shift) < 0x100_0000,
            wide.bits == self.wide_sign() + 0x10_0000_0000_0000 * (897 - shift) + 0x2000_0000 * (
            self.fraction_field() * pow2(shift) - 0x80_0000),
        ensures
            self.has_value_of(wide),
            wide == self.spec_widen(),
    {
        let fraction = self.fraction_field();
        let significand = fraction * pow2(shift);
        let wide_exponent = 897 - shift;
        let wide_fraction = 0x2000_0000 * (significand - 0x80_0000);
        lemma2_to64();
        assert(wide.magnitude() == 0x10_0000_0000_0000 * wide_exponent + wide_fraction);
        assert(wide.exponent_field() == wide_exponent);
        assert(wide.fraction_field() == wide_fraction);
        assert(wide.significand() == 0x2000_0000 * significand);
        assert(wide.quantum_exponent() == 896 - shift);
        assert(self.significand() == fraction);
        assert(self.quantum_exponent() == 925);
        lemma_pow2_adds(shift, 29);
        lemma_pow2_adds((shift + 29) as nat, (896 - shift) as nat);
        assert(pow2(29) == 0x2000_0000);
        let p = pow2(shift);
        let q = pow2((896 - shift) as nat);
        assert(pow2(925) == p * 0x2000_0000 * q);
        assert(0x2000_0000 * significand * q == fraction * pow2(925)) by (nonlinear_arith)
            requires
                significand == fraction * p,
                pow2(925) == p * 0x2000_0000 * q,
        ;
        assert(self.has_value_of(wide));
        self.lemma_one_datum_of_a_value(wide, self.spec_widen());
    }

    /// A fraction other than zero reaches the leading place of a
    /// significand by some shift.
    proof fn lemma_leading_shift(fraction: int, shift: nat) -> (found: nat)
        requires
            0 < fraction,
            shift <= 23,
            fraction * pow2(shift) < 0x100_0000,
        ensures
            found <= 23,
            0x80_0000 <= fraction * pow2(found) < 0x100_0000,
        decreases 23 - shift,
    {
        if fraction * pow2(shift) >= 0x80_0000 {
            shift
        } else {
            lemma2_to64();
            lemma_pow2_adds(shift, 1);
            if shift == 23 {
                assert(fraction * pow2(23) >= pow2(23)) by (nonlinear_arith)
                    requires
                        fraction >= 1,
                ;
            }
            assert(fraction * pow2(shift + 1) == 2 * (fraction * pow2(shift))) by (nonlinear_arith)
                requires
                    pow2(shift + 1) == pow2(shift) * 2,
            ;
            Self::lemma_leading_shift(fraction, shift + 1)
        }
    }

    /// What widening gives: the sign is kept; a finite datum becomes the
    /// finite datum of the same value, an infinity an infinity, and what is not
    /// a number stays so.
    pub proof fn lemma_widen_keeps_value(a: Binary32)
        ensures
            a.spec_widen().is_negative() == a.is_negative(),
            a.is_finite() ==> a.has_value_of(a.spec_widen()),
            a.is_infinite() ==> a.spec_widen().is_infinite(),
            a.is_nan() ==> a.spec_widen().is_nan(),
    {
        let fraction = a.fraction_field();
        if a.magnitude() == 0 {
            a.lemma_wide_zero(Binary64 { bits: a.wide_sign() as u64 });
        } else if a.exponent_field() == 0 {
            lemma2_to64();
            assert(fraction * pow2(0) == fraction) by (nonlinear_arith)
                requires
                    pow2(0) == 1,
            ;
            let shift = Self::lemma_leading_shift(fraction, 0);
            let significand = fraction * pow2(shift);
            a.lemma_wide_subnormal(
                shift,
                Binary64 {
                    bits: (a.wide_sign() + 0x10_0000_0000_0000 * (897 - shift) + 0x2000_0000 * (
                    significand - 0x80_0000)) as u64,
                },
            );
        } else if a.is_finite() {
            a.lemma_wide_normal(
                Binary64 {
                    bits: (a.wide_sign() + 0x10_0000_0000_0000 * (a.exponent_field() + 896)
                        + 0x2000_0000 * fraction) as u64,
                },
            );
        } else if a.is_infinite() {
            assert(a.spec_widen().magnitude() == 0x7ff0_0000_0000_0000);
        } else {
            assert(a.spec_widen().magnitude() == 0x7ff8_0000_0000_0000 + 0x2000_0000 * (fraction
                % 0x40_0000));
        }
    }

    /// Widening keeps the order: the wider data of two numbers compare as
    /// the numbers do.
    pub proof fn lemma_widening_keeps_order(a: Binary32, b: Binary32)
        requires
            !a.is_nan(),
            !b.is_nan(),
        ensures
            a.key() < b.key() <==> a.spec_widen().key() < b.spec_widen().key(),
            a.key() == b.key() <==> a.spec_widen().key() == b.spec_widen().key(),
    {
        let wa = a.spec_widen();
        let wb = b.spec_widen();
        Self::lemma_widen_keeps_value(a);
        Self::lemma_widen_keeps_value(b);
        if a.is_finite() && b.is_finite() {
            Self::lemma_key_orders_values(a, b);
            Binary64::lemma_key_orders_values(wa, wb);
        } else if a.is_finite() {
            Self::lemma_key_bounds_finite(a, b);
            Binary64::lemma_key_bounds_finite(wa, wb);
        } else if b.is_finite() {
            Self::lemma_key_bounds_finite(b, a);
            Binary64::lemma_key_bounds_finite(wb, wa);
        }
    }

    /// The binary64 datum of the same value.  What is not a number stays so.
    #[verifier::when_used_as_spec(spec_widen)]
    pub fn widen(self) -> (r: Binary64)
        ensures
            r == self.spec_widen(),
            r.is_negative() == self.is_negative(),
            self.is_nan() ==> r.is_nan(),
            self.is_infinite() ==> r.is_infinite(),
            self.is_finite() ==> r.is_finite() && r.quanta() == self.quanta(),
    {
        let sign: u64 = if self.bits >= 0x8000_0000 {
            0x8000_0000_0000_0000
        } else {
            0
        };
        let magnitude: u32 = self.bits % 0x8000_0000;
        let exponent: u32 = magnitude / 0x80_0000;
        let fraction: u32 = magnitude % 0x80_0000;
        proof {
            Self::lemma_widen_keeps_value(self);
        }
        if exponent == 255 {
            if fraction == 0 {
                Binary64 { bits: sign + 0x7ff0_0000_0000_0000 }
            } else {
                let payload: u64 = (fraction % 0x40_0000) as u64;
                Binary64 { bits: sign + 0x7ff8_0000_0000_0000 + 0x2000_0000 * payload }
            }
        } else if exponent == 0 {
            if fraction == 0 {
                let r = Binary64 { bits: sign };
                proof {
                    self.lemma_wide_zero(r);
                }
                r
            } else {
                let mut significand: u32 = fraction;
                let mut shift: u32 = 0;
                proof {
                    lemma2_to64();
                }
                while significand < 0x80_0000
                    invariant
                        0 < significand < 0x100_0000,
                        0 <= shift <= 23,
                        significand == fraction * pow2(shift as nat),
                        0 < fraction < 0x80_0000,
                    decreases 23 - shift,
                {
                    proof {
                        lemma_pow2_adds(shift as nat, 1);
                        lemma2_to64();
                        if shift == 23 {
                            assert(fraction * pow2(23) >= pow2(23)) by (nonlinear_arith)
                                requires
                                    fraction >= 1,
                            ;
                            assert(false);
                        }
                        assert(fraction * pow2((shift + 1) as nat) == 2 * significand)
                            by (nonlinear_arith)
                            requires
                                significand == fraction * pow2(shift as nat),
                                pow2((shift + 1) as nat) == pow2(shift as nat) * 2,
                        ;
                    }
                    significand = 2 * significand;
                    shift = shift + 1;
                }
                let wide_exponent: u64 = 897 - shift as u64;
                let wide_fraction: u64 = 0x2000_0000 * ((significand - 0x80_0000) as u64);
                let r = Binary64 { bits: sign + 0x10_0000_0000_0000 * wide_exponent + wide_fraction };
                proof {
                    self.lemma_wide_subnormal(shift as nat, r);
                }
                r
            }
        } else {
            let wide_exponent: u64 = exponent as u64 + 896;
            let wide_fraction: u64 = 0x2000_0000 * (fraction as u64);
            let r = Binary64 { bits: sign + 0x10_0000_0000_0000 * wide_exponent + wide_fraction };
            proof {
                self.lemma_wide_normal(r);
            }
            r
        }
    }
}

} // verus!
