//! Loan-to-value ratios.
//!
//! A ratio arrives as an IEEE 754 binary64 number and is kept as the bit
//! pattern of that number, so that what a borrower reads back is bit for bit
//! what the lender wrote.
use vstd::prelude::*;

verus! {

/// The bit pattern of 1.
const ONE: u64 = 0x3ff0_0000_0000_0000;

/// A loan-to-value ratio, as the bits of a binary64 number.
#[derive(Clone, Copy, Debug, PartialEq, Eq, Structural)]
pub struct Ltv {
    pub bits: u64,
}

impl Ltv {
    /// The sign bit.
    pub open spec fn is_negative(self) -> bool {
        self.bits as int / 0x8000_0000_0000_0000 == 1
    }

    /// The eleven exponent bits below the sign.
    pub open spec fn exponent(self) -> int {
        (self.bits as int / 0x10_0000_0000_0000) % 0x800
    }

    /// The fifty-two fraction bits.
    pub open spec fn fraction(self) -> int {
        self.bits as int % 0x10_0000_0000_0000
    }

    /// Not a number: the highest exponent with a fraction.
    pub open spec fn is_nan(self) -> bool {
        self.exponent() == 0x7ff && self.fraction() != 0
    }

    /// The absolute value, in units of 2^-1074, the smallest positive number of
    /// the format. Infinity counts as the number that would follow the largest
    /// finite one.
    pub open spec fn magnitude(self) -> int {
        if self.exponent() == 0 {
            self.fraction()
        } else {
            (0x10_0000_0000_0000 + self.fraction()) * vstd::arithmetic::power2::pow2(
                (self.exponent() - 1) as nat,
            )
        }
    }

    /// The value, in units of 2^-1074. Of no meaning for a NaN.
    pub open spec fn scaled_value(self) -> int {
        if self.is_negative() {
            -self.magnitude()
        } else {
            self.magnitude()
        }
    }

    /// Whether an offer may carry this ratio: it is a number above zero and at
    /// most one.
    pub open spec fn acceptable(self) -> bool {
        !self.is_nan() && 0 < self.scaled_value() <= vstd::arithmetic::power2::pow2(1074)
    }

    /// Decides [`Ltv::acceptable`] on the bits.
    pub fn is_acceptable(&self) -> (ok: bool)
        ensures
            ok == self.acceptable(),
    {
        proof {
            self.lemma_order_of_bits();
        }
        0 < self.bits && self.bits <= ONE
    }

    /// Law: a ratio is acceptable exactly if its bits lie above those of zero and
    /// not above those of one. What is not a number has bits above infinity's,
    /// sign aside, and one is one.
    pub proof fn law_acceptable_bits(self)
        ensures
            self.acceptable() <==> 0 < self.bits <= 0x3ff0_0000_0000_0000,
            self.acceptable() ==> !self.is_nan() && 0 < self.scaled_value()
                <= vstd::arithmetic::power2::pow2(1074),
            self.is_nan() <==> self.bits as int % 0x8000_0000_0000_0000 > 0x7ff0_0000_0000_0000,
            self.bits == 0x3ff0_0000_0000_0000 ==> self.scaled_value()
                == vstd::arithmetic::power2::pow2(1074),
    {
        self.lemma_order_of_bits();
        if self.bits == 0x3ff0_0000_0000_0000 {
            assert(self.exponent() == 1023 && self.fraction() == 0);
            vstd::arithmetic::power2::lemma2_to64();
            vstd::arithmetic::power2::lemma2_to64_rest();
            vstd::arithmetic::power2::lemma_pow2_adds(52, 1022);
        }
    }

    /// Without the sign bit, the bit patterns are ordered as the numbers are: a
    /// number is zero or at most one when its pattern is, and the NaNs lie above.
    proof fn lemma_order_of_bits(self)
        ensures
            self.bits <= ONE ==> !self.is_negative() && !self.is_nan(),
            self.magnitude() >= 0,
            !self.is_negative() ==> (self.magnitude() == 0 <==> self.bits == 0),
            !self.is_negative() ==> (self.magnitude() <= vstd::arithmetic::power2::pow2(1074)
                <==> self.bits <= ONE),
    {
        let e = self.exponent();
        let f = self.fraction();
        assert(self.bits < 0x8000_0000_0000_0000 ==> self.bits == e * 0x10_0000_0000_0000 + f);
        vstd::arithmetic::power2::lemma2_to64();
        vstd::arithmetic::power2::lemma2_to64_rest();
        vstd::arithmetic::power2::lemma_pow2_adds(52, 1022);
        vstd::arithmetic::power2::lemma_pow2_strictly_increases(52, 1074);
        if e > 0 {
            let w = vstd::arithmetic::power2::pow2((e - 1) as nat);
            vstd::arithmetic::power2::lemma_pow2_pos((e - 1) as nat);
            assert((0x10_0000_0000_0000 + f) * w > 0) by (nonlinear_arith)
                requires
                    f >= 0,
                    w > 0,
            ;
            if e < 1023 {
                // Below one: less than 2^53 units of at most 2^(1021).
                vstd::arithmetic::power2::lemma_pow2_adds(53, (e - 1) as nat);
                assert((0x10_0000_0000_0000 + f) * w <= 0x20_0000_0000_0000 * w)
                    by (nonlinear_arith)
                    requires
                        f < 0x10_0000_0000_0000,
                        w > 0,
                ;
                if e < 1022 {
                    vstd::arithmetic::power2::lemma_pow2_strictly_increases((52 + e) as nat, 1074);
                }
            } else {
                // From one on: at least 2^52 units of at least 2^(1022).
                let u = vstd::arithmetic::power2::pow2(1022);
                vstd::arithmetic::power2::lemma_pow2_pos(1022);
                if e > 1023 {
                    vstd::arithmetic::power2::lemma_pow2_strictly_increases(1022, (e - 1) as nat);
                }
                assert((0x10_0000_0000_0000 + f) * w >= 0x10_0000_0000_0000 * u + f)
                    by (nonlinear_arith)
                    requires
                        f >= 0,
                        w >= u > 0,
                ;
                if e > 1023 {
                    assert((0x10_0000_0000_0000 + f) * w > 0x10_0000_0000_0000 * u)
                        by (nonlinear_arith)
                        requires
                            f >= 0,
                            w > u > 0,
                    ;
                } else if f == 0 {
                    assert(self.magnitude() == 0x10_0000_0000_0000 * u);
                }
            }
        }
    }
}

} // verus!
