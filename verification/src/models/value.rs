//! Numbers as bit patterns.
//!
//! The library never computes with floating-point numbers itself. It carries
//! each number as the 64 bits of an IEEE-754 double and leaves the arithmetic
//! to its caller, with two exceptions that are exact on the bits: negation,
//! and the small whole numbers that a factorial counts with.
use vstd::arithmetic::power2::{lemma2_to64, lemma2_to64_rest, lemma_pow2_adds, lemma_pow2_strictly_increases, lemma_pow2_unfold, pow2};
use vstd::prelude::*;

verus! {

/// The sign bit of a double.
pub const SIGN_BIT: u64 = 0x8000_0000_0000_0000;

/// The bits of a quiet not-a-number.
pub const NAN_BITS: u64 = 0x7ff8_0000_0000_0000;

/// The exponent field of the double 1.
pub const EXPONENT_BIAS: u64 = 1023;

/// The number of fraction bits of a double.
pub const FRACTION_BITS: u64 = 52;

/// A double-precision number, held as its IEEE-754 bit pattern.
#[derive(Clone, Copy, Debug, PartialEq, Eq, Structural)]
pub struct Value {
    pub bits: u64,
}

/// The binary exponent of `n`: the `e` with `2^e <= n < 2^(e+1)`, and 0 for 0.
pub open spec fn exponent(n: nat) -> nat
    decreases n,
{
    if n < 2 {
        0
    } else {
        1 + exponent(n / 2)
    }
}

/// The bits of the double that equals the whole number `n`: zero for 0, and
/// else the biased exponent of `n` above a fraction that holds what `n` has
/// beyond its leading power of two. Exact for `n < 2^53`.
pub open spec fn count_bits(n: nat) -> int {
    if n == 0 {
        0
    } else {
        let e = exponent(n);
        (1023 + e) * pow2(52) + (n - pow2(e)) * pow2((52 - e) as nat)
    }
}

/// The first whole number from `from` to `limit` whose double has these bits.
pub open spec fn count_from(bits: u64, from: nat, limit: nat) -> Option<nat>
    decreases limit + 1 - from,
{
    if from > limit {
        None
    } else if count_bits(from) == bits {
        Some(from)
    } else {
        count_from(bits, from + 1, limit)
    }
}

/// The exponent of a number is the one power of two that brackets it.
pub proof fn lemma_exponent_brackets(n: nat)
    requires
        n > 0,
    ensures
        pow2(exponent(n)) <= n < 2 * pow2(exponent(n)),
    decreases n,
{
    lemma2_to64();
    if n >= 2 {
        lemma_exponent_brackets(n / 2);
        lemma_pow2_unfold(exponent(n));
    }
}

impl Value {
    /// The number with the opposite sign: the same bits but for the sign bit.
    pub open spec fn negated_spec(self) -> Value {
        Value { bits: self.bits ^ SIGN_BIT }
    }

    /// The whole number up to `limit` that this number equals, if it equals
    /// one. Negative zero equals 0.
    pub open spec fn count_spec(self, limit: nat) -> Option<nat> {
        if self.bits == SIGN_BIT {
            Some(0)
        } else {
            count_from(self.bits, 0, limit)
        }
    }

    /// Not a number.
    pub fn nan() -> (v: Value)
        ensures
            v.bits == NAN_BITS,
    {
        Value { bits: NAN_BITS }
    }

    /// Negation, which for a double is the change of one bit.
    pub fn negated(self) -> (v: Value)
        ensures
            v == self.negated_spec(),
    {
        Value { bits: self.bits ^ SIGN_BIT }
    }

    /// The double that equals `n`.
    pub fn from_count(n: u32) -> (v: Value)
        ensures
            v.bits == count_bits(n as nat),
    {
        if n == 0 {
            return Value { bits: 0 };
        }
        proof {
            lemma2_to64();
            lemma2_to64_rest();
        }
        let mut e: u64 = 0;
        let mut m: u64 = n as u64;
        let mut power: u64 = 1;
        let mut unit: u64 = 0x10_0000_0000_0000;
        while m >= 2
            invariant
                m >= 1,
                e <= 31,
                exponent(n as nat) == e + exponent(m as nat),
                power == pow2(e as nat),
                unit == pow2((52 - e) as nat),
                power * m <= n,
                pow2(32) == 0x1_0000_0000,
                pow2(52) == 0x10_0000_0000_0000,
            decreases m,
        {
            proof {
                lemma_pow2_unfold((e + 1) as nat);
                lemma_pow2_unfold((52 - e) as nat);
                assert(power <= power * m) by (nonlinear_arith)
                    requires
                        m >= 1,
                        power >= 0,
                ;
                assert(2 * power * (m / 2) <= power * m) by (nonlinear_arith)
                    requires
                        m >= 2,
                        power >= 0,
                ;
                if e + 1 > 31 {
                    assert(pow2(32) * 1 <= power * 2 * (m / 2)) by (nonlinear_arith)
                        requires
                            power * 2 == pow2(32),
                            m / 2 >= 1,
                    ;
                }
            }
            m = m / 2;
            e = e + 1;
            power = power * 2;
            unit = unit / 2;
        }
        proof {
            lemma_exponent_brackets(n as nat);
            lemma_pow2_adds(e as nat, (52 - e) as nat);
            assert((n - power) * unit < power * unit) by (nonlinear_arith)
                requires
                    n - power < power,
                    unit > 0,
            ;
            assert((1023 + e) * 0x10_0000_0000_0000 <= 1054 * 0x10_0000_0000_0000);
        }
        Value { bits: (EXPONENT_BIAS + e) * 0x10_0000_0000_0000 + (n as u64 - power) * unit }
    }

    /// The whole number up to `limit` that this number equals, if any.
    pub fn as_count(self, limit: u32) -> (r: Option<u32>)
        ensures
            match r {
                Some(n) => n <= limit && self.count_spec(limit as nat) == Some(n as nat),
                None => self.count_spec(limit as nat) is None,
            },
    {
        if self.bits == SIGN_BIT {
            return Some(0);
        }
        let mut k: u32 = 0;
        loop
            invariant
                k <= limit,
                self.bits != SIGN_BIT,
                self.count_spec(limit as nat) == count_from(self.bits, k as nat, limit as nat),
            decreases limit - k,
        {
            if Value::from_count(k).bits == self.bits {
                return Some(k);
            }
            if k == limit {
                assert(count_from(self.bits, (k + 1) as nat, limit as nat) is None);
                return None;
            }
            k = k + 1;
        }
    }
}

} // verus!
