//! The decimal value type and its two operators.
//!
//! A value is a sign, a block of fifteen decimal digits and an exponent
//! between -99 and 99. It stands for the number that the digits spell, times
//! ten to the exponent. Leading zeros are legal; nothing is normalized but
//! the low zeros that an operation produces.
//!
//! Addition gives its result the exclusive-or of the two signs. That is
//! right where both operands have the same sign and are read as magnitudes;
//! it does not subtract where the signs differ.

use crate::arith::{
    digit_at, lemma_mod_pow10_step, lemma_pow10_step, lemma_pow10_values, pow10,
};
use crate::canon::{canonical_mantissa, canonical_shift, Writer};
use crate::digits::{
    all_digits, digits_of, digits_of_len, digits_value, from_digits, lemma_digits_of_value,
    lemma_digits_value_injective, lemma_shifted_value, shift, to_digits, Digit, MANTISSA_LIMIT,
};
use vstd::prelude::*;

verus! {

/// The smallest exponent of a value.
pub const MIN_EXPONENT: i8 = -99;

/// The largest exponent of a value.
pub const MAX_EXPONENT: i8 = 99;

/// A signed decimal number with fifteen digits and a two-digit exponent.
#[derive(Debug, Clone, PartialEq, Eq)]
pub struct Float {
    /// The digits, most significant first.
    pub mantissa: [Digit; 15],
    /// The power of ten that scales the digit block as a whole.
    pub exponent: i8,
    /// True for a negative value.
    pub sign: bool,
}

/// What a value stands for: its sign, the number that its digits spell, and
/// its exponent.
pub struct FloatView {
    pub negative: bool,
    pub significand: nat,
    pub exponent: int,
}

impl View for Float {
    type V = FloatView;

    open spec fn view(&self) -> FloatView {
        FloatView {
            negative: self.sign,
            significand: digits_value(self.mantissa@),
            exponent: self.exponent as int,
        }
    }
}

impl Float {
    /// Every digit lies between 0 and 9 and the exponent between -99 and 99.
    pub open spec fn wf(&self) -> bool {
        &&& all_digits(self.mantissa@)
        &&& MIN_EXPONENT <= self.exponent <= MAX_EXPONENT
    }

    /// Tests whether the value is well formed. The fields are open to
    /// every caller, so a value from elsewhere may not be.
    pub fn is_valid(&self) -> (valid: bool)
        ensures
            valid == self.wf(),
    {
        if self.exponent < MIN_EXPONENT || self.exponent > MAX_EXPONENT {
            return false;
        }
        let mut i: usize = 0;
        while i < 15
            invariant
                i <= 15,
                forall|j: int| 0 <= j < i ==> (#[trigger] self.mantissa@[j]).wf(),
            decreases 15 - i,
        {
            if self.mantissa[i].0 > 9 {
                assert(!self.mantissa@[i as int].wf());
                return false;
            }
            i = i + 1;
        }
        true
    }

    /// The value of the given sign, magnitude and exponent.
    ///
    /// The magnitude has at most fifteen digits and the exponent lies
    /// between -99 and 99: neither is checked at run time.
    pub fn new(magnitude: u64, exponent: i8, sign: bool) -> (f: Float)
        requires
            magnitude < MANTISSA_LIMIT,
            MIN_EXPONENT <= exponent <= MAX_EXPONENT,
        ensures
            f.wf(),
            f.mantissa@ == digits_of(magnitude as nat),
            f.exponent == exponent,
            f.sign == sign,
            f@ == (FloatView {
                negative: sign,
                significand: magnitude as nat,
                exponent: exponent as int,
            }),
    {
        Float { mantissa: to_digits(magnitude), exponent, sign }
    }
}

/// The significand of `v` written at the scale of the exponent `e`, which
/// is not above its own: what does not fit in fifteen digits is lost at the
/// top.
pub open spec fn aligned(v: FloatView, e: int) -> nat {
    (v.significand * pow10((v.exponent - e) as nat)) % pow10(15)
}

/// The sum of two values, or `None` where its exponent would pass 99.
pub open spec fn sum_of(a: FloatView, b: FloatView) -> Option<FloatView> {
    let e = if a.exponent <= b.exponent {
        a.exponent
    } else {
        b.exponent
    };
    let raw = aligned(a, e) + aligned(b, e);
    let exponent = e + canonical_shift(raw);
    if exponent > 99 {
        None
    } else {
        Some(
            FloatView {
                negative: a.negative != b.negative,
                significand: canonical_mantissa(raw),
                exponent,
            },
        )
    }
}

/// The product of two values, or `None` where the sum of the two exponents
/// lies outside -99 to 99 or the exponent of the result would pass 99.
pub open spec fn product_of(a: FloatView, b: FloatView) -> Option<FloatView> {
    let e = a.exponent + b.exponent;
    let raw = a.significand * b.significand;
    let exponent = e + canonical_shift(raw);
    if e < -99 || e > 99 || exponent > 99 {
        None
    } else {
        Some(
            FloatView {
                negative: a.negative != b.negative,
                significand: canonical_mantissa(raw),
                exponent,
            },
        )
    }
}

/// Hands an exponent back if it lies between -99 and 99.
pub fn check_exponent(e: i8) -> (r: Option<i8>)
    ensures
        r == if MIN_EXPONENT <= e <= MAX_EXPONENT {
            Some(e)
        } else {
            None
        },
{
    if e < MIN_EXPONENT || e > MAX_EXPONENT {
        return None;
    }
    Some(e)
}

/// A well-formed value is determined by what it stands for.
pub proof fn lemma_view_injective(a: Float, b: Float)
    requires
        a.wf(),
        b.wf(),
        a@ == b@,
    ensures
        a == b,
{
    lemma_digits_value_injective(a.mantissa@, b.mantissa@);
    assert(a.mantissa =~= b.mantissa);
}

/// The well-formed value that stands for `v`, where there is one.
pub open spec fn float_of(v: FloatView) -> Float {
    choose|f: Float| f.wf() && f@ == v
}

/// The result of an operator as a value: the well-formed value that stands
/// for the outcome, or `None`.
pub open spec fn lifted(v: Option<FloatView>) -> Option<Float> {
    match v {
        Some(v) => Some(float_of(v)),
        None => None,
    }
}

/// Builds the result of an operator from the significand, the exponent
/// before canonicalization and the count by which it has to rise.
fn assemble(mantissa: [Digit; 15], base: i8, reduced: u8, sign: bool) -> (r: Option<Float>)
    requires
        all_digits(mantissa@),
        MIN_EXPONENT <= base <= MAX_EXPONENT,
        reduced <= 30,
    ensures
        base + reduced > 99 ==> r is None,
        base + reduced <= 99 ==> r == Some(
            Float { mantissa, exponent: (base + reduced) as i8, sign },
        ),
{
    match base.checked_add(reduced as i8) {
        None => None,
        Some(sum) => match check_exponent(sum) {
            None => None,
            Some(exponent) => Some(Float { mantissa, exponent, sign }),
        },
    }
}

impl vstd::std_specs::ops::AddSpecImpl for Float {
    open spec fn obeys_add_spec() -> bool {
        true
    }

    open spec fn add_req(self, rhs: Float) -> bool {
        self.wf() && rhs.wf()
    }

    open spec fn add_spec(self, rhs: Float) -> Option<Float> {
        lifted(sum_of(self@, rhs@))
    }
}

impl core::ops::Add for Float {
    type Output = Option<Float>;

    /// Adds two well-formed values digit by digit at the scale of the lower
    /// exponent.
    ///
    /// The operand with the higher exponent is written at the lower scale
    /// first, and loses the digits that then lie above the fifteenth place.
    /// The result has the exclusive-or of the two signs. It is `None` where
    /// its exponent would pass 99.
    fn add(self, rhs: Float) -> (r: Option<Float>)
        ensures
            match r {
                Some(f) => f.wf() && sum_of(self@, rhs@) == Some(f@),
                None => sum_of(self@, rhs@) is None,
            },
    {
        let exponent: i8 = if self.exponent <= rhs.exponent {
            self.exponent
        } else {
            rhs.exponent
        };
        let lhs_sh: usize = (self.exponent as i16 - exponent as i16) as usize;
        let rhs_sh: usize = (rhs.exponent as i16 - exponent as i16) as usize;
        let l = shift(self.mantissa, lhs_sh);
        let r = shift(rhs.mantissa, rhs_sh);
        let ghost lv = digits_value(l@);
        let ghost rv = digits_value(r@);
        proof {
            lemma_shifted_value(self.mantissa@, lhs_sh as nat);
            lemma_shifted_value(rhs.mantissa@, rhs_sh as nat);
            lemma_digits_of_value(l@);
            lemma_digits_of_value(r@);
            assert(lv == aligned(self@, exponent as int));
            assert(rv == aligned(rhs@, exponent as int));
            assert(pow10(0) == 1);
            assert(lv % 1 == 0 && rv % 1 == 0);
        }
        let mut writer = Writer::new();
        let mut carry: u8 = 0;
        let mut k: usize = 15;
        while k > 0
            invariant
                k <= 15,
                writer.wf(),
                writer.taken() == 15 - k,
                carry <= 1,
                all_digits(l@),
                all_digits(r@),
                l@ == digits_of_len(lv, 15),
                r@ == digits_of_len(rv, 15),
                lv % pow10((15 - k) as nat) + rv % pow10((15 - k) as nat) == writer.run() + carry
                    * pow10((15 - k) as nat),
            decreases k,
        {
            k = k - 1;
            let ghost n = (14 - k) as nat;
            let ghost before = writer.run();
            proof {
                assert(l@[k as int].wf() && r@[k as int].wf());
                assert(l@[k as int].0 == digit_at(lv, n));
                assert(r@[k as int].0 == digit_at(rv, n));
                lemma_mod_pow10_step(lv, n);
                lemma_mod_pow10_step(rv, n);
                lemma_pow10_step(n);
            }
            let a: u8 = l[k].0 + r[k].0 + carry;
            let old_carry = carry;
            carry = a / 10;
            writer = writer.push(a % 10);
            proof {
                let p = pow10(n);
                assert(lv % pow10(n + 1) + rv % pow10(n + 1) == writer.run() + carry * pow10(n + 1))
                    by (nonlinear_arith)
                    requires
                        lv % pow10(n + 1) == lv % p + l@[k as int].0 * p,
                        rv % pow10(n + 1) == rv % p + r@[k as int].0 * p,
                        lv % p + rv % p == before + old_carry * p,
                        a == l@[k as int].0 + r@[k as int].0 + old_carry,
                        writer.run() == before + (a % 10) * p,
                        carry == a / 10,
                        a == 10 * (a / 10) + a % 10,
                        pow10(n + 1) == 10 * p,
                ;
            }
        }
        proof {
            vstd::arithmetic::div_mod::lemma_small_mod(lv, pow10(15));
            vstd::arithmetic::div_mod::lemma_small_mod(rv, pow10(15));
            lemma_pow10_values();
        }
        let (mantissa, reduced) = writer.finish(carry as u64);
        let result = assemble(mantissa, exponent, reduced, self.sign ^ rhs.sign);
        proof {
            assert(writer.run() + carry as nat * pow10(15) == lv + rv);
            if result is Some {
                let f = result.unwrap();
                let v = sum_of(self@, rhs@).unwrap();
                assert(f.wf() && f@ == v);
                lemma_view_injective(f, float_of(v));
            }
        }
        result
    }
}

impl vstd::std_specs::ops::MulSpecImpl for Float {
    open spec fn obeys_mul_spec() -> bool {
        true
    }

    open spec fn mul_req(self, rhs: Float) -> bool {
        self.wf() && rhs.wf()
    }

    open spec fn mul_spec(self, rhs: Float) -> Option<Float> {
        lifted(product_of(self@, rhs@))
    }
}

impl core::ops::Mul for Float {
    type Output = Option<Float>;

    /// Multiplies two well-formed values: the left significand as one
    /// number, times the right one digit by digit from the units upwards.
    ///
    /// Of a product of more than fifteen digits the leading fifteen stay.
    /// The result is `None` where the two exponents add up to less than -99
    /// or more than 99, or where its own exponent would pass 99.
    fn mul(self, rhs: Float) -> (r: Option<Float>)
        ensures
            match r {
                Some(f) => f.wf() && product_of(self@, rhs@) == Some(f@),
                None => product_of(self@, rhs@) is None,
            },
    {
        let l: u64 = from_digits(self.mantissa);
        let ghost rv = digits_value(rhs.mantissa@);
        proof {
            lemma_digits_of_value(self.mantissa@);
            lemma_digits_of_value(rhs.mantissa@);
            lemma_pow10_values();
            assert(rv % 1 == 0);
            assert(l * 0 == 0);
        }
        let mut writer = Writer::new();
        let mut carry: u64 = 0;
        let mut k: usize = 15;
        while k > 0
            invariant
                k <= 15,
                writer.wf(),
                writer.taken() == 15 - k,
                carry <= l,
                l < MANTISSA_LIMIT,
                all_digits(rhs.mantissa@),
                rhs.mantissa@ == digits_of_len(rv, 15),
                l * (rv % pow10((15 - k) as nat)) == writer.run() + carry * pow10((15 - k) as nat),
            decreases k,
        {
            k = k - 1;
            let ghost n = (14 - k) as nat;
            let ghost before = writer.run();
            let digit: u64 = rhs.mantissa[k].0 as u64;
            proof {
                assert(rhs.mantissa@[k as int].wf());
                assert(digit == digit_at(rv, n));
                lemma_mod_pow10_step(rv, n);
                lemma_pow10_step(n);
                assert(l * digit <= 9 * l) by (nonlinear_arith)
                    requires
                        digit <= 9,
                ;
            }
            let a: u64 = l * digit + carry;
            let old_carry = carry;
            carry = a / 10;
            writer = writer.push((a % 10) as u8);
            proof {
                let p = pow10(n);
                assert(l * (rv % pow10(n + 1)) == writer.run() + carry * pow10(n + 1))
                    by (nonlinear_arith)
                    requires
                        rv % pow10(n + 1) == rv % p + digit * p,
                        l * (rv % p) == before + old_carry * p,
                        a == l * digit + old_carry,
                        writer.run() == before + (a % 10) * p,
                        carry == a / 10,
                        a == 10 * (a / 10) + a % 10,
                        pow10(n + 1) == 10 * p,
                ;
            }
        }
        proof {
            vstd::arithmetic::div_mod::lemma_small_mod(rv, pow10(15));
            lemma_pow10_values();
        }
        let (mantissa, reduced) = writer.finish(carry);
        let sign = self.sign ^ rhs.sign;
        let result = match self.exponent.checked_add(rhs.exponent) {
            None => None,
            Some(sum) => match check_exponent(sum) {
                None => None,
                Some(base) => assemble(mantissa, base, reduced, sign),
            },
        };
        proof {
            assert(writer.run() + carry as nat * pow10(15) == l as nat * rv);
            if result is Some {
                let f = result.unwrap();
                let v = product_of(self@, rhs@).unwrap();
                assert(f.wf() && f@ == v);
                lemma_view_injective(f, float_of(v));
            }
        }
        result
    }
}

} // verus!
