//! What holds of the digit conversions and of the two operators, for all
//! well-formed values.

use crate::arith::{
    decimal_len, lemma_decimal_len_bounds, lemma_decimal_len_split, lemma_div_mod_split,
    lemma_div_mod_unique, lemma_div_pow10_bounds, lemma_div_ten_pow10, lemma_pow10_positive,
    lemma_pow10_step, lemma_pow10_values, pow10, trailing_zeros,
};
use crate::canon::{canonical_mantissa, canonical_shift};
use crate::digits::{
    all_digits, digits_of, digits_value, lemma_digits_of_value, lemma_value_of_digits, Digit,
    MANTISSA_LIMIT,
};
use crate::float::{aligned, product_of, sum_of, Float};
use vstd::prelude::*;

verus! {

/// The lower of the two exponents: the scale at which a sum is formed.
pub open spec fn lower_exponent(a: Float, b: Float) -> int {
    if a.exponent <= b.exponent {
        a.exponent as int
    } else {
        b.exponent as int
    }
}

/// The raw digit-wise sum of two values, before canonicalization.
pub open spec fn raw_sum(a: Float, b: Float) -> nat {
    aligned(a@, lower_exponent(a, b)) + aligned(b@, lower_exponent(a, b))
}

/// The raw digit-wise product of two values, before canonicalization.
pub open spec fn raw_product(a: Float, b: Float) -> nat {
    a@.significand * b@.significand
}

/// Splitting a magnitude of at most fifteen digits into its digit block and
/// reading the block back gives the magnitude.
pub proof fn law_digits_spell_magnitude(n: u64)
    requires
        n < MANTISSA_LIMIT,
    ensures
        all_digits(digits_of(n as nat)),
        digits_value(digits_of(n as nat)) == n,
{
    lemma_pow10_values();
    lemma_value_of_digits(n as nat, 15);
    vstd::arithmetic::div_mod::lemma_small_mod(n as nat, pow10(15));
}

/// Reading a block of well-formed digits as a number and splitting that
/// number into its digit block gives the block: the number has at most
/// fifteen digits, and they are the digits of the block.
pub proof fn law_magnitude_keeps_digits(d: [Digit; 15])
    requires
        all_digits(d@),
    ensures
        digits_value(d@) < MANTISSA_LIMIT,
        digits_of(digits_value(d@)) == d@,
{
    lemma_pow10_values();
    lemma_digits_of_value(d@);
}

/// The low zeros of a number can be divided out, and what is left does not
/// end in zero unless all `width` digits were zero.
pub proof fn lemma_trailing_zeros_exact(x: nat, width: nat)
    ensures
        trailing_zeros(x, width) <= width,
        (x / pow10(trailing_zeros(x, width))) * pow10(trailing_zeros(x, width)) == x,
        trailing_zeros(x, width) < width ==> (x / pow10(trailing_zeros(x, width))) % 10 != 0,
    decreases width,
{
    let t = trailing_zeros(x, width);
    if width == 0 || x % 10 != 0 {
        assert(pow10(0) == 1);
        assert(x / 1 == x);
    } else {
        let rest = trailing_zeros(x / 10, (width - 1) as nat);
        let m = (x / 10) / pow10(rest);
        lemma_trailing_zeros_exact(x / 10, (width - 1) as nat);
        lemma_div_ten_pow10(x, rest);
        lemma_pow10_step(rest);
        lemma_div_mod_split(x, 10);
        assert(m * pow10(rest + 1) == x) by (nonlinear_arith)
            requires
                m * pow10(rest) == x / 10,
                pow10(rest + 1) == 10 * pow10(rest),
                x == (x / 10) * 10,
        ;
    }
}

/// A raw result of at most fifteen digits keeps its number: canonicalization
/// takes its low zeros out of the significand and counts exactly those.
pub proof fn lemma_canonical_exact(raw: nat)
    requires
        raw < pow10(15),
    ensures
        canonical_shift(raw) == trailing_zeros(raw, 15),
        canonical_mantissa(raw) == raw / pow10(trailing_zeros(raw, 15)),
        canonical_mantissa(raw) * pow10(canonical_shift(raw)) == raw,
        raw != 0 ==> canonical_mantissa(raw) % 10 != 0,
{
    let t = trailing_zeros(raw, 15);
    let m = raw / pow10(t);
    lemma_pow10_positive(15);
    lemma_div_mod_unique(raw, pow10(15), 0, raw);
    lemma_trailing_zeros_exact(raw, 15);
    let low = raw % pow10(15);
    let high = raw / pow10(15);
    assert(low == raw && high == 0);
    assert(decimal_len(high) == 0);
    assert(pow10(0) == 1);
    assert(high * pow10(15) == 0) by (nonlinear_arith)
        requires
            high == 0,
    ;
    lemma_div_mod_unique(high * pow10(15) + m, pow10(decimal_len(high)), m, 0);
    assert(canonical_mantissa(raw) == m);
    if raw != 0 && t == 15 {
        assert(m * pow10(15) >= pow10(15)) by (nonlinear_arith)
            requires
                m * pow10(15) == raw,
                raw != 0,
        ;
    }
}

/// A raw result of more than fifteen digits that does not end in zero keeps
/// its leading fifteen digits: canonicalization drops the digits below them
/// without rounding, and counts each digit that it drops.
pub proof fn lemma_canonical_truncates(raw: nat)
    requires
        raw >= pow10(15),
        raw % 10 != 0,
    ensures
        decimal_len(raw) > 15,
        canonical_shift(raw) == decimal_len(raw) - 15,
        canonical_mantissa(raw) == raw / pow10((decimal_len(raw) - 15) as nat),
        pow10(14) <= canonical_mantissa(raw) < pow10(15),
{
    let low = raw % pow10(15);
    let high = raw / pow10(15);
    let n = decimal_len(high);
    lemma_pow10_values();
    lemma_div_mod_split(raw, pow10(15));
    assert(high >= 1) by (nonlinear_arith)
        requires
            raw == high * pow10(15) + low,
            low < pow10(15),
            raw >= pow10(15),
    ;
    assert(low % 10 == raw % 10) by {
        assert(raw == (high * pow10(14)) * 10 + low) by (nonlinear_arith)
            requires
                raw == high * pow10(15) + low,
                pow10(15) == 10 * pow10(14),
        ;
        vstd::arithmetic::div_mod::lemma_mod_multiples_vanish(
            (high * pow10(14)) as int,
            low as int,
            10,
        );
    }
    assert(trailing_zeros(low, 15) == 0);
    assert(pow10(0) == 1);
    assert(low / 1 == low);
    lemma_decimal_len_split(raw, 15);
    lemma_decimal_len_bounds(raw);
    lemma_div_pow10_bounds(raw, (decimal_len(raw) - 1) as nat, decimal_len(raw), n);
}

/// Whatever two well-formed values an operator is given, a result that it
/// returns has its exponent between -99 and 99.
pub proof fn law_exponent_in_range(a: Float, b: Float)
    requires
        a.wf(),
        b.wf(),
    ensures
        sum_of(a@, b@) matches Some(v) ==> -99 <= v.exponent <= 99,
        product_of(a@, b@) matches Some(v) ==> -99 <= v.exponent <= 99,
{
}

/// An operation whose exponent would leave the range gives no result: a sum
/// whose exponent would reach 100, a product whose operands' exponents add
/// up to 100 or more or to -100 or less, and a product whose own exponent
/// would reach 100.
pub proof fn law_overflow_at_boundary(a: Float, b: Float)
    requires
        a.wf(),
        b.wf(),
    ensures
        lower_exponent(a, b) + canonical_shift(raw_sum(a, b)) >= 100 ==> sum_of(a@, b@) is None,
        a.exponent + b.exponent >= 100 ==> product_of(a@, b@) is None,
        a.exponent + b.exponent <= -100 ==> product_of(a@, b@) is None,
        a.exponent + b.exponent + canonical_shift(raw_product(a, b)) >= 100 ==> product_of(
            a@,
            b@,
        ) is None,
{
}

/// Where the raw sum has at most fifteen digits, the exponent rises by
/// exactly the count of its low zeros, the significand times ten to that
/// count is the raw sum, and the significand of a non-zero sum does not end
/// in zero.
pub proof fn law_sum_canonical(a: Float, b: Float)
    requires
        a.wf(),
        b.wf(),
        raw_sum(a, b) < pow10(15),
    ensures
        sum_of(a@, b@) matches Some(v) ==> {
            &&& v.exponent == lower_exponent(a, b) + trailing_zeros(raw_sum(a, b), 15)
            &&& v.significand * pow10(trailing_zeros(raw_sum(a, b), 15)) == raw_sum(a, b)
            &&& raw_sum(a, b) != 0 ==> v.significand % 10 != 0
        },
{
    lemma_canonical_exact(raw_sum(a, b));
}

/// Where the raw product has at most fifteen digits, the exponent rises
/// above the sum of the operands' exponents by exactly the count of its low
/// zeros, the significand times ten to that count is the raw product, and
/// the significand of a non-zero product does not end in zero.
pub proof fn law_product_canonical(a: Float, b: Float)
    requires
        a.wf(),
        b.wf(),
        raw_product(a, b) < pow10(15),
    ensures
        product_of(a@, b@) matches Some(v) ==> {
            &&& v.exponent == a.exponent + b.exponent + trailing_zeros(raw_product(a, b), 15)
            &&& v.significand * pow10(trailing_zeros(raw_product(a, b), 15)) == raw_product(a, b)
            &&& raw_product(a, b) != 0 ==> v.significand % 10 != 0
        },
{
    lemma_canonical_exact(raw_product(a, b));
}

/// Adding a value to itself doubles its magnitude, as long as the double
/// still has at most fifteen digits: the result, scaled back to the
/// operand's exponent, is twice the operand's significand. Its sign is
/// positive whatever the operand's sign.
pub proof fn law_add_self_doubles(a: Float)
    requires
        a.wf(),
        2 * a@.significand < pow10(15),
    ensures
        sum_of(a@, a@) matches Some(v) ==> {
            &&& v.exponent >= a.exponent
            &&& v.significand * pow10((v.exponent - a.exponent) as nat) == 2 * a@.significand
            &&& !v.negative
        },
{
    let s = a@.significand;
    assert(pow10(0) == 1);
    assert(s * 1 == s);
    vstd::arithmetic::div_mod::lemma_small_mod(s, pow10(15));
    assert(raw_sum(a, a) == 2 * s);
    lemma_canonical_exact(2 * s);
}

/// A product that still has at most fifteen digits loses nothing: the
/// result, scaled back to the sum of the operands' exponents, is the product
/// of the two significands.
pub proof fn law_product_exact(a: Float, b: Float)
    requires
        a.wf(),
        b.wf(),
        a@.significand * b@.significand < pow10(15),
    ensures
        product_of(a@, b@) matches Some(v) ==> {
            &&& v.exponent >= a.exponent + b.exponent
            &&& v.significand * pow10((v.exponent - a.exponent - b.exponent) as nat)
                == a@.significand * b@.significand
            &&& v.negative == (a.sign != b.sign)
        },
{
    lemma_canonical_exact(raw_product(a, b));
}

/// A sum that carries into a sixteenth digit and does not end in zero
/// keeps its leading fifteen digits: the lowest digit is dropped without
/// rounding and the exponent rises by one.
pub proof fn law_sum_truncates(a: Float, b: Float)
    requires
        a.wf(),
        b.wf(),
        raw_sum(a, b) >= pow10(15),
        raw_sum(a, b) % 10 != 0,
    ensures
        sum_of(a@, b@) matches Some(v) ==> {
            &&& v.exponent == lower_exponent(a, b) + 1
            &&& v.significand == raw_sum(a, b) / 10
            &&& pow10(14) <= v.significand < pow10(15)
        },
{
    let raw = raw_sum(a, b);
    lemma_pow10_values();
    lemma_pow10_positive(15);
    lemma_canonical_truncates(raw);
    assert(raw < 2 * pow10(15));
    lemma_div_mod_unique(raw, pow10(15), 1, (raw - pow10(15)) as nat);
    assert(decimal_len(1) == 1) by {
        assert(decimal_len(0) == 0);
        assert(1nat / 10 == 0);
    }
    lemma_decimal_len_split(raw, 15);
}

/// A product of more than fifteen digits that does not end in zero keeps its
/// leading fifteen digits: the digits below them are dropped without
/// rounding and the exponent rises by their count.
pub proof fn law_product_truncates(a: Float, b: Float)
    requires
        a.wf(),
        b.wf(),
        raw_product(a, b) >= pow10(15),
        raw_product(a, b) % 10 != 0,
    ensures
        decimal_len(raw_product(a, b)) > 15,
        product_of(a@, b@) matches Some(v) ==> {
            &&& v.exponent == a.exponent + b.exponent + decimal_len(raw_product(a, b)) - 15
            &&& v.significand == raw_product(a, b) / pow10(
                (decimal_len(raw_product(a, b)) - 15) as nat,
            )
            &&& pow10(14) <= v.significand < pow10(15)
        },
{
    lemma_canonical_truncates(raw_product(a, b));
}

} // verus!
