//! Powers of ten and the decimal digits of a natural number.

use vstd::arithmetic::div_mod::{
    lemma_breakdown, lemma_div_denominator, lemma_fundamental_div_mod,
    lemma_fundamental_div_mod_converse,
};
use vstd::prelude::*;

verus! {

/// Ten to the power `n`.
pub open spec fn pow10(n: nat) -> nat
    decreases n,
{
    if n == 0 {
        1
    } else {
        10 * pow10((n - 1) as nat)
    }
}

/// The decimal digit of `x` that stands `j` places above the units.
pub open spec fn digit_at(x: nat, j: nat) -> nat {
    (x / pow10(j)) % 10
}

/// How many decimal digits `x` has; zero has none.
pub open spec fn decimal_len(x: nat) -> nat
    decreases x,
{
    if x == 0 {
        0
    } else {
        1 + decimal_len(x / 10)
    }
}

/// How many of the lowest `width` decimal digits of `x` are zero before the
/// first non-zero one, counted from the units upwards.
pub open spec fn trailing_zeros(x: nat, width: nat) -> nat
    decreases width,
{
    if width == 0 || x % 10 != 0 {
        0
    } else {
        1 + trailing_zeros(x / 10, (width - 1) as nat)
    }
}

/// A power of ten is positive.
pub proof fn lemma_pow10_positive(n: nat)
    ensures
        pow10(n) > 0,
    decreases n,
{
    if n > 0 {
        lemma_pow10_positive((n - 1) as nat);
    }
}

/// The next power of ten is ten times this one.
pub proof fn lemma_pow10_step(n: nat)
    ensures
        pow10(n + 1) == 10 * pow10(n),
        pow10(n) > 0,
{
    lemma_pow10_positive(n);
}

/// Ten to a sum is the product of the two powers.
pub proof fn lemma_pow10_add(a: nat, b: nat)
    ensures
        pow10(a + b) == pow10(a) * pow10(b),
    decreases b,
{
    if b == 0 {
        assert(pow10(a) * 1 == pow10(a));
    } else {
        lemma_pow10_add(a, (b - 1) as nat);
        assert(pow10(a + b) == 10 * pow10((a + b - 1) as nat));
        assert(pow10(a) * (10 * pow10((b - 1) as nat)) == 10 * (pow10(a) * pow10((b - 1) as nat)))
            by (nonlinear_arith);
    }
}

/// A higher power of ten is not smaller.
pub proof fn lemma_pow10_monotone(a: nat, b: nat)
    requires
        a <= b,
    ensures
        pow10(a) <= pow10(b),
    decreases b,
{
    if a < b {
        lemma_pow10_monotone(a, (b - 1) as nat);
        lemma_pow10_positive((b - 1) as nat);
    }
}

/// The powers of ten up to the sixteenth, written out.
pub proof fn lemma_pow10_values()
    ensures
        pow10(0) == 1,
        pow10(1) == 10,
        pow10(2) == 100,
        pow10(3) == 1_000,
        pow10(4) == 10_000,
        pow10(5) == 100_000,
        pow10(6) == 1_000_000,
        pow10(7) == 10_000_000,
        pow10(8) == 100_000_000,
        pow10(9) == 1_000_000_000,
        pow10(10) == 10_000_000_000,
        pow10(11) == 100_000_000_000,
        pow10(12) == 1_000_000_000_000,
        pow10(13) == 10_000_000_000_000,
        pow10(14) == 100_000_000_000_000,
        pow10(15) == 1_000_000_000_000_000,
        pow10(16) == 10_000_000_000_000_000,
{
    reveal_with_fuel(pow10, 18);
}

/// Dividing by a power of ten and then by ten divides by the next power.
pub proof fn lemma_div_pow10_step(x: nat, k: nat)
    ensures
        (x / pow10(k)) / 10 == x / pow10(k + 1),
{
    lemma_pow10_positive(k);
    lemma_div_denominator(x as int, pow10(k) as int, 10);
    assert(pow10(k) * 10 == pow10(k + 1));
}

/// Dividing by ten and then by a power of ten divides by the next power.
pub proof fn lemma_div_ten_pow10(x: nat, k: nat)
    ensures
        (x / 10) / pow10(k) == x / pow10(k + 1),
{
    lemma_pow10_positive(k);
    lemma_div_denominator(x as int, 10, pow10(k) as int);
    assert(10 * pow10(k) == pow10(k + 1));
}

/// Dividing by two powers of ten in turn divides by their product.
pub proof fn lemma_div_pow10_pow10(x: nat, a: nat, b: nat)
    ensures
        (x / pow10(a)) / pow10(b) == x / pow10(a + b),
{
    lemma_pow10_positive(a);
    lemma_pow10_positive(b);
    lemma_pow10_add(a, b);
    lemma_div_denominator(x as int, pow10(a) as int, pow10(b) as int);
}

/// The lowest `k + 1` digits of `x` are its lowest `k` digits with the digit
/// at place `k` on top.
pub proof fn lemma_mod_pow10_step(x: nat, k: nat)
    ensures
        x % pow10(k + 1) == x % pow10(k) + digit_at(x, k) * pow10(k),
{
    lemma_pow10_positive(k);
    lemma_breakdown(x as int, pow10(k) as int, 10);
    assert(pow10(k) * 10 == pow10(k + 1));
    assert(pow10(k) * ((x / pow10(k)) % 10) == digit_at(x, k) * pow10(k)) by (nonlinear_arith)
        requires
            digit_at(x, k) == (x / pow10(k)) % 10,
    ;
}

/// A number below a power of ten has no digit at or above that place.
pub proof fn lemma_div_pow10_small(x: nat, k: nat, j: nat)
    requires
        x < pow10(k),
        k <= j,
    ensures
        x / pow10(j) == 0,
        digit_at(x, j) == 0,
{
    lemma_pow10_monotone(k, j);
    vstd::arithmetic::div_mod::lemma_basic_div(x as int, pow10(j) as int);
}

/// Quotient and remainder are the only way to split a number by a divisor.
pub proof fn lemma_div_mod_unique(x: nat, d: nat, q: nat, r: nat)
    requires
        r < d,
        x == q * d + r,
    ensures
        x / d == q,
        x % d == r,
{
    lemma_fundamental_div_mod_converse(x as int, d as int, q as int, r as int);
}

/// A number is its quotient times the divisor plus its remainder.
pub proof fn lemma_div_mod_split(x: nat, d: nat)
    requires
        d > 0,
    ensures
        x == (x / d) * d + x % d,
        x % d < d,
{
    lemma_fundamental_div_mod(x as int, d as int);
    assert(d * (x / d) == (x / d) * d) by (nonlinear_arith);
}

/// Multiplying by ten to the `b` moves every digit up by `b` places and
/// leaves zeros below.
pub proof fn lemma_digit_of_scaled(x: nat, b: nat, j: nat)
    ensures
        digit_at(x * pow10(b), j) == if j >= b {
            digit_at(x, (j - b) as nat)
        } else {
            0
        },
{
    let pb = pow10(b);
    lemma_pow10_positive(b);
    lemma_pow10_positive(j);
    if j >= b {
        lemma_div_pow10_pow10(x * pb, b, (j - b) as nat);
        lemma_div_mod_unique(x * pb, pb, x, 0);
    } else {
        let pj = pow10(j);
        let pd = pow10((b - j - 1) as nat);
        lemma_pow10_add(j, (b - j) as nat);
        lemma_pow10_step((b - j - 1) as nat);
        assert(x * pb == (x * pd * 10) * pj + 0) by (nonlinear_arith)
            requires
                pb == pj * (10 * pd),
        ;
        lemma_div_mod_unique(x * pb, pj, x * pd * 10, 0);
        lemma_div_mod_unique(x * pd * 10, 10, x * pd, 0);
    }
}

/// A number of `n` decimal digits lies below ten to the `n`, and, unless it
/// is zero, at or above ten to the `n - 1`.
pub proof fn lemma_decimal_len_bounds(x: nat)
    ensures
        x < pow10(decimal_len(x)),
        x > 0 ==> pow10((decimal_len(x) - 1) as nat) <= x,
    decreases x,
{
    if x > 0 {
        lemma_decimal_len_bounds(x / 10);
        lemma_div_mod_split(x, 10);
        if x / 10 > 0 {
            lemma_pow10_step((decimal_len(x / 10) - 1) as nat);
        }
    }
}

/// A number at or above ten to the `k` has `k` digits more than what is
/// left of it above its lowest `k` digits.
pub proof fn lemma_decimal_len_split(x: nat, k: nat)
    requires
        x >= pow10(k),
    ensures
        decimal_len(x) == k + decimal_len(x / pow10(k)),
    decreases k,
{
    lemma_pow10_positive(k);
    if k == 0 {
        assert(pow10(0) == 1);
        assert(x / 1 == x);
    } else {
        let j = (k - 1) as nat;
        lemma_pow10_step(j);
        lemma_div_mod_split(x, 10);
        lemma_decimal_len_split(x / 10, j);
        lemma_div_ten_pow10(x, j);
    }
}

/// Dividing by a power of ten takes that many zeros off the bounds of a
/// number.
pub proof fn lemma_div_pow10_bounds(x: nat, low: nat, high: nat, k: nat)
    requires
        k <= low,
        pow10(low) <= x < pow10(high),
        low < high,
    ensures
        pow10((low - k) as nat) <= x / pow10(k) < pow10((high - k) as nat),
{
    let p = pow10(k);
    let q = x / p;
    lemma_pow10_positive(k);
    lemma_pow10_add((low - k) as nat, k);
    lemma_pow10_add((high - k) as nat, k);
    lemma_div_mod_split(x, p);
    let lo = pow10((low - k) as nat);
    let hi = pow10((high - k) as nat);
    assert(lo <= q) by (nonlinear_arith)
        requires
            lo * p <= x,
            x == q * p + x % p,
            x % p < p,
            p > 0,
    ;
    assert(q < hi) by (nonlinear_arith)
        requires
            x < hi * p,
            x == q * p + x % p,
            0 <= x % p,
            p > 0,
    ;
}

} // verus!
