//! Decimal digits and the fixed-width digit block of a significand.

use crate::arith::{
    digit_at, lemma_digit_of_scaled, lemma_div_mod_unique, lemma_div_pow10_pow10,
    lemma_div_pow10_small, lemma_div_pow10_step, lemma_div_ten_pow10, lemma_pow10_monotone,
    lemma_pow10_positive, lemma_pow10_step, lemma_pow10_values, pow10,
};
use vstd::arithmetic::div_mod::lemma_breakdown;
use vstd::prelude::*;

verus! {

/// The first magnitude that no longer fits in a significand: ten to the fifteenth.
pub const MANTISSA_LIMIT: u64 = 1_000_000_000_000_000;

/// One decimal digit.
#[derive(Debug, Clone, Copy, PartialEq, Eq, Structural)]
pub struct Digit(pub u8);

impl Digit {
    /// A digit is well formed when it lies between 0 and 9.
    pub open spec fn wf(&self) -> bool {
        self.0 <= 9
    }
}

/// Every element of `s` is a well-formed digit.
pub open spec fn all_digits(s: Seq<Digit>) -> bool {
    forall|i: int| 0 <= i < s.len() ==> (#[trigger] s[i]).wf()
}

/// The number that a run of digits spells, most significant digit first.
pub open spec fn digits_value(s: Seq<Digit>) -> nat
    decreases s.len(),
{
    if s.len() == 0 {
        0
    } else {
        10 * digits_value(s.drop_last()) + s.last().0 as nat
    }
}

/// The lowest `len` decimal digits of `n`, most significant first.
pub open spec fn digits_of_len(n: nat, len: nat) -> Seq<Digit> {
    Seq::new(len, |i: int| Digit(digit_at(n, (len - 1 - i) as nat) as u8))
}

/// The digit block of `n`: its lowest fifteen decimal digits, most significant first.
pub open spec fn digits_of(n: nat) -> Seq<Digit> {
    digits_of_len(n, 15)
}

/// Moves every digit `by` places towards the front; what passes the front is
/// dropped and zeros come in at the back.
pub open spec fn shifted(s: Seq<Digit>, by: nat) -> Seq<Digit> {
    Seq::new(
        s.len(),
        |i: int|
            if i + by < s.len() {
                s[i + by]
            } else {
                Digit(0)
            },
    )
}

/// The digits of a number spell that number, as far as they reach.
pub proof fn lemma_value_of_digits(n: nat, len: nat)
    ensures
        all_digits(digits_of_len(n, len)),
        digits_value(digits_of_len(n, len)) == n % pow10(len),
    decreases len,
{
    let s = digits_of_len(n, len);
    if len == 0 {
        assert(n % 1 == 0);
    } else {
        let k = (len - 1) as nat;
        lemma_value_of_digits(n / 10, k);
        assert(s.drop_last() =~= digits_of_len(n / 10, k)) by {
            assert forall|i: int| 0 <= i < k implies s.drop_last()[i] == digits_of_len(
                n / 10,
                k,
            )[i] by {
                lemma_div_ten_pow10(n, (k - 1 - i) as nat);
            }
        }
        assert(s.last().0 == n % 10) by {
            assert(n / 1 == n);
        }
        lemma_pow10_positive(k);
        lemma_breakdown(n as int, 10, pow10(k) as int);
        assert(pow10(len) == 10 * pow10(k));
    }
}

/// Well-formed digits are the digits of the number they spell, and that
/// number stays below ten to their count.
pub proof fn lemma_digits_of_value(s: Seq<Digit>)
    requires
        all_digits(s),
    ensures
        digits_of_len(digits_value(s), s.len()) == s,
        digits_value(s) < pow10(s.len()),
    decreases s.len(),
{
    let v = digits_value(s);
    if s.len() == 0 {
        assert(digits_of_len(v, 0) =~= s);
    } else {
        let k = (s.len() - 1) as nat;
        let t = s.drop_last();
        let w = digits_value(t);
        lemma_digits_of_value(t);
        assert(s.last().wf());
        lemma_div_mod_unique(v, 10, w, s.last().0 as nat);
        assert forall|i: int| 0 <= i < s.len() implies digits_of_len(v, s.len())[i] == s[i] by {
            if i == k {
                assert(v / 1 == v);
            } else {
                lemma_div_ten_pow10(v, (k - 1 - i) as nat);
                assert(digits_of_len(w, k)[i] == t[i]);
                assert(s[i].wf());
            }
        }
        assert(digits_of_len(v, s.len()) =~= s);
    }
}

/// Two runs of well-formed digits of one length that spell the same number
/// are the same run.
pub proof fn lemma_digits_value_injective(a: Seq<Digit>, b: Seq<Digit>)
    requires
        all_digits(a),
        all_digits(b),
        a.len() == b.len(),
        digits_value(a) == digits_value(b),
    ensures
        a == b,
{
    lemma_digits_of_value(a);
    lemma_digits_of_value(b);
}

/// Splits a magnitude into its fifteen decimal digits, most significant
/// first, with zeros in front of the leading digit.
///
/// A magnitude of more than fifteen digits has no digit block: the caller
/// keeps it below `MANTISSA_LIMIT`.
pub fn to_digits(d: u64) -> (v: [Digit; 15])
    requires
        d < MANTISSA_LIMIT,
    ensures
        v@ == digits_of(d as nat),
        all_digits(v@),
        digits_value(v@) == d,
{
    let mut v: [Digit; 15] = [Digit(0);15];
    let mut i: usize = 15;
    let mut rest: u64 = d;
    proof {
        lemma_pow10_values();
        assert(d as nat / 1 == d);
    }
    while rest != 0
        invariant
            i <= 15,
            rest == d as nat / pow10((15 - i) as nat),
            rest < pow10(i as nat),
            forall|j: int| 0 <= j < i ==> v[j] == Digit(0),
            forall|j: int| i <= j < 15 ==> v[j] == digits_of(d as nat)[j],
        decreases rest,
    {
        proof {
            if i == 0 {
                assert(pow10(0) == 1);
            }
            lemma_div_pow10_step(d as nat, (15 - i) as nat);
            lemma_pow10_step((i - 1) as nat);
        }
        v[i - 1] = Digit((rest % 10) as u8);
        rest = rest / 10;
        i = i - 1;
    }
    proof {
        assert forall|j: int| 0 <= j < i implies v[j] == digits_of(d as nat)[j] by {
            lemma_div_pow10_small(d as nat / pow10((15 - i) as nat), 0, (i - 1 - j) as nat);
            lemma_div_pow10_pow10(d as nat, (15 - i) as nat, (i - 1 - j) as nat);
        }
        assert(v@ =~= digits_of(d as nat));
        lemma_value_of_digits(d as nat, 15);
        vstd::arithmetic::div_mod::lemma_small_mod(d as nat, pow10(15));
    }
    v
}

/// Reads a digit block back as the number it spells.
pub fn from_digits(d: [Digit; 15]) -> (n: u64)
    ensures
        n == digits_value(d@),
{
    let mut n: u64 = 0;
    let mut i: usize = 0;
    proof {
        lemma_pow10_values();
        assert(d@.subrange(0, 0) =~= Seq::<Digit>::empty());
    }
    while i < 15
        invariant
            i <= 15,
            n == digits_value(d@.subrange(0, i as int)),
            n + 29 <= 29 * pow10(i as nat),
        decreases 15 - i,
    {
        proof {
            lemma_pow10_values();
            lemma_pow10_step(i as nat);
            lemma_pow10_monotone((i + 1) as nat, 15);
            assert(d@.subrange(0, i + 1).drop_last() =~= d@.subrange(0, i as int));
        }
        n = n * 10 + d[i].0 as u64;
        i = i + 1;
    }
    proof {
        assert(d@.subrange(0, 15) =~= d@);
    }
    n
}

/// Moves the digits of `m` by `by` places towards the most significant end:
/// the number is multiplied by ten to the `by`, its digits above the
/// fifteenth are lost, and zeros fill the low end.
pub fn shift(m: [Digit; 15], by: usize) -> (r: [Digit; 15])
    ensures
        r@ == shifted(m@, by as nat),
{
    let mut r: [Digit; 15] = [Digit(0);15];
    let mut i: usize = 0;
    while i < 15
        invariant
            i <= 15,
            forall|j: int| 0 <= j < 15 && j + by < i ==> r[j] == m[j + by],
            forall|j: int| 0 <= j < 15 && j + by >= i ==> r[j] == Digit(0),
        decreases 15 - i,
    {
        if i >= by {
            r[i - by] = m[i];
        }
        i = i + 1;
    }
    proof {
        assert(r@ =~= shifted(m@, by as nat));
    }
    r
}

/// Replacing one digit changes the number by the difference of the two
/// digits at that digit's place.
pub proof fn lemma_value_update(s: Seq<Digit>, j: int, d: Digit)
    requires
        0 <= j < s.len(),
    ensures
        digits_value(s.update(j, d)) + s[j].0 * pow10((s.len() - 1 - j) as nat) == digits_value(s)
            + d.0 * pow10((s.len() - 1 - j) as nat),
    decreases s.len(),
{
    let k = s.len() - 1;
    let u = s.update(j, d);
    let pk = pow10((k - j) as nat);
    if j == k {
        assert(u.drop_last() =~= s.drop_last());
        assert(pk == 1);
        assert(u.last() == d);
    } else {
        let p = pow10((k - 1 - j) as nat);
        let sd = s.drop_last();
        lemma_value_update(sd, j, d);
        assert(u.drop_last() =~= sd.update(j, d));
        assert(u.last() == s.last());
        assert(sd[j] == s[j]);
        lemma_pow10_step((k - 1 - j) as nat);
        assert(pk == 10 * p);
        assert(digits_value(sd.update(j, d)) + s[j].0 * p == digits_value(sd) + d.0 * p);
        assert(10 * (s[j].0 * p) == s[j].0 * pk) by (nonlinear_arith)
            requires
                pk == 10 * p,
        ;
        assert(10 * (d.0 * p) == d.0 * pk) by (nonlinear_arith)
            requires
                pk == 10 * p,
        ;
    }
}

/// A digit put in front of a run adds itself at the place above the run.
pub proof fn lemma_value_prepend(d: Digit, t: Seq<Digit>)
    ensures
        digits_value(seq![d] + t) == d.0 * pow10(t.len()) + digits_value(t),
    decreases t.len(),
{
    let s = seq![d] + t;
    if t.len() == 0 {
        assert(s.drop_last() =~= t);
        assert(s.last() == d);
        assert(pow10(0) == 1);
    } else {
        let p = pow10((t.len() - 1) as nat);
        lemma_value_prepend(d, t.drop_last());
        assert(s.drop_last() =~= seq![d] + t.drop_last());
        assert(s.last() == t.last());
        lemma_pow10_step((t.len() - 1) as nat);
        assert(pow10(t.len()) == 10 * p);
        assert(10 * (d.0 * p) == d.0 * pow10(t.len())) by (nonlinear_arith)
            requires
                pow10(t.len()) == 10 * p,
        ;
    }
}

/// A run of zeros spells zero.
pub proof fn lemma_value_of_zeros(s: Seq<Digit>)
    requires
        forall|i: int| 0 <= i < s.len() ==> s[i] == Digit(0),
    ensures
        digits_value(s) == 0,
    decreases s.len(),
{
    if s.len() > 0 {
        lemma_value_of_zeros(s.drop_last());
    }
}

/// Shifting a block of well-formed digits multiplies its number by ten to
/// the `by` and keeps the lowest fifteen digits of the product.
pub proof fn lemma_shifted_value(s: Seq<Digit>, by: nat)
    requires
        s.len() == 15,
        all_digits(s),
    ensures
        all_digits(shifted(s, by)),
        shifted(s, by) == digits_of(digits_value(s) * pow10(by)),
        digits_value(shifted(s, by)) == (digits_value(s) * pow10(by)) % pow10(15),
{
    let v = digits_value(s);
    let x = v * pow10(by);
    lemma_digits_of_value(s);
    assert forall|i: int| 0 <= i < 15 implies shifted(s, by)[i] == digits_of(x)[i] by {
        let j = (14 - i) as nat;
        lemma_digit_of_scaled(v, by, j);
        if i + by < 15 {
            assert(digits_of_len(v, 15)[i + by] == s[i + by]);
        }
    }
    assert(shifted(s, by) =~= digits_of(x));
    lemma_value_of_digits(x, 15);
}

} // verus!
