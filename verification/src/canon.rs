//! The canonical form of a raw digit-wise result: low zeros leave the
//! significand and are counted, and digits that a carry brings in above the
//! fifteenth place push the lowest digits out.

use crate::arith::{
    decimal_len, lemma_div_mod_unique, lemma_div_pow10_step, lemma_pow10_add,
    lemma_pow10_monotone, lemma_pow10_positive, lemma_pow10_step, lemma_pow10_values, pow10,
    trailing_zeros,
};
use crate::digits::{
    all_digits, digits_value, lemma_value_of_zeros, lemma_value_prepend, lemma_value_update, Digit,
};
use vstd::prelude::*;

verus! {

/// By how much canonicalization raises the exponent of a raw result: the
/// zeros at the low end of its lowest fifteen digits, and one for each digit
/// that it has above the fifteenth place.
pub open spec fn canonical_shift(raw: nat) -> nat {
    trailing_zeros(raw % pow10(15), 15) + decimal_len(raw / pow10(15))
}

/// The significand that canonicalization leaves of a raw result. The low
/// zeros of the lowest fifteen digits are dropped first; then the digits
/// above the fifteenth place come in at the top, each pushing one digit out
/// at the low end.
pub open spec fn canonical_mantissa(raw: nat) -> nat {
    let low = raw % pow10(15);
    let high = raw / pow10(15);
    (high * pow10(15) + low / pow10(trailing_zeros(low, 15))) / pow10(decimal_len(high))
}

/// A number that is `m` times ten to the `t`, with `m` not ending in zero
/// unless the number is zero and `t` is the whole width, has exactly `t`
/// low zeros.
pub proof fn lemma_trailing_zeros_unique(x: nat, m: nat, t: nat, width: nat)
    requires
        x == m * pow10(t),
        t <= width,
        x != 0 ==> m % 10 != 0,
        x == 0 ==> t == width,
    ensures
        trailing_zeros(x, width) == t,
        x / pow10(t) == m,
    decreases t,
{
    lemma_pow10_positive(t);
    lemma_div_mod_unique(x, pow10(t), m, 0);
    if t == 0 {
        assert(pow10(0) == 1);
        assert(x == m) by (nonlinear_arith)
            requires
                x == m * 1,
        ;
    } else {
        let p = pow10((t - 1) as nat);
        lemma_pow10_step((t - 1) as nat);
        assert(x == (m * p) * 10 + 0) by (nonlinear_arith)
            requires
                x == m * pow10(t),
                pow10(t) == 10 * p,
        ;
        lemma_div_mod_unique(x, 10, m * p, 0);
        lemma_trailing_zeros_unique(m * p, m, (t - 1) as nat, (width - 1) as nat);
    }
}

/// Puts `d` in front of the block and drops the block's last digit.
fn pushed_front(m: [Digit; 15], d: Digit) -> (r: [Digit; 15])
    ensures
        r@ == seq![d] + m@.drop_last(),
{
    let mut r: [Digit; 15] = [d;15];
    let mut j: usize = 1;
    while j < 15
        invariant
            1 <= j <= 15,
            r[0] == d,
            forall|i: int| 1 <= i < j ==> r[i] == m[i - 1],
        decreases 15 - j,
    {
        r[j] = m[j - 1];
        j = j + 1;
    }
    proof {
        assert(r@ =~= seq![d] + m@.drop_last());
    }
    r
}

/// Takes the digits of a raw result from the units upwards and keeps the
/// significand that they leave.
pub(crate) struct Writer {
    mantissa: [Digit; 15],
    next: usize,
    reduced: u8,
}

impl Writer {
    /// The digits written so far stand at the low end from `next` on, begin
    /// with a non-zero digit at the units, and leave zeros above them.
    pub(crate) closed spec fn wf(&self) -> bool {
        &&& self.next <= 15
        &&& self.reduced + (15 - self.next) <= 15
        &&& all_digits(self.mantissa@)
        &&& forall|j: int| 0 <= j < self.next ==> self.mantissa[j] == Digit(0)
        &&& self.next < 15 ==> self.mantissa[14].0 != 0
        &&& digits_value(self.mantissa@) < pow10((15 - self.next) as nat)
    }

    /// How many digits were taken.
    pub(crate) closed spec fn taken(&self) -> nat {
        (15 - self.next + self.reduced) as nat
    }

    /// The number that the digits taken so far spell.
    pub(crate) closed spec fn run(&self) -> nat {
        digits_value(self.mantissa@) * pow10(self.reduced as nat)
    }

    /// A writer that has taken no digit yet.
    pub(crate) fn new() -> (w: Writer)
        ensures
            w.wf(),
            w.taken() == 0,
            w.run() == 0,
    {
        let w = Writer { mantissa: [Digit(0);15], next: 15, reduced: 0 };
        proof {
            lemma_value_of_zeros(w.mantissa@);
            assert(pow10(0) == 1);
        }
        w
    }

    /// Takes the next digit up. A zero does not enter the significand while
    /// nothing but zeros has come: it is counted instead.
    pub(crate) fn push(self, d: u8) -> (w: Writer)
        requires
            self.wf(),
            self.taken() < 15,
            d <= 9,
        ensures
            w.wf(),
            w.taken() == self.taken() + 1,
            w.run() == self.run() + d * pow10(self.taken()),
            w.run() < pow10(w.taken()),
    {
        let ghost value = digits_value(self.mantissa@);
        let ghost place = pow10((15 - self.next) as nat);
        let ghost scale = pow10(self.reduced as nat);
        proof {
            lemma_pow10_add((15 - self.next) as nat, self.reduced as nat);
            lemma_pow10_step((15 - self.next) as nat);
            lemma_pow10_step(self.taken());
            lemma_pow10_positive(self.reduced as nat);
        }
        if d != 0 || self.next != 15 {
            let mut mantissa = self.mantissa;
            let next = self.next - 1;
            mantissa[next] = Digit(d);
            let w = Writer { mantissa, next, reduced: self.reduced };
            proof {
                lemma_value_update(self.mantissa@, next as int, Digit(d));
                assert(mantissa@ == self.mantissa@.update(next as int, Digit(d)));
                assert(self.mantissa@[next as int] == Digit(0));
                let new_value = digits_value(mantissa@);
                assert(new_value == value + d * place);
                assert(new_value * scale == value * scale + d * (place * scale))
                    by (nonlinear_arith)
                    requires
                        new_value == value + d * place,
                ;
                assert(d * place <= 9 * place) by (nonlinear_arith)
                    requires
                        d <= 9,
                ;
                assert(new_value < 10 * place);
                assert(new_value * scale < (10 * place) * scale) by (nonlinear_arith)
                    requires
                        new_value < 10 * place,
                        scale > 0,
                ;
                assert((10 * place) * scale == 10 * (place * scale)) by (nonlinear_arith);
            }
            w
        } else {
            let w = Writer { mantissa: self.mantissa, next: 15, reduced: self.reduced + 1 };
            proof {
                assert(pow10(0) == 1);
                assert(value == 0);
                assert(0 * scale == 0);
                assert(0 * pow10(w.reduced as nat) == 0);
                lemma_pow10_positive(w.taken());
            }
            w
        }
    }

    /// Ends a run of fifteen digits with the carry that is left above them.
    /// Each digit of the carry comes in at the most significant place and
    /// pushes the lowest digit out. Returns the significand and the count
    /// by which the exponent has to rise.
    pub(crate) fn finish(self, carry: u64) -> (r: ([Digit; 15], u8))
        requires
            self.wf(),
            self.taken() == 15,
            carry < pow10(15),
        ensures
            all_digits(r.0@),
            digits_value(r.0@) == canonical_mantissa(self.run() + carry as nat * pow10(15)),
            r.1 == canonical_shift(self.run() + carry as nat * pow10(15)),
            r.1 <= 30,
    {
        let ghost value = digits_value(self.mantissa@);
        let ghost low = self.run();
        let ghost raw = low + carry as nat * pow10(15);
        let ghost start = carry as nat * pow10(15) + value;
        proof {
            lemma_pow10_add((15 - self.next) as nat, self.reduced as nat);
            lemma_pow10_positive(self.reduced as nat);
            assert(low < pow10(15)) by (nonlinear_arith)
                requires
                    low == value * pow10(self.reduced as nat),
                    value < pow10((15 - self.next) as nat),
                    pow10(15) == pow10((15 - self.next) as nat) * pow10(self.reduced as nat),
                    pow10(self.reduced as nat) > 0,
            ;
            lemma_div_mod_unique(raw, pow10(15), carry as nat, low);
            if self.next == 15 {
                assert(pow10(0) == 1);
                assert(low == 0) by (nonlinear_arith)
                    requires
                        low == value * pow10(self.reduced as nat),
                        value == 0,
                ;
            } else {
                assert(value % 10 == self.mantissa[14].0);
                assert(low != 0) by (nonlinear_arith)
                    requires
                        low == value * pow10(self.reduced as nat),
                        value > 0,
                        pow10(self.reduced as nat) > 0,
                ;
            }
            lemma_trailing_zeros_unique(low, value, self.reduced as nat, 15);
            assert(start / pow10(0) == start) by {
                assert(pow10(0) == 1);
            }
            assert(carry * pow10(0) == carry) by {
                assert(pow10(0) == 1);
            }
        }
        let mut mantissa = self.mantissa;
        let mut reduced = self.reduced;
        let mut rest = carry;
        let ghost mut steps: nat = 0;
        while rest != 0
            invariant
                all_digits(mantissa@),
                rest * pow10(15) + digits_value(mantissa@) == start / pow10(steps),
                decimal_len(carry as nat) == steps + decimal_len(rest as nat),
                rest * pow10(steps) <= carry,
                carry < pow10(15),
                reduced == self.reduced + steps,
                self.reduced <= 15,
                steps <= 15,
            decreases rest,
        {
            let d = Digit((rest % 10) as u8);
            let ghost before = mantissa@;
            proof {
                lemma_pow10_positive(steps);
                assert(pow10(steps) <= carry) by (nonlinear_arith)
                    requires
                        rest * pow10(steps) <= carry,
                        rest >= 1,
                        pow10(steps) > 0,
                ;
                if steps >= 15 {
                    lemma_pow10_monotone(15, steps);
                }
            }
            mantissa = pushed_front(mantissa, d);
            proof {
                let m = digits_value(before);
                let front = digits_value(before.drop_last());
                let x = rest as nat * pow10(15) + m;
                let p14 = pow10(14);
                lemma_pow10_values();
                assert(before.last().wf());
                lemma_value_prepend(d, before.drop_last());
                assert(digits_value(mantissa@) == d.0 * p14 + front);
                assert(x == ((rest / 10) * pow10(15) + digits_value(mantissa@)) * 10
                    + before.last().0) by (nonlinear_arith)
                    requires
                        x == rest * pow10(15) + m,
                        m == 10 * front + before.last().0,
                        digits_value(mantissa@) == d.0 * p14 + front,
                        d.0 == rest % 10,
                        rest == 10 * (rest / 10) + rest % 10,
                        pow10(15) == 10 * p14,
                ;
                lemma_div_mod_unique(
                    x,
                    10,
                    (rest as nat / 10) * pow10(15) + digits_value(mantissa@),
                    before.last().0 as nat,
                );
                lemma_div_pow10_step(start, steps);
                lemma_pow10_step(steps);
                assert((rest / 10) * pow10(steps + 1) <= carry) by (nonlinear_arith)
                    requires
                        rest * pow10(steps) <= carry,
                        pow10(steps + 1) == 10 * pow10(steps),
                        rest == 10 * (rest / 10) + rest % 10,
                        rest % 10 >= 0,
                        pow10(steps) > 0,
                ;
                assert forall|i: int| 0 <= i < 15 implies (#[trigger] mantissa@[i]).wf() by {
                    if i > 0 {
                        assert(mantissa@[i] == before[i - 1]);
                        assert(before[i - 1].wf());
                    }
                }
                steps = steps + 1;
            }
            rest = rest / 10;
            reduced = reduced + 1;
        }
        (mantissa, reduced)
    }
}

} // verus!
