//! Decimal text of a value: an optional minus sign, the significand without
//! its leading zeros, the letter `e`, and the exponent.

use crate::arith::lemma_div_mod_unique;
use crate::digits::{all_digits, digits_value, Digit};
use crate::float::{Float, FloatView};
use vstd::prelude::*;
use vstd::string::*;

verus! {

/// The character of a decimal digit.
pub open spec fn digit_char(d: nat) -> char {
    if d == 0 {
        '0'
    } else if d == 1 {
        '1'
    } else if d == 2 {
        '2'
    } else if d == 3 {
        '3'
    } else if d == 4 {
        '4'
    } else if d == 5 {
        '5'
    } else if d == 6 {
        '6'
    } else if d == 7 {
        '7'
    } else if d == 8 {
        '8'
    } else {
        '9'
    }
}

/// A natural number in decimal, without leading zeros; zero is `0`.
pub open spec fn nat_text(n: nat) -> Seq<char>
    decreases n,
{
    if n < 10 {
        seq![digit_char(n)]
    } else {
        nat_text(n / 10).push(digit_char(n % 10))
    }
}

/// An integer in decimal, with a minus sign in front of a negative one.
pub open spec fn int_text(i: int) -> Seq<char> {
    if i < 0 {
        seq!['-'] + nat_text((-i) as nat)
    } else {
        nat_text(i as nat)
    }
}

/// The text of a value.
pub open spec fn text_of(v: FloatView) -> Seq<char> {
    (if v.negative {
        seq!['-']
    } else {
        Seq::<char>::empty()
    }) + nat_text(v.significand) + seq!['e'] + int_text(v.exponent)
}

/// The one-character text of a digit.
pub(crate) fn digit_str(d: u8) -> (r: &'static str)
    requires
        d <= 9,
    ensures
        r@ == seq![digit_char(d as nat)],
{
    proof {
        reveal_strlit("0");
        reveal_strlit("1");
        reveal_strlit("2");
        reveal_strlit("3");
        reveal_strlit("4");
        reveal_strlit("5");
        reveal_strlit("6");
        reveal_strlit("7");
        reveal_strlit("8");
        reveal_strlit("9");
    }
    let r = match d {
        0 => "0",
        1 => "1",
        2 => "2",
        3 => "3",
        4 => "4",
        5 => "5",
        6 => "6",
        7 => "7",
        8 => "8",
        _ => "9",
    };
    assert(r@ =~= seq![digit_char(d as nat)]);
    r
}

/// A number in decimal.
pub fn number_text(n: usize) -> (s: String)
    ensures
        s@ == nat_text(n as nat),
    decreases n,
{
    if n < 10 {
        String::from_str(digit_str(n as u8))
    } else {
        let mut s = number_text(n / 10);
        s.append(digit_str((n % 10) as u8));
        proof {
            assert(s@ =~= nat_text(n as nat));
        }
        s
    }
}

impl Float {
    /// Writes the value as text: `-` if it is negative, the digits from the
    /// first non-zero one on (a single `0` if there is none), `e`, and the
    /// exponent in decimal.
    pub fn to_text(&self) -> (s: String)
        requires
            self.wf(),
        ensures
            s@ == text_of(self@),
    {
        let mut s = String::new();
        if self.sign {
            s.append("-");
        }
        proof {
            reveal_strlit("-");
            reveal_strlit("e");
            assert(self.mantissa@.subrange(0, 0) =~= Seq::<Digit>::empty());
        }
        let ghost prefix = s@;
        assert(prefix =~= if self.sign {
            seq!['-']
        } else {
            Seq::<char>::empty()
        });
        let mut started = false;
        let mut i: usize = 0;
        while i < 15
            invariant
                i <= 15,
                all_digits(self.mantissa@),
                started <==> (digits_value(self.mantissa@.subrange(0, i as int)) != 0 || i == 15),
                s@ == prefix + (if started {
                    nat_text(digits_value(self.mantissa@.subrange(0, i as int)))
                } else {
                    Seq::<char>::empty()
                }),
            decreases 15 - i,
        {
            let d = self.mantissa[i].0;
            let ghost before = digits_value(self.mantissa@.subrange(0, i as int));
            let ghost after = digits_value(self.mantissa@.subrange(0, i + 1));
            proof {
                assert(self.mantissa@[i as int].wf());
                assert(self.mantissa@.subrange(0, i + 1).drop_last() =~= self.mantissa@.subrange(
                    0,
                    i as int,
                ));
                assert(after == 10 * before + d);
                lemma_div_mod_unique(after, 10, before, d as nat);
            }
            if started || i == 14 || d != 0 {
                s.append(digit_str(d));
                proof {
                    if started {
                        assert(s@ =~= prefix + nat_text(after));
                    } else {
                        assert(s@ =~= prefix + nat_text(after));
                    }
                }
                started = true;
            }
            i = i + 1;
        }
        proof {
            assert(self.mantissa@.subrange(0, 15) =~= self.mantissa@);
        }
        s.append("e");
        let ghost head = s@;
        let magnitude: u8 = if self.exponent < 0 {
            s.append("-");
            (-(self.exponent as i16)) as u8
        } else {
            self.exponent as u8
        };
        if magnitude >= 10 {
            s.append(digit_str(magnitude / 10));
        }
        s.append(digit_str(magnitude % 10));
        proof {
            let m = magnitude as nat;
            assert(nat_text(m) =~= if m >= 10 {
                seq![digit_char(m / 10), digit_char(m % 10)]
            } else {
                seq![digit_char(m)]
            }) by {
                if m >= 10 {
                    assert(nat_text(m / 10) =~= seq![digit_char(m / 10)]);
                }
            }
            assert(s@ =~= head + int_text(self.exponent as int));
            assert(s@ =~= text_of(self@));
        }
        s
    }
}

} // verus!
