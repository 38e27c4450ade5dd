use fx50fh::{check_exponent, from_digits, shift, to_digits, Digit};

fn block(digits: [u8; 15]) -> [Digit; 15] {
    digits.map(Digit)
}

#[test]
fn to_digits_is_right_aligned() {
    assert_eq!(to_digits(0), block([0; 15]));
    assert_eq!(to_digits(7), block([0, 0, 0, 0, 0, 0, 0, 0, 0, 0, 0, 0, 0, 0, 7]));
    assert_eq!(to_digits(1_203), block([0, 0, 0, 0, 0, 0, 0, 0, 0, 0, 0, 1, 2, 0, 3]));
    assert_eq!(
        to_digits(123_456_789_012_345),
        block([1, 2, 3, 4, 5, 6, 7, 8, 9, 0, 1, 2, 3, 4, 5])
    );
    assert_eq!(to_digits(999_999_999_999_999), block([9; 15]));
}

#[test]
fn from_digits_reads_most_significant_first() {
    assert_eq!(from_digits(block([0; 15])), 0);
    assert_eq!(from_digits(block([0, 0, 0, 0, 0, 0, 0, 0, 0, 0, 0, 0, 6, 9, 4])), 694);
    assert_eq!(
        from_digits(block([1, 0, 0, 0, 0, 0, 0, 0, 0, 0, 0, 0, 0, 0, 0])),
        100_000_000_000_000
    );
    assert_eq!(from_digits(block([9; 15])), 999_999_999_999_999);
}

#[test]
fn digits_round_trip() {
    for n in [0u64, 1, 9, 10, 99, 694, 41_111_111_111_111, 999_999_999_999_999] {
        assert_eq!(from_digits(to_digits(n)), n);
    }
    for d in [
        block([0; 15]),
        block([9; 15]),
        block([0, 0, 0, 1, 0, 0, 2, 0, 0, 3, 0, 0, 4, 0, 0]),
        block([5, 4, 3, 2, 1, 0, 9, 8, 7, 6, 5, 4, 3, 2, 1]),
    ] {
        assert_eq!(to_digits(from_digits(d)), d);
    }
}

#[test]
fn shift_moves_towards_the_most_significant_end() {
    let m = to_digits(123);
    assert_eq!(shift(m, 0), m);
    assert_eq!(shift(m, 1), to_digits(1_230));
    assert_eq!(shift(m, 12), to_digits(123_000_000_000_000));
}

#[test]
fn shift_drops_what_passes_the_front() {
    let m = to_digits(123);
    assert_eq!(shift(m, 13), to_digits(230_000_000_000_000));
    assert_eq!(shift(m, 14), to_digits(300_000_000_000_000));
    assert_eq!(shift(m, 15), to_digits(0));
    assert_eq!(shift(m, 200), to_digits(0));
    assert_eq!(shift(m, usize::MAX), to_digits(0));
}

#[test]
fn check_exponent_accepts_two_digits() {
    assert_eq!(check_exponent(0), Some(0));
    assert_eq!(check_exponent(99), Some(99));
    assert_eq!(check_exponent(-99), Some(-99));
    assert_eq!(check_exponent(100), None);
    assert_eq!(check_exponent(-100), None);
    assert_eq!(check_exponent(127), None);
    assert_eq!(check_exponent(-128), None);
}
