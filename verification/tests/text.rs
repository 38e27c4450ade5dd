use fx50fh::text::number_text;
use fx50fh::Float;

#[test]
fn text_of_sums() {
    let sum = (Float::new(5, 1, false) + Float::new(6, 0, false)).unwrap();
    assert_eq!(sum.to_text(), "56e0");
    let sum = (Float::new(5, 0, false) + Float::new(5, 0, false)).unwrap();
    assert_eq!(sum.to_text(), "1e1");
}

#[test]
fn text_skips_leading_zeros() {
    assert_eq!(Float::new(694, 20, false).to_text(), "694e20");
    assert_eq!(Float::new(1_000, 0, false).to_text(), "1000e0");
    assert_eq!(Float::new(123_456_789_012_345, 99, false).to_text(), "123456789012345e99");
    assert_eq!(Float::new(100_000_000_000_000, 7, false).to_text(), "100000000000000e7");
}

#[test]
fn text_of_zero_keeps_one_digit() {
    assert_eq!(Float::new(0, 0, false).to_text(), "0e0");
    assert_eq!(Float::new(0, -3, true).to_text(), "-0e-3");
}

#[test]
fn text_has_sign_and_negative_exponent() {
    assert_eq!(Float::new(12, -3, true).to_text(), "-12e-3");
    assert_eq!(Float::new(12, -99, false).to_text(), "12e-99");
    assert_eq!(Float::new(7, -10, true).to_text(), "-7e-10");
    assert_eq!(Float::new(7, 9, true).to_text(), "-7e9");
}

#[test]
fn text_of_product() {
    let product = (Float::new(3, 0, false) * Float::new(41_111_111_111_111, -14, false)).unwrap();
    assert_eq!(product.to_text(), "123333333333333e-14");
}

#[test]
fn number_text_is_decimal() {
    for n in [0usize, 1, 9, 10, 42, 100, 6_789, 1_000_000] {
        assert_eq!(number_text(n), format!("{}", n));
    }
    assert_eq!(number_text(usize::MAX), format!("{}", usize::MAX));
}
