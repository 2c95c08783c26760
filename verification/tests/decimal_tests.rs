use random_place::config::Multiplier;

fn parse(text: &str) -> Option<u64> {
    Multiplier::parse(text.as_bytes()).map(|m| m.millionths)
}

#[test]
fn whole_numbers() {
    assert_eq!(parse("2"), Some(2_000_000));
    assert_eq!(parse("10"), Some(10_000_000));
    assert_eq!(parse("007"), Some(7_000_000));
    assert_eq!(parse("000000000000000000000000000001"), Some(1_000_000));
}

#[test]
fn numbers_with_a_fraction() {
    assert_eq!(parse("2.0"), Some(2_000_000));
    assert_eq!(parse("0.75"), Some(750_000));
    assert_eq!(parse("1.5"), Some(1_500_000));
    assert_eq!(parse("0.000001"), Some(1));
    assert_eq!(parse("12.345678"), Some(12_345_678));
    assert_eq!(parse("3.100000"), Some(3_100_000));
    assert_eq!(parse("1.0000000"), Some(1_000_000));
    assert_eq!(parse("0.1234560000"), Some(123_456));
}

#[test]
fn numbers_with_an_exponent() {
    assert_eq!(parse("1e3"), Some(1_000_000_000));
    assert_eq!(parse("1E2"), Some(100_000_000));
    assert_eq!(parse("1e+2"), Some(100_000_000));
    assert_eq!(parse("1.5e-3"), Some(1_500));
    assert_eq!(parse("5e-6"), Some(5));
    assert_eq!(parse("1e-6"), Some(1));
    assert_eq!(parse("2.5e0"), Some(2_500_000));
    assert_eq!(parse("2.5e-0"), Some(2_500_000));
    assert_eq!(parse("1000e-9"), Some(1));
    assert_eq!(parse("1200e-9"), None);
    assert_eq!(parse("0.0000001e1"), Some(1));
    assert_eq!(parse("1e000000000000000000000000000000000000000000001"), Some(10_000_000));
}

#[test]
fn largest_multiplier() {
    assert_eq!(parse("18446744073709.551615"), Some(u64::MAX));
    assert_eq!(parse("18446744073709551615e-6"), Some(u64::MAX));
    assert_eq!(parse("18446744073709"), Some(18_446_744_073_709_000_000));
    assert_eq!(parse("1e13"), Some(10_000_000_000_000_000_000));
}

#[test]
fn numbers_that_do_not_fit() {
    assert_eq!(parse("18446744073709.551616"), None);
    assert_eq!(parse("18446744073710"), None);
    assert_eq!(parse("2e13"), None);
    assert_eq!(parse("1e14"), None);
    assert_eq!(parse("1e19"), None);
    assert_eq!(parse("1e20"), None);
    assert_eq!(parse("1e400"), None);
    assert_eq!(parse("1e99999999999999999999999999999999999999999999999999"), None);
    assert_eq!(parse("99999999999999999999999999"), None);
    assert_eq!(parse("99999999999999999999999999.5"), None);
}

#[test]
fn digits_beyond_64_bits_are_refused() {
    assert_eq!(parse("18446744073709551616e-6"), None);
    assert_eq!(parse("0.50000000000000000000000"), None);
    assert_eq!(parse("100000000000000000000e-20"), None);
    assert_eq!(parse("9999999999999999999999999999999999999999999999999999999999e-60"), None);
}

#[test]
fn zero_is_no_multiplier() {
    assert_eq!(parse("0"), None);
    assert_eq!(parse("0.0"), None);
    assert_eq!(parse("000.000000"), None);
    assert_eq!(parse("0e5"), None);
    assert_eq!(parse("0e-5"), None);
    assert_eq!(parse("0e99999999999999999999999999999999999999999999"), None);
}

#[test]
fn numbers_between_two_millionths_are_refused() {
    assert_eq!(parse("0.0000001"), None);
    assert_eq!(parse("1.0000005"), None);
    assert_eq!(parse("1e-7"), None);
    assert_eq!(parse("15e-7"), None);
    assert_eq!(parse("1e-19"), None);
    assert_eq!(parse("1e-26"), None);
    assert_eq!(parse("1e-400"), None);
    assert_eq!(parse("1e-99999999999999999999999999999999999999999999999999"), None);
}

#[test]
fn other_notations_are_refused() {
    assert_eq!(parse(""), None);
    assert_eq!(parse("-1"), None);
    assert_eq!(parse("+1"), None);
    assert_eq!(parse("1."), None);
    assert_eq!(parse(".5"), None);
    assert_eq!(parse("1.e5"), None);
    assert_eq!(parse("e5"), None);
    assert_eq!(parse("1e"), None);
    assert_eq!(parse("1e-"), None);
    assert_eq!(parse("1e+"), None);
    assert_eq!(parse("1e--5"), None);
    assert_eq!(parse("1e5x"), None);
    assert_eq!(parse("1e5.0"), None);
    assert_eq!(parse("1.2.3"), None);
    assert_eq!(parse(" 1"), None);
    assert_eq!(parse("1 "), None);
    assert_eq!(parse("1,5"), None);
    assert_eq!(parse("abc"), None);
    assert_eq!(parse("1.5x"), None);
    assert_eq!(parse("0x10"), None);
    assert_eq!(parse("NaN"), None);
    assert_eq!(parse("Infinity"), None);
}
