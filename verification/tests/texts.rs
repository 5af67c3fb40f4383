use sst_ingest::text::{
    magnitude, push_decimal, push_padded, push_signed_decimal, push_thousandths,
};

fn decimal(n: u64) -> String {
    let mut out = String::new();
    push_decimal(&mut out, n);
    out
}

fn thousandths(m: i64) -> String {
    let mut out = String::new();
    push_thousandths(&mut out, m);
    out
}

#[test]
fn whole_numbers_are_written_without_leading_zeros() {
    assert_eq!(decimal(0), "0");
    assert_eq!(decimal(7), "7");
    assert_eq!(decimal(10), "10");
    assert_eq!(decimal(1_000), "1000");
    assert_eq!(decimal(9_876_543_210), "9876543210");
    assert_eq!(decimal(u64::MAX), "18446744073709551615");
    let mut n: u64 = 1;
    while n < 1_000_000_000_000 {
        assert_eq!(decimal(n), n.to_string());
        assert_eq!(decimal(n - 1), (n - 1).to_string());
        n *= 7;
    }
}

#[test]
fn digits_are_appended_to_what_is_there() {
    let mut out = String::from("n=");
    push_decimal(&mut out, 42);
    push_signed_decimal(&mut out, -42);
    push_padded(&mut out, 4);
    push_thousandths(&mut out, -1_250);
    assert_eq!(out, "n=42-4204-1.25");
}

#[test]
fn negative_numbers_get_a_minus_sign() {
    let mut out = String::new();
    push_signed_decimal(&mut out, i64::MIN);
    assert_eq!(out, "-9223372036854775808");
    let mut out = String::new();
    push_signed_decimal(&mut out, i64::MAX);
    assert_eq!(out, "9223372036854775807");
    let mut out = String::new();
    push_signed_decimal(&mut out, 0);
    assert_eq!(out, "0");
    let mut out = String::new();
    push_signed_decimal(&mut out, -1);
    assert_eq!(out, "-1");
}

#[test]
fn magnitude_drops_the_sign() {
    assert_eq!(magnitude(0), 0);
    assert_eq!(magnitude(5), 5);
    assert_eq!(magnitude(-5), 5);
    assert_eq!(magnitude(i64::MAX), 9_223_372_036_854_775_807);
    assert_eq!(magnitude(i64::MIN), 9_223_372_036_854_775_808);
}

#[test]
fn single_digits_are_padded() {
    for n in 0..200u64 {
        let mut out = String::new();
        push_padded(&mut out, n);
        assert_eq!(out, format!("{:02}", n));
    }
}

#[test]
fn thousandths_drop_trailing_zeros() {
    assert_eq!(thousandths(0), "0");
    assert_eq!(thousandths(1), "0.001");
    assert_eq!(thousandths(10), "0.01");
    assert_eq!(thousandths(100), "0.1");
    assert_eq!(thousandths(1_000), "1");
    assert_eq!(thousandths(1_001), "1.001");
    assert_eq!(thousandths(1_010), "1.01");
    assert_eq!(thousandths(1_100), "1.1");
    assert_eq!(thousandths(1_110), "1.11");
    assert_eq!(thousandths(-500), "-0.5");
    assert_eq!(thousandths(-160_500), "-160.5");
    assert_eq!(thousandths(180_000), "180");
    assert_eq!(thousandths(-999), "-0.999");
    assert_eq!(thousandths(i64::MIN), "-9223372036854775.808");
}

#[test]
fn thousandths_read_as_the_float_of_that_many_thousandths() {
    let mut m: i64 = -200_000;
    while m <= 200_000 {
        assert_eq!(thousandths(m), (m as f64 / 1000.0).to_string(), "for {}", m);
        m += 1;
    }
}

#[test]
fn thousandths_of_different_numbers_differ() {
    let mut seen = std::collections::HashSet::new();
    let mut m: i64 = -5_000;
    while m <= 5_000 {
        assert!(seen.insert(thousandths(m)));
        m += 1;
    }
}
