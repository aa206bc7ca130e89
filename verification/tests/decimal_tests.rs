use c3po::decimal::Decimal;
use c3po::text::{i64_text, u64_text, contains, trim, first_component, replace_char};

fn d(s: &str) -> Decimal {
    Decimal::parse(s).unwrap()
}

#[test]
fn decimal_parse_reads_mantissa_and_scale() {
    let x = d("12.345");
    assert_eq!(x.mantissa(), 12345);
    assert_eq!(x.scale(), 3);
    assert!(Decimal::parse("abc").is_none());
    assert!(Decimal::parse("").is_none());
}

#[test]
fn decimal_text_round_trips() {
    assert_eq!(d("0.45").to_text(), "0.45");
    assert_eq!(Decimal::new(-15, 1).to_text(), "-1.5");
    assert_eq!(Decimal::from_i64(1000).to_text(), "1000");
}

#[test]
fn decimal_compares_by_value_across_scales() {
    assert!(d("0.5").eq_value(&d("0.50")));
    assert!(d("0.49").lt(&d("0.5")));
    assert!(!d("0.5").lt(&d("0.50")));
    assert!(d("0.5").le(&d("0.50")));
    assert!(d("2").gt(&d("1.99")));
    assert!(d("2").ge(&d("2.0")));
}

#[test]
fn decimal_min_max_keep_first_on_ties() {
    let a = d("1.0");
    let b = d("1.00");
    assert_eq!(a.min(b).scale(), 1);
    assert_eq!(a.max(b).scale(), 1);
    assert!(d("3").min(d("2")).eq_value(&d("2")));
    assert!(d("3").max(d("2")).eq_value(&d("3")));
}

#[test]
fn decimal_checked_arithmetic() {
    assert!(d("0.40").checked_add(&d("0.51")).unwrap().eq_value(&d("0.91")));
    assert!(Decimal::one().checked_sub(&d("0.91")).unwrap().eq_value(&d("0.09")));
    assert!(d("10").checked_mul(&d("0.09")).unwrap().eq_value(&d("0.9")));
    assert!(d("5.10").checked_div(&d("10")).unwrap().eq_value(&d("0.51")));
    assert!(d("1").checked_div(&Decimal::zero()).is_none());
    let big = Decimal::from_i128_with_scale(79228162514264337593543950335, 0);
    assert!(big.checked_add(&big).is_none());
    assert!(big.checked_mul(&d("2")).is_none());
}

#[test]
fn integer_text_and_parse() {
    assert_eq!(u64_text(0), "0");
    assert_eq!(u64_text(1234567890), "1234567890");
    assert_eq!(i64_text(-42), "-42");
    assert_eq!(i64_text(i64::MIN), "-9223372036854775808");
}

#[test]
fn text_helpers() {
    assert!(contains("btc-updown-5m", "5m"));
    assert!(!contains("btc", "eth"));
    assert_eq!(trim("  a b \n"), "a b");
    assert_eq!(first_component("btc-updown-5m", '-'), "btc");
    assert_eq!(first_component("nodash", '-'), "nodash");
    assert_eq!(replace_char("15m", 'm', "-minutes"), "15-minutes");
    assert_eq!(replace_char("1h", 'm', "-minutes"), "1h");
}

#[test]
fn text_pads_fractions_and_keeps_scale() {
    assert_eq!(Decimal::new(0, 2).to_text(), "0.00");
    assert_eq!(Decimal::new(-5, 2).to_text(), "-0.05");
    assert_eq!(Decimal::new(123, 0).to_text(), "123");
    assert_eq!(Decimal::new(1230, 1).to_text(), "123.0");
}
