use crypto_converter::support::decimal::DecimalValue;
use crypto_converter::support::sat_converter::{SatsConverter, SATS_PER_UNIT, STH_DECIMALS};

fn decimal(mantissa: i128, scale: u32) -> DecimalValue {
    DecimalValue::try_from_i128_with_scale(mantissa, scale).unwrap()
}

#[test]
fn constants() {
    assert_eq!(SATS_PER_UNIT, 100_000_000);
    assert_eq!(STH_DECIMALS, 8);
}

#[test]
fn sats_to_whole_units() {
    let amount = SatsConverter::from_sats(100_000_000);
    assert_eq!(amount.as_sats(), 100_000_000);
    assert_eq!(amount.as_btc().mantissa(), 100_000_000);
    assert_eq!(amount.as_btc().scale(), 8);
    assert_eq!(amount.as_btc(), DecimalValue::new(1, 0));
    assert_eq!(amount.as_btc().to_text(), "1.00000000");
    assert_eq!(SatsConverter::from_sats(-5).as_btc().to_text(), "-0.00000005");
}

#[test]
fn whole_units_to_sats() {
    let amount = SatsConverter::from_btc(DecimalValue::new(15, 1)).unwrap();
    assert_eq!(amount.as_sats(), 150_000_000);
    assert_eq!(SatsConverter::from_btc(DecimalValue::new(0, 4)).unwrap().as_sats(), 0);
    assert_eq!(SatsConverter::from_btc(DecimalValue::new(-1, 8)).unwrap().as_sats(), -1);
    assert_eq!(
        SatsConverter::from_btc(DecimalValue::new(1500, 0)).unwrap().as_sats(),
        150_000_000_000
    );
}

#[test]
fn whole_units_to_sats_rounds_ties_to_even() {
    assert_eq!(SatsConverter::from_btc(DecimalValue::new(5, 9)).unwrap().as_sats(), 0);
    assert_eq!(SatsConverter::from_btc(DecimalValue::new(15, 9)).unwrap().as_sats(), 2);
    assert_eq!(SatsConverter::from_btc(DecimalValue::new(25, 9)).unwrap().as_sats(), 2);
    assert_eq!(SatsConverter::from_btc(DecimalValue::new(-15, 9)).unwrap().as_sats(), -2);
    assert_eq!(SatsConverter::from_btc(DecimalValue::new(-25, 9)).unwrap().as_sats(), -2);
    assert_eq!(SatsConverter::from_btc(DecimalValue::new(26, 9)).unwrap().as_sats(), 3);
    assert_eq!(SatsConverter::from_btc(DecimalValue::new(14, 9)).unwrap().as_sats(), 1);
    assert_eq!(SatsConverter::from_btc(DecimalValue::new(251, 10)).unwrap().as_sats(), 3);
}

#[test]
fn whole_units_to_sats_fails_out_of_range() {
    assert!(SatsConverter::from_btc(decimal(9_223_372_036_854_775_808, 8)).is_none());
    assert_eq!(
        SatsConverter::from_btc(decimal(9_223_372_036_854_775_807, 8)).unwrap().as_sats(),
        i64::MAX
    );
    assert_eq!(
        SatsConverter::from_btc(decimal(-9_223_372_036_854_775_808, 8)).unwrap().as_sats(),
        i64::MIN
    );
    assert!(SatsConverter::from_btc(decimal(-9_223_372_036_854_775_809, 8)).is_none());
    assert!(SatsConverter::from_btc(decimal(79_228_162_514_264_337_593_543_950_335, 0)).is_none());
    assert!(SatsConverter::from_btc(decimal(1_000_000_000_000, 0)).is_none());
}

#[test]
fn from_decimal_sats_rounds_to_the_nearest_integer() {
    assert_eq!(SatsConverter::from_decimal_sats(DecimalValue::new(1234, 2)).unwrap().as_sats(), 12);
    assert_eq!(SatsConverter::from_decimal_sats(DecimalValue::new(1250, 2)).unwrap().as_sats(), 12);
    assert_eq!(SatsConverter::from_decimal_sats(DecimalValue::new(1350, 2)).unwrap().as_sats(), 14);
    assert_eq!(SatsConverter::from_decimal_sats(DecimalValue::new(-1251, 2)).unwrap().as_sats(), -13);
    assert_eq!(SatsConverter::from_decimal_sats(DecimalValue::new(7, 0)).unwrap().as_sats(), 7);
    assert!(SatsConverter::from_decimal_sats(decimal(92_233_720_368_547_758_075, 1)).is_none());
    assert_eq!(
        SatsConverter::from_decimal_sats(decimal(92_233_720_368_547_758_074, 1))
            .unwrap()
            .as_sats(),
        i64::MAX
    );
}

#[test]
fn conversion_round_trip() {
    for n in [0, 1, -1, 99_999_999, 100_000_000, 150_000_000_000, i64::MAX, i64::MIN, i64::MAX / 100_000_000] {
        let there = SatsConverter::from_sats(n).as_btc();
        assert_eq!(SatsConverter::from_btc(there).unwrap().as_sats(), n);
    }
}

#[test]
fn sats_range_checks_are_inclusive() {
    let amount = SatsConverter::from_sats(500);
    assert!(amount.validate_range(500, 500));
    assert!(amount.validate_range(100, 500));
    assert!(amount.validate_range(500, 900));
    assert!(!amount.validate_range(501, 900));
    assert!(!amount.validate_range(100, 499));
    assert!(!amount.validate_range(900, 100));
}

#[test]
fn sats_ensure_in_range_says_value_and_bounds() {
    assert_eq!(SatsConverter::from_sats(15).ensure_in_range(10, 20), Ok(()));
    assert_eq!(SatsConverter::from_sats(10).ensure_in_range(10, 20), Ok(()));
    assert_eq!(SatsConverter::from_sats(20).ensure_in_range(10, 20), Ok(()));
    assert_eq!(
        SatsConverter::from_sats(5).ensure_in_range(10, 20),
        Err("Amount 5 sats is out of range (10 - 20)".to_string())
    );
    assert_eq!(
        SatsConverter::from_sats(-7).ensure_in_range(-5, 0),
        Err("Amount -7 sats is out of range (-5 - 0)".to_string())
    );
    assert_eq!(
        SatsConverter::from_sats(i64::MIN).ensure_in_range(0, i64::MAX),
        Err(
            "Amount -9223372036854775808 sats is out of range (0 - 9223372036854775807)"
                .to_string()
        )
    );
}

#[test]
fn checked_add_overflow_fails() {
    assert_eq!(
        SatsConverter::from_sats(i64::MAX).checked_add(SatsConverter::from_sats(1)),
        None
    );
    assert_eq!(
        SatsConverter::from_sats(1).checked_add(SatsConverter::from_sats(2)),
        Some(SatsConverter::from_sats(3))
    );
    assert_eq!(
        SatsConverter::from_sats(i64::MAX - 1).checked_add(SatsConverter::from_sats(1)),
        Some(SatsConverter::from_sats(i64::MAX))
    );
}

#[test]
fn checked_sub_and_mul() {
    assert_eq!(
        SatsConverter::from_sats(i64::MIN).checked_sub(SatsConverter::from_sats(1)),
        None
    );
    assert_eq!(
        SatsConverter::from_sats(1).checked_sub(SatsConverter::from_sats(2)),
        Some(SatsConverter::from_sats(-1))
    );
    assert_eq!(SatsConverter::from_sats(i64::MAX).checked_mul(2), None);
    assert_eq!(SatsConverter::from_sats(i64::MIN).checked_mul(-1), None);
    assert_eq!(
        SatsConverter::from_sats(-7).checked_mul(6),
        Some(SatsConverter::from_sats(-42))
    );
}

#[test]
fn division_by_zero_fails() {
    assert_eq!(SatsConverter::from_sats(100).checked_div(0), None);
    assert_eq!(SatsConverter::from_sats(100).divide(DecimalValue::new(0, 0)), None);
    assert_eq!(SatsConverter::from_sats(100).divide(DecimalValue::new(0, 5)), None);
}

#[test]
fn checked_div_rounds_toward_zero() {
    assert_eq!(SatsConverter::from_sats(7).checked_div(2), Some(SatsConverter::from_sats(3)));
    assert_eq!(SatsConverter::from_sats(-7).checked_div(2), Some(SatsConverter::from_sats(-3)));
    assert_eq!(SatsConverter::from_sats(7).checked_div(-2), Some(SatsConverter::from_sats(-3)));
    assert_eq!(SatsConverter::from_sats(-7).checked_div(-2), Some(SatsConverter::from_sats(3)));
    assert_eq!(SatsConverter::from_sats(i64::MIN).checked_div(-1), None);
    assert_eq!(SatsConverter::from_sats(0).checked_div(5), Some(SatsConverter::from_sats(0)));
}

#[test]
fn multiply_and_divide_by_decimals() {
    assert_eq!(
        SatsConverter::from_sats(100).multiply(DecimalValue::new(25, 1)),
        Some(SatsConverter::from_sats(250))
    );
    assert_eq!(
        SatsConverter::from_sats(3).multiply(DecimalValue::new(5, 1)),
        Some(SatsConverter::from_sats(2))
    );
    assert_eq!(
        SatsConverter::from_sats(100).multiply(DecimalValue::new(0, 0)),
        Some(SatsConverter::from_sats(0))
    );
    assert_eq!(
        SatsConverter::from_sats(100).divide(DecimalValue::new(3, 0)),
        Some(SatsConverter::from_sats(33))
    );
    assert_eq!(
        SatsConverter::from_sats(150_000_000_000).divide(DecimalValue::new(5, 2)),
        Some(SatsConverter::from_sats(3_000_000_000_000))
    );
    assert_eq!(
        SatsConverter::from_sats(i64::MAX).multiply(DecimalValue::new(2, 0)),
        None
    );
    assert_eq!(
        SatsConverter::from_sats(i64::MAX).divide(DecimalValue::new(1, 28)),
        None
    );
    assert_eq!(
        SatsConverter::from_sats(i64::MAX)
            .multiply(decimal(79_228_162_514_264_337_593_543_950_335, 0)),
        None
    );
}
