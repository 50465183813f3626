use crypto_converter::support::decimal::DecimalValue;
use crypto_converter::support::generic::MoneyAmount;

fn money(text: &str) -> MoneyAmount {
    MoneyAmount::from_str(text).unwrap()
}

#[test]
fn from_str_renders_with_eight_places() {
    assert_eq!(money("666.20408163").to_string_fixed(), "666.20408163");
    assert_eq!(money("1").to_string_fixed(), "1.00000000");
    assert_eq!(money("1.5").to_string_fixed(), "1.50000000");
    assert_eq!(money("0").to_string_fixed(), "0.00000000");
    assert_eq!(money("-12.34").to_string_fixed(), "-12.34000000");
    assert_eq!(money("0.00000001").to_string_fixed(), "0.00000001");
    assert_eq!(money("-0.5").to_string_fixed(), "-0.50000000");
    assert_eq!(money("+7").to_string_fixed(), "7.00000000");
}

#[test]
fn from_decimal_keeps_a_short_scale() {
    let amount = MoneyAmount::from_decimal(DecimalValue::new(123456789, 8)).unwrap();
    assert_eq!(amount.to_string_fixed(), "1.23456789");
    let decimal = money("0.05").as_decimal();
    assert_eq!(decimal.mantissa(), 5);
    assert_eq!(decimal.scale(), 2);
}

#[test]
fn rounding_is_half_up() {
    assert_eq!(money("0.000000005").to_string_fixed(), "0.00000001");
    assert_eq!(money("0.000000004").to_string_fixed(), "0.00000000");
    assert_eq!(money("2.000000025").to_string_fixed(), "2.00000003");
    assert_eq!(money("2.000000035").to_string_fixed(), "2.00000004");
    assert_eq!(money("-2.000000025").to_string_fixed(), "-2.00000003");
    assert_eq!(money("-0.000000005").to_string_fixed(), "-0.00000001");
    assert_eq!(money("1.999999999").to_string_fixed(), "2.00000000");
    assert_eq!(money("0.1234567849999").to_string_fixed(), "0.12345678");
    let rounded = MoneyAmount::from_decimal(DecimalValue::new(1_000_000_015, 9)).unwrap();
    assert_eq!(rounded.as_decimal().mantissa(), 100_000_002);
    assert_eq!(rounded.as_decimal().scale(), 8);
}

#[test]
fn rounding_to_zero_has_no_sign() {
    assert_eq!(money("-0.000000001").to_string_fixed(), "0.00000000");
    assert!(money("-0.000000001").is_zero());
}

#[test]
fn precision_guard() {
    assert!(MoneyAmount::from_str("1000000000000.00000000").is_none());
    assert!(MoneyAmount::from_str("999999999999.99999999").is_some());
    assert!(MoneyAmount::from_str("-999999999999.99999999").is_some());
    assert!(MoneyAmount::from_str("-1000000000000").is_none());
    assert!(MoneyAmount::from_str("999999999999.999999995").is_none());
    assert!(MoneyAmount::from_str("999999999999.999999994").is_some());
    assert!(MoneyAmount::from_str("12345678901234567890").is_none());
    assert_eq!(
        money("999999999999.99999999").to_string_fixed(),
        "999999999999.99999999"
    );
}

#[test]
fn precision_guard_on_decimals() {
    let thirteen = DecimalValue::try_from_i128_with_scale(100_000_000_000_000_000_000, 8).unwrap();
    assert!(MoneyAmount::from_decimal(thirteen).is_none());
    let twelve = DecimalValue::try_from_i128_with_scale(99_999_999_999_999_999_999, 8).unwrap();
    assert!(MoneyAmount::from_decimal(twelve).is_some());
    let largest =
        DecimalValue::try_from_i128_with_scale(79_228_162_514_264_337_593_543_950_335, 0).unwrap();
    assert!(MoneyAmount::from_decimal(largest).is_none());
    let smallest =
        DecimalValue::try_from_i128_with_scale(79_228_162_514_264_337_593_543_950_335, 28).unwrap();
    assert_eq!(
        MoneyAmount::from_decimal(smallest).unwrap().to_string_fixed(),
        "7.92281625"
    );
}

#[test]
fn text_that_is_no_decimal_is_refused() {
    assert!(MoneyAmount::from_str("").is_none());
    assert!(MoneyAmount::from_str("abc").is_none());
    assert!(MoneyAmount::from_str("1.2.3").is_none());
    assert!(MoneyAmount::from_str("1,5").is_none());
    assert!(MoneyAmount::from_str(" 1").is_none());
}

#[test]
fn money_range_checks_are_inclusive() {
    let amount = money("5.5");
    let one = DecimalValue::new(1, 0);
    let two = DecimalValue::new(2, 0);
    let ten = DecimalValue::new(10, 0);
    let same = DecimalValue::new(5500, 3);
    assert!(amount.validate_range(one, ten));
    assert!(amount.validate_range(same, same));
    assert!(amount.validate_range(same, ten));
    assert!(amount.validate_range(one, same));
    assert!(!amount.validate_range(one, two));
    assert!(!amount.validate_range(ten, one));
    assert!(!amount.validate_range(DecimalValue::new(5501, 3), ten));
    assert!(!amount.validate_range(one, DecimalValue::new(5499, 3)));
}

#[test]
fn money_ensure_in_range_says_value_and_bounds() {
    let amount = money("5.5");
    let one = DecimalValue::new(1, 0);
    let two = DecimalValue::new(2, 0);
    let ten = DecimalValue::new(10, 0);
    assert_eq!(amount.ensure_in_range(one, ten), Ok(()));
    assert_eq!(
        amount.ensure_in_range(one, two),
        Err("Amount 5.5 is out of range (1 - 2)".to_string())
    );
    assert_eq!(
        money("-0.25").ensure_in_range(DecimalValue::new(0, 2), DecimalValue::new(125, 1)),
        Err("Amount -0.25 is out of range (0.00 - 12.5)".to_string())
    );
    assert_eq!(
        amount.ensure_in_range(DecimalValue::new(55, 1), DecimalValue::new(55, 1)),
        Ok(())
    );
}

#[test]
fn ensure_in_range_with_the_longest_bounds() {
    let low =
        DecimalValue::try_from_i128_with_scale(-79_228_162_514_264_337_593_543_950_335, 0).unwrap();
    let high =
        DecimalValue::try_from_i128_with_scale(79_228_162_514_264_337_593_543_950_335, 28).unwrap();
    assert_eq!(
        money("-999999999999.99999999").ensure_in_range(high, low),
        Err(
            "Amount -999999999999.99999999 is out of range \
             (7.9228162514264337593543950335 - -79228162514264337593543950335)"
                .to_string()
        )
    );
    assert_eq!(
        money("-999999999999.99999999").to_string_fixed(),
        "-999999999999.99999999"
    );
}

#[test]
fn is_zero_looks_at_the_value() {
    assert!(money("0").is_zero());
    assert!(money("0.00000000").is_zero());
    assert!(!money("0.00000001").is_zero());
    assert!(!money("-1").is_zero());
}

#[test]
fn checked_add_and_sub() {
    assert_eq!(
        money("1.5").checked_add(money("2.25")).unwrap().to_string_fixed(),
        "3.75000000"
    );
    assert_eq!(
        money("1.5").checked_sub(money("2.25")).unwrap().to_string_fixed(),
        "-0.75000000"
    );
    assert_eq!(
        money("0").checked_sub(money("2.25")).unwrap().to_string_fixed(),
        "-2.25000000"
    );
    assert_eq!(
        money("0.00000000").checked_add(money("7")).unwrap().to_string_fixed(),
        "7.00000000"
    );
    assert_eq!(
        money("123456789012.12345678")
            .checked_add(money("876543210987.87654321"))
            .unwrap()
            .to_string_fixed(),
        "999999999999.99999999"
    );
    assert_eq!(
        money("999999999999.99999999")
            .checked_sub(money("999999999999.99999999"))
            .unwrap()
            .to_string_fixed(),
        "0.00000000"
    );
    assert_eq!(
        money("-999999999999.99999999")
            .checked_sub(money("-999999999999.99999998"))
            .unwrap()
            .to_string_fixed(),
        "-0.00000001"
    );
}

#[test]
fn checked_add_and_sub_across_scales_beyond_sixty_four_bits() {
    assert_eq!(
        money("900000000000.00000001").checked_add(money("5")).unwrap().to_string_fixed(),
        "900000000005.00000001"
    );
    assert_eq!(
        money("5").checked_sub(money("900000000000.00000001")).unwrap().to_string_fixed(),
        "-899999999995.00000001"
    );
    assert_eq!(
        money("900000000000.00000001").checked_sub(money("900000000000.5")).unwrap().to_string_fixed(),
        "-0.49999999"
    );
    assert_eq!(
        money("-900000000000.00000001").checked_add(money("0.1")).unwrap().to_string_fixed(),
        "-899999999999.90000001"
    );
    let sum = money("1.5").checked_add(money("2.25")).unwrap().as_decimal();
    assert_eq!(sum.mantissa(), 375);
    assert_eq!(sum.scale(), 2);
    let kept = money("0.000").checked_add(money("2.5")).unwrap().as_decimal();
    assert_eq!(kept.mantissa(), 25);
    assert_eq!(kept.scale(), 1);
    let negated = money("0.000").checked_sub(money("2.5")).unwrap().as_decimal();
    assert_eq!(negated.mantissa(), -25);
    assert_eq!(negated.scale(), 1);
}

#[test]
fn checked_mul_keeps_the_exact_product() {
    let product = money("1.5").checked_mul(DecimalValue::new(25, 2)).unwrap().as_decimal();
    assert_eq!(product.mantissa(), 375);
    assert_eq!(product.scale(), 3);
    let zero = money("1.5").checked_mul(DecimalValue::new(0, 2)).unwrap().as_decimal();
    assert_eq!(zero.mantissa(), 0);
    assert_eq!(zero.scale(), 0);
}

#[test]
fn checked_add_fails_beyond_twelve_digits() {
    assert_eq!(
        money("999999999999.99999999").checked_add(money("0.00000001")),
        Err("overflow or precision error")
    );
    assert_eq!(
        money("-999999999999.99999999").checked_sub(money("0.00000001")),
        Err("overflow or precision error")
    );
    assert_eq!(
        money("999999999999").checked_add(money("999999999999")),
        Err("overflow or precision error")
    );
}

#[test]
fn checked_mul_rounds_and_guards() {
    assert_eq!(
        money("1.5").checked_mul(DecimalValue::new(2, 0)).unwrap().to_string_fixed(),
        "3.00000000"
    );
    assert_eq!(
        money("0.00000001").checked_mul(DecimalValue::new(5, 1)).unwrap().to_string_fixed(),
        "0.00000001"
    );
    assert_eq!(
        money("0.00000003").checked_mul(DecimalValue::new(5, 1)).unwrap().to_string_fixed(),
        "0.00000002"
    );
    assert_eq!(
        money("7").checked_mul(DecimalValue::new(0, 5)).unwrap().to_string_fixed(),
        "0.00000000"
    );
    assert_eq!(
        money("999999999999").checked_mul(DecimalValue::new(2, 0)),
        Err("overflow or precision error")
    );
    let largest =
        DecimalValue::try_from_i128_with_scale(79_228_162_514_264_337_593_543_950_335, 0).unwrap();
    assert_eq!(
        money("999999999999").checked_mul(largest),
        Err("overflow or precision error")
    );
}

#[test]
fn equality_and_order_are_by_value() {
    assert_eq!(money("1.5"), money("1.50"));
    assert_eq!(money("0"), money("-0.000"));
    assert!(money("1.5") != money("1.51"));
    assert!(money("1.5") < money("1.51"));
    assert!(money("-3") < money("2.99999999"));
    assert!(money("10") > money("9.99999999"));
    assert!(money("10") >= money("10.0"));
    assert!(money("10") <= money("10.0"));
}
