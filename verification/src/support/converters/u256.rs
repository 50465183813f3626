//! 256-bit unsigned integers, such as token balances, as decimals.

use crate::support::decimal::{
    checked_power_of_ten, checked_quotient, parse_decimal, parsed_decimal, power_of_ten,
    quotient_of, DecimalValue, DecimalView, MAX_SCALE,
};
use crate::support::text::nat_digits;
use alloy_primitives::U256;
use vstd::prelude::*;
use vstd::string::StringExecFns;

verus! {

/// A 256-bit unsigned integer as four 64-bit limbs, the least significant
/// first.
#[derive(Debug, Clone, Copy, PartialEq, Eq)]
pub struct U256Value {
    pub limbs: [u64; 4],
}

impl View for U256Value {
    type V = nat;

    open spec fn view(&self) -> nat {
        let base = 0x1_0000_0000_0000_0000nat;
        self.limbs[0] as nat + base * (self.limbs[1] as nat + base * (self.limbs[2] as nat + base
            * (self.limbs[3] as nat)))
    }
}

/// Why an integer did not become a decimal.
#[derive(Debug, Clone, PartialEq, Eq)]
pub enum ConversionError {
    /// The digits of the integer are no decimal, with the reason: the integer
    /// is too large.
    NotADecimal(String),
    /// The power of ten to divide by does not fit a decimal.
    PowerOverflow,
    /// The quotient does not fit a decimal.
    DivisionOverflow,
}

/// The text of an error.
pub open spec fn conversion_error_text(e: ConversionError) -> Seq<char> {
    match e {
        ConversionError::NotADecimal(reason) => "U256 \u{2192} Decimal conversion failed: "@
            + reason@,
        ConversionError::PowerOverflow => "Pow overflowed"@,
        ConversionError::DivisionOverflow => "Division overflowed"@,
    }
}

impl ConversionError {
    /// The text of the error.
    pub fn message(&self) -> (r: String)
        ensures
            r@ == conversion_error_text(*self),
    {
        match self {
            ConversionError::NotADecimal(reason) => String::from_str(
                "U256 \u{2192} Decimal conversion failed: ",
            ).concat(reason.as_str()),
            ConversionError::PowerOverflow => String::from_str("Pow overflowed"),
            ConversionError::DivisionOverflow => String::from_str("Division overflowed"),
        }
    }
}

/// The decimal of a result, if it is one.
pub open spec fn converted(r: Result<DecimalValue, ConversionError>) -> Option<DecimalView> {
    match r {
        Ok(d) => Some(d@),
        Err(_) => None,
    }
}

/// The integer divided by `10^decimals`, as far as the steps go: the digits
/// parse, the power fits, the quotient fits.
pub open spec fn human_decimal(value: nat, decimals: nat) -> Option<DecimalView> {
    match parsed_decimal(nat_digits(value)) {
        Some(raw) => match power_of_ten(decimals) {
            Some(power) => quotient_of(raw, power),
            None => None,
        },
        None => None,
    }
}

/// Formats through the `Display` impl of `U256`: the decimal digits of the
/// integer.
#[verifier::external_body]
pub(crate) fn u256_text(value: &U256Value) -> (r: String)
    ensures
        r@ == nat_digits(value@),
{
    U256::from_limbs(value.limbs).to_string()
}

/// The integer as a decimal of the same value, by way of its digits.
pub fn u256_to_decimal_raw(value: U256Value) -> (r: Result<DecimalValue, ConversionError>)
    ensures
        converted(r) == parsed_decimal(nat_digits(value@)),
        r matches Err(e) ==> e is NotADecimal,
{
    match parse_decimal(u256_text(&value).as_str()) {
        Ok(d) => Ok(d),
        Err(reason) => Err(ConversionError::NotADecimal(reason)),
    }
}

/// The integer counted in units of `10^-decimals`, as a decimal: a balance
/// in the smallest unit of a token with `decimals` places becomes the
/// balance in whole tokens.
pub fn u256_to_decimal_human(value: U256Value, decimals: u32) -> (r: Result<
    DecimalValue,
    ConversionError,
>)
    ensures
        converted(r) == human_decimal(value@, decimals as nat),
        r matches Err(e) ==> match parsed_decimal(nat_digits(value@)) {
            None => e is NotADecimal,
            Some(raw) => if decimals > 28 {
                e == ConversionError::PowerOverflow
            } else {
                e == ConversionError::DivisionOverflow
            },
        },
{
    let raw = match u256_to_decimal_raw(value) {
        Ok(d) => d,
        Err(e) => {
            return Err(e);
        },
    };
    if decimals > MAX_SCALE {
        return Err(ConversionError::PowerOverflow);
    }
    let power = match checked_power_of_ten(DecimalValue::new(10, 0), decimals) {
        Some(p) => p,
        None => {
            return Err(ConversionError::PowerOverflow);
        },
    };
    match checked_quotient(raw, power) {
        Some(q) => Ok(q),
        None => Err(ConversionError::DivisionOverflow),
    }
}

} // verus!
