//! Amounts in sats, the smallest unit: 100,000,000 sats make one whole unit.

use crate::support::decimal::{
    abs, checked_product, checked_quotient, integral_i64, lemma_pow10_values, pow10, product_of,
    quotient_of, round_to_integer, rounded_to_integer, to_i64, DecimalValue, DecimalView,
};
use crate::support::text::{i64_text, int_text};
use vstd::prelude::*;
use vstd::string::StringExecFns;

verus! {

/// Places after the point of a whole-unit amount.
pub const STH_DECIMALS: u32 = 8;

/// Sats in one whole unit.
pub const SATS_PER_UNIT: i64 = 100_000_000;

/// The decimal `100000000`, the factor from whole units to sats.
pub open spec fn unit_factor() -> DecimalView {
    DecimalView { mantissa: SATS_PER_UNIT as int, scale: 0 }
}

/// The whole-unit decimal of a count of sats: `sats / 10^8`, with 8 places.
pub open spec fn whole_units(sats: int) -> DecimalView {
    DecimalView { mantissa: sats, scale: STH_DECIMALS as nat }
}

/// A decimal count of sats as an integer: rounded to the nearest integer
/// (ties to even), `None` where that does not fit 64 signed bits.
pub open spec fn sats_rounded(amount: DecimalView) -> Option<int> {
    match integral_i64(rounded_to_integer(amount)) {
        Some(n) => Some(n as int),
        None => None,
    }
}

/// The sats of a whole-unit decimal: its product with 100,000,000, rounded to
/// the nearest integer; `None` where the product overflows a decimal or the
/// result does not fit 64 signed bits.
pub open spec fn sats_of(btc: DecimalView) -> Option<int> {
    match product_of(btc, unit_factor()) {
        Some(p) => sats_rounded(p),
        None => None,
    }
}

/// The sats of a count of sats times a decimal factor.
pub open spec fn sats_times(sats: int, factor: DecimalView) -> Option<int> {
    match product_of(whole_units(sats), factor) {
        Some(p) => sats_of(p),
        None => None,
    }
}

/// The sats of a count of sats divided by a decimal divisor.
pub open spec fn sats_divided(sats: int, divisor: DecimalView) -> Option<int> {
    match quotient_of(whole_units(sats), divisor) {
        Some(q) => sats_of(q),
        None => None,
    }
}

/// The quotient of two integers rounded toward zero, for a non-zero divisor.
pub open spec fn quotient_toward_zero(x: int, d: int) -> int {
    if (x < 0) == (d < 0) {
        abs(x) / abs(d)
    } else {
        -(abs(x) / abs(d))
    }
}

/// Whether an integer fits 64 signed bits.
pub open spec fn fits_i64(x: int) -> bool {
    i64::MIN <= x <= i64::MAX
}

/// The message for a count of sats outside a range.
pub open spec fn sats_out_of_range_text(sats: int, min: int, max: int) -> Seq<char> {
    "Amount "@ + int_text(sats) + " sats is out of range ("@ + int_text(min) + " - "@ + int_text(
        max,
    ) + ")"@
}

/// Whole units and back: the whole-unit decimal of any 64-bit count of sats
/// converts back to that count, with no rounding drift.
pub proof fn lemma_whole_units_round_trip(sats: int)
    requires
        fits_i64(sats),
    ensures
        sats_of(whole_units(sats)) == Some(sats),
{
    lemma_pow10_values();
    let p = pow10(8);
    if sats != 0 {
        assert(abs(sats * 100_000_000) == abs(sats) * p) by (nonlinear_arith)
            requires
                p == 100_000_000,
        ;
        assert((abs(sats) * p) / p == abs(sats) && (abs(sats) * p) % p == 0) by (nonlinear_arith)
            requires
                p == 100_000_000,
        ;
        assert((sats * 100_000_000 < 0) == (sats < 0)) by (nonlinear_arith);
    }
}

/// An amount in sats. Any 64-bit count is an amount: a range is checked only
/// where it is asked for.
#[derive(Debug, Clone, Copy, PartialEq, Eq, Structural)]
pub struct SatsConverter {
    sats: i64,
}

impl View for SatsConverter {
    type V = int;

    closed spec fn view(&self) -> int {
        self.sats as int
    }
}

/// An amount is its count of sats: two amounts of the same count are equal.
pub proof fn lemma_equal_counts_equal(a: SatsConverter, b: SatsConverter)
    requires
        a@ == b@,
    ensures
        a == b,
{
}

impl SatsConverter {
    /// The amount of `sats` sats.
    pub fn from_sats(sats: i64) -> (r: Self)
        ensures
            r@ == sats,
    {
        Self { sats }
    }

    /// Rounds a decimal count of sats to the nearest integer, ties to even;
    /// `None` where that does not fit 64 signed bits.
    pub fn from_decimal_sats(amount: DecimalValue) -> (r: Option<Self>)
        ensures
            match r {
                Some(s) => sats_rounded(amount@) == Some(s@),
                None => sats_rounded(amount@).is_none(),
            },
    {
        match to_i64(round_to_integer(amount)) {
            Some(sats) => Some(Self { sats }),
            None => None,
        }
    }

    /// The amount of a whole-unit decimal: times 100,000,000, rounded to the
    /// nearest sat.
    pub fn from_btc(btc: DecimalValue) -> (r: Option<Self>)
        ensures
            match r {
                Some(s) => sats_of(btc@) == Some(s@),
                None => sats_of(btc@).is_none(),
            },
    {
        match checked_product(btc, DecimalValue::new(SATS_PER_UNIT, 0)) {
            Some(product) => Self::from_decimal_sats(product),
            None => None,
        }
    }

    /// The count of sats.
    pub fn as_sats(&self) -> (r: i64)
        ensures
            r == self@,
    {
        self.sats
    }

    /// The amount in whole units: exact, with 8 places.
    pub fn as_btc(&self) -> (r: DecimalValue)
        ensures
            r@ == whole_units(self@),
    {
        DecimalValue::new(self.sats, STH_DECIMALS)
    }

    /// Whether the amount lies in `[min_sats, max_sats]`.
    pub fn validate_range(&self, min_sats: i64, max_sats: i64) -> (r: bool)
        ensures
            r == (min_sats <= self@ <= max_sats),
    {
        self.sats >= min_sats && self.sats <= max_sats
    }

    /// Passes where the amount lies in `[min_sats, max_sats]`; else the error
    /// says the amount and the bounds.
    pub fn ensure_in_range(&self, min_sats: i64, max_sats: i64) -> (r: Result<(), String>)
        ensures
            r.is_ok() == (min_sats <= self@ <= max_sats),
            r matches Err(msg) ==> msg@ == sats_out_of_range_text(
                self@,
                min_sats as int,
                max_sats as int,
            ),
    {
        if self.sats < min_sats || self.sats > max_sats {
            let mut msg = String::from_str("Amount ");
            msg.append(i64_text(self.sats).as_str());
            msg.append(" sats is out of range (");
            msg.append(i64_text(min_sats).as_str());
            msg.append(" - ");
            msg.append(i64_text(max_sats).as_str());
            msg.append(")");
            Err(msg)
        } else {
            Ok(())
        }
    }

    /// The sum of two amounts, `None` on overflow.
    pub fn checked_add(self, rhs: Self) -> (r: Option<Self>)
        ensures
            r.is_some() == fits_i64(self@ + rhs@),
            r matches Some(s) ==> s@ == self@ + rhs@,
    {
        match self.sats.checked_add(rhs.sats) {
            Some(sats) => Some(Self::from_sats(sats)),
            None => None,
        }
    }

    /// The difference of two amounts, `None` on overflow.
    pub fn checked_sub(self, rhs: Self) -> (r: Option<Self>)
        ensures
            r.is_some() == fits_i64(self@ - rhs@),
            r matches Some(s) ==> s@ == self@ - rhs@,
    {
        match self.sats.checked_sub(rhs.sats) {
            Some(sats) => Some(Self::from_sats(sats)),
            None => None,
        }
    }

    /// The amount times an integer, `None` on overflow.
    pub fn checked_mul(self, rhs: i64) -> (r: Option<Self>)
        ensures
            r.is_some() == fits_i64(self@ * rhs),
            r matches Some(s) ==> s@ == self@ * rhs,
    {
        match self.sats.checked_mul(rhs) {
            Some(sats) => Some(Self::from_sats(sats)),
            None => None,
        }
    }

    /// The amount divided by an integer, rounded toward zero; `None` for a
    /// zero divisor or on overflow.
    pub fn checked_div(self, rhs: i64) -> (r: Option<Self>)
        ensures
            r.is_some() == (rhs != 0 && fits_i64(quotient_toward_zero(self@, rhs as int))),
            r matches Some(s) ==> s@ == quotient_toward_zero(self@, rhs as int),
    {
        if rhs == 0 {
            return None;
        }
        match self.sats.checked_div(rhs) {
            Some(sats) => Some(Self::from_sats(sats)),
            None => None,
        }
    }

    /// The amount times a decimal factor: the whole units times the factor,
    /// turned back into sats.
    pub fn multiply(self, rhs: DecimalValue) -> (r: Option<Self>)
        ensures
            match r {
                Some(s) => sats_times(self@, rhs@) == Some(s@),
                None => sats_times(self@, rhs@).is_none(),
            },
    {
        match checked_product(self.as_btc(), rhs) {
            Some(btc) => Self::from_btc(btc),
            None => None,
        }
    }

    /// The amount divided by a decimal divisor: the whole units divided by
    /// it, turned back into sats. `None` for a zero divisor.
    pub fn divide(self, rhs: DecimalValue) -> (r: Option<Self>)
        ensures
            match r {
                Some(s) => sats_divided(self@, rhs@) == Some(s@),
                None => sats_divided(self@, rhs@).is_none(),
            },
            rhs@.mantissa == 0 ==> r.is_none(),
    {
        if rhs.is_zero() {
            return None;
        }
        match checked_quotient(self.as_btc(), rhs) {
            Some(btc) => Self::from_btc(btc),
            None => None,
        }
    }
}

} // verus!
