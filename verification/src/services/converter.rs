//! Validation of a bid: its amount in sats against a range, and its three
//! prices as money amounts.

use crate::support::decimal::{DecimalValue, DecimalView};
use crate::support::generic::{money_from_text, MoneyAmount};
use crate::support::sat_converter::SatsConverter;
use vstd::prelude::*;

verus! {

/// Least bid that is accepted where no range was set, in sats.
pub const MIN: i64 = 20_000_000_000;

/// Largest bid that is accepted where no range was set, in sats.
pub const MAX: i64 = 2_500_000_000_000;

/// Why a bid was refused.
#[derive(Debug, Clone, Copy, PartialEq, Eq, Structural)]
pub enum BankerError {
    /// The exchange price is no money amount.
    InvalidExchangePrice,
    /// The expected receive amount is no money amount.
    InvalidExpectedReceive,
    /// The minimum receive amount is no money amount.
    InvalidMinReceive,
    /// The bid lies outside the accepted range.
    OutOfRange,
    /// The settlement calculation gave no amount.
    CalculationFailed,
}

impl BankerError {
    /// The text of the error.
    pub fn message(&self) -> (r: &'static str)
        ensures
            r@ == match *self {
                BankerError::InvalidExchangePrice => "Invalid exchange_price"@,
                BankerError::InvalidExpectedReceive => "Invalid expected_receive amount"@,
                BankerError::InvalidMinReceive => "Invalid min_receive amount"@,
                BankerError::OutOfRange => "Amount out of range"@,
                BankerError::CalculationFailed => "Calculation failed"@,
            },
    {
        match self {
            BankerError::InvalidExchangePrice => "Invalid exchange_price",
            BankerError::InvalidExpectedReceive => "Invalid expected_receive amount",
            BankerError::InvalidMinReceive => "Invalid min_receive amount",
            BankerError::OutOfRange => "Amount out of range",
            BankerError::CalculationFailed => "Calculation failed",
        }
    }
}

/// The first of the three price texts that is no money amount, as the error
/// it gives; `None` where all three are.
pub open spec fn first_invalid(
    exchange_price: Seq<char>,
    expected_receive: Seq<char>,
    min_receive: Seq<char>,
) -> Option<BankerError> {
    if money_from_text(exchange_price).is_none() {
        Some(BankerError::InvalidExchangePrice)
    } else if money_from_text(expected_receive).is_none() {
        Some(BankerError::InvalidExpectedReceive)
    } else if money_from_text(min_receive).is_none() {
        Some(BankerError::InvalidMinReceive)
    } else {
        None
    }
}

/// What a bid validator holds.
pub struct BankerView {
    /// The bid in sats.
    pub sats: int,
    /// The exchange price.
    pub exchange_price: DecimalView,
    /// The amount that the user expects to receive.
    pub expected_receive: DecimalView,
    /// The least amount that the user accepts.
    pub min_receive: DecimalView,
    /// The lower bound that was set, if any.
    pub min: Option<int>,
    /// The upper bound that was set, if any.
    pub max: Option<int>,
}

impl BankerView {
    /// The lower bound in force.
    pub open spec fn active_min(self) -> int {
        match self.min {
            Some(m) => m,
            None => MIN as int,
        }
    }

    /// The upper bound in force.
    pub open spec fn active_max(self) -> int {
        match self.max {
            Some(m) => m,
            None => MAX as int,
        }
    }

    /// Whether the bid lies within the bounds in force.
    pub open spec fn in_range(self) -> bool {
        self.active_min() <= self.sats <= self.active_max()
    }
}

/// A bid under validation: its amount in sats, the three prices it came
/// with, and the range that the amount must lie in.
pub struct BankerService<'p> {
    #[allow(dead_code)]
    sats_amount: i64,
    #[allow(dead_code)]
    exchange_price: &'p str,
    #[allow(dead_code)]
    expected_receive: &'p str,
    #[allow(dead_code)]
    min_receive: &'p str,
    sats: SatsConverter,
    x_exchange_price: MoneyAmount,
    x_expected_receive: MoneyAmount,
    x_min_receive: MoneyAmount,
    min: Option<i64>,
    max: Option<i64>,
}

impl<'p> View for BankerService<'p> {
    type V = BankerView;

    closed spec fn view(&self) -> BankerView {
        BankerView {
            sats: self.sats@,
            exchange_price: self.x_exchange_price.decimal(),
            expected_receive: self.x_expected_receive.decimal(),
            min_receive: self.x_min_receive.decimal(),
            min: match self.min {
                Some(m) => Some(m as int),
                None => None,
            },
            max: match self.max {
                Some(m) => Some(m as int),
                None => None,
            },
        }
    }
}

impl<'p> BankerService<'p> {
    /// The decimal that the settlement calculation is handed as the price.
    pub closed spec fn price(&self) -> DecimalValue {
        self.x_exchange_price.value()
    }

    /// Takes a bid: the three prices are parsed as money amounts, in the order
    /// exchange price, expected receive, minimum receive, and the first that
    /// fails is the error. No range is set.
    pub fn new(
        sats_amount: i64,
        exchange_price: &'p str,
        expected_receive: &'p str,
        min_receive: &'p str,
    ) -> (r: Result<Self, BankerError>)
        ensures
            match r {
                Ok(svc) => {
                    &&& first_invalid(exchange_price@, expected_receive@, min_receive@).is_none()
                    &&& svc@.sats == sats_amount
                    &&& money_from_text(exchange_price@) == Some(svc@.exchange_price)
                    &&& money_from_text(expected_receive@) == Some(svc@.expected_receive)
                    &&& money_from_text(min_receive@) == Some(svc@.min_receive)
                    &&& svc@.min.is_none()
                    &&& svc@.max.is_none()
                },
                Err(e) => first_invalid(exchange_price@, expected_receive@, min_receive@) == Some(
                    e,
                ),
            },
    {
        let x_exchange_price = match MoneyAmount::from_str(exchange_price) {
            Some(m) => m,
            None => {
                return Err(BankerError::InvalidExchangePrice);
            },
        };
        let x_expected_receive = match MoneyAmount::from_str(expected_receive) {
            Some(m) => m,
            None => {
                return Err(BankerError::InvalidExpectedReceive);
            },
        };
        let x_min_receive = match MoneyAmount::from_str(min_receive) {
            Some(m) => m,
            None => {
                return Err(BankerError::InvalidMinReceive);
            },
        };
        Ok(
            Self {
                sats_amount,
                exchange_price,
                expected_receive,
                min_receive,
                sats: SatsConverter::from_sats(sats_amount),
                x_exchange_price,
                x_expected_receive,
                x_min_receive,
                min: None,
                max: None,
            },
        )
    }

    /// Sets the range that the bid must lie in. The bounds are taken as they
    /// come: with `min > max` no bid passes.
    pub fn set_range(&mut self, min: i64, max: i64)
        ensures
            final(self)@ == (BankerView { min: Some(min as int), max: Some(max as int), ..old(self)@ }),
            final(self).price() == old(self).price(),
    {
        self.min = Some(min);
        self.max = Some(max);
    }

    /// Passes where the bid lies within the range that was set, or within
    /// `[MIN, MAX]` where none was.
    pub fn validate_range(&self) -> (r: Result<(), BankerError>)
        ensures
            r == if self@.in_range() {
                Ok::<(), BankerError>(())
            } else {
                Err::<(), BankerError>(BankerError::OutOfRange)
            },
    {
        let min: i64 = match self.min {
            Some(m) => m,
            None => MIN,
        };
        let max: i64 = match self.max {
            Some(m) => m,
            None => MAX,
        };
        if !self.sats.validate_range(min, max) {
            return Err(BankerError::OutOfRange);
        }
        Ok(())
    }

    /// The bid in sats.
    pub fn bid_amount(&self) -> (r: i64)
        ensures
            r == self@.sats,
    {
        self.sats.as_sats()
    }

    /// The exchange price as a decimal.
    pub fn price_per_unit(&self) -> (r: DecimalValue)
        ensures
            r == self.price(),
            r@ == self@.exchange_price,
    {
        self.x_exchange_price.as_decimal()
    }

    /// The settlement amount that `calc` gives for the bid in sats and the
    /// exchange price; where it gives none, the calculation failed.
    pub fn calc<F: FnOnce(i64, DecimalValue) -> Option<MoneyAmount>>(&self, calc: F) -> (r: Result<
        MoneyAmount,
        BankerError,
    >)
        requires
            call_requires(calc, (self@.sats as i64, self.price())),
        ensures
            match r {
                Ok(m) => call_ensures(calc, (self@.sats as i64, self.price()), Some(m)),
                Err(e) => e == BankerError::CalculationFailed && call_ensures(
                    calc,
                    (self@.sats as i64, self.price()),
                    None,
                ),
            },
    {
        match calc(self.bid_amount(), self.price_per_unit()) {
            Some(m) => Ok(m),
            None => Err(BankerError::CalculationFailed),
        }
    }

    /// The exchange price.
    pub fn get_exchange_price(&self) -> (r: MoneyAmount)
        ensures
            r.wf(),
            r.decimal() == self@.exchange_price,
    {
        proof {
            use_type_invariant(&self.x_exchange_price);
        }
        self.x_exchange_price
    }

    /// The amount that the user expects to receive.
    pub fn get_expected_price(&self) -> (r: MoneyAmount)
        ensures
            r.wf(),
            r.decimal() == self@.expected_receive,
    {
        proof {
            use_type_invariant(&self.x_expected_receive);
        }
        self.x_expected_receive
    }

    /// The least amount that the user accepts.
    pub fn get_minimum_price(&self) -> (r: MoneyAmount)
        ensures
            r.wf(),
            r.decimal() == self@.min_receive,
    {
        proof {
            use_type_invariant(&self.x_min_receive);
        }
        self.x_min_receive
    }
}

} // verus!
