//! Fixed-point money: a decimal with at most 8 places and at most 12
//! integer digits.

use crate::support::decimal::{
    abs, checked_difference, checked_product, checked_sum, compare, decimal_le, decimal_text,
    exact_difference, exact_sum, format_decimal, lemma_div_below, lemma_equal_views_equal,
    lemma_order_rescale,
    lemma_pow10_adds, lemma_pow10_positive, lemma_pow10_values, lemma_scaled_rescale, max_scale,
    parse_decimal, parsed_decimal, pow10, product_of, round_half_away, round_half_up,
    rounded_half_up, truncate, DecimalValue, DecimalView,
};
use crate::support::text::{
    digit_count, fixed_digits, lemma_digit_count_bound, lemma_fixed_digits_padded, nat_digits,
    zeros,
};
use std::cmp::Ordering;
use vstd::arithmetic::div_mod::{lemma_div_multiples_vanish_quotient, lemma_truncate_middle};
use vstd::prelude::*;
use vstd::string::StringExecFns;

verus! {

/// Places after the point that a money amount keeps.
pub const MONEY_SCALE: u32 = 8;

/// Significant digits that a money amount may have in all.
pub const MAX_PRECISION: u32 = 20;

/// A decimal is a money amount when it has at most 8 places and its integral
/// part has at most 12 digits.
pub open spec fn is_money(d: DecimalView) -> bool {
    &&& d.wf()
    &&& d.scale <= MONEY_SCALE
    &&& abs(d.mantissa) / pow10(d.scale) < pow10(12)
}

/// The money amount that a decimal becomes: rounded half-up to 8 places,
/// `None` where the integral part then has more than 12 digits.
pub open spec fn money_of(d: DecimalView) -> Option<DecimalView> {
    let r = rounded_half_up(d, MONEY_SCALE as nat);
    if abs(r.mantissa) / pow10(r.scale) < pow10(12) {
        Some(r)
    } else {
        None
    }
}

/// The money amount that a text denotes, if any.
pub open spec fn money_from_text(text: Seq<char>) -> Option<DecimalView> {
    match parsed_decimal(text) {
        Some(d) => money_of(d),
        None => None,
    }
}

/// The product of a money amount and a decimal factor, as a money amount.
pub open spec fn money_times(a: DecimalView, factor: DecimalView) -> Option<DecimalView> {
    match product_of(a, factor) {
        Some(p) => money_of(p),
        None => None,
    }
}

/// A count of units of `10^-8` is within what a money amount can hold: its
/// magnitude is below `10^20`.
pub open spec fn in_money_range(units: int) -> bool {
    abs(units) < 100_000_000_000_000_000_000
}

/// The text of an amount of `units` of `10^-8`: a `-` where it is negative,
/// the whole part, a `.`, and 8 digits.
pub open spec fn money_text(units: int) -> Seq<char> {
    let whole = nat_digits((abs(units) / 100_000_000) as nat);
    let signed = if units < 0 {
        seq!['-'] + whole
    } else {
        whole
    };
    signed + seq!['.'] + fixed_digits((abs(units) % 100_000_000) as nat, 8)
}

/// The message for an amount outside a range.
pub open spec fn out_of_range_text(value: DecimalView, min: DecimalView, max: DecimalView) -> Seq<
    char,
> {
    "Amount "@ + decimal_text(value, value.scale) + " is out of range ("@ + decimal_text(
        min,
        min.scale,
    ) + " - "@ + decimal_text(max, max.scale) + ")"@
}

/// A decimal with at most 8 places is a money amount exactly when its count
/// of units of `10^-8` is below `10^20` in magnitude.
pub proof fn lemma_money_units(d: DecimalView)
    requires
        d.wf(),
        d.scale <= MONEY_SCALE,
    ensures
        is_money(d) <==> in_money_range(d.scaled(MONEY_SCALE as nat)),
        (d.scaled(MONEY_SCALE as nat) < 0) <==> (d.mantissa < 0),
        (d.scaled(MONEY_SCALE as nat) == 0) <==> (d.mantissa == 0),
{
    let p = pow10(d.scale);
    let q = pow10((8 - d.scale) as nat);
    let m = d.mantissa;
    lemma_pow10_positive(d.scale);
    lemma_pow10_positive((8 - d.scale) as nat);
    lemma_pow10_adds(d.scale, (8 - d.scale) as nat);
    lemma_pow10_adds(12, 8);
    lemma_pow10_values();
    lemma_div_below(abs(m), p, pow10(12));
    assert(abs(m * q) == abs(m) * q) by (nonlinear_arith)
        requires
            q > 0,
    ;
    assert((abs(m) < pow10(12) * p) <==> (abs(m) * q < pow10(12) * p * q)) by (nonlinear_arith)
        requires
            q > 0,
    ;
    assert(pow10(12) * p * q == pow10(12) * (p * q)) by (nonlinear_arith);
    assert((m * q < 0) <==> (m < 0)) by (nonlinear_arith)
        requires
            q > 0,
    ;
    assert((m * q == 0) <==> (m == 0)) by (nonlinear_arith)
        requires
            q > 0,
    ;
}

/// The sum or difference of two money amounts is exact: counted in units of
/// `10^-8`, it is the sum or difference of the counts.
pub proof fn lemma_money_sum_exact(a: DecimalView, b: DecimalView)
    requires
        is_money(a),
        is_money(b),
    ensures
        exact_sum(a, b) matches Some(d) && d.wf() && d.scale <= MONEY_SCALE && d.scaled(
            MONEY_SCALE as nat,
        ) == a.scaled(MONEY_SCALE as nat) + b.scaled(MONEY_SCALE as nat),
        exact_difference(a, b) matches Some(d) && d.wf() && d.scale <= MONEY_SCALE && d.scaled(
            MONEY_SCALE as nat,
        ) == a.scaled(MONEY_SCALE as nat) - b.scaled(MONEY_SCALE as nat),
{
    let s = max_scale(a, b);
    let p = pow10((8 - s) as nat);
    let x = a.scaled(s);
    let y = b.scaled(s);
    lemma_money_units(a);
    lemma_money_units(b);
    lemma_scaled_rescale(a, s, 8);
    lemma_scaled_rescale(b, s, 8);
    lemma_pow10_positive((8 - s) as nat);
    assert(abs(x) <= abs(x * p)) by (nonlinear_arith)
        requires
            p >= 1,
    ;
    assert(abs(y) <= abs(y * p)) by (nonlinear_arith)
        requires
            p >= 1,
    ;
    assert((x + y) * p == x * p + y * p) by (nonlinear_arith);
    assert((x - y) * p == x * p - y * p) by (nonlinear_arith);
    assert((-b.mantissa) * pow10((8 - b.scale) as nat) == -(b.mantissa * pow10(
        (8 - b.scale) as nat,
    ))) by (nonlinear_arith);
}

/// The fixed text of a money amount is the text of its decimal, padded: a
/// decimal that is a money amount stays as it is, and its text with 8
/// places is its own text followed by zeros (after a `.` where it has no
/// places of its own).
pub proof fn lemma_fixed_text_pads(d: DecimalView)
    requires
        is_money(d),
    ensures
        money_of(d) == Some(d),
        d.scale > 0 ==> money_text(d.scaled(MONEY_SCALE as nat)) == decimal_text(d, d.scale)
            + zeros((MONEY_SCALE - d.scale) as nat),
        d.scale == 0 ==> money_text(d.scaled(MONEY_SCALE as nat)) == decimal_text(d, 0)
            + seq!['.'] + zeros(MONEY_SCALE as nat),
{
    let s = d.scale;
    let k = (8 - s) as nat;
    let p = pow10(s);
    let q = pow10(k);
    let n = abs(d.mantissa);
    let u = abs(d.scaled(8));
    lemma_money_units(d);
    lemma_pow10_positive(s);
    lemma_pow10_positive(k);
    lemma_pow10_adds(k, s);
    lemma_pow10_values();
    assert(pow10(0) == 1);
    assert(u == q * n) by (nonlinear_arith)
        requires
            u == abs(d.mantissa * q),
            n == abs(d.mantissa),
            q > 0,
    ;
    assert(d.scaled(s) == d.mantissa) by (nonlinear_arith)
        requires
            d.scaled(s) == d.mantissa * 1,
    ;
    lemma_div_multiples_vanish_quotient(q, n, p);
    lemma_truncate_middle(n, q, p);
    assert(u / 100_000_000 == n / p);
    assert(u % 100_000_000 == q * (n % p));
    let frac = (n % p) as nat;
    assert(q * (n % p) == frac * q) by (nonlinear_arith)
        requires
            frac == n % p,
    ;
    lemma_fixed_digits_padded(frac, s, k, (u % 100_000_000) as nat);
    let whole = nat_digits((n / p) as nat);
    let signed = if d.mantissa < 0 {
        seq!['-'] + whole
    } else {
        whole
    };
    if s > 0 {
        assert(signed + seq!['.'] + (fixed_digits(frac, s) + zeros(k)) =~= (signed + seq!['.']
            + fixed_digits(frac, s)) + zeros(k));
    } else {
        assert(fixed_digits(frac, 0) + zeros(8) =~= zeros(8));
    }
}

/// Round trip of a money text, for every step but the parser's. Let `s` be
/// the own text of a money decimal `d`, and let the parser read `s` as `d`.
/// Then `s` denotes the money amount `d`; the fixed text of that amount is
/// `s` with its fraction padded with zeros to 8 digits (after a `.` where `s`
/// has none); and the fixed text is in turn the own text of a money decimal
/// with 8 places and the same count of units.
pub proof fn lemma_round_trip_after_parsing(s: Seq<char>, d: DecimalView)
    requires
        is_money(d),
        s == decimal_text(d, d.scale),
        parsed_decimal(s) == Some(d),
    ensures
        money_from_text(s) == Some(d),
        d.scale > 0 ==> money_text(d.scaled(MONEY_SCALE as nat)) == s + zeros(
            (MONEY_SCALE - d.scale) as nat,
        ),
        d.scale == 0 ==> money_text(d.scaled(MONEY_SCALE as nat)) == s + seq!['.'] + zeros(
            MONEY_SCALE as nat,
        ),
        ({
            let again = DecimalView {
                mantissa: d.scaled(MONEY_SCALE as nat),
                scale: MONEY_SCALE as nat,
            };
            &&& is_money(again)
            &&& again.scaled(MONEY_SCALE as nat) == d.scaled(MONEY_SCALE as nat)
            &&& decimal_text(again, MONEY_SCALE as nat) == money_text(
                d.scaled(MONEY_SCALE as nat),
            )
        }),
{
    let units = d.scaled(8);
    let again = DecimalView { mantissa: units, scale: 8 };
    lemma_fixed_text_pads(d);
    lemma_money_units(d);
    lemma_pow10_values();
    assert(again.scaled(8) == units) by (nonlinear_arith)
        requires
            again.scaled(8) == units * 1,
    ;
    lemma_money_units(again);
}

/// Precision guard, upper side: a decimal whose integral part has 13 or more
/// digits is no money amount, whatever its places.
pub proof fn lemma_rejects_thirteen_digits(d: DecimalView)
    requires
        d.wf(),
        digit_count((abs(d.mantissa) / pow10(d.scale)) as nat) >= 13,
    ensures
        money_of(d).is_none(),
{
    let p = pow10(d.scale);
    let n = abs(d.mantissa);
    lemma_pow10_positive(d.scale);
    lemma_pow10_values();
    assert(n / p >= 0) by (nonlinear_arith)
        requires
            n >= 0,
            p > 0,
    ;
    lemma_digit_count_bound((n / p) as nat, 12);
    if d.scale > 8 {
        let k = (d.scale - 8) as nat;
        let t = pow10(k);
        lemma_pow10_positive(k);
        lemma_pow10_adds(k, 8);
        lemma_div_below(n, p, pow10(12));
        assert(pow10(12) * (t * pow10(8)) == (pow10(12) * pow10(8)) * t) by (nonlinear_arith);
        lemma_div_below(n, t, pow10(12) * pow10(8));
        let q = n / t;
        let a = abs(round_half_away(d.mantissa, k));
        assert(a == q || a == q + 1);
        lemma_div_below(a, pow10(8), pow10(12));
    }
}

/// Precision guard, lower side: a decimal with at most 8 places whose
/// integral part has at most 12 digits is a money amount as it stands.
pub proof fn lemma_accepts_twelve_digits(d: DecimalView)
    requires
        d.wf(),
        d.scale <= MONEY_SCALE,
        digit_count((abs(d.mantissa) / pow10(d.scale)) as nat) <= 12,
    ensures
        is_money(d),
        money_of(d) == Some(d),
{
    let p = pow10(d.scale);
    let n = abs(d.mantissa);
    lemma_pow10_positive(d.scale);
    assert(n / p >= 0) by (nonlinear_arith)
        requires
            n >= 0,
            p > 0,
    ;
    lemma_digit_count_bound((n / p) as nat, 12);
}

/// The number of decimal digits of a non-negative integer.
fn count_digits(n: i128) -> (c: usize)
    requires
        n >= 0,
    ensures
        c == digit_count(n as nat),
{
    let mut c: usize = 1;
    let mut rest: i128 = n;
    proof {
        reveal_with_fuel(pow10, 2);
        lemma_pow10_adds(20, 20);
        lemma_pow10_values();
        lemma_digit_count_bound(n as nat, 40);
    }
    while rest >= 10
        invariant
            rest >= 0,
            c + digit_count(rest as nat) == 1 + digit_count(n as nat),
            digit_count(n as nat) <= 40,
        decreases rest,
    {
        rest = rest / 10;
        c = c + 1;
    }
    c
}

/// A money amount: a decimal with at most 8 places whose integral part has
/// at most 12 digits. Its view is the amount counted in units of `10^-8`.
#[derive(Debug, Clone, Copy)]
pub struct MoneyAmount {
    value: DecimalValue,
}

impl View for MoneyAmount {
    type V = int;

    open spec fn view(&self) -> int {
        self.decimal().scaled(MONEY_SCALE as nat)
    }
}

impl MoneyAmount {
    /// The decimal that the amount holds.
    pub closed spec fn decimal(&self) -> DecimalView {
        self.value@
    }

    /// The decimal that the amount holds, as the value that `as_decimal`
    /// returns.
    pub closed spec fn value(&self) -> DecimalValue {
        self.value
    }

    /// Validity of an amount, which every amount has: its decimal is a money
    /// amount.
    #[verifier::type_invariant]
    pub open spec fn wf(&self) -> bool {
        is_money(self.decimal())
    }

    /// Rounds a decimal half-up to 8 places and takes it as a money amount,
    /// unless its integral part then has more than 12 digits.
    pub fn from_decimal(value: DecimalValue) -> (r: Option<Self>)
        ensures
            match r {
                Some(m) => m.wf() && money_of(value@) == Some(m.decimal()),
                None => money_of(value@).is_none(),
            },
    {
        let value = round_half_up(value, MONEY_SCALE);
        if value.scale() > MONEY_SCALE {
            return None;
        }
        let whole: i128 = truncate(value).mantissa();
        let magnitude: i128 = if whole < 0 {
            -whole
        } else {
            whole
        };
        let integer_digits: usize = count_digits(magnitude);
        proof {
            let p = pow10(value@.scale);
            lemma_pow10_positive(value@.scale);
            assert(abs(value@.mantissa) / p >= 0) by (nonlinear_arith)
                requires
                    abs(value@.mantissa) >= 0,
                    p > 0,
            ;
            assert(magnitude == abs(value@.mantissa) / p);
            lemma_digit_count_bound(magnitude as nat, 12);
        }
        if integer_digits > (MAX_PRECISION - MONEY_SCALE) as usize {
            return None;
        }
        Some(Self { value })
    }

    /// Parses a decimal literal such as `"666.20408163"` into a money amount.
    pub fn from_str(s: &str) -> (r: Option<Self>)
        ensures
            match r {
                Some(m) => m.wf() && money_from_text(s@) == Some(m.decimal()),
                None => money_from_text(s@).is_none(),
            },
    {
        match parse_decimal(s) {
            Ok(dec) => Self::from_decimal(dec),
            Err(_) => None,
        }
    }

    /// The amount with exactly 8 digits after the point.
    pub fn to_string_fixed(&self) -> (r: String)
        ensures
            r@ == money_text(self@),
    {
        proof {
            use_type_invariant(self);
            lemma_money_units(self.decimal());
            lemma_pow10_values();
            let whole = abs(self.decimal().mantissa) / pow10(self.decimal().scale);
            lemma_pow10_positive(self.decimal().scale);
            assert(whole >= 0) by (nonlinear_arith)
                requires
                    whole == abs(self.decimal().mantissa) / pow10(self.decimal().scale),
                    abs(self.decimal().mantissa) >= 0,
                    pow10(self.decimal().scale) > 0,
            ;
            lemma_digit_count_bound(whole as nat, 12);
        }
        format_decimal(self.value, MONEY_SCALE)
    }

    /// Whether the amount lies in `[min, max]`.
    pub fn validate_range(&self, min: DecimalValue, max: DecimalValue) -> (r: bool)
        ensures
            r == (decimal_le(min@, self.decimal()) && decimal_le(self.decimal(), max@)),
    {
        compare(min, self.value) <= 0 && compare(self.value, max) <= 0
    }

    /// Passes where the amount lies in `[min, max]`; else the error says the
    /// amount and the bounds.
    pub fn ensure_in_range(&self, min: DecimalValue, max: DecimalValue) -> (r: Result<(), String>)
        ensures
            r.is_ok() == (decimal_le(min@, self.decimal()) && decimal_le(self.decimal(), max@)),
            r matches Err(msg) ==> msg@ == out_of_range_text(self.decimal(), min@, max@),
    {
        if compare(self.value, min) < 0 || compare(self.value, max) > 0 {
            let mut msg = String::from_str("Amount ");
            msg.append(self.value.to_text().as_str());
            msg.append(" is out of range (");
            msg.append(min.to_text().as_str());
            msg.append(" - ");
            msg.append(max.to_text().as_str());
            msg.append(")");
            Err(msg)
        } else {
            Ok(())
        }
    }

    /// Whether the amount is zero.
    pub fn is_zero(&self) -> (r: bool)
        ensures
            r == (self@ == 0),
    {
        proof {
            use_type_invariant(self);
            lemma_money_units(self.decimal());
        }
        self.value.is_zero()
    }

    /// The sum of two amounts, unless it is too large for a money amount.
    pub fn checked_add(self, rhs: Self) -> (r: Result<Self, &'static str>)
        ensures
            r.is_ok() == in_money_range(self@ + rhs@),
            r matches Ok(m) ==> m.wf() && m@ == self@ + rhs@ && exact_sum(
                self.decimal(),
                rhs.decimal(),
            ) == Some(m.decimal()),
            r matches Err(e) ==> e@ == "overflow or precision error"@,
    {
        proof {
            use_type_invariant(self);
            use_type_invariant(rhs);
            lemma_money_sum_exact(self.decimal(), rhs.decimal());
        }
        match checked_sum(self.value, rhs.value) {
            Some(sum) => {
                proof {
                    lemma_money_units(sum@);
                }
                match Self::from_decimal(sum) {
                    Some(m) => Ok(m),
                    None => Err("overflow or precision error"),
                }
            },
            None => Err("overflow or precision error"),
        }
    }

    /// The difference of two amounts, unless it is too large for a money
    /// amount.
    pub fn checked_sub(self, rhs: Self) -> (r: Result<Self, &'static str>)
        ensures
            r.is_ok() == in_money_range(self@ - rhs@),
            r matches Ok(m) ==> m.wf() && m@ == self@ - rhs@ && exact_difference(
                self.decimal(),
                rhs.decimal(),
            ) == Some(m.decimal()),
            r matches Err(e) ==> e@ == "overflow or precision error"@,
    {
        proof {
            use_type_invariant(self);
            use_type_invariant(rhs);
            lemma_money_sum_exact(self.decimal(), rhs.decimal());
        }
        match checked_difference(self.value, rhs.value) {
            Some(difference) => {
                proof {
                    lemma_money_units(difference@);
                }
                match Self::from_decimal(difference) {
                    Some(m) => Ok(m),
                    None => Err("overflow or precision error"),
                }
            },
            None => Err("overflow or precision error"),
        }
    }

    /// The amount times a decimal factor, rounded half-up to 8 places, unless
    /// the product overflows a decimal or is too large for a money amount.
    pub fn checked_mul(self, factor: DecimalValue) -> (r: Result<Self, &'static str>)
        ensures
            match r {
                Ok(m) => m.wf() && money_times(self.decimal(), factor@) == Some(m.decimal()),
                Err(e) => money_times(self.decimal(), factor@).is_none() && e@
                    == "overflow or precision error"@,
            },
    {
        match checked_product(self.value, factor) {
            Some(product) => match Self::from_decimal(product) {
                Some(m) => Ok(m),
                None => Err("overflow or precision error"),
            },
            None => Err("overflow or precision error"),
        }
    }

    /// The decimal that the amount holds.
    pub fn as_decimal(&self) -> (r: DecimalValue)
        ensures
            r == self.value(),
            r@ == self.decimal(),
            self.wf(),
    {
        proof {
            use_type_invariant(self);
        }
        self.value
    }
}

/// A money amount is the decimal it holds: `value` and `decimal` speak of the
/// same decimal, and two amounts that hold the same decimal are the same
/// amount.
pub proof fn lemma_equal_decimals_equal(a: MoneyAmount, b: MoneyAmount)
    requires
        a.decimal() == b.decimal(),
    ensures
        a.value()@ == a.decimal(),
        a == b,
{
    lemma_equal_views_equal(a.value, b.value);
}

impl PartialEq for MoneyAmount {
    /// Two amounts are equal when they are the same number, whatever places
    /// their decimals carry.
    fn eq(&self, other: &Self) -> (r: bool) {
        proof {
            use_type_invariant(self);
            use_type_invariant(other);
            lemma_order_rescale(self.decimal(), other.decimal(), 8);
        }
        compare(self.value, other.value) == 0
    }
}

impl vstd::std_specs::cmp::PartialEqSpecImpl for MoneyAmount {
    open spec fn obeys_eq_spec() -> bool {
        true
    }

    open spec fn eq_spec(&self, other: &Self) -> bool {
        self@ == other@
    }
}

impl Eq for MoneyAmount {

}

impl PartialOrd for MoneyAmount {
    /// Amounts are ordered as numbers.
    fn partial_cmp(&self, other: &Self) -> (r: Option<Ordering>) {
        proof {
            use_type_invariant(self);
            use_type_invariant(other);
            lemma_order_rescale(self.decimal(), other.decimal(), 8);
        }
        let order: i8 = compare(self.value, other.value);
        if order < 0 {
            Some(Ordering::Less)
        } else if order == 0 {
            Some(Ordering::Equal)
        } else {
            Some(Ordering::Greater)
        }
    }
}

impl vstd::std_specs::cmp::PartialOrdSpecImpl for MoneyAmount {
    open spec fn obeys_partial_cmp_spec() -> bool {
        true
    }

    open spec fn partial_cmp_spec(&self, other: &Self) -> Option<Ordering> {
        if self@ < other@ {
            Some(Ordering::Less)
        } else if self@ == other@ {
            Some(Ordering::Equal)
        } else {
            Some(Ordering::Greater)
        }
    }
}

} // verus!
