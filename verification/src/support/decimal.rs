//! A decimal number held as an integer mantissa and a power-of-ten scale.

use crate::support::text::{digit_count, fixed_digits, lemma_digit_count_bound, nat_digits};
use rust_decimal::prelude::ToPrimitive;
use rust_decimal::{Decimal, MathematicalOps, RoundingStrategy};
use std::cmp::Ordering;
use std::str::FromStr;
use vstd::prelude::*;

verus! {

/// Largest scale a decimal can carry.
pub const MAX_SCALE: u32 = 28;

/// Bytes that the text of a decimal may take when it is formatted.
pub const TEXT_BUFFER: u32 = 32;

/// Largest magnitude of a mantissa: `2^96 - 1`.
pub const MAX_MANTISSA: i128 = 0xFFFF_FFFF_FFFF_FFFF_FFFF_FFFF;

/// `10^n`.
pub open spec fn pow10(n: nat) -> int
    decreases n,
{
    if n == 0 {
        1
    } else {
        10 * pow10((n - 1) as nat)
    }
}

/// Absolute value of an integer.
pub open spec fn abs(x: int) -> int {
    if x < 0 {
        -x
    } else {
        x
    }
}

/// The mathematical content of a decimal: the number `mantissa / 10^scale`.
pub struct DecimalView {
    pub mantissa: int,
    pub scale: nat,
}

impl DecimalView {
    /// The mantissa fits 96 bits and the scale is at most 28.
    pub open spec fn wf(self) -> bool {
        &&& self.scale <= MAX_SCALE
        &&& -MAX_MANTISSA <= self.mantissa <= MAX_MANTISSA
    }

    /// The number as a count of units of `10^-places`; exact when
    /// `places >= self.scale`.
    pub open spec fn scaled(self, places: nat) -> int {
        self.mantissa * pow10((places - self.scale) as nat)
    }
}

/// A decimal number `mantissa / 10^scale`, with a 96-bit mantissa and a scale
/// of at most 28.
#[derive(Clone, Copy, Debug)]
pub struct DecimalValue {
    mantissa: i128,
    scale: u32,
}

impl View for DecimalValue {
    type V = DecimalView;

    closed spec fn view(&self) -> DecimalView {
        DecimalView { mantissa: self.mantissa as int, scale: self.scale as nat }
    }
}

impl DecimalValue {
    /// Validity of a decimal, which every decimal has: the mantissa fits 96
    /// bits and the scale is at most 28.
    #[verifier::type_invariant]
    pub open spec fn wf(&self) -> bool {
        self@.wf()
    }

    /// The decimal `num / 10^scale`.
    pub fn new(num: i64, scale: u32) -> (r: Self)
        requires
            scale <= MAX_SCALE,
        ensures
            r@ == (DecimalView { mantissa: num as int, scale: scale as nat }),
    {
        DecimalValue { mantissa: num as i128, scale }
    }

    /// The decimal `num / 10^scale`, or `None` when `num` does not fit 96 bits
    /// or `scale` exceeds 28.
    pub fn try_from_i128_with_scale(num: i128, scale: u32) -> (r: Option<Self>)
        ensures
            r.is_some() <==> (DecimalView { mantissa: num as int, scale: scale as nat }).wf(),
            r.is_some() ==> r.unwrap()@ == (DecimalView { mantissa: num as int, scale: scale as nat }),
    {
        if scale > MAX_SCALE || num > MAX_MANTISSA || num < -MAX_MANTISSA {
            None
        } else {
            Some(DecimalValue { mantissa: num, scale })
        }
    }

    /// The mantissa `m` of the decimal `m / 10^scale`.
    pub fn mantissa(&self) -> (r: i128)
        ensures
            r == self@.mantissa,
            self@.wf(),
    {
        proof {
            use_type_invariant(self);
        }
        self.mantissa
    }

    /// The number of digits after the point.
    pub fn scale(&self) -> (r: u32)
        ensures
            r == self@.scale,
            self@.wf(),
    {
        proof {
            use_type_invariant(self);
        }
        self.scale
    }

    /// Whether the decimal is zero.
    pub fn is_zero(&self) -> (r: bool)
        ensures
            r == (self@.mantissa == 0),
    {
        self.mantissa == 0
    }

    /// The text of the decimal, with as many digits after the point as its
    /// scale says.
    pub fn to_text(&self) -> (r: String)
        ensures
            r@ == decimal_text(self@, self@.scale),
    {
        proof {
            use_type_invariant(self);
            lemma_own_text_fits(self@);
        }
        format_decimal(*self, self.scale())
    }
}

/// A decimal is its mantissa and scale: two decimals of the same view are
/// the same decimal.
pub proof fn lemma_equal_views_equal(a: DecimalValue, b: DecimalValue)
    requires
        a@ == b@,
    ensures
        a == b,
{
}

impl PartialEq for DecimalValue {
    /// Two decimals are equal when they are the same number, whatever their
    /// scales.
    fn eq(&self, other: &Self) -> (r: bool) {
        compare(*self, *other) == 0
    }
}

impl vstd::std_specs::cmp::PartialEqSpecImpl for DecimalValue {
    open spec fn obeys_eq_spec() -> bool {
        true
    }

    open spec fn eq_spec(&self, other: &Self) -> bool {
        order_of(self@, other@) == 0
    }
}

impl Eq for DecimalValue {

}

/// `m / 10^k` rounded to the nearest integer, a tie going away from zero.
pub open spec fn round_half_away(m: int, k: nat) -> int {
    let p = pow10(k);
    let q = abs(m) / p;
    let a = if 2 * (abs(m) % p) >= p {
        q + 1
    } else {
        q
    };
    if m < 0 {
        -a
    } else {
        a
    }
}

/// `m / 10^k` rounded to the nearest integer, a tie going to the even one.
pub open spec fn round_half_even(m: int, k: nat) -> int {
    let p = pow10(k);
    let q = abs(m) / p;
    let twice = 2 * (abs(m) % p);
    let a = if twice > p || (twice == p && q % 2 == 1) {
        q + 1
    } else {
        q
    };
    if m < 0 {
        -a
    } else {
        a
    }
}

/// `m / 10^k` with the fraction dropped (rounded toward zero).
pub open spec fn truncate_toward_zero(m: int, k: nat) -> int {
    if m < 0 {
        -(abs(m) / pow10(k))
    } else {
        abs(m) / pow10(k)
    }
}

/// A decimal rounded half-up (ties away from zero) to at most `dp` places.
/// One that already has no more places is left as it is.
pub open spec fn rounded_half_up(d: DecimalView, dp: nat) -> DecimalView {
    if d.scale <= dp {
        d
    } else {
        DecimalView { mantissa: round_half_away(d.mantissa, (d.scale - dp) as nat), scale: dp }
    }
}

/// A decimal rounded to the nearest integer, ties to even.
pub open spec fn rounded_to_integer(d: DecimalView) -> DecimalView {
    if d.scale == 0 {
        d
    } else {
        DecimalView { mantissa: round_half_even(d.mantissa, d.scale), scale: 0 }
    }
}

/// The integral part of a decimal, as a decimal of scale 0.
pub open spec fn truncated(d: DecimalView) -> DecimalView {
    DecimalView { mantissa: truncate_toward_zero(d.mantissa, d.scale), scale: 0 }
}

/// The integral part of a decimal where it fits 64 signed bits.
pub open spec fn integral_i64(d: DecimalView) -> Option<i64> {
    let t = truncate_toward_zero(d.mantissa, d.scale);
    if i64::MIN <= t <= i64::MAX {
        Some(t as i64)
    } else {
        None
    }
}

/// The larger of two scales.
pub open spec fn max_scale(a: DecimalView, b: DecimalView) -> nat {
    if a.scale >= b.scale {
        a.scale
    } else {
        b.scale
    }
}

/// The decimal that parsing a text yields, if it is a decimal literal.
pub uninterp spec fn parsed_decimal(text: Seq<char>) -> Option<DecimalView>;

/// The sum of two non-zero decimals whose exact sum at the larger scale does
/// not fit 96 bits: rounded to fewer places, or `None` on overflow.
pub uninterp spec fn rounded_sum(a: DecimalView, b: DecimalView) -> Option<DecimalView>;

/// The difference of two non-zero decimals whose exact difference at the
/// larger scale does not fit 96 bits.
pub uninterp spec fn rounded_difference(a: DecimalView, b: DecimalView) -> Option<DecimalView>;

/// The product of two non-zero decimals whose exact product does not fit 96
/// bits and 28 places.
pub uninterp spec fn rounded_product(a: DecimalView, b: DecimalView) -> Option<DecimalView>;

/// The quotient of a decimal by a non-zero decimal.
pub uninterp spec fn rounded_quotient(a: DecimalView, b: DecimalView) -> Option<DecimalView>;

/// The sum where it is exact: at the larger scale where that fits 96 bits; a
/// zero operand leaves the other as it is.
pub open spec fn exact_sum(a: DecimalView, b: DecimalView) -> Option<DecimalView> {
    let s = max_scale(a, b);
    let m = a.scaled(s) + b.scaled(s);
    if a.mantissa == 0 {
        Some(b)
    } else if b.mantissa == 0 {
        Some(a)
    } else if abs(m) <= MAX_MANTISSA {
        Some(DecimalView { mantissa: m, scale: s })
    } else {
        None
    }
}

/// The difference where it is exact: at the larger scale where that fits 96
/// bits.
pub open spec fn exact_difference(a: DecimalView, b: DecimalView) -> Option<DecimalView> {
    let s = max_scale(a, b);
    let m = a.scaled(s) - b.scaled(s);
    if a.mantissa == 0 {
        Some(DecimalView { mantissa: -b.mantissa, scale: b.scale })
    } else if b.mantissa == 0 {
        Some(a)
    } else if abs(m) <= MAX_MANTISSA {
        Some(DecimalView { mantissa: m, scale: s })
    } else {
        None
    }
}

/// The product where it is exact: the product of the mantissas fits 96 bits
/// and the scales add up to at most 28; zero (of scale 0) where a factor is
/// zero.
pub open spec fn exact_product(a: DecimalView, b: DecimalView) -> Option<DecimalView> {
    if a.mantissa == 0 || b.mantissa == 0 {
        Some(DecimalView { mantissa: 0, scale: 0 })
    } else if a.scale + b.scale <= MAX_SCALE && abs(a.mantissa * b.mantissa) <= MAX_MANTISSA {
        Some(DecimalView { mantissa: a.mantissa * b.mantissa, scale: a.scale + b.scale })
    } else {
        None
    }
}

/// Checked product of two decimals.
pub open spec fn product_of(a: DecimalView, b: DecimalView) -> Option<DecimalView> {
    match exact_product(a, b) {
        Some(d) => Some(d),
        None => rounded_product(a, b),
    }
}

/// Checked quotient of two decimals: `None` for a zero divisor.
pub open spec fn quotient_of(a: DecimalView, b: DecimalView) -> Option<DecimalView> {
    if b.mantissa == 0 {
        None
    } else {
        rounded_quotient(a, b)
    }
}

/// How two decimals compare by value: -1, 0 or 1 as the first is less than,
/// equal to or greater than the second.
pub open spec fn order_of(a: DecimalView, b: DecimalView) -> int {
    int_order(a.scaled(max_scale(a, b)), b.scaled(max_scale(a, b)))
}

/// How two integers compare: -1, 0 or 1.
pub open spec fn int_order(x: int, y: int) -> int {
    if x < y {
        -1
    } else if x == y {
        0
    } else {
        1
    }
}

/// The first decimal is at most the second, by value.
pub open spec fn decimal_le(a: DecimalView, b: DecimalView) -> bool {
    order_of(a, b) <= 0
}

/// The number of digits of the integral part of a decimal (1 where it is 0).
pub open spec fn whole_digits(d: DecimalView) -> nat {
    digit_count((abs(d.mantissa) / pow10(d.scale)) as nat)
}

/// The text of a decimal with exactly `places` digits after the point
/// (`places >= d.scale`): a `-` where it is negative, the digits of the
/// integral part, and, where `places > 0`, a `.` and the fraction padded with
/// zeros.
pub open spec fn decimal_text(d: DecimalView, places: nat) -> Seq<char> {
    let u = abs(d.scaled(places));
    let whole = nat_digits((u / pow10(places)) as nat);
    let signed = if d.mantissa < 0 {
        seq!['-'] + whole
    } else {
        whole
    };
    if places == 0 {
        signed
    } else {
        signed + seq!['.'] + fixed_digits((u % pow10(places)) as nat, places)
    }
}

/// `10^exp` as a decimal of scale 0, where it fits 96 bits: up to `10^28`.
pub open spec fn power_of_ten(exp: nat) -> Option<DecimalView> {
    if exp <= 28 {
        Some(DecimalView { mantissa: pow10(exp), scale: 0 })
    } else {
        None
    }
}

/// The view of an optional decimal.
pub open spec fn view_of(r: Option<DecimalValue>) -> Option<DecimalView> {
    match r {
        Some(d) => Some(d@),
        None => None,
    }
}

/// The decimal of a parse, if it gave one.
pub open spec fn parsed_view(r: Result<DecimalValue, String>) -> Option<DecimalView> {
    match r {
        Ok(d) => Some(d@),
        Err(_) => None,
    }
}

/// Calls `Decimal::from_str`: the result is the decimal that the text denotes;
/// where the text is no decimal literal, the error says why in words.
#[verifier::external_body]
pub(crate) fn parse_decimal(text: &str) -> (r: Result<DecimalValue, String>)
    ensures
        parsed_view(r) == parsed_decimal(text@),
{
    match Decimal::from_str(text) {
        Ok(d) => Ok(DecimalValue { mantissa: d.mantissa(), scale: d.scale() }),
        Err(e) => Err(e.to_string()),
    }
}

/// Calls `Decimal::checked_powu` on the decimal 10 with an exponent of at
/// most 28: the power, which then fits 96 bits, as a whole number.
#[verifier::external_body]
pub(crate) fn checked_power_of_ten(ten: DecimalValue, exp: u32) -> (r: Option<DecimalValue>)
    requires
        ten@ == (DecimalView { mantissa: 10, scale: 0 }),
        exp <= MAX_SCALE,
    ensures
        view_of(r) == power_of_ten(exp as nat),
{
    let base = Decimal::from_i128_with_scale(ten.mantissa, ten.scale);
    match base.checked_powu(exp as u64) {
        Some(d) => Some(DecimalValue { mantissa: d.mantissa(), scale: d.scale() }),
        None => None,
    }
}

/// Calls `Decimal::round_dp_with_strategy` with `MidpointAwayFromZero`: a
/// value with more than `dp` places comes back with exactly `dp`, rounded
/// half-up; any other comes back unchanged.
#[verifier::external_body]
pub(crate) fn round_half_up(value: DecimalValue, dp: u32) -> (r: DecimalValue)
    ensures
        r@ == rounded_half_up(value@, dp as nat),
{
    let d = Decimal::from_i128_with_scale(value.mantissa, value.scale)
        .round_dp_with_strategy(dp, RoundingStrategy::MidpointAwayFromZero);
    DecimalValue { mantissa: d.mantissa(), scale: d.scale() }
}

/// Calls `Decimal::round`: the nearest integer, a tie going to the even one.
#[verifier::external_body]
pub(crate) fn round_to_integer(value: DecimalValue) -> (r: DecimalValue)
    ensures
        r@ == rounded_to_integer(value@),
{
    let d = Decimal::from_i128_with_scale(value.mantissa, value.scale).round();
    DecimalValue { mantissa: d.mantissa(), scale: d.scale() }
}

/// Calls `Decimal::trunc`: the integral part, with scale 0.
#[verifier::external_body]
pub(crate) fn truncate(value: DecimalValue) -> (r: DecimalValue)
    ensures
        r@ == truncated(value@),
{
    let d = Decimal::from_i128_with_scale(value.mantissa, value.scale).trunc();
    DecimalValue { mantissa: d.mantissa(), scale: d.scale() }
}

/// Calls `Decimal::to_i64`: the integral part, `None` where it does not fit.
#[verifier::external_body]
pub(crate) fn to_i64(value: DecimalValue) -> (r: Option<i64>)
    ensures
        r == integral_i64(value@),
{
    Decimal::from_i128_with_scale(value.mantissa, value.scale).to_i64()
}

/// Calls `Decimal::checked_add`: the exact sum where that is representable,
/// else the rounded one or `None` on overflow.
#[verifier::external_body]
pub(crate) fn checked_sum(a: DecimalValue, b: DecimalValue) -> (r: Option<DecimalValue>)
    ensures
        view_of(r) == match exact_sum(a@, b@) {
            Some(d) => Some(d),
            None => rounded_sum(a@, b@),
        },
{
    let x = Decimal::from_i128_with_scale(a.mantissa, a.scale);
    let y = Decimal::from_i128_with_scale(b.mantissa, b.scale);
    match x.checked_add(y) {
        Some(d) => Some(DecimalValue { mantissa: d.mantissa(), scale: d.scale() }),
        None => None,
    }
}

/// Calls `Decimal::checked_sub`: the exact difference where that is
/// representable, else the rounded one or `None` on overflow.
#[verifier::external_body]
pub(crate) fn checked_difference(a: DecimalValue, b: DecimalValue) -> (r: Option<DecimalValue>)
    ensures
        view_of(r) == match exact_difference(a@, b@) {
            Some(d) => Some(d),
            None => rounded_difference(a@, b@),
        },
{
    let x = Decimal::from_i128_with_scale(a.mantissa, a.scale);
    let y = Decimal::from_i128_with_scale(b.mantissa, b.scale);
    match x.checked_sub(y) {
        Some(d) => Some(DecimalValue { mantissa: d.mantissa(), scale: d.scale() }),
        None => None,
    }
}

/// Calls `Decimal::checked_mul`: the exact product where that is
/// representable, else the rounded one or `None` on overflow.
#[verifier::external_body]
pub(crate) fn checked_product(a: DecimalValue, b: DecimalValue) -> (r: Option<DecimalValue>)
    ensures
        view_of(r) == match exact_product(a@, b@) {
            Some(d) => Some(d),
            None => rounded_product(a@, b@),
        },
{
    let x = Decimal::from_i128_with_scale(a.mantissa, a.scale);
    let y = Decimal::from_i128_with_scale(b.mantissa, b.scale);
    match x.checked_mul(y) {
        Some(d) => Some(DecimalValue { mantissa: d.mantissa(), scale: d.scale() }),
        None => None,
    }
}

/// Calls `Decimal::checked_div`: `None` for a zero divisor, else the quotient
/// rounded to what a decimal can hold, or `None` on overflow.
#[verifier::external_body]
pub(crate) fn checked_quotient(a: DecimalValue, b: DecimalValue) -> (r: Option<DecimalValue>)
    ensures
        view_of(r) == if b@.mantissa == 0 {
            None
        } else {
            rounded_quotient(a@, b@)
        },
{
    let x = Decimal::from_i128_with_scale(a.mantissa, a.scale);
    let y = Decimal::from_i128_with_scale(b.mantissa, b.scale);
    match x.checked_div(y) {
        Some(d) => Some(DecimalValue { mantissa: d.mantissa(), scale: d.scale() }),
        None => None,
    }
}

/// Calls `Decimal::cmp`, which orders decimals by value.
#[verifier::external_body]
pub(crate) fn compare(a: DecimalValue, b: DecimalValue) -> (r: i8)
    ensures
        r == order_of(a@, b@),
{
    let x = Decimal::from_i128_with_scale(a.mantissa, a.scale);
    let y = Decimal::from_i128_with_scale(b.mantissa, b.scale);
    match x.cmp(&y) {
        Ordering::Less => -1,
        Ordering::Equal => 0,
        Ordering::Greater => 1,
    }
}

/// Formats through the `Display` impl of `Decimal` with a precision of
/// `places`, which here only pads: the integral part, then `places` digits
/// after the point. The formatter writes into a buffer of 32 bytes, so the
/// digits of the integral part, the point and the places must fit it.
#[verifier::external_body]
pub(crate) fn format_decimal(value: DecimalValue, places: u32) -> (r: String)
    requires
        value@.scale <= places <= MAX_SCALE,
        whole_digits(value@) + 1 + places <= TEXT_BUFFER,
    ensures
        r@ == decimal_text(value@, places as nat),
{
    let d = Decimal::from_i128_with_scale(value.mantissa, value.scale);
    format!("{:.*}", places as usize, d)
}

/// `10^n` is positive.
pub proof fn lemma_pow10_positive(n: nat)
    ensures
        pow10(n) > 0,
    decreases n,
{
    if n > 0 {
        lemma_pow10_positive((n - 1) as nat);
    }
}

/// `10^(a + b) == 10^a * 10^b`.
pub proof fn lemma_pow10_adds(a: nat, b: nat)
    ensures
        pow10(a + b) == pow10(a) * pow10(b),
    decreases a,
{
    if a > 0 {
        lemma_pow10_adds((a - 1) as nat, b);
        assert(pow10(a + b) == 10 * pow10((a - 1 + b) as nat));
        assert(10 * (pow10((a - 1) as nat) * pow10(b)) == (10 * pow10((a - 1) as nat)) * pow10(b))
            by (nonlinear_arith);
    } else {
        assert(pow10(a + b) == 1 * pow10(b));
    }
}

/// The powers of ten that the money and sats rules use.
pub proof fn lemma_pow10_values()
    ensures
        pow10(0) == 1,
        pow10(8) == 100_000_000,
        pow10(12) == 1_000_000_000_000,
        pow10(20) == 100_000_000_000_000_000_000,
        pow10(28) == 10_000_000_000_000_000_000_000_000_000,
{
    reveal_with_fuel(pow10, 9);
    assert(pow10(8) == 100_000_000);
    lemma_pow10_adds(8, 4);
    assert(pow10(4) == 10_000);
    lemma_pow10_adds(12, 8);
    lemma_pow10_adds(20, 8);
}

/// A decimal counted in units of `10^-t` is its count in units of `10^-s`
/// times `10^(t - s)`.
pub proof fn lemma_scaled_rescale(d: DecimalView, s: nat, t: nat)
    requires
        d.scale <= s <= t,
    ensures
        d.scaled(t) == d.scaled(s) * pow10((t - s) as nat),
{
    lemma_pow10_adds((s - d.scale) as nat, (t - s) as nat);
    let x = pow10((s - d.scale) as nat);
    let y = pow10((t - s) as nat);
    assert(d.mantissa * (x * y) == (d.mantissa * x) * y) by (nonlinear_arith);
}

/// Two decimals compare as their counts in any unit that both are exact in.
pub proof fn lemma_order_rescale(a: DecimalView, b: DecimalView, t: nat)
    requires
        a.scale <= t,
        b.scale <= t,
    ensures
        order_of(a, b) == int_order(a.scaled(t), b.scaled(t)),
{
    let s = max_scale(a, b);
    let p = pow10((t - s) as nat);
    lemma_scaled_rescale(a, s, t);
    lemma_scaled_rescale(b, s, t);
    lemma_pow10_positive((t - s) as nat);
    let x = a.scaled(s);
    let y = b.scaled(s);
    assert(x < y ==> x * p < y * p) by (nonlinear_arith)
        requires
            p > 0,
    ;
    assert(x > y ==> x * p > y * p) by (nonlinear_arith)
        requires
            p > 0,
    ;
}

/// The integral part of a decimal of scale `s` has at most `29 - s` digits,
/// so its text with `s` places takes at most 30 bytes.
pub proof fn lemma_own_text_fits(d: DecimalView)
    requires
        d.wf(),
    ensures
        whole_digits(d) + 1 + d.scale <= 30,
{
    let n = abs(d.mantissa);
    let p = pow10(d.scale);
    let k = (29 - d.scale) as nat;
    lemma_pow10_positive(d.scale);
    lemma_pow10_values();
    lemma_pow10_adds(k, d.scale);
    assert(pow10(29) == 10 * pow10(28));
    lemma_div_below(n, p, pow10(k));
    assert(n / p >= 0) by (nonlinear_arith)
        requires
            n >= 0,
            p > 0,
    ;
    lemma_digit_count_bound((n / p) as nat, k);
}

/// For a positive divisor, `n / p < b` exactly when `n < b * p`.
pub proof fn lemma_div_below(n: int, p: int, b: int)
    requires
        0 <= n,
        0 < p,
    ensures
        (n / p < b) <==> (n < b * p),
{
    assert((n / p < b) <==> (n < b * p)) by (nonlinear_arith)
        requires
            0 <= n,
            0 < p,
    ;
}

} // verus!
