//! Decimal digits as text.

use crate::support::decimal::{lemma_div_below, lemma_pow10_positive, pow10};
use vstd::prelude::*;

verus! {

/// The character of a decimal digit.
pub open spec fn digit_char(d: nat) -> char {
    if d == 0 {
        '0'
    } else if d == 1 {
        '1'
    } else if d == 2 {
        '2'
    } else if d == 3 {
        '3'
    } else if d == 4 {
        '4'
    } else if d == 5 {
        '5'
    } else if d == 6 {
        '6'
    } else if d == 7 {
        '7'
    } else if d == 8 {
        '8'
    } else {
        '9'
    }
}

/// The decimal digits of `n`, most significant first, without leading zeros
/// (`"0"` for zero).
pub open spec fn nat_digits(n: nat) -> Seq<char>
    decreases n,
{
    if n < 10 {
        seq![digit_char(n)]
    } else {
        nat_digits(n / 10).push(digit_char(n % 10))
    }
}

/// The last `width` decimal digits of `n`, most significant first, with
/// leading zeros.
pub open spec fn fixed_digits(n: nat, width: nat) -> Seq<char>
    decreases width,
{
    if width == 0 {
        Seq::empty()
    } else {
        fixed_digits(n / 10, (width - 1) as nat).push(digit_char(n % 10))
    }
}

/// The number of decimal digits of `n` (1 for zero).
pub open spec fn digit_count(n: nat) -> nat
    decreases n,
{
    if n < 10 {
        1
    } else {
        1 + digit_count(n / 10)
    }
}

/// `n` has at most `k` digits exactly when it is below `10^k`.
pub proof fn lemma_digit_count_bound(n: nat, k: nat)
    requires
        k >= 1,
    ensures
        digit_count(n) <= k <==> n < pow10(k),
    decreases k,
{
    reveal_with_fuel(pow10, 2);
    if k == 1 {
        if n >= 10 {
            assert(digit_count(n / 10) >= 1);
        }
    } else {
        lemma_digit_count_bound(n / 10, (k - 1) as nat);
        lemma_pow10_positive((k - 1) as nat);
        if n < 10 {
            assert(pow10(k) >= 10) by (nonlinear_arith)
                requires
                    pow10(k) == 10 * pow10((k - 1) as nat),
                    pow10((k - 1) as nat) > 0,
            ;
        } else {
            lemma_div_below(n as int, 10, pow10((k - 1) as nat));
        }
    }
}

/// `n` zeros.
pub open spec fn zeros(n: nat) -> Seq<char> {
    Seq::new(n, |i: int| '0')
}

/// The last digits of a multiple of `10^k` end in `k` zeros: those of
/// `x * 10^k` at width `w + k` are those of `x` at width `w`, then `k` zeros.
pub proof fn lemma_fixed_digits_padded(x: nat, w: nat, k: nat, shifted: nat)
    requires
        shifted == x * pow10(k),
    ensures
        fixed_digits(shifted, w + k) == fixed_digits(x, w) + zeros(k),
    decreases k,
{
    if k == 0 {
        assert(pow10(0) == 1);
        assert(fixed_digits(x, w) + zeros(0) =~= fixed_digits(x, w));
    } else {
        let lower = pow10((k - 1) as nat);
        lemma_pow10_positive((k - 1) as nat);
        assert(pow10(k) == 10 * lower);
        let rest = (x * lower) as nat;
        assert(shifted == 10 * rest) by (nonlinear_arith)
            requires
                shifted == x * (10 * lower),
                rest == x * lower,
        ;
        lemma_fixed_digits_padded(x, w, (k - 1) as nat, rest);
        assert(shifted / 10 == rest && shifted % 10 == 0);
        assert(fixed_digits(shifted, w + k) == fixed_digits(rest, (w + k - 1) as nat).push('0'));
        assert((fixed_digits(x, w) + zeros((k - 1) as nat)).push('0') =~= fixed_digits(x, w)
            + zeros(k));
    }
}

/// The decimal text of an integer, with a leading `-` where it is negative.
pub open spec fn int_text(n: int) -> Seq<char> {
    if n < 0 {
        seq!['-'] + nat_digits((-n) as nat)
    } else {
        nat_digits(n as nat)
    }
}

/// Calls `i64::to_string`: the decimal digits, after a `-` for a negative
/// number.
#[verifier::external_body]
pub(crate) fn i64_text(n: i64) -> (r: String)
    ensures
        r@ == int_text(n as int),
{
    n.to_string()
}

} // verus!
