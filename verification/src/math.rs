//! Integer arithmetic of the pool: truncating products and quotients that
//! refuse to overflow, and the floor of a square root.

use vstd::prelude::*;

use crate::error::Error;

verus! {

/// `value` can be held in an `i128`.
pub open spec fn fits(value: int) -> bool {
    i128::MIN <= value <= i128::MAX
}

/// `value`, or `ArithmeticOverflow` where no `i128` can hold it.
pub open spec fn checked(value: int) -> Result<i128, Error> {
    if fits(value) {
        Ok(value as i128)
    } else {
        Err(Error::ArithmeticOverflow)
    }
}

/// The quotient of `a` by `b`, rounded towards zero.
pub open spec fn quotient(a: int, b: int) -> int {
    if a >= 0 && b > 0 {
        a / b
    } else if a < 0 && b > 0 {
        -((-a) / b)
    } else if a >= 0 {
        -(a / (-b))
    } else {
        (-a) / (-b)
    }
}

/// `a / b` rounded towards zero, refused where `b` is zero or the quotient
/// does not fit.
pub open spec fn checked_quotient(a: int, b: int) -> Result<i128, Error> {
    if b == 0 {
        Err(Error::ArithmeticOverflow)
    } else {
        checked(quotient(a, b))
    }
}

/// `a * b / c` rounded towards zero, refused where the product does not fit,
/// where `c` is zero, or where the quotient does not fit.
pub open spec fn checked_ratio(a: int, b: int, c: int) -> Result<i128, Error> {
    if !fits(a * b) {
        Err(Error::ArithmeticOverflow)
    } else {
        checked_quotient(a * b, c)
    }
}

/// `a + b`, or `ArithmeticOverflow`.
pub fn checked_sum(a: i128, b: i128) -> (sum: Result<i128, Error>)
    ensures
        sum == checked(a + b),
{
    a.checked_add(b).ok_or(Error::ArithmeticOverflow)
}

/// `a - b`, or `ArithmeticOverflow`.
pub fn checked_difference(a: i128, b: i128) -> (difference: Result<i128, Error>)
    ensures
        difference == checked(a - b),
{
    a.checked_sub(b).ok_or(Error::ArithmeticOverflow)
}

/// `a * b`, or `ArithmeticOverflow`.
pub fn checked_product(a: i128, b: i128) -> (product: Result<i128, Error>)
    ensures
        product == checked(a * b),
{
    a.checked_mul(b).ok_or(Error::ArithmeticOverflow)
}

/// `a / b` rounded towards zero, or `ArithmeticOverflow`.
pub fn checked_division(a: i128, b: i128) -> (division: Result<i128, Error>)
    ensures
        division == checked_quotient(a as int, b as int),
{
    a.checked_div(b).ok_or(Error::ArithmeticOverflow)
}

/// `a * b / c` rounded towards zero, or `ArithmeticOverflow`.
pub fn mul_div(a: i128, b: i128, c: i128) -> (ratio: Result<i128, Error>)
    ensures
        ratio == checked_ratio(a as int, b as int, c as int),
{
    let product: i128 = checked_product(a, b)?;
    checked_division(product, c)
}

/// `root` is the largest natural number whose square does not exceed `value`.
pub open spec fn is_floor_sqrt(value: int, root: int) -> bool {
    0 <= root && root * root <= value < (root + 1) * (root + 1)
}

/// The square root of `value`, rounded down.
pub open spec fn floor_sqrt(value: int) -> int
    recommends
        value >= 0,
{
    choose|root: int| is_floor_sqrt(value, root)
}

/// A number has only one square root rounded down.
pub proof fn lemma_floor_sqrt_unique(value: int, root: int)
    requires
        is_floor_sqrt(value, root),
    ensures
        floor_sqrt(value) == root,
{
    let other = floor_sqrt(value);
    assert(is_floor_sqrt(value, other));
    assert(root <= other) by (nonlinear_arith)
        requires
            0 <= root,
            0 <= other,
            root * root < (other + 1) * (other + 1),
    ;
    assert(other <= root) by (nonlinear_arith)
        requires
            0 <= root,
            0 <= other,
            other * other < (root + 1) * (root + 1),
    ;
}

proof fn lemma_floor_sqrt_exists(value: int) -> (root: int)
    requires
        value >= 0,
    ensures
        is_floor_sqrt(value, root),
    decreases value,
{
    if value == 0 {
        0
    } else {
        let below = lemma_floor_sqrt_exists(value - 1);
        if value < (below + 1) * (below + 1) {
            below
        } else {
            let root = below + 1;
            assert(root * root < (root + 1) * (root + 1)) by (nonlinear_arith)
                requires
                    root >= 0,
            ;
            root
        }
    }
}

/// The square root rounded down is what its name says: its square does not
/// exceed the number, the next square does, and a square has its own root.
pub proof fn law_floor_sqrt(value: int)
    requires
        value >= 0,
    ensures
        is_floor_sqrt(value, floor_sqrt(value)),
        floor_sqrt(value * value) == value,
{
    let root = lemma_floor_sqrt_exists(value);
    lemma_floor_sqrt_unique(value, root);
    assert(is_floor_sqrt(value * value, value)) by (nonlinear_arith)
        requires
            value >= 0,
    ;
    lemma_floor_sqrt_unique(value * value, value);
}

/// A quotient of a natural number by a positive one, rounded down.
pub proof fn lemma_quotient_bounds(a: int, b: int)
    requires
        a >= 0,
        b > 0,
    ensures
        quotient(a, b) >= 0,
        quotient(a, b) <= a,
        quotient(a, b) * b <= a < (quotient(a, b) + 1) * b,
{
    let q = a / b;
    vstd::arithmetic::div_mod::lemma_fundamental_div_mod(a, b);
    vstd::arithmetic::div_mod::lemma_mod_bound(a, b);
    vstd::arithmetic::div_mod::lemma_div_pos_is_pos(a, b);
    assert(q * b <= a < (q + 1) * b) by (nonlinear_arith)
        requires
            a == b * q + a % b,
            0 <= a % b < b,
    ;
    assert(q <= a) by (nonlinear_arith)
        requires
            q * b <= a,
            q >= 0,
            b >= 1,
    ;
}

/// The quotient rounded down is the largest number that the bound allows.
pub proof fn lemma_quotient_is_largest(a: int, b: int, q: int)
    requires
        a >= 0,
        b > 0,
        q * b <= a,
    ensures
        q <= quotient(a, b),
{
    lemma_quotient_bounds(a, b);
    let largest = quotient(a, b);
    assert(q <= largest) by (nonlinear_arith)
        requires
            q * b <= a,
            a < (largest + 1) * b,
            b > 0,
    ;
}

/// What a quotient rounded down is at least.
pub proof fn lemma_at_most_quotient(a: int, b: int, q: int, n: int)
    requires
        0 < b,
        q * b <= a < (q + 1) * b,
    ensures
        n * b <= a <==> n <= q,
{
    if n <= q {
        assert(n * b <= a) by (nonlinear_arith)
            requires
                n <= q,
                q * b <= a,
                0 < b,
        ;
    } else {
        assert(n * b > a) by (nonlinear_arith)
            requires
                n >= q + 1,
                a < (q + 1) * b,
                0 < b,
        ;
    }
}

/// One Newton step from a positive `x` never falls below the floor of the
/// square root of `n`.
proof fn lemma_newton_step_stays_above(n: int, x: int)
    requires
        n >= 0,
        x >= 1,
    ensures
        n < ((x + n / x) / 2 + 1) * ((x + n / x) / 2 + 1),
{
    let q = n / x;
    let y = (x + q) / 2;
    vstd::arithmetic::div_mod::lemma_fundamental_div_mod(n, x);
    vstd::arithmetic::div_mod::lemma_mod_bound(n, x);
    assert(n < x * (q + 1)) by (nonlinear_arith)
        requires
            n == x * q + n % x,
            n % x < x,
    ;
    let s = x + q + 1;
    assert(q >= 0) by {
        vstd::arithmetic::div_mod::lemma_div_pos_is_pos(n, x);
    }
    assert(4 * (x * (q + 1)) <= s * s) by (nonlinear_arith)
        requires
            s == x + (q + 1),
    ;
    assert(s <= 2 * (y + 1));
    assert(s * s <= (2 * (y + 1)) * (2 * (y + 1))) by (nonlinear_arith)
        requires
            0 <= s <= 2 * (y + 1),
    ;
    assert((2 * (y + 1)) * (2 * (y + 1)) == 4 * ((y + 1) * (y + 1))) by (nonlinear_arith);
}

/// Where a Newton step does not move down, its starting point squared is at
/// most `n`.
proof fn lemma_newton_fixed_point(n: int, x: int)
    requires
        n >= 0,
        x >= 1,
        (x + n / x) / 2 >= x,
    ensures
        x * x <= n,
{
    let q = n / x;
    vstd::arithmetic::div_mod::lemma_fundamental_div_mod(n, x);
    vstd::arithmetic::div_mod::lemma_mod_bound(n, x);
    assert(q >= x);
    assert(x * x <= x * q) by (nonlinear_arith)
        requires
            1 <= x <= q,
    ;
}

/// The square root of `value`, rounded down, by Newton's iteration on
/// integers. A negative `value` has none.
pub fn integer_sqrt(value: i128) -> (root: Result<i128, Error>)
    ensures
        value < 0 ==> root == Err::<i128, Error>(Error::ArithmeticOverflow),
        value >= 0 ==> root == Ok::<i128, Error>(floor_sqrt(value as int) as i128),
        root matches Ok(r) ==> is_floor_sqrt(value as int, r as int) && r == floor_sqrt(value as int),
{
    if value < 0 {
        return Err(Error::ArithmeticOverflow);
    }
    let n: u128 = value as u128;
    if n == 0 {
        proof {
            lemma_floor_sqrt_unique(0, 0);
        }
        return Ok(0);
    }
    let mut x0: u128 = n;
    proof {
        assert(n as int / n as int == 1) by {
            vstd::arithmetic::div_mod::lemma_div_by_self(n as int);
        }
        lemma_newton_step_stays_above(n as int, n as int);
        assert(n < (n + 1) * (n + 1)) by (nonlinear_arith)
            requires
                n >= 1,
        ;
    }
    let mut x1: u128 = (x0 + n / x0) / 2;
    while x1 < x0
        invariant
            1 <= x0 <= n,
            n <= i128::MAX,
            n < (x0 + 1) * (x0 + 1),
            x1 == (x0 + n / x0) / 2,
        decreases x0,
    {
        proof {
            lemma_newton_step_stays_above(n as int, x0 as int);
            assert(x1 >= 1) by (nonlinear_arith)
                requires
                    n >= 1,
                    n < (x1 + 1) * (x1 + 1),
            ;
            vstd::arithmetic::div_mod::lemma_div_is_ordered_by_denominator(n as int, 1, x1 as int);
        }
        x0 = x1;
        x1 = (x0 + n / x0) / 2;
    }
    proof {
        lemma_newton_fixed_point(n as int, x0 as int);
        lemma_floor_sqrt_unique(value as int, x0 as int);
    }
    Ok(x0 as i128)
}

// ---------------------------------------------------------------------------
// What the operations hand back
// ---------------------------------------------------------------------------

/// A number fits exactly where putting it in an `i128` keeps it.
pub proof fn law_fits(value: int)
    ensures
        fits(value) <==> (value as i128) as int == value,
{
}

/// `q` is `a` divided by `b`, rounded towards zero: what is left of `a` is
/// smaller than `b`, and on the same side of zero as `a`.
pub open spec fn rounds_to(a: int, b: int, q: int) -> bool {
    &&& b != 0
    &&& 0 <= a ==> 0 <= a - q * b < if b > 0 { b } else { -b }
    &&& a <= 0 ==> 0 <= q * b - a < if b > 0 { b } else { -b }
}

/// Every number can be divided by every other but zero, and in one way only.
pub proof fn law_quotient(a: int, b: int)
    requires
        b != 0,
    ensures
        rounds_to(a, b, quotient(a, b)),
        forall|q: int| rounds_to(a, b, q) ==> q == quotient(a, b),
{
    let m = if a >= 0 { a } else { -a };
    let d = if b > 0 { b } else { -b };
    let whole = m / d;
    vstd::arithmetic::div_mod::lemma_fundamental_div_mod(m, d);
    vstd::arithmetic::div_mod::lemma_mod_bound(m, d);
    let exact = quotient(a, b);
    assert(0 <= m - whole * d < d) by (nonlinear_arith)
        requires
            m == d * whole + m % d,
            0 <= m % d < d,
    ;
    assert(exact == whole || exact == -whole);
    assert((-whole) * (-d) == whole * d && (-whole) * d == -(whole * d) && whole * (-d) == -(whole
        * d)) by (nonlinear_arith);
    assert(rounds_to(a, b, exact));
    assert forall|q: int| rounds_to(a, b, q) implies q == exact by {
        assert(q == exact) by (nonlinear_arith)
            requires
                d > 0,
                b == d || b == -d,
                -d < q * b - exact * b < d,
        ;
    }
}

/// A sum is handed back exactly where it fits.
pub proof fn law_checked_sum(a: i128, b: i128, sum: Result<i128, Error>)
    requires
        call_ensures(checked_sum, (a, b), sum),
    ensures
        sum is Ok <==> i128::MIN <= a + b <= i128::MAX,
        sum matches Ok(value) ==> value == a + b,
        sum matches Err(e) ==> e == Error::ArithmeticOverflow,
{
}

/// A difference is handed back exactly where it fits.
pub proof fn law_checked_difference(a: i128, b: i128, difference: Result<i128, Error>)
    requires
        call_ensures(checked_difference, (a, b), difference),
    ensures
        difference is Ok <==> i128::MIN <= a - b <= i128::MAX,
        difference matches Ok(value) ==> value == a - b,
        difference matches Err(e) ==> e == Error::ArithmeticOverflow,
{
}

/// A product is handed back exactly where it fits.
pub proof fn law_checked_product(a: i128, b: i128, product: Result<i128, Error>)
    requires
        call_ensures(checked_product, (a, b), product),
    ensures
        product is Ok <==> i128::MIN <= a * b <= i128::MAX,
        product matches Ok(value) ==> value == a * b,
        product matches Err(e) ==> e == Error::ArithmeticOverflow,
{
}

/// A quotient that does not fit is that of the least number by minus one.
proof fn lemma_quotient_fits(a: int, b: int)
    requires
        fits(a),
        b != 0,
    ensures
        fits(quotient(a, b)) <==> !(a == i128::MIN && b == -1),
{
    let m = if a >= 0 { a } else { -a };
    let d = if b > 0 { b } else { -b };
    lemma_quotient_bounds(m, d);
    assert(quotient(m, d) == m / d);
    if d == 1 {
        assert(m / d == m) by (nonlinear_arith)
            requires
                (m / d) * d <= m < (m / d + 1) * d,
                d == 1,
        ;
    } else if m > 0 {
        assert(m / d < m) by (nonlinear_arith)
            requires
                (m / d) * d <= m,
                0 <= m / d,
                d >= 2,
                m > 0,
        ;
    }
}

/// A division is refused by zero and where its one overflow lies; otherwise it
/// is rounded towards zero.
pub proof fn law_checked_division(a: i128, b: i128, division: Result<i128, Error>)
    requires
        call_ensures(checked_division, (a, b), division),
    ensures
        division is Err <==> b == 0 || (a == i128::MIN && b == -1),
        division matches Ok(q) ==> rounds_to(a as int, b as int, q as int),
        division matches Err(e) ==> e == Error::ArithmeticOverflow,
{
    if b != 0 {
        law_quotient(a as int, b as int);
        lemma_quotient_fits(a as int, b as int);
    }
}

/// A product divided by a third number is refused where the product does not
/// fit or the division is; otherwise it is rounded towards zero.
pub proof fn law_mul_div(a: i128, b: i128, c: i128, ratio: Result<i128, Error>)
    requires
        call_ensures(mul_div, (a, b, c), ratio),
    ensures
        ratio is Err <==> !(i128::MIN <= a * b <= i128::MAX) || c == 0 || (a * b == i128::MIN && c
            == -1),
        ratio matches Ok(q) ==> rounds_to(a * b, c as int, q as int),
        ratio matches Err(e) ==> e == Error::ArithmeticOverflow,
{
    if fits(a * b) && c != 0 {
        law_quotient(a * b, c as int);
        lemma_quotient_fits(a * b, c as int);
    }
}

/// Every number but a negative one has a square root rounded down: the square
/// of it does not exceed the number, and the next square does.
pub proof fn law_integer_sqrt(value: i128, root: Result<i128, Error>)
    requires
        call_ensures(integer_sqrt, (value,), root),
    ensures
        root is Err <==> value < 0,
        root matches Ok(r) ==> 0 <= r && r * r <= value < (r + 1) * (r + 1),
        root matches Err(e) ==> e == Error::ArithmeticOverflow,
{
}

/// For natural numbers, rounding towards zero is rounding down.
pub proof fn lemma_rounded_down(a: int, b: int, q: int)
    requires
        0 <= a,
        0 < b,
        q * b <= a < (q + 1) * b,
    ensures
        rounds_to(a, b, q),
        q == quotient(a, b),
{
    assert((q + 1) * b == q * b + b) by (nonlinear_arith);
    assert(0 <= q) by (nonlinear_arith)
        requires
            0 <= a < (q + 1) * b,
            0 < b,
    ;
    assert(0 <= q * b) by (nonlinear_arith)
        requires
            0 <= q,
            0 < b,
    ;
    law_quotient(a, b);
}

} // verus!
