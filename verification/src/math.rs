//! Signed arithmetic over `i128` amounts.
use vstd::prelude::*;

verus! {

/// Whether `x` is the value of some `i128`.
pub open spec fn in_range(x: int) -> bool {
    i128::MIN <= x <= i128::MAX
}

/// The smaller of two integers.
pub open spec fn least(a: int, b: int) -> int {
    if a <= b {
        a
    } else {
        b
    }
}

/// The larger of two integers.
pub open spec fn greatest(a: int, b: int) -> int {
    if a >= b {
        a
    } else {
        b
    }
}

/// The quotient of `a` and `b` rounded towards zero.
pub open spec fn quotient(a: int, b: int) -> int {
    if a >= 0 {
        if b > 0 {
            a / b
        } else {
            -(a / -b)
        }
    } else {
        if b > 0 {
            -(-a / b)
        } else {
            -a / -b
        }
    }
}

/// What is left of `a` after taking `b` away `quotient(a, b)` times.
pub open spec fn remainder(a: int, b: int) -> int {
    a - b * quotient(a, b)
}

/// Divides, rounding towards zero.
pub fn divide(a: i128, b: i128) -> (q: i128)
    requires
        b != 0,
        in_range(quotient(a as int, b as int)),
    ensures
        q == quotient(a as int, b as int),
{
    a.checked_div(b).unwrap()
}

/// Divides by a positive number, rounding towards zero, and keeps what is left.
pub fn divide_with_rest(a: i128, b: i128) -> (parts: (i128, i128))
    requires
        b > 0,
    ensures
        parts.0 == quotient(a as int, b as int),
        parts.1 == remainder(a as int, b as int),
{
    proof {
        lemma_quotient_in_range(a as int, b as int);
        lemma_remainder_bounds(a as int, b as int);
    }
    let q: i128 = divide(a, b);
    (q, a - b * q)
}

/// Whether `a + b` can be represented.
pub fn sum_fits(a: i128, b: i128) -> (fits: bool)
    ensures
        fits == in_range(a + b),
{
    a.checked_add(b).is_some()
}

/// Whether `a - b` can be represented.
pub fn difference_fits(a: i128, b: i128) -> (fits: bool)
    ensures
        fits == in_range(a - b),
{
    a.checked_sub(b).is_some()
}

/// `a * b / c`, rounded towards zero, if the product and the quotient can be
/// represented.
pub fn scaled(a: i128, b: i128, c: i128) -> (q: Option<i128>)
    requires
        c != 0,
    ensures
        q is Some <==> in_range(a * b) && in_range(quotient(a * b, c as int)),
        q is Some ==> q->0 == quotient(a * b, c as int),
{
    match a.checked_mul(b) {
        Some(p) => p.checked_div(c),
        None => None,
    }
}

/// For amounts that are not negative, rounding towards zero is rounding down.
pub proof fn lemma_quotient_floors(a: int, b: int)
    requires
        a >= 0,
        b > 0,
    ensures
        quotient(a, b) == a / b,
        remainder(a, b) == a % b,
        0 <= quotient(a, b) <= a,
        0 <= remainder(a, b) < b,
        b * quotient(a, b) <= a,
        a < b * quotient(a, b) + b,
{
    vstd::arithmetic::div_mod::lemma_fundamental_div_mod(a, b);
    vstd::arithmetic::div_mod::lemma_mod_bound(a, b);
    vstd::arithmetic::div_mod::lemma_div_pos_is_pos(a, b);
    vstd::arithmetic::div_mod::lemma_div_nonincreasing(a, b);
}

/// Dividing by a positive number does not leave the range.
pub proof fn lemma_quotient_in_range(a: int, b: int)
    requires
        in_range(a),
        b > 0,
    ensures
        in_range(quotient(a, b)),
{
    if a >= 0 {
        lemma_quotient_floors(a, b);
    } else {
        lemma_quotient_floors(-a, b);
    }
}

/// What a division leaves is smaller than the divisor and on the same side of zero
/// as what was divided.
pub proof fn lemma_remainder_bounds(a: int, b: int)
    requires
        b > 0,
    ensures
        a >= 0 ==> 0 <= b * quotient(a, b) <= a && 0 <= remainder(a, b) < b,
        a < 0 ==> a <= b * quotient(a, b) <= 0 && -b < remainder(a, b) <= 0,
{
    if a >= 0 {
        lemma_quotient_floors(a, b);
        vstd::arithmetic::mul::lemma_mul_nonnegative(b, quotient(a, b));
    } else {
        lemma_quotient_floors(-a, b);
        vstd::arithmetic::mul::lemma_mul_nonnegative(b, quotient(-a, b));
        vstd::arithmetic::mul::lemma_mul_unary_negation(b, quotient(-a, b));
    }
}

/// Quotients of amounts that are not negative are ordered as the fractions are.
pub proof fn lemma_quotient_ordered(a: int, b: int, c: int, d: int)
    requires
        a >= 0,
        c >= 0,
        b > 0,
        d > 0,
        a * d <= c * b,
    ensures
        quotient(a, b) <= quotient(c, d),
{
    lemma_quotient_floors(a, b);
    lemma_quotient_floors(c, d);
    let x = quotient(a, b);
    let y = quotient(c, d);
    if x > y {
        assert(b * d * x <= a * d) by (nonlinear_arith)
            requires
                b * x <= a,
                d > 0,
        ;
        assert(c * b < (d * y + d) * b) by (nonlinear_arith)
            requires
                c < d * y + d,
                b > 0,
        ;
        assert((d * y + d) * b <= b * d * x) by (nonlinear_arith)
            requires
                x >= y + 1,
                b > 0,
                d > 0,
        ;
    }
}

} // verus!
