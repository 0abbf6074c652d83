//! Division of two integers that rounds toward zero, with the zero divisor
//! reported as an error.

use vstd::prelude::*;

verus! {

/// The divisor was zero.
#[derive(Debug, PartialEq, Eq, Structural)]
pub struct DivisionByZeroError;

/// The quotient of `a` by `b`, rounded toward zero.
///
/// The built-in `/` on `int` rounds so that the remainder is never negative;
/// this one takes the quotient of the magnitudes and gives it the sign of the
/// exact quotient. For `b == 0` it is zero.
pub open spec fn truncated_quotient(a: int, b: int) -> int {
    if b == 0 {
        0
    } else if (a >= 0) == (b > 0) {
        magnitude(a) / magnitude(b)
    } else {
        -(magnitude(a) / magnitude(b))
    }
}

/// The absolute value of `x`.
pub open spec fn magnitude(x: int) -> int {
    if x >= 0 {
        x
    } else {
        -x
    }
}

/// Whether `a / b` has no value in `i32`: the one such pair with a non-zero
/// divisor is the least `i32` divided by minus one.
pub open spec fn quotient_overflows(a: int, b: int) -> bool {
    a == i32::MIN && b == -1
}

/// On a negative divisor the built-in quotient of a non-negative number is
/// the negated quotient by the divisor's magnitude.
proof fn lemma_quotient_by_negative(x: int, d: int)
    requires
        x >= 0,
        d < 0,
    ensures
        x / d == -(x / (-d)),
{
    assert(x / d == -(x / (-d))) by (nonlinear_arith)
        requires
            x >= 0,
            d < 0,
    ;
}

/// The quotient of the magnitudes lies between zero and the dividend's
/// magnitude, and below it when the divisor's magnitude is above one.
proof fn lemma_magnitude_quotient_bounds(a: int, b: int)
    requires
        b != 0,
    ensures
        0 <= magnitude(a) / magnitude(b) <= magnitude(a),
        magnitude(b) > 1 && a != 0 ==> magnitude(a) / magnitude(b) < magnitude(a),
{
    vstd::arithmetic::div_mod::lemma_div_pos_is_pos(magnitude(a), magnitude(b));
    vstd::arithmetic::div_mod::lemma_div_nonincreasing(magnitude(a), magnitude(b));
    if magnitude(b) > 1 && a != 0 {
        vstd::arithmetic::div_mod::lemma_div_decreases(magnitude(a), magnitude(b));
    }
}

/// Rounding toward zero: the quotient times the divisor never passes the
/// dividend, what is left over is smaller in magnitude than the divisor, and
/// it lies on the dividend's side of zero.
pub proof fn lemma_truncated_quotient_rounds_toward_zero(a: int, b: int)
    requires
        b != 0,
    ensures
        magnitude(a - truncated_quotient(a, b) * b) < magnitude(b),
        a >= 0 ==> 0 <= a - truncated_quotient(a, b) * b,
        a <= 0 ==> a - truncated_quotient(a, b) * b <= 0,
{
    let m = magnitude(a) / magnitude(b);
    vstd::arithmetic::div_mod::lemma_fundamental_div_mod(magnitude(a), magnitude(b));
    vstd::arithmetic::div_mod::lemma_mod_bound(magnitude(a), magnitude(b));
    assert(magnitude(a) == magnitude(b) * m + magnitude(a) % magnitude(b));
    assert(magnitude(b) * m == m * magnitude(b)) by (nonlinear_arith);
    assert((-m) * b == -(m * b)) by (nonlinear_arith);
    assert(m * (-b) == -(m * b)) by (nonlinear_arith);
}

/// No other integer rounds the exact quotient toward zero: whatever meets
/// the three conditions of rounding is the truncated quotient.
pub proof fn lemma_truncated_quotient_unique(a: int, b: int, q: int)
    requires
        b != 0,
        magnitude(a - q * b) < magnitude(b),
        a >= 0 ==> 0 <= a - q * b,
        a <= 0 ==> a - q * b <= 0,
    ensures
        q == truncated_quotient(a, b),
{
    let t = truncated_quotient(a, b);
    lemma_truncated_quotient_rounds_toward_zero(a, b);
    assert((q - t) * b == q * b - t * b) by (nonlinear_arith);
    assert(magnitude((q - t) * b) < magnitude(b));
    assert(q - t == 0) by (nonlinear_arith)
        requires
            b != 0,
            -magnitude(b) < (q - t) * b < magnitude(b),
            magnitude(b) == b || magnitude(b) == -b,
    ;
}

/// Divides `pair.0` by `pair.1`, rounding toward zero.
///
/// A zero divisor is an error, whatever the dividend. The one quotient that
/// `i32` cannot hold, that of the least `i32` by minus one, is left out.
pub fn safe_div(pair: (i32, i32)) -> (res: Result<i32, DivisionByZeroError>)
    requires
        !quotient_overflows(pair.0 as int, pair.1 as int),
    ensures
        pair.1 == 0 <==> res is Err,
        res is Ok ==> res->Ok_0 as int == truncated_quotient(pair.0 as int, pair.1 as int),
{
    let (a, b) = pair;
    if b == 0 {
        return Err(DivisionByZeroError);
    }
    proof {
        lemma_magnitude_quotient_bounds(a as int, b as int);
        if b < 0 {
            lemma_quotient_by_negative(magnitude(a as int), b as int);
        }
    }
    Ok(a / b)
}

} // verus!
