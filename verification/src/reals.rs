//! Small facts of real arithmetic that the proofs of the crate are built from.

use vstd::prelude::*;

verus! {

/// A square is not negative.
pub proof fn lemma_square_nonnegative(a: real)
    ensures
        a * a >= 0real,
{
    assert(a * a >= 0real) by (nonlinear_arith);
}

/// The square of a number other than zero is positive.
pub proof fn lemma_square_positive(a: real)
    requires
        a != 0real,
    ensures
        a * a > 0real,
{
    assert(a * a > 0real) by (nonlinear_arith)
        requires
            a != 0real,
    ;
}

/// The sum of two squares is zero only where both numbers are.
pub proof fn lemma_norm_positive(a: real, b: real)
    requires
        !(a == 0real && b == 0real),
    ensures
        a * a + b * b > 0real,
{
    lemma_square_nonnegative(a);
    lemma_square_nonnegative(b);
    if a != 0real {
        lemma_square_positive(a);
    } else {
        lemma_square_positive(b);
    }
}

/// Division undoes multiplication: `a / b * b == a`.
pub proof fn lemma_div_cancel(a: real, b: real)
    requires
        b != 0real,
    ensures
        a / b * b == a,
{
    assert(a / b * b == a) by (nonlinear_arith)
        requires
            b != 0real,
    ;
}

/// Multiplication undoes division: `a * b / b == a`.
pub proof fn lemma_mul_div(a: real, b: real)
    requires
        b != 0real,
    ensures
        a * b / b == a,
{
    assert(a * b / b == a) by (nonlinear_arith)
        requires
            b != 0real,
    ;
}

/// A factor other than zero can be cancelled from an equation.
pub proof fn lemma_mul_cancel(a: real, b: real, c: real)
    requires
        c != 0real,
        a * c == b * c,
    ensures
        a == b,
{
    assert(a == b) by (nonlinear_arith)
        requires
            c != 0real,
            a * c == b * c,
    ;
}

/// The product of two numbers that are not negative is not negative.
pub proof fn lemma_mul_nonnegative(a: real, b: real)
    requires
        a >= 0real,
        b >= 0real,
    ensures
        a * b >= 0real,
{
    assert(a * b >= 0real) by (nonlinear_arith)
        requires
            a >= 0real,
            b >= 0real,
    ;
}

/// Multiplying both sides of an inequality by a number that is not negative
/// keeps it.
pub proof fn lemma_mul_le(a: real, b: real, c: real)
    requires
        a <= b,
        c >= 0real,
    ensures
        a * c <= b * c,
{
    assert(a * c <= b * c) by (nonlinear_arith)
        requires
            a <= b,
            c >= 0real,
    ;
}

/// Between numbers that are not negative, the order of the squares is the
/// order of the numbers.
pub proof fn lemma_square_le(a: real, b: real)
    requires
        0real <= a <= b,
    ensures
        a * a <= b * b,
{
    assert(a * a <= b * b) by (nonlinear_arith)
        requires
            0real <= a <= b,
    ;
}

/// A number that is not negative and whose square is below that of a positive
/// number is below that number.
pub proof fn lemma_lt_of_square_lt(a: real, b: real)
    requires
        b > 0real,
        a * a < b * b,
    ensures
        a < b,
{
    assert(a < b) by (nonlinear_arith)
        requires
            b > 0real,
            a * a < b * b,
    ;
}

/// Between numbers that are not negative, the order of the numbers is the
/// order of the squares.
pub proof fn lemma_le_of_square_le(a: real, b: real)
    requires
        b >= 0real,
        a * a <= b * b,
    ensures
        a <= b,
{
    assert(a <= b) by (nonlinear_arith)
        requires
            b >= 0real,
            a * a <= b * b,
    ;
}

/// A factor that is positive can be cancelled from an inequality.
pub proof fn lemma_mul_le_cancel(a: real, b: real, c: real)
    requires
        c > 0real,
        a * c <= b * c,
    ensures
        a <= b,
{
    assert(a <= b) by (nonlinear_arith)
        requires
            c > 0real,
            a * c <= b * c,
    ;
}

/// The sign of a quotient is that of its dividend: `(-a) / b == -(a / b)`.
pub proof fn lemma_neg_div(a: real, b: real)
    requires
        b != 0real,
    ensures
        (-a) / b == -(a / b),
{
    lemma_div_cancel(a, b);
    lemma_div_cancel(-a, b);
    let p = (-a) / b;
    let q = a / b;
    assert(p * b == (-q) * b) by (nonlinear_arith)
        requires
            p * b == -a,
            q * b == a,
    ;
    lemma_mul_cancel(p, -q, b);
}

/// The sign of a quotient turns with that of its divisor:
/// `a / (-b) == -(a / b)`.
pub proof fn lemma_div_neg(a: real, b: real)
    requires
        b != 0real,
    ensures
        a / (-b) == -(a / b),
{
    lemma_div_cancel(a, b);
    lemma_div_cancel(a, -b);
    let p = a / (-b);
    let q = a / b;
    assert(p * b == (-q) * b) by (nonlinear_arith)
        requires
            p * (-b) == a,
            q * b == a,
    ;
    lemma_mul_cancel(p, -q, b);
}

/// The quotient of a number that is not negative by a positive one is not
/// negative.
pub proof fn lemma_div_nonnegative(a: real, b: real)
    requires
        a >= 0real,
        b > 0real,
    ensures
        a / b >= 0real,
{
    let q = a / b;
    lemma_div_cancel(a, b);
    assert(q >= 0real) by (nonlinear_arith)
        requires
            q * b == a,
            a >= 0real,
            b > 0real,
    ;
}

} // verus!
