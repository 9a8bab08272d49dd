//! Points, rectangles and complex numbers with exact coordinates, and the
//! real-valued models that the contracts speak of.

use crate::reals::{lemma_div_cancel, lemma_mul_cancel, lemma_mul_div, lemma_norm_positive};
use crate::scalar::Scalar;
use vstd::prelude::*;

verus! {

/// A point or a vector of the plane.
pub struct Coords {
    pub x: real,
    pub y: real,
}

/// An axis-aligned rectangle of pixel space, by its top-left corner and its
/// size; `y` grows downwards.
pub struct RectValue {
    pub left: real,
    pub top: real,
    pub width: real,
    pub height: real,
}

/// A complex number.
pub struct ComplexValue {
    pub re: real,
    pub im: real,
}

/// A point or a vector with exact coordinates, in pixel space or in the
/// normalized plane.
#[derive(Debug)]
pub struct Vec2 {
    pub x: Scalar,
    pub y: Scalar,
}

impl View for Vec2 {
    type V = Coords;

    open spec fn view(&self) -> Coords {
        Coords { x: self.x@, y: self.y@ }
    }
}

impl Clone for Vec2 {
    fn clone(&self) -> (copy: Self)
        ensures
            copy@ == self@,
    {
        Vec2 { x: self.x.clone(), y: self.y.clone() }
    }
}

/// A rectangle of pixel space with exact bounds.
#[derive(Debug)]
pub struct Rect {
    pub left: Scalar,
    pub top: Scalar,
    pub width: Scalar,
    pub height: Scalar,
}

impl View for Rect {
    type V = RectValue;

    open spec fn view(&self) -> RectValue {
        RectValue {
            left: self.left@,
            top: self.top@,
            width: self.width@,
            height: self.height@,
        }
    }
}

impl Clone for Rect {
    fn clone(&self) -> (copy: Self)
        ensures
            copy@ == self@,
    {
        Rect {
            left: self.left.clone(),
            top: self.top.clone(),
            width: self.width.clone(),
            height: self.height.clone(),
        }
    }
}

/// A complex number with exact parts: a normalized impedance or a reflection
/// coefficient.
#[derive(Debug)]
pub struct Complex {
    pub re: Scalar,
    pub im: Scalar,
}

impl View for Complex {
    type V = ComplexValue;

    open spec fn view(&self) -> ComplexValue {
        ComplexValue { re: self.re@, im: self.im@ }
    }
}

impl Clone for Complex {
    fn clone(&self) -> (copy: Self)
        ensures
            copy@ == self@,
    {
        Complex { re: self.re.clone(), im: self.im.clone() }
    }
}

/// The quotient of two complex numbers:
/// `(a + jb) / (c + jd) = ((ac + bd) + j(bc - ad)) / (c^2 + d^2)`.
pub open spec fn complex_quotient(n: ComplexValue, d: ComplexValue) -> ComplexValue {
    ComplexValue {
        re: (n.re * d.re + n.im * d.im) / (d.re * d.re + d.im * d.im),
        im: (n.im * d.re - n.re * d.im) / (d.re * d.re + d.im * d.im),
    }
}

/// The product of two complex numbers.
pub open spec fn complex_product(a: ComplexValue, b: ComplexValue) -> ComplexValue {
    ComplexValue { re: a.re * b.re - a.im * b.im, im: a.re * b.im + a.im * b.re }
}

/// A quotient times its divisor is the dividend.
pub proof fn lemma_quotient_times_divisor(n: ComplexValue, d: ComplexValue)
    requires
        !(d.re == 0real && d.im == 0real),
    ensures
        complex_product(complex_quotient(n, d), d) == n,
{
    let norm = d.re * d.re + d.im * d.im;
    let a = n.re * d.re + n.im * d.im;
    let b = n.im * d.re - n.re * d.im;
    let q = complex_quotient(n, d);
    lemma_norm_positive(d.re, d.im);
    lemma_div_cancel(a, norm);
    lemma_div_cancel(b, norm);
    assert(q.re * norm == a);
    assert(q.im * norm == b);
    assert(q.re * d.re * norm == a * d.re) by (nonlinear_arith)
        requires
            q.re * norm == a,
    ;
    assert(q.im * d.im * norm == b * d.im) by (nonlinear_arith)
        requires
            q.im * norm == b,
    ;
    assert(q.re * d.im * norm == a * d.im) by (nonlinear_arith)
        requires
            q.re * norm == a,
    ;
    assert(q.im * d.re * norm == b * d.re) by (nonlinear_arith)
        requires
            q.im * norm == b,
    ;
    assert(a * d.re - b * d.im == n.re * norm) by (nonlinear_arith)
        requires
            norm == d.re * d.re + d.im * d.im,
            a == n.re * d.re + n.im * d.im,
            b == n.im * d.re - n.re * d.im,
    ;
    assert(a * d.im + b * d.re == n.im * norm) by (nonlinear_arith)
        requires
            norm == d.re * d.re + d.im * d.im,
            a == n.re * d.re + n.im * d.im,
            b == n.im * d.re - n.re * d.im,
    ;
    let p = complex_product(q, d);
    assert(p.re * norm == n.re * norm) by (nonlinear_arith)
        requires
            p.re == q.re * d.re - q.im * d.im,
            q.re * d.re * norm == a * d.re,
            q.im * d.im * norm == b * d.im,
            a * d.re - b * d.im == n.re * norm,
    ;
    assert(p.im * norm == n.im * norm) by (nonlinear_arith)
        requires
            p.im == q.re * d.im + q.im * d.re,
            q.re * d.im * norm == a * d.im,
            q.im * d.re * norm == b * d.re,
            a * d.im + b * d.re == n.im * norm,
    ;
    lemma_mul_cancel(p.re, n.re, norm);
    lemma_mul_cancel(p.im, n.im, norm);
}

/// The quotient is the only number whose product with the divisor is the
/// dividend.
pub proof fn lemma_quotient_unique(g: ComplexValue, d: ComplexValue)
    requires
        !(d.re == 0real && d.im == 0real),
    ensures
        complex_quotient(complex_product(g, d), d) == g,
{
    let norm = d.re * d.re + d.im * d.im;
    let n = complex_product(g, d);
    lemma_norm_positive(d.re, d.im);
    assert(n.re * d.re + n.im * d.im == g.re * norm) by (nonlinear_arith)
        requires
            norm == d.re * d.re + d.im * d.im,
            n.re == g.re * d.re - g.im * d.im,
            n.im == g.re * d.im + g.im * d.re,
    ;
    assert(n.im * d.re - n.re * d.im == g.im * norm) by (nonlinear_arith)
        requires
            norm == d.re * d.re + d.im * d.im,
            n.re == g.re * d.re - g.im * d.im,
            n.im == g.re * d.im + g.im * d.re,
    ;
    lemma_mul_div(g.re, norm);
    lemma_mul_div(g.im, norm);
}

/// `Complex<Ratio<BigInt>>`'s `/` of `num`. The contract claims that both parts
/// of the quotient are the exact rationals of the textbook formula, which is
/// the one that `num` computes by. The division of the parts by
/// `c^2 + d^2` panics where that is zero, which `requires` leaves out.
#[verifier::external_body]
fn complex_div(n: &Complex, d: &Complex) -> (q: Complex)
    requires
        d@.re * d@.re + d@.im * d@.im != 0real,
    ensures
        q@ == complex_quotient(n@, d@),
{
    let q = num::Complex::new(n.re.q.clone(), n.im.q.clone()) / num::Complex::new(
        d.re.q.clone(),
        d.im.q.clone(),
    );
    Complex { re: Scalar { q: q.re }, im: Scalar { q: q.im } }
}

impl Complex {
    /// `self / divisor`, or `None` where the divisor is zero.
    pub fn over(&self, divisor: &Complex) -> (q: Option<Complex>)
        ensures
            q is Some <==> !(divisor@.re == 0real && divisor@.im == 0real),
            q is Some ==> q->Some_0@ == complex_quotient(self@, divisor@),
    {
        if divisor.re.is_zero() && divisor.im.is_zero() {
            None
        } else {
            proof {
                lemma_norm_positive(divisor@.re, divisor@.im);
            }
            Some(complex_div(self, divisor))
        }
    }

    /// `self * other`.
    pub fn times(&self, other: &Complex) -> (product: Complex)
        ensures
            product@ == complex_product(self@, other@),
    {
        let re = self.re.times(&other.re).minus(&self.im.times(&other.im));
        let im = self.re.times(&other.im).plus(&self.im.times(&other.re));
        Complex { re, im }
    }
}

} // verus!
