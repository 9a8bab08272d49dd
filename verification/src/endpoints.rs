//! Where the arcs begin and end: every arc runs between the point `(1, 0)`
//! and the unit circle, up to the one grid step by which a square root is cut
//! off.

use crate::containment::norm_squared;
use crate::curve::{arc_point, is_steep, remap, rim_imaginary, rim_real};
use crate::geometry::Coords;
use crate::reals::{
    lemma_div_cancel, lemma_div_nonnegative, lemma_le_of_square_le, lemma_lt_of_square_lt,
    lemma_mul_cancel, lemma_mul_le_cancel, lemma_square_nonnegative, lemma_square_positive,
};
use crate::scalar::{lemma_root_floor, root_floor, root_step};
use crate::symmetry::{lemma_arc_mirror, lemma_rim_mirror};
use vstd::prelude::*;

verus! {

/// The point where the arc of the reactance `x` meets the unit circle.
pub open spec fn rim_point(x: real) -> Coords {
    Coords { x: rim_real(x), y: rim_imaginary(x) }
}

/// Whether `a` is less than one grid step away from `b`.
pub open spec fn within_step(a: real, b: real) -> bool {
    b - root_step() < a < b + root_step()
}

/// The end of the arc of the reactance `x` at the unit circle.
pub open spec fn rim_end(x: real) -> Coords {
    if is_steep(x) {
        arc_point(x, 128)
    } else {
        arc_point(x, 0)
    }
}

/// The end of the arc of the reactance `x` inside the chart.
pub open spec fn inner_end(x: real) -> Coords {
    if is_steep(x) {
        arc_point(x, 0)
    } else {
        arc_point(x, 128)
    }
}

/// The rim point of every reactance lies on the unit circle.
pub proof fn lemma_rim_on_unit_circle(x: real)
    ensures
        norm_squared(rim_point(x)) == 1real,
{
    let n1 = x * x + 1real;
    let a = rim_real(x);
    let e = rim_imaginary(x);
    lemma_square_nonnegative(x);
    lemma_div_cancel(x * x - 1real, n1);
    lemma_div_cancel(2real * x, 1real + x * x);
    let p = a * n1;
    let q = e * n1;
    assert(p == x * x - 1real);
    assert(q == 2real * x);
    assert((a * a + e * e) * (n1 * n1) == (a * n1) * (a * n1) + (e * n1) * (e * n1))
        by (nonlinear_arith);
    assert(p * p + q * q == n1 * n1) by (nonlinear_arith)
        requires
            p == x * x - 1real,
            q == 2real * x,
            n1 == x * x + 1real,
    ;
    lemma_square_positive(n1);
    lemma_mul_cancel(a * a + e * e, 1real, n1 * n1);
}

/// With `m = 2 / (1 + x^2)`: the rim point is `(1 - m, x m)`.
proof fn lemma_rim_algebra(x: real, m: real)
    requires
        m == 2real / (1real + x * x),
    ensures
        m >= 0real,
        m * (1real + x * x) == 2real,
        rim_imaginary(x) == x * m,
        rim_imaginary(x) * (1real + x * x) == 2real * x,
        rim_real(x) == 1real - m,
        x * (x * m) == 2real - m,
{
    let n1 = 1real + x * x;
    let e = rim_imaginary(x);
    let a = rim_real(x);
    lemma_square_nonnegative(x);
    lemma_div_cancel(2real, n1);
    lemma_div_nonnegative(2real, n1);
    lemma_div_cancel(2real * x, n1);
    lemma_div_cancel(x * x - 1real, x * x + 1real);
    assert((x * m) * n1 == 2real * x) by (nonlinear_arith)
        requires
            m * n1 == 2real,
    ;
    lemma_mul_cancel(e, x * m, n1);
    assert((1real - m) * n1 == n1 - m * n1) by (nonlinear_arith);
    lemma_mul_cancel(a, 1real - m, n1);
    assert(m * (1real + x * x) == m + x * (x * m)) by (nonlinear_arith);
}

/// The first and the last of the 128 steps through a range are its ends.
proof fn lemma_remap_ends(low: real, high: real)
    ensures
        remap(0 as real, 0real, 128real, low, high) == low,
        remap(128 as real, 0real, 128real, low, high) == high,
{
    let t = (0 as real - 0real) / (128real - 0real);
    let u = (128 as real - 0real) / (128real - 0real);
    assert((1real - t) * low + t * high == low) by (nonlinear_arith)
        requires
            t == 0real,
    ;
    assert((1real - u) * low + u * high == high) by (nonlinear_arith)
        requires
            u == 1real,
    ;
}

/// The square root of zero is zero.
proof fn lemma_root_floor_zero()
    ensures
        root_floor(0real) == 0real,
{
    lemma_root_floor(0real);
    let s = root_floor(0real);
    lemma_square_nonnegative(s);
    lemma_le_of_square_le(s, 0real);
}

/// The ends of the arc of a reactance `x >= 1`.
proof fn lemma_steep_ends(x: real)
    requires
        x >= 1real,
    ensures
        arc_point(x, 0) == (Coords { x: 1real, y: 0real }),
        arc_point(x, 128).y == rim_imaginary(x),
        rim_real(x) <= arc_point(x, 128).x < rim_real(x) + root_step(),
{
    let step = root_step();
    let m = 2real / (1real + x * x);
    let e = rim_imaginary(x);
    lemma_rim_algebra(x, m);
    lemma_remap_ends(0real, e);
    // the inner end
    assert(0real * (2real - x * 0real) == 0real) by (nonlinear_arith);
    lemma_div_cancel(0real, x);
    lemma_mul_cancel(0real / x, 0real, x);
    lemma_root_floor_zero();
    // the end at the rim
    let above = e * (2real - x * e);
    let rho = above / x;
    lemma_div_cancel(above, x);
    assert(x * e == x * (x * m));
    assert((x * m) * m == (m * m) * x) by (nonlinear_arith);
    assert(rho * x == (m * m) * x);
    lemma_mul_cancel(rho, m * m, x);
    lemma_square_nonnegative(m);
    lemma_root_floor(rho);
    let s = root_floor(rho);
    lemma_le_of_square_le(s, m);
    lemma_lt_of_square_lt(m, s + step);
    assert(arc_point(x, 128).y == e);
    assert(arc_point(x, 128).x == 1real - s);
}

/// The ends of the arc of a reactance `0 < x < 1`.
proof fn lemma_shallow_ends(x: real)
    requires
        0real < x < 1real,
    ensures
        arc_point(x, 0).x == rim_real(x),
        rim_imaginary(x) <= arc_point(x, 0).y < rim_imaginary(x) + root_step(),
        arc_point(x, 128).x == 1real,
        0real <= arc_point(x, 128).y < root_step(),
{
    let step = root_step();
    let m = 2real / (1real + x * x);
    let e = rim_imaginary(x);
    let a = rim_real(x);
    lemma_rim_algebra(x, m);
    lemma_remap_ends(a, 1real);
    let k = 1real / x;
    lemma_div_cancel(1real, x);
    lemma_div_nonnegative(1real, x);
    let kk = 1real / (x * x);
    lemma_square_positive(x);
    lemma_div_cancel(1real, x * x);
    let unit = k * x;
    assert((k * k) * (x * x) == unit * unit) by (nonlinear_arith)
        requires
            unit == k * x,
    ;
    assert(unit * unit == 1real) by (nonlinear_arith)
        requires
            unit == 1real,
    ;
    lemma_mul_cancel(k * k, kk, x * x);
    // the end at the rim
    assert((a - 1real) * (a - 1real) == m * m) by (nonlinear_arith)
        requires
            a == 1real - m,
    ;
    let rho = kk - (a - 1real) * (a - 1real);
    let f = k - e;
    assert(f * f == k * k - 2real * (unit * m) + (x * m) * (x * m)) by (nonlinear_arith)
        requires
            f == k - e,
            e == x * m,
            unit == k * x,
    ;
    assert(unit * m == m) by (nonlinear_arith)
        requires
            unit == 1real,
    ;
    assert((x * m) * (x * m) == m * (x * (x * m))) by (nonlinear_arith);
    assert(m * (x * (x * m)) == m * (2real - m));
    assert(m * (2real - m) == 2real * m - m * m) by (nonlinear_arith);
    assert(rho == f * f);
    assert(e * (1real + x * x) == 2real * x);
    lemma_square_nonnegative(x - 1real);
    assert((x - 1real) * (x - 1real) == x * x - 2real * x + 1real) by (nonlinear_arith);
    lemma_mul_le_cancel(e, 1real, 1real + x * x);
    lemma_mul_le_cancel(1real, k, x);
    assert(f >= 0real);
    lemma_square_nonnegative(f);
    lemma_root_floor(rho);
    let s = root_floor(rho);
    lemma_le_of_square_le(s, f);
    lemma_lt_of_square_lt(f, s + step);
    assert(arc_point(x, 0).x == a);
    assert(arc_point(x, 0).y == k - s);
    // the inner end
    assert((1real - 1real) * (1real - 1real) == 0real) by (nonlinear_arith);
    let inner = kk - (1real - 1real) * (1real - 1real);
    lemma_square_nonnegative(k);
    lemma_root_floor(inner);
    let t = root_floor(inner);
    lemma_le_of_square_le(t, k);
    lemma_lt_of_square_lt(k, t + step);
    assert(arc_point(x, 128).x == 1real);
    assert(arc_point(x, 128).y == k - t);
}

/// The ends of the arc of a reactance that is not negative.
proof fn lemma_upper_ends(x: real)
    requires
        x >= 0real,
    ensures
        within_step(rim_end(x).x, rim_real(x)),
        within_step(rim_end(x).y, rim_imaginary(x)),
        inner_end(x).x == 1real,
        within_step(inner_end(x).y, 0real),
{
    if x >= 1real {
        lemma_steep_ends(x);
    } else if x > 0real {
        lemma_shallow_ends(x);
    } else {
        let n1 = 0real * 0real + 1real;
        assert(0real * 0real == 0real) by (nonlinear_arith);
        lemma_div_cancel(0real * 0real - 1real, n1);
        lemma_mul_cancel(rim_real(0real), -1real, n1);
        lemma_div_cancel(2real * 0real, 1real + 0real * 0real);
        lemma_mul_cancel(rim_imaginary(0real), 0real, 1real + 0real * 0real);
    }
}

/// Every arc begins and ends where it should: one end is less than a grid
/// step away from the point where the locus meets the unit circle, the other
/// has the real part one and an imaginary part of less than a grid step.
pub proof fn lemma_arc_ends(x: real)
    ensures
        within_step(rim_end(x).x, rim_real(x)),
        within_step(rim_end(x).y, rim_imaginary(x)),
        inner_end(x).x == 1real,
        within_step(inner_end(x).y, 0real),
{
    if x >= 0real {
        lemma_upper_ends(x);
    } else {
        lemma_upper_ends(-x);
        lemma_rim_mirror(-x);
        lemma_arc_mirror(-x, 0);
        lemma_arc_mirror(-x, 128);
        assert(-(-x) == x);
    }
}

} // verus!
