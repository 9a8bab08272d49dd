//! The arcs of the reactances `x` and `-x` are mirror images of each other.

use crate::curve::{
    arc_point, is_steep, remap, rim_imaginary, rim_real, shallow_imaginary, steep_real,
};
use crate::geometry::Coords;
use crate::reals::{lemma_div_neg, lemma_neg_div, lemma_square_nonnegative};
use vstd::prelude::*;

verus! {

/// The mirror image of a point in the axis of the reactance zero.
pub open spec fn mirror(p: Coords) -> Coords {
    Coords { x: p.x, y: -p.y }
}

/// Where the arcs of `x` and of `-x` meet the unit circle.
pub proof fn lemma_rim_mirror(x: real)
    ensures
        (-x) * (-x) == x * x,
        rim_imaginary(-x) == -rim_imaginary(x),
        rim_real(-x) == rim_real(x),
{
    assert((-x) * (-x) == x * x) by (nonlinear_arith);
    lemma_square_nonnegative(x);
    lemma_neg_div(2real * x, 1real + x * x);
    assert(2real * (-x) == -(2real * x));
}

/// The real part on the arc of `-x` at `-gi` is that on the arc of `x` at
/// `gi`.
proof fn lemma_steep_mirror(x: real, gi: real)
    requires
        x != 0real,
    ensures
        steep_real(-x, -gi) == steep_real(x, gi),
{
    let above = gi * (2real - x * gi);
    assert((-gi) * (2real - (-x) * (-gi)) == -(gi * (2real - x * gi))) by (nonlinear_arith);
    lemma_neg_div(above, -x);
    lemma_div_neg(above, x);
    assert((-above) / (-x) == above / x);
}

/// A sample of a range that starts at zero changes its sign with the end of
/// the range.
proof fn lemma_remap_odd(t: real, e: real)
    ensures
        (1real - t) * 0real + t * (-e) == -((1real - t) * 0real + t * e),
{
    assert((1real - t) * 0real + t * (-e) == -((1real - t) * 0real + t * e))
        by (nonlinear_arith);
}

/// The imaginary part on the arc of `-x` at `gr` is the negative of that on
/// the arc of `x`.
proof fn lemma_shallow_mirror(x: real, gr: real)
    ensures
        shallow_imaginary(-x, gr) == -shallow_imaginary(x, gr),
{
    assert((-x) * (-x) == x * x) by (nonlinear_arith);
    if x != 0real {
        lemma_div_neg(1real, x);
    }
}

/// The arcs of the reactances `x` and `-x` are mirror images of each other,
/// point by point.
pub proof fn lemma_arc_mirror(x: real, i: int)
    ensures
        arc_point(-x, i) == mirror(arc_point(x, i)),
{
    lemma_rim_mirror(x);
    let t = (i as real - 0real) / (128real - 0real);
    if is_steep(x) {
        let e = rim_imaginary(x);
        let gi = remap(i as real, 0real, 128real, 0real, e);
        let gj = remap(i as real, 0real, 128real, 0real, rim_imaginary(-x));
        lemma_remap_odd(t, e);
        assert(gj == -gi);
        lemma_steep_mirror(x, gi);
    } else {
        let gr = remap(i as real, 0real, 128real, rim_real(x), 1real);
        lemma_shallow_mirror(x, gr);
    }
}

} // verus!
