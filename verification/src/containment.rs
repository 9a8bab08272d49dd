//! Every point of a reactance arc lies in the unit disk, up to the one grid
//! step by which a square root is cut off.

use crate::curve::{arc_point, remap, rim_imaginary, rim_real, shallow_imaginary, steep_real};
use crate::geometry::Coords;
use crate::reals::{
    lemma_div_cancel, lemma_div_nonnegative, lemma_le_of_square_le, lemma_lt_of_square_lt,
    lemma_mul_cancel, lemma_mul_le, lemma_mul_le_cancel, lemma_mul_nonnegative, lemma_square_le,
    lemma_square_nonnegative, lemma_square_positive,
};
use crate::scalar::{lemma_root_floor, root_floor, root_step};
use crate::symmetry::lemma_arc_mirror;
use vstd::prelude::*;

verus! {

/// The square of the distance of a point from the centre of the chart.
pub open spec fn norm_squared(p: Coords) -> real {
    p.x * p.x + p.y * p.y
}

/// The square of the largest distance from the centre that a point of an arc
/// can have: one grid step more than one.
pub open spec fn reach_squared() -> real {
    (1real + root_step()) * (1real + root_step())
}

/// The reach, multiplied out.
proof fn lemma_reach(step: real)
    requires
        step == root_step(),
    ensures
        reach_squared() == 1real + 2real * step + step * step,
        step > 0real,
        step * step >= 0real,
{
    assert((1real + step) * (1real + step) == 1real + 2real * step + step * step)
        by (nonlinear_arith);
    lemma_square_nonnegative(step);
}

/// A sample of the range from `low` to `high` lies in that range.
proof fn lemma_sample_between(t: real, low: real, high: real)
    requires
        0real <= t <= 1real,
        low <= high,
    ensures
        low <= (1real - t) * low + t * high <= high,
{
    assert((1real - t) * low + t * high == low + t * (high - low)) by (nonlinear_arith);
    assert((1real - t) * low + t * high == high - (1real - t) * (high - low))
        by (nonlinear_arith);
    lemma_mul_nonnegative(t, high - low);
    lemma_mul_nonnegative(1real - t, high - low);
}

/// The `i`-th of 128 steps through the range from `low` to `high` lies in
/// that range.
proof fn lemma_remap_between(i: int, low: real, high: real)
    requires
        0 <= i <= 128,
        low <= high,
    ensures
        low <= remap(i as real, 0real, 128real, low, high) <= high,
{
    let t = (i as real - 0real) / (128real - 0real);
    assert(0real <= t <= 1real);
    lemma_sample_between(t, low, high);
}

/// The algebra of the arc of a reactance `x >= 1`, with the imaginary part
/// written as `w * x`.
proof fn lemma_steep_algebra(x: real, w: real, gi: real)
    requires
        gi == w * x,
    ensures
        gi * (1real + x * x) == (w * (1real + x * x)) * x,
        (w * (1real + x * x)) * w == w * w + gi * gi,
        (2real * w - gi * gi) * x == gi * (2real - x * gi),
{
    assert((w * x) * (1real + x * x) == (w * (1real + x * x)) * x) by (nonlinear_arith);
    assert((w * (1real + x * x)) * w == w * w + (w * x) * (w * x)) by (nonlinear_arith);
    assert((2real * w - (w * x) * (w * x)) * x == (w * x) * (2real - x * (w * x)))
        by (nonlinear_arith);
}

/// On the arc of a reactance `x >= 1`, a point whose imaginary part lies
/// between zero and the rim is within reach.
proof fn lemma_steep_in_disk(x: real, gi: real)
    requires
        x >= 1real,
        0real <= gi <= rim_imaginary(x),
    ensures
        norm_squared(Coords { x: steep_real(x, gi), y: gi }) <= reach_squared(),
{
    let step = root_step();
    lemma_reach(step);
    let n1 = 1real + x * x;
    let e = rim_imaginary(x);
    lemma_square_nonnegative(x);
    lemma_div_cancel(2real * x, n1);
    lemma_mul_le(gi, e, n1);
    assert(gi * n1 <= 2real * x);
    let w = gi / x;
    lemma_div_cancel(gi, x);
    lemma_div_nonnegative(gi, x);
    lemma_steep_algebra(x, w, gi);
    let u = w * n1;
    lemma_mul_le_cancel(u, 2real, x);
    assert(u <= 2real);
    lemma_mul_le(u, 2real, w);
    assert(w * w + gi * gi <= 2real * w);
    let above = gi * (2real - x * gi);
    let rho = above / x;
    lemma_div_cancel(above, x);
    lemma_mul_cancel(rho, 2real * w - gi * gi, x);
    assert(rho == 2real * w - gi * gi);
    lemma_square_nonnegative(w);
    assert(w * w <= rho);
    lemma_root_floor(rho);
    let s = root_floor(rho);
    lemma_lt_of_square_lt(w, s + step);
    assert(w < s + step);
    assert((1real - s) * (1real - s) == 1real - 2real * s + s * s) by (nonlinear_arith);
    assert(steep_real(x, gi) == 1real - s);
}

/// The algebra of the arc of a reactance `0 < x < 1`, with `k = 1 / x`,
/// `h = 1 - gr`, `g0 = x h` and `q = k - g0`.
proof fn lemma_shallow_algebra(x: real, k: real, unit: real, gr: real, h: real, g0: real, q: real)
    requires
        unit == k * x,
        unit == 1real,
        gr == 1real - h,
        g0 == x * h,
        q == k - g0,
    ensures
        (k * k) * (x * x) == 1real,
        (gr - 1real) * (gr - 1real) == h * h,
        (1real - gr) * (x * x + 1real) == (x * x + 1real) - gr * (x * x + 1real),
        q * q == k * k - 2real * h + g0 * g0,
        g0 * g0 == (x * x) * (h * h),
        h * (2real - h * (x * x + 1real)) == 2real * h - h * h - (x * x) * (h * h),
        gr * gr == 1real - 2real * h + h * h,
        g0 * (x * x + 1real) == (h * (x * x + 1real)) * x,
        (x - 1real) * (x - 1real) == x * x - 2real * x + 1real,
{
    assert((k * k) * (x * x) == (k * x) * (k * x)) by (nonlinear_arith);
    assert(unit * unit == 1real) by (nonlinear_arith)
        requires
            unit == 1real,
    ;
    assert((k * x) * (k * x) == unit * unit);
    assert(((1real - h) - 1real) * ((1real - h) - 1real) == h * h) by (nonlinear_arith);
    assert((1real - gr) * (x * x + 1real) == (x * x + 1real) - gr * (x * x + 1real))
        by (nonlinear_arith);
    assert((k - x * h) * (k - x * h) == k * k - 2real * ((k * x) * h) + (x * h) * (x * h))
        by (nonlinear_arith);
    assert(unit * h == h) by (nonlinear_arith)
        requires
            unit == 1real,
    ;
    assert((k * x) * h == unit * h);
    assert((x * h) * (x * h) == (x * x) * (h * h)) by (nonlinear_arith);
    assert(h * (2real - h * (x * x + 1real)) == 2real * h - h * h - (x * x) * (h * h))
        by (nonlinear_arith);
    assert((1real - h) * (1real - h) == 1real - 2real * h + h * h) by (nonlinear_arith);
    assert((x * h) * (x * x + 1real) == (h * (x * x + 1real)) * x) by (nonlinear_arith);
    assert((x - 1real) * (x - 1real) == x * x - 2real * x + 1real) by (nonlinear_arith);
}

/// On the arc of a reactance `0 < x < 1`, a point whose real part lies
/// between the rim and one is within reach.
proof fn lemma_shallow_in_disk(x: real, gr: real)
    requires
        0real < x < 1real,
        rim_real(x) <= gr <= 1real,
    ensures
        norm_squared(Coords { x: gr, y: shallow_imaginary(x, gr) }) <= reach_squared(),
{
    let step = root_step();
    lemma_reach(step);
    let n1 = x * x + 1real;
    let a = rim_real(x);
    lemma_square_positive(x);
    lemma_div_cancel(x * x - 1real, n1);
    lemma_mul_le(a, gr, n1);
    let h = 1real - gr;
    let k = 1real / x;
    lemma_div_cancel(1real, x);
    lemma_div_nonnegative(1real, x);
    let kk = 1real / (x * x);
    lemma_div_cancel(1real, x * x);
    let g0 = x * h;
    let q = k - g0;
    lemma_shallow_algebra(x, k, k * x, gr, h, g0, q);
    assert(h * n1 <= 2real);
    lemma_mul_cancel(k * k, kk, x * x);
    assert(kk == k * k);
    let rho = kk - (gr - 1real) * (gr - 1real);
    assert(rho == k * k - h * h);
    let slack = h * (2real - h * n1);
    lemma_mul_nonnegative(h, 2real - h * n1);
    lemma_mul_nonnegative(x, h);
    assert(rho - q * q == slack);
    lemma_square_nonnegative(q);
    lemma_square_nonnegative(h);
    lemma_root_floor(rho);
    let s = root_floor(rho);
    lemma_lt_of_square_lt(q, s + step);
    lemma_le_of_square_le(s, k);
    let gi = k - s;
    assert(gi == shallow_imaginary(x, gr));
    assert(0real <= gi <= g0 + step);
    assert(gr * gr + g0 * g0 == 1real - slack);
    lemma_mul_le(h * n1, 2real, x);
    lemma_square_nonnegative(x - 1real);
    assert(g0 * n1 <= n1);
    lemma_mul_le_cancel(g0, 1real, n1);
    assert(g0 <= 1real);
    lemma_square_le(gi, g0 + step);
    assert((g0 + step) * (g0 + step) == g0 * g0 + 2real * (g0 * step) + step * step)
        by (nonlinear_arith);
    lemma_mul_le(g0, 1real, step);
    assert(gi * gi <= g0 * g0 + 2real * step + step * step);
}

/// The points of the arc of a reactance that is not negative are within
/// reach.
proof fn lemma_upper_arc_in_disk(x: real, i: int)
    requires
        0 <= i <= 128,
        x >= 0real,
    ensures
        norm_squared(arc_point(x, i)) <= reach_squared(),
{
    let step = root_step();
    lemma_reach(step);
    lemma_square_nonnegative(x);
    if x >= 1real {
        let n1 = 1real + x * x;
        let e = rim_imaginary(x);
        lemma_div_nonnegative(2real * x, n1);
        lemma_remap_between(i, 0real, e);
        lemma_steep_in_disk(x, remap(i as real, 0real, 128real, 0real, e));
    } else {
        let n1 = x * x + 1real;
        let a = rim_real(x);
        lemma_div_cancel(x * x - 1real, n1);
        assert(a * n1 <= 1real * n1);
        lemma_mul_le_cancel(a, 1real, n1);
        lemma_remap_between(i, a, 1real);
        let gr = remap(i as real, 0real, 128real, a, 1real);
        if x > 0real {
            lemma_shallow_in_disk(x, gr);
        } else {
            assert(x * x == 0real) by (nonlinear_arith)
                requires
                    x == 0real,
            ;
            lemma_mul_cancel(a, -1real, n1);
            assert(a == -1real);
            assert(gr * gr <= 1real) by (nonlinear_arith)
                requires
                    -1real <= gr <= 1real,
            ;
            assert(shallow_imaginary(x, gr) == 0real);
        }
    }
}

/// Every point of every reactance arc is no further from the centre than one
/// grid step beyond the unit circle, which is less than a ten-thousandth.
pub proof fn lemma_arc_in_disk(x: real, i: int)
    requires
        0 <= i <= 128,
    ensures
        norm_squared(arc_point(x, i)) <= reach_squared(),
        norm_squared(arc_point(x, i)) <= (1real + 1real / 10000real) * (1real + 1real
            / 10000real),
{
    if x >= 0real {
        lemma_upper_arc_in_disk(x, i);
    } else {
        lemma_upper_arc_in_disk(-x, i);
        lemma_arc_mirror(-x, i);
        assert(-(-x) == x);
        let p = arc_point(-x, i);
        assert((-p.y) * (-p.y) == p.y * p.y) by (nonlinear_arith);
    }
    lemma_square_le(1real + root_step(), 1real + 1real / 10000real);
}

} // verus!
