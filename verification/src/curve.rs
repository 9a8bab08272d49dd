//! The loci of constant resistance and of constant reactance.
//!
//! In the gamma plane the impedances of one resistance `r` lie on a circle,
//! and those of one reactance `x` on an arc of a circle through the point
//! `(1, 0)`. Both are given in the normalized plane, with the imaginary part
//! of the reflection coefficient pointing up, and are mapped to the pixels of
//! a rectangle for drawing.

use crate::chart::SmithChart;
use crate::geometry::{Coords, Rect, RectValue, Vec2};
use crate::reals::{
    lemma_div_cancel, lemma_div_nonnegative, lemma_mul_cancel, lemma_mul_le_cancel,
    lemma_square_nonnegative, lemma_square_positive,
};
use crate::scalar::{root_floor, Scalar};
use crate::transform::{scale_length, to_pixel};
use vstd::prelude::*;

verus! {

/// A circle.
pub struct CircleValue {
    pub center: Coords,
    pub radius: real,
}

/// A circle with exact centre and radius.
#[derive(Debug)]
pub struct Circle {
    pub center: Vec2,
    pub radius: Scalar,
}

impl View for Circle {
    type V = CircleValue;

    open spec fn view(&self) -> CircleValue {
        CircleValue { center: self.center@, radius: self.radius@ }
    }
}

/// The points that a vector of exact points stands for.
pub open spec fn coords_of(points: Seq<Vec2>) -> Seq<Coords> {
    Seq::new(points.len(), |i: int| points[i]@)
}

/// The number of segments of an arc; an arc has one point more.
pub const ARC_SEGMENTS: i64 = 128;

/// The circle of the resistance `r` in the normalized plane: centre
/// `(r / (1 + r), 0)`, radius `1 / (1 + r)`.
pub open spec fn resistance_locus(r: real) -> CircleValue {
    CircleValue {
        center: Coords { x: r / (1real + r), y: 0real },
        radius: 1real / (1real + r),
    }
}

/// A circle of the normalized plane in the pixels of `rect`.
pub open spec fn pixel_circle(rect: RectValue, circle: CircleValue) -> CircleValue {
    CircleValue {
        center: to_pixel(rect, circle.center),
        radius: scale_length(rect, circle.radius),
    }
}

/// The linear map that takes `from_start` to `to_start` and `from_end` to
/// `to_end`, at `x`.
pub open spec fn remap(
    x: real,
    from_start: real,
    from_end: real,
    to_start: real,
    to_end: real,
) -> real {
    let t = (x - from_start) / (from_end - from_start);
    (1real - t) * to_start + t * to_end
}

/// Where the arc of the reactance `x` meets the unit circle: the imaginary
/// part `2x / (1 + x^2)`.
pub open spec fn rim_imaginary(x: real) -> real {
    2real * x / (1real + x * x)
}

/// Where the arc of the reactance `x` meets the unit circle: the real part
/// `(x^2 - 1) / (x^2 + 1)`.
pub open spec fn rim_real(x: real) -> real {
    (x * x - 1real) / (x * x + 1real)
}

/// Whether the arc of the reactance `x` is sampled along the imaginary axis:
/// where `|x| >= 1`.
pub open spec fn is_steep(x: real) -> bool {
    x >= 1real || x <= -1real
}

/// On the arc of a reactance with `|x| >= 1`, the real part at the imaginary
/// part `gi`: `1 - sqrt(gi (2 - x gi) / x)`.
pub open spec fn steep_real(x: real, gi: real) -> real {
    1real - root_floor(gi * (2real - x * gi) / x)
}

/// On the arc of a reactance with `|x| < 1`, the imaginary part at the real
/// part `gr`: `1/x - sqrt(1/x^2 - (gr - 1)^2)` above the axis,
/// `1/x + sqrt(1/x^2 - (gr - 1)^2)` below it, and zero on the axis itself,
/// which is the locus of the reactance zero.
pub open spec fn shallow_imaginary(x: real, gr: real) -> real {
    if x > 0real {
        1real / x - root_floor(1real / (x * x) - (gr - 1real) * (gr - 1real))
    } else if x < 0real {
        1real / x + root_floor(1real / (x * x) - (gr - 1real) * (gr - 1real))
    } else {
        0real
    }
}

/// The `i`-th point of the arc of the reactance `x` in the normalized plane.
/// Where `|x| >= 1` the imaginary part runs evenly from zero to the rim;
/// elsewhere the real part runs evenly from the rim to one.
pub open spec fn arc_point(x: real, i: int) -> Coords {
    if is_steep(x) {
        let gi = remap(i as real, 0real, 128real, 0real, rim_imaginary(x));
        Coords { x: steep_real(x, gi), y: gi }
    } else {
        let gr = remap(i as real, 0real, 128real, rim_real(x), 1real);
        Coords { x: gr, y: shallow_imaginary(x, gr) }
    }
}

/// The arc of the reactance `x` in the normalized plane: 129 points.
pub open spec fn reactance_locus(x: real) -> Seq<Coords> {
    Seq::new(129, |i: int| arc_point(x, i))
}

/// The arc of the reactance `x` in the pixels of `rect`.
pub open spec fn pixel_arc(rect: RectValue, x: real) -> Seq<Coords> {
    Seq::new(129, |i: int| to_pixel(rect, arc_point(x, i)))
}

/// The circle of a resistance has its centre on the axis and passes through
/// the point `(1, 0)`. The circle of a resistance that is not negative lies in
/// the unit disk: its radius is at most one.
pub proof fn lemma_resistance_circle(r: real)
    requires
        r != -1real,
    ensures
        resistance_locus(r).center.y == 0real,
        resistance_locus(r).center.x + resistance_locus(r).radius == 1real,
        r >= 0real ==> 0real < resistance_locus(r).radius <= 1real,
{
    let u = 1real + r;
    let c = r / u;
    let rho = 1real / u;
    lemma_div_cancel(r, u);
    lemma_div_cancel(1real, u);
    assert((c + rho) * u == c * u + rho * u) by (nonlinear_arith);
    lemma_mul_cancel(c + rho, 1real, u);
    if r >= 0real {
        lemma_div_nonnegative(1real, u);
        assert(rho != 0real) by (nonlinear_arith)
            requires
                rho * u == 1real,
        ;
        lemma_mul_le_cancel(rho, 1real, u);
    }
}

/// The arc of the reactance zero is the axis, from `(-1, 0)` to `(1, 0)` in
/// even steps.
pub proof fn lemma_zero_reactance_is_axis(i: int)
    ensures
        arc_point(0real, i) == (Coords { x: i as real / 64real - 1real, y: 0real }),
{
    let n1 = 0real * 0real + 1real;
    assert(0real * 0real == 0real) by (nonlinear_arith);
    lemma_div_cancel(0real * 0real - 1real, n1);
    lemma_mul_cancel(rim_real(0real), -1real, n1);
}

/// `remap` in exact arithmetic, for a range to map from that has a length.
pub fn remap_exact(
    x: &Scalar,
    from_start: &Scalar,
    from_end: &Scalar,
    to_start: &Scalar,
    to_end: &Scalar,
) -> (y: Scalar)
    requires
        from_end@ != from_start@,
    ensures
        y@ == remap(x@, from_start@, from_end@, to_start@, to_end@),
{
    let one = Scalar::from_int(1);
    let t = x.minus(from_start).over(&from_end.minus(from_start));
    one.minus(&t).times(to_start).plus(&t.times(to_end))
}

impl SmithChart {
    /// The circle of the resistance `r` in the pixels of `rect`, or `None` at
    /// `r = -1`, which has no circle.
    pub fn resistance_circle(&self, rect: &Rect, r: &Scalar) -> (circle: Option<Circle>)
        ensures
            circle is Some <==> r@ != -1real,
            circle is Some ==> circle->Some_0@ == pixel_circle(rect@, resistance_locus(r@)),
    {
        let one = Scalar::from_int(1);
        let zero = Scalar::from_int(0);
        let sum = one.plus(r);
        if sum.is_zero() {
            return None;
        }
        let rel_center = Vec2 { x: r.over(&sum), y: zero };
        let rel_radius = one.over(&sum);
        let center = self.local_to_abs(rect, &rel_center);
        let radius = self.scale(rect, &rel_radius);
        Some(Circle { center, radius })
    }

    /// The `i`-th point of the arc of the reactance `x` in the normalized
    /// plane.
    pub fn arc_point(&self, x: &Scalar, i: i64) -> (point: Vec2)
        ensures
            point@ == arc_point(x@, i as int),
    {
        let zero = Scalar::from_int(0);
        let one = Scalar::from_int(1);
        let two = Scalar::from_int(2);
        let n = Scalar::from_int(ARC_SEGMENTS);
        let at = Scalar::from_int(i);
        let square = x.times(x);
        proof {
            lemma_square_nonnegative(x@);
        }
        if !x.lt(&one) || !one.neg().lt(x) {
            let yend = two.times(x).over(&one.plus(&square));
            let gi = remap_exact(&at, &zero, &n, &zero, &yend);
            let radicand = gi.times(&two.minus(&x.times(&gi))).over(x);
            Vec2 { x: one.minus(&radicand.root_floor()), y: gi }
        } else {
            let xstart = square.minus(&one).over(&square.plus(&one));
            let gr = remap_exact(&at, &zero, &n, &xstart, &one);
            if x.is_zero() {
                return Vec2 { x: gr, y: zero };
            }
            proof {
                lemma_square_positive(x@);
            }
            let along = gr.minus(&one);
            let radicand = one.over(&square).minus(&along.times(&along));
            let root = radicand.root_floor();
            let gi = if zero.lt(x) {
                one.over(x).minus(&root)
            } else {
                one.over(x).plus(&root)
            };
            Vec2 { x: gr, y: gi }
        }
    }

    /// The arc of the reactance `x` in the pixels of `rect`: a polyline of
    /// 129 points from the point `(1, 0)` or from the rim of the chart.
    pub fn reactance_arc(&self, rect: &Rect, x: &Scalar) -> (points: Vec<Vec2>)
        ensures
            coords_of(points@) == pixel_arc(rect@, x@),
    {
        let mut points: Vec<Vec2> = Vec::new();
        let mut i: i64 = 0;
        while i <= ARC_SEGMENTS
            invariant
                0 <= i <= 129,
                points.len() == i,
                forall|j: int| 0 <= j < i ==> points[j]@ == to_pixel(rect@, arc_point(x@, j)),
            decreases 129 - i,
        {
            let local = self.arc_point(x, i);
            points.push(self.local_to_abs(rect, &local));
            i = i + 1;
        }
        assert(coords_of(points@) =~= pixel_arc(rect@, x@));
        points
    }
}

} // verus!
