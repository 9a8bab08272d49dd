//! The coordinate transforms: pixel space, the normalized plane, the gamma
//! plane and the impedance plane.
//!
//! Pixel space has its origin at the top-left corner and `y` growing
//! downwards. The normalized plane has its origin at the centre of the
//! rectangle, `y` growing upwards, and the unit circle inscribed in the
//! rectangle.

use crate::chart::SmithChart;
use crate::geometry::{
    complex_product, complex_quotient, lemma_quotient_times_divisor, lemma_quotient_unique,
    Complex, ComplexValue, Coords, Rect, RectValue, Vec2,
};
use crate::reals::{lemma_div_cancel, lemma_mul_div};
use crate::scalar::Scalar;
use vstd::prelude::*;

verus! {

/// From pixel space to the normalized plane of `rect`.
pub open spec fn to_local(rect: RectValue, p: Coords) -> Coords {
    Coords {
        x: (p.x - rect.left) / rect.width * 2real - 1real,
        y: -(p.y - rect.top) / rect.height * 2real + 1real,
    }
}

/// From the normalized plane of `rect` to pixel space.
pub open spec fn to_pixel(rect: RectValue, v: Coords) -> Coords {
    Coords {
        x: rect.left + (v.x + 1real) / 2real * rect.width,
        y: rect.top + (1real - (v.y + 1real) / 2real) * rect.height,
    }
}

/// A length of the normalized plane, in pixels of `rect`.
pub open spec fn scale_length(rect: RectValue, length: real) -> real {
    length * rect.width / 2real
}

/// From the normalized plane to the gamma plane, whose imaginary axis points
/// the other way.
pub open spec fn local_to_gamma(v: Coords) -> ComplexValue {
    ComplexValue { re: v.x, im: -v.y }
}

/// From the gamma plane to the normalized plane.
pub open spec fn gamma_to_local(gamma: ComplexValue) -> Coords {
    Coords { x: gamma.re, y: -gamma.im }
}

/// The normalized impedance of a reflection coefficient:
/// `z = (1 + gamma) / (1 - gamma)`.
pub open spec fn gamma_to_z(gamma: ComplexValue) -> ComplexValue {
    complex_quotient(
        ComplexValue { re: 1real + gamma.re, im: gamma.im },
        ComplexValue { re: 1real - gamma.re, im: -gamma.im },
    )
}

/// The reflection coefficient of a normalized impedance:
/// `gamma = (z - 1) / (z + 1)`.
pub open spec fn z_to_gamma(z: ComplexValue) -> ComplexValue {
    complex_quotient(
        ComplexValue { re: z.re - 1real, im: z.im },
        ComplexValue { re: z.re + 1real, im: z.im },
    )
}

/// Along one axis: a pixel taken to the normalized axis and back.
proof fn lemma_axis_round_trip(origin: real, extent: real, p: real)
    requires
        extent != 0real,
    ensures
        origin + ((p - origin) / extent * 2real - 1real + 1real) / 2real * extent == p,
        origin + (1real - (-(p - origin) / extent * 2real + 1real + 1real) / 2real) * extent
            == p,
{
    let t = (p - origin) / extent;
    let u = -(p - origin) / extent;
    lemma_div_cancel(p - origin, extent);
    lemma_div_cancel(-(p - origin), extent);
    assert(origin + (t * 2real - 1real + 1real) / 2real * extent == p) by (nonlinear_arith)
        requires
            t * extent == p - origin,
    ;
    assert(origin + (1real - (u * 2real + 1real + 1real) / 2real) * extent == p)
        by (nonlinear_arith)
        requires
            u * extent == -(p - origin),
    ;
}

/// Along one axis: a normalized coordinate taken to its pixel and back.
proof fn lemma_axis_round_trip_back(origin: real, extent: real, v: real)
    requires
        extent != 0real,
    ensures
        (origin + (v + 1real) / 2real * extent - origin) / extent * 2real - 1real == v,
        -(origin + (1real - (v + 1real) / 2real) * extent - origin) / extent * 2real + 1real
            == v,
{
    let a = (v + 1real) / 2real;
    let b = -(1real - (v + 1real) / 2real);
    lemma_mul_div(a, extent);
    lemma_mul_div(b, extent);
    assert(origin + a * extent - origin == a * extent);
    assert(-(origin + (1real - (v + 1real) / 2real) * extent - origin) == b * extent)
        by (nonlinear_arith)
        requires
            b == -(1real - (v + 1real) / 2real),
    ;
}

/// A pixel mapped into the normalized plane of a rectangle that has an area,
/// and back, is the same pixel.
pub proof fn lemma_pixel_round_trip(rect: RectValue, p: Coords)
    requires
        rect.width != 0real,
        rect.height != 0real,
    ensures
        to_pixel(rect, to_local(rect, p)) == p,
{
    lemma_axis_round_trip(rect.left, rect.width, p.x);
    lemma_axis_round_trip(rect.top, rect.height, p.y);
}

/// A point of the normalized plane mapped to the pixels of a rectangle that
/// has an area, and back, is the same point.
pub proof fn lemma_local_round_trip(rect: RectValue, v: Coords)
    requires
        rect.width != 0real,
        rect.height != 0real,
    ensures
        to_local(rect, to_pixel(rect, v)) == v,
{
    lemma_axis_round_trip_back(rect.left, rect.width, v.x);
    lemma_axis_round_trip_back(rect.top, rect.height, v.y);
}

/// The two maps between the normalized plane and the gamma plane undo each
/// other.
pub proof fn lemma_gamma_local_round_trip(v: Coords, gamma: ComplexValue)
    ensures
        gamma_to_local(local_to_gamma(v)) == v,
        local_to_gamma(gamma_to_local(gamma)) == gamma,
{
}

/// A reflection coefficient other than `1` has an impedance other than `-1`,
/// and the reflection coefficient of that impedance is the one that was
/// given.
pub proof fn lemma_gamma_round_trip(gamma: ComplexValue)
    requires
        !(gamma.re == 1real && gamma.im == 0real),
    ensures
        !(gamma_to_z(gamma).re == -1real && gamma_to_z(gamma).im == 0real),
        z_to_gamma(gamma_to_z(gamma)) == gamma,
{
    let above = ComplexValue { re: 1real + gamma.re, im: gamma.im };
    let below = ComplexValue { re: 1real - gamma.re, im: -gamma.im };
    let z = gamma_to_z(gamma);
    lemma_quotient_times_divisor(above, below);
    let back = complex_product(z, below);
    assert(back.re == 1real + gamma.re);
    assert(back.im == gamma.im);
    let n = ComplexValue { re: z.re - 1real, im: z.im };
    let d = ComplexValue { re: z.re + 1real, im: z.im };
    assert(!(d.re == 0real && d.im == 0real)) by (nonlinear_arith)
        requires
            d.re == z.re + 1real,
            d.im == z.im,
            z.re * (1real - gamma.re) - z.im * (-gamma.im) == 1real + gamma.re,
    ;
    assert(gamma.re * d.re - gamma.im * d.im == n.re) by (nonlinear_arith)
        requires
            d.re == z.re + 1real,
            d.im == z.im,
            n.re == z.re - 1real,
            z.re * (1real - gamma.re) - z.im * (-gamma.im) == 1real + gamma.re,
    ;
    assert(gamma.re * d.im + gamma.im * d.re == n.im) by (nonlinear_arith)
        requires
            d.re == z.re + 1real,
            d.im == z.im,
            n.im == z.im,
            z.re * (-gamma.im) + z.im * (1real - gamma.re) == gamma.im,
    ;
    assert(complex_product(gamma, d) == n);
    lemma_quotient_unique(gamma, d);
}

/// An impedance other than `-1` has a reflection coefficient other than `1`,
/// and the impedance of that reflection coefficient is the one that was
/// given.
pub proof fn lemma_impedance_round_trip(z: ComplexValue)
    requires
        !(z.re == -1real && z.im == 0real),
    ensures
        !(z_to_gamma(z).re == 1real && z_to_gamma(z).im == 0real),
        gamma_to_z(z_to_gamma(z)) == z,
{
    let above = ComplexValue { re: z.re - 1real, im: z.im };
    let below = ComplexValue { re: z.re + 1real, im: z.im };
    let gamma = z_to_gamma(z);
    lemma_quotient_times_divisor(above, below);
    let back = complex_product(gamma, below);
    assert(back.re == z.re - 1real);
    assert(back.im == z.im);
    let n = ComplexValue { re: 1real + gamma.re, im: gamma.im };
    let d = ComplexValue { re: 1real - gamma.re, im: -gamma.im };
    assert(!(d.re == 0real && d.im == 0real)) by (nonlinear_arith)
        requires
            d.re == 1real - gamma.re,
            d.im == -gamma.im,
            gamma.re * (z.re + 1real) - gamma.im * z.im == z.re - 1real,
    ;
    assert(z.re * d.re - z.im * d.im == n.re) by (nonlinear_arith)
        requires
            d.re == 1real - gamma.re,
            d.im == -gamma.im,
            n.re == 1real + gamma.re,
            gamma.re * (z.re + 1real) - gamma.im * z.im == z.re - 1real,
    ;
    assert(z.re * d.im + z.im * d.re == n.im) by (nonlinear_arith)
        requires
            d.re == 1real - gamma.re,
            d.im == -gamma.im,
            n.im == gamma.im,
            gamma.re * z.im + gamma.im * (z.re + 1real) == z.im,
    ;
    assert(complex_product(z, d) == n);
    lemma_quotient_unique(z, d);
}

impl SmithChart {
    /// Maps the pixel `abs` into the normalized plane of `rect`. A rectangle
    /// without width or height has no normalized plane: the result is `None`.
    pub fn abs_to_local(&self, rect: &Rect, abs: &Vec2) -> (local: Option<Vec2>)
        ensures
            local is Some <==> rect@.width != 0real && rect@.height != 0real,
            local is Some ==> local->Some_0@ == to_local(rect@, abs@),
    {
        if rect.width.is_zero() || rect.height.is_zero() {
            return None;
        }
        let one = Scalar::from_int(1);
        let two = Scalar::from_int(2);
        let x = abs.x.minus(&rect.left).over(&rect.width).times(&two).minus(&one);
        let y = abs.y.minus(&rect.top).neg().over(&rect.height).times(&two).plus(&one);
        Some(Vec2 { x, y })
    }

    /// Maps the point `local` of the normalized plane of `rect` to its pixel.
    pub fn local_to_abs(&self, rect: &Rect, local: &Vec2) -> (abs: Vec2)
        ensures
            abs@ == to_pixel(rect@, local@),
    {
        let one = Scalar::from_int(1);
        let two = Scalar::from_int(2);
        let x_normalized = local.x.plus(&one).over(&two);
        let y_normalized = local.y.plus(&one).over(&two);
        let x = rect.left.plus(&x_normalized.times(&rect.width));
        let y = rect.top.plus(&one.minus(&y_normalized).times(&rect.height));
        Vec2 { x, y }
    }

    /// Converts a length of the normalized plane to pixels of `rect`, by its
    /// width.
    pub fn scale(&self, rect: &Rect, x: &Scalar) -> (length: Scalar)
        ensures
            length@ == scale_length(rect@, x@),
    {
        let two = Scalar::from_int(2);
        x.times(&rect.width).over(&two)
    }

    /// Maps a point of the normalized plane to the gamma plane.
    pub fn local_to_gamma(&self, local: &Vec2) -> (gamma: Complex)
        ensures
            gamma@ == local_to_gamma(local@),
    {
        Complex { re: local.x.clone(), im: local.y.neg() }
    }

    /// Maps a reflection coefficient to its point of the normalized plane.
    pub fn gamma_to_local(&self, gamma: &Complex) -> (local: Vec2)
        ensures
            local@ == gamma_to_local(gamma@),
    {
        Vec2 { x: gamma.re.clone(), y: gamma.im.neg() }
    }

    /// The normalized impedance `(1 + gamma) / (1 - gamma)`, or `None` at
    /// `gamma = 1`, where the impedance is infinite.
    pub fn gamma_to_z(&self, gamma: &Complex) -> (z: Option<Complex>)
        ensures
            z is Some <==> !(gamma@.re == 1real && gamma@.im == 0real),
            z is Some ==> z->Some_0@ == gamma_to_z(gamma@),
    {
        let one = Scalar::from_int(1);
        let numerator = Complex { re: one.plus(&gamma.re), im: gamma.im.clone() };
        let denominator = Complex { re: one.minus(&gamma.re), im: gamma.im.neg() };
        numerator.over(&denominator)
    }

    /// The reflection coefficient `(z - 1) / (z + 1)`, or `None` at `z = -1`,
    /// where it is infinite.
    pub fn z_to_gamma(&self, z: &Complex) -> (gamma: Option<Complex>)
        ensures
            gamma is Some <==> !(z@.re == -1real && z@.im == 0real),
            gamma is Some ==> gamma->Some_0@ == z_to_gamma(z@),
    {
        let one = Scalar::from_int(1);
        let numerator = Complex { re: z.re.minus(&one), im: z.im.clone() };
        let denominator = Complex { re: z.re.plus(&one), im: z.im.clone() };
        numerator.over(&denominator)
    }
}

} // verus!
