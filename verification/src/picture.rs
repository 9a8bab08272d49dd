//! One picture of the chart: the shapes that it is made of, and which shapes
//! they are.
//!
//! A picture is a pure function of the settings of the chart and of the
//! target that the host hands over: three rectangles and the pointer. The
//! host strokes the shapes in the order of the list.

use crate::chart::SmithChartValue;
use crate::curve::{
    coords_of, lemma_resistance_circle, pixel_arc, pixel_circle, resistance_locus, Circle,
    CircleValue,
};
use crate::geometry::{complex_product, Complex, ComplexValue, Coords, Rect, RectValue, Vec2};
use crate::reals::{lemma_div_cancel, lemma_mul_cancel, lemma_norm_positive};
use crate::scalar::{root_floor, Scalar};
use crate::transform::{gamma_to_z, scale_length, to_local, to_pixel};
use vstd::prelude::*;

verus! {

/// What a shape is drawn with. The host gives each pen its width and colour.
#[derive(Clone, Copy, Debug, PartialEq, Eq, Structural)]
pub enum Pen {
    /// The thin line of the grid.
    Grid,
    /// The thick line of the circles `r = 0` and `r = 1`.
    Emphasis,
    /// The circle of the resistance under the pointer.
    Resistance,
    /// The arc of the reactance under the pointer.
    Reactance,
    /// The circle of constant standing-wave ratio through the pointer.
    Vswr,
    /// The dot at the centre of the chart, a debugging shape.
    Marker,
    /// The line from the centre to the pointer, a debugging shape.
    Pointer,
    /// The box round the chart, a debugging shape.
    Outline,
}

/// A line of text beside the chart, as numbers: the host formats them.
pub enum ReadoutValue {
    Reference { z0: ComplexValue },
    Resistance { r: real, scaled: real },
    Reactance { x: real, scaled: real },
}

/// A line of text beside the chart, as numbers: the host formats them.
#[derive(Debug)]
pub enum Readout {
    /// The characteristic impedance `Z0`.
    Reference { z0: Complex },
    /// The normalized resistance `r` and the real part of `z * Z0`.
    Resistance { r: Scalar, scaled: Scalar },
    /// The normalized reactance `x` and the imaginary part of `z * Z0`.
    Reactance { x: Scalar, scaled: Scalar },
}

impl View for Readout {
    type V = ReadoutValue;

    open spec fn view(&self) -> ReadoutValue {
        match *self {
            Readout::Reference { z0 } => ReadoutValue::Reference { z0: z0@ },
            Readout::Resistance { r, scaled } => ReadoutValue::Resistance {
                r: r@,
                scaled: scaled@,
            },
            Readout::Reactance { x, scaled } => ReadoutValue::Reactance {
                x: x@,
                scaled: scaled@,
            },
        }
    }
}

/// One shape of a picture, in pixels.
pub enum ShapeValue {
    Polyline { points: Seq<Coords>, pen: Pen },
    Circle { circle: CircleValue, pen: Pen },
    Segment { from: Coords, to: Coords, pen: Pen },
    Text { at: Coords, readout: ReadoutValue },
    Outline { rect: RectValue, pen: Pen },
}

/// One shape of a picture, in pixels.
#[derive(Debug)]
pub enum Shape {
    /// An open path through the points.
    Polyline { points: Vec<Vec2>, pen: Pen },
    /// The outline of a circle.
    Circle { circle: Circle, pen: Pen },
    /// A straight line between two points.
    Segment { from: Vec2, to: Vec2, pen: Pen },
    /// A line of text whose left edge is centred on `at`.
    Text { at: Vec2, readout: Readout },
    /// The outline of a rectangle.
    Outline { rect: Rect, pen: Pen },
}

impl View for Shape {
    type V = ShapeValue;

    open spec fn view(&self) -> ShapeValue {
        match *self {
            Shape::Polyline { points, pen } => ShapeValue::Polyline {
                points: coords_of(points@),
                pen,
            },
            Shape::Circle { circle, pen } => ShapeValue::Circle { circle: circle@, pen },
            Shape::Segment { from, to, pen } => ShapeValue::Segment {
                from: from@,
                to: to@,
                pen,
            },
            Shape::Text { at, readout } => ShapeValue::Text { at: at@, readout: readout@ },
            Shape::Outline { rect, pen } => ShapeValue::Outline { rect: rect@, pen },
        }
    }
}

/// The shapes that a vector of shapes stands for.
pub open spec fn shapes_of(shapes: Seq<Shape>) -> Seq<ShapeValue> {
    Seq::new(shapes.len(), |i: int| shapes[i]@)
}

/// What the host hands over for one picture.
pub struct TargetValue {
    pub area: RectValue,
    pub clip: RectValue,
    pub frame: RectValue,
    pub pointer: Option<Coords>,
}

/// What the host hands over for one picture.
#[derive(Debug)]
pub struct Target {
    /// The rectangle that the chart was given; the pointer is located in it.
    pub area: Rect,
    /// The part of it that can be painted; circles and arcs are laid out in
    /// it.
    pub clip: Rect,
    /// The rectangle as the host's style draws it, grown or shrunk; the axis,
    /// the text and the debugging shapes are laid out in it.
    pub frame: Rect,
    /// The pixel that the pointer hovers over, if it hovers over the chart.
    pub pointer: Option<Vec2>,
}

/// The pixel that an exact pixel stands for, if there is one.
pub open spec fn pixel_value(pixel: Option<Vec2>) -> Option<Coords> {
    match pixel {
        Some(p) => Some(p@),
        None => None,
    }
}

impl View for Target {
    type V = TargetValue;

    open spec fn view(&self) -> TargetValue {
        TargetValue {
            area: self.area@,
            clip: self.clip@,
            frame: self.frame@,
            pointer: pixel_value(self.pointer),
        }
    }
}

/// What the chart has found under the pointer, for a log.
pub struct TraceValue {
    pub local: Coords,
    pub impedance: Option<ComplexValue>,
}

/// What the chart has found under the pointer, for a log.
#[derive(Debug)]
pub struct Trace {
    /// The pointer in the normalized plane.
    pub local: Vec2,
    /// The normalized impedance there; `None` at the point `(1, 0)`.
    pub impedance: Option<Complex>,
}

/// The trace that an exact trace stands for, if there is one.
pub open spec fn trace_value(trace: Option<Trace>) -> Option<TraceValue> {
    match trace {
        Some(t) => Some(
            TraceValue {
                local: t.local@,
                impedance: match t.impedance {
                    Some(z) => Some(z@),
                    None => None,
                },
            },
        ),
        None => None,
    }
}

/// One picture of the chart.
#[derive(Debug)]
pub struct Picture {
    /// The shapes, in the order in which they are drawn.
    pub shapes: Vec<Shape>,
    /// A line for the log, where the chart is being debugged and the pointer
    /// is over it.
    pub trace: Option<Trace>,
}

/// The arc of the reactance `x`, laid out in `rect`.
pub open spec fn arc_shape(rect: RectValue, x: real, pen: Pen) -> ShapeValue {
    ShapeValue::Polyline { points: pixel_arc(rect, x), pen }
}

/// The circle of the resistance `r`, laid out in `rect`.
pub open spec fn circle_shape(rect: RectValue, r: real, pen: Pen) -> ShapeValue {
    ShapeValue::Circle { circle: pixel_circle(rect, resistance_locus(r)), pen }
}

/// The grid: the arcs of the reactances 0.4, 1 and 3, each with its mirror
/// image; the circles of the resistances 0, 1/3, 1 and 3; the circles 0 and 1
/// once more, thick; and the axis of the reactance zero.
pub open spec fn grid(target: TargetValue) -> Seq<ShapeValue> {
    seq![
        arc_shape(target.clip, 2real / 5real, Pen::Grid),
        arc_shape(target.clip, -(2real / 5real), Pen::Grid),
        arc_shape(target.clip, 1real, Pen::Grid),
        arc_shape(target.clip, -1real, Pen::Grid),
        arc_shape(target.clip, 3real, Pen::Grid),
        arc_shape(target.clip, -3real, Pen::Grid),
        circle_shape(target.clip, 0real, Pen::Grid),
        circle_shape(target.clip, 1real / 3real, Pen::Grid),
        circle_shape(target.clip, 1real, Pen::Grid),
        circle_shape(target.clip, 3real, Pen::Grid),
        circle_shape(target.clip, 0real, Pen::Emphasis),
        circle_shape(target.clip, 1real, Pen::Emphasis),
        ShapeValue::Segment {
            from: to_pixel(target.frame, Coords { x: -1real, y: 0real }),
            to: to_pixel(target.frame, Coords { x: 1real, y: 0real }),
            pen: Pen::Grid,
        },
    ]
}

/// The pointer in the normalized plane of the area, where there is a pointer
/// and the area has a size.
pub open spec fn hover(target: TargetValue) -> Option<Coords> {
    match target.pointer {
        Some(p) => if target.area.width != 0real && target.area.height != 0real {
            Some(to_local(target.area, p))
        } else {
            None
        },
        None => None,
    }
}

/// Whether a point of the normalized plane lies inside the chart.
pub open spec fn inside_unit_circle(v: Coords) -> bool {
    v.x * v.x + v.y * v.y < 1real
}

/// The reflection coefficient that a point of the chart is drawn for.
pub open spec fn gamma_at(local: Coords) -> ComplexValue {
    ComplexValue { re: local.x, im: local.y }
}

/// The three lines of text for the impedance `z`, one above the other from
/// the bottom-left corner of the frame, 14 pixels apart.
pub open spec fn readouts(chart: SmithChartValue, target: TargetValue, z: ComplexValue) -> Seq<
    ShapeValue,
> {
    let bottom = target.frame.top + target.frame.height;
    let scaled = complex_product(z, chart.z0);
    seq![
        ShapeValue::Text {
            at: Coords { x: target.frame.left, y: bottom - 42real },
            readout: ReadoutValue::Reference { z0: chart.z0 },
        },
        ShapeValue::Text {
            at: Coords { x: target.frame.left, y: bottom - 28real },
            readout: ReadoutValue::Resistance { r: z.re, scaled: scaled.re },
        },
        ShapeValue::Text {
            at: Coords { x: target.frame.left, y: bottom - 14real },
            readout: ReadoutValue::Reactance { x: z.im, scaled: scaled.im },
        },
    ]
}

/// The circle of constant standing-wave ratio through `local`: round the
/// centre of the chart, with the distance of `local` from it as its radius.
pub open spec fn vswr_shape(target: TargetValue, local: Coords) -> ShapeValue {
    ShapeValue::Circle {
        circle: pixel_circle(
            target.clip,
            CircleValue {
                center: Coords { x: 0real, y: 0real },
                radius: root_floor(local.x * local.x + local.y * local.y),
            },
        ),
        pen: Pen::Vswr,
    }
}

/// What is drawn for a pointer inside the chart: the circle and the arc of
/// the impedance under it, the text, and the standing-wave circle where the
/// chart is set to show it.
pub open spec fn overlay(chart: SmithChartValue, target: TargetValue) -> Seq<ShapeValue> {
    match hover(target) {
        Some(local) => if inside_unit_circle(local) {
            let z = gamma_to_z(gamma_at(local));
            seq![
                circle_shape(target.clip, z.re, Pen::Resistance),
                arc_shape(target.clip, z.im, Pen::Reactance),
            ] + readouts(chart, target, z) + (if chart.mouse_vswr {
                seq![vswr_shape(target, local)]
            } else {
                Seq::empty()
            })
        } else {
            Seq::empty()
        },
        None => Seq::empty(),
    }
}

/// The debugging shapes: a dot at the centre of the frame, a line from there
/// to the pointer if there is one, and the box of the frame.
pub open spec fn debug_shapes(chart: SmithChartValue, target: TargetValue) -> Seq<ShapeValue> {
    let center = to_pixel(target.frame, Coords { x: 0real, y: 0real });
    if chart.debug {
        seq![
            ShapeValue::Circle {
                circle: CircleValue { center, radius: 1real },
                pen: Pen::Marker,
            },
        ] + (match target.pointer {
            Some(p) => seq![ShapeValue::Segment { from: center, to: p, pen: Pen::Pointer }],
            None => Seq::empty(),
        }) + seq![ShapeValue::Outline { rect: target.frame, pen: Pen::Outline }]
    } else {
        Seq::empty()
    }
}

/// One picture of the chart: the grid, then what belongs to the pointer, then
/// the debugging shapes.
pub open spec fn scene(chart: SmithChartValue, target: TargetValue) -> Seq<ShapeValue> {
    grid(target) + overlay(chart, target) + debug_shapes(chart, target)
}

/// The line for the log: where the chart is being debugged and the pointer
/// is over an area that has a size, the pointer in the normalized plane and
/// the impedance there.
pub open spec fn trace(chart: SmithChartValue, target: TargetValue) -> Option<TraceValue> {
    match hover(target) {
        Some(local) => if chart.debug {
            Some(
                TraceValue {
                    local,
                    impedance: if local.x == 1real && local.y == 0real {
                        None
                    } else {
                        Some(gamma_to_z(gamma_at(local)))
                    },
                },
            )
        } else {
            None
        },
        None => None,
    }
}

/// Whether `shapes` and `log` are the picture of the chart on the target.
pub open spec fn is_picture(
    chart: SmithChartValue,
    target: TargetValue,
    shapes: Seq<ShapeValue>,
    log: Option<TraceValue>,
) -> bool {
    shapes == scene(chart, target) && log == trace(chart, target)
}

/// A picture holds nothing but its settings and its target: two pictures of
/// charts with the same settings on the same target are the same, shape by
/// shape and point by point.
pub proof fn lemma_picture_repeats(
    chart: SmithChartValue,
    target: TargetValue,
    first: Seq<ShapeValue>,
    first_log: Option<TraceValue>,
    second: Seq<ShapeValue>,
    second_log: Option<TraceValue>,
)
    requires
        is_picture(chart, target, first, first_log),
        is_picture(chart, target, second, second_log),
    ensures
        first == second,
        first_log == second_log,
{
}

/// The circle of the resistance under a pointer passes through the pointer:
/// a reflection coefficient whose real part is not one lies on the circle of
/// the resistance of its impedance.
pub proof fn lemma_circle_through_pointer(gamma: ComplexValue)
    requires
        gamma.re != 1real,
    ensures
        ({
            let circle = resistance_locus(gamma_to_z(gamma).re);
            (gamma.re - circle.center.x) * (gamma.re - circle.center.x) + (gamma.im
                - circle.center.y) * (gamma.im - circle.center.y) == circle.radius
                * circle.radius
        }),
{
    let a = gamma.re;
    let b = gamma.im;
    let c = 1real - a;
    let d = -b;
    let norm = c * c + d * d;
    let above = (1real + a) * c + b * d;
    let r = gamma_to_z(gamma).re;
    assert(r == above / norm);
    lemma_norm_positive(c, d);
    lemma_div_cancel(above, norm);
    let u = 1real + r;
    assert((1real + r) * norm == norm + r * norm) by (nonlinear_arith);
    assert((1real - a) * (1real - a) + (-b) * (-b) + ((1real + a) * (1real - a) + b * (-b))
        == 2real * (1real - a)) by (nonlinear_arith);
    assert(u * norm == 2real * c);
    assert(u != 0real) by (nonlinear_arith)
        requires
            u * norm == 2real * c,
            c != 0real,
    ;
    lemma_resistance_circle(r);
    let circle = resistance_locus(r);
    let radius = circle.radius;
    lemma_div_cancel(1real, u);
    let w = radius * u;
    assert((2real * c) * w == 2real * c) by (nonlinear_arith)
        requires
            w == 1real,
    ;
    assert((2real * c * radius) * u == (2real * c) * (radius * u)) by (nonlinear_arith);
    lemma_mul_cancel(norm, 2real * c * radius, u);
    assert((radius - c) * (radius - c) + b * b == radius * radius - 2real * c * radius + (c * c
        + (-b) * (-b))) by (nonlinear_arith);
    assert(gamma.re - circle.center.x == radius - c);
    assert((b - 0real) * (b - 0real) == b * b) by (nonlinear_arith);
}

/// Inside the chart the resistance is positive.
pub proof fn lemma_resistance_positive(gamma: ComplexValue)
    requires
        gamma.re * gamma.re + gamma.im * gamma.im < 1real,
    ensures
        gamma_to_z(gamma).re > 0real,
{
    let c = 1real - gamma.re;
    let d = -gamma.im;
    let norm = c * c + d * d;
    let above = (1real + gamma.re) * c + gamma.im * d;
    assert(c != 0real) by (nonlinear_arith)
        requires
            c == 1real - gamma.re,
            gamma.re * gamma.re + gamma.im * gamma.im < 1real,
    ;
    lemma_norm_positive(c, d);
    assert(above > 0real) by (nonlinear_arith)
        requires
            above == (1real + gamma.re) * c + gamma.im * d,
            c == 1real - gamma.re,
            d == -gamma.im,
            gamma.re * gamma.re + gamma.im * gamma.im < 1real,
    ;
    lemma_div_cancel(above, norm);
    let r = above / norm;
    assert(r > 0real) by (nonlinear_arith)
        requires
            r * norm == above,
            above > 0real,
            norm > 0real,
    ;
}

} // verus!
