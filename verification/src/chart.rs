//! The chart: its settings, and the function that draws it.

use crate::curve::Circle;
use crate::geometry::{Complex, ComplexValue, Coords, Rect, Vec2};
use crate::picture::{
    arc_shape, circle_shape, debug_shapes, grid, hover, is_picture, lemma_resistance_positive,
    overlay, pixel_value, readouts, scene, shapes_of, trace_value, Pen, Picture, Readout, Shape,
    Target, Trace,
};
use crate::scalar::Scalar;
use vstd::prelude::*;

verus! {

/// Which family of curves a chart shows.
#[derive(Clone, Copy, Debug, PartialEq, Eq, Structural)]
pub enum Plane {
    Impedance,
    Admittance,
    Both,
}

impl Plane {
    /// The name of the plane as a sequence of characters.
    pub open spec fn label(self) -> Seq<char> {
        match self {
            Plane::Impedance => "impedance"@,
            Plane::Admittance => "admittance"@,
            Plane::Both => "impedance and admittance"@,
        }
    }

    /// The name of the plane, for a menu or a caption.
    pub fn to_string(&self) -> (name: String)
        ensures
            name@ == self.label(),
    {
        match self {
            Plane::Impedance => "impedance".to_owned(),
            Plane::Admittance => "admittance".to_owned(),
            Plane::Both => "impedance and admittance".to_owned(),
        }
    }
}

/// The settings of a chart.
pub struct SmithChartValue {
    pub z0: ComplexValue,
    pub plane: Plane,
    pub size: real,
    pub debug: bool,
    pub mouse_vswr: bool,
}

/// A Smith chart: a square picture of the unit disk of the gamma plane with
/// circles of constant resistance and arcs of constant reactance.
#[derive(Debug)]
pub struct SmithChart {
    /// Characteristic impedance, by which the readouts are scaled.
    z0: Complex,
    /// Impedance, admittance or both.
    plane: Plane,
    /// Edge of the square that the chart asks for, in pixels.
    size: Scalar,
    /// Whether the debugging shapes are drawn.
    debug: bool,
    /// Whether the circle of constant standing-wave ratio through the pointer
    /// is drawn.
    mouse_vswr: bool,
}

impl View for SmithChart {
    type V = SmithChartValue;

    closed spec fn view(&self) -> SmithChartValue {
        SmithChartValue {
            z0: self.z0@,
            plane: self.plane,
            size: self.size@,
            debug: self.debug,
            mouse_vswr: self.mouse_vswr,
        }
    }
}

/// Adds one shape to the end of a list.
fn emit(shapes: &mut Vec<Shape>, shape: Shape)
    ensures
        shapes_of(final(shapes)@) == shapes_of(old(shapes)@).push(shape@),
{
    shapes.push(shape);
    assert(shapes_of(shapes@) =~= shapes_of(old(shapes)@).push(shape@));
}

impl SmithChart {
    /// A chart with the default settings: a characteristic impedance of 50
    /// ohms, the impedance plane, an edge of 64 pixels, no debugging shapes
    /// and no standing-wave circle.
    pub fn new() -> (chart: SmithChart)
        ensures
            chart@ == (SmithChartValue {
                z0: ComplexValue { re: 50real, im: 0real },
                plane: Plane::Impedance,
                size: 64real,
                debug: false,
                mouse_vswr: false,
            }),
    {
        SmithChart {
            z0: Complex { re: Scalar::from_int(50), im: Scalar::from_int(0) },
            plane: Plane::Impedance,
            size: Scalar::from_int(64),
            debug: false,
            mouse_vswr: false,
        }
    }

    /// Adds the arc of the reactance `x` to the list.
    fn emit_arc(&self, shapes: &mut Vec<Shape>, rect: &Rect, x: &Scalar, pen: Pen)
        ensures
            shapes_of(final(shapes)@) == shapes_of(old(shapes)@).push(
                arc_shape(rect@, x@, pen),
            ),
    {
        let points = self.reactance_arc(rect, x);
        emit(shapes, Shape::Polyline { points, pen });
    }

    /// Adds the circle of the resistance `r` to the list.
    fn emit_circle(&self, shapes: &mut Vec<Shape>, rect: &Rect, r: &Scalar, pen: Pen)
        requires
            r@ != -1real,
        ensures
            shapes_of(final(shapes)@) == shapes_of(old(shapes)@).push(
                circle_shape(rect@, r@, pen),
            ),
    {
        let circle = self.resistance_circle(rect, r).unwrap();
        emit(shapes, Shape::Circle { circle, pen });
    }

    /// Adds the grid to the list.
    fn emit_grid(&self, shapes: &mut Vec<Shape>, target: &Target)
        ensures
            shapes_of(final(shapes)@) == shapes_of(old(shapes)@) + grid(target@),
    {
        let zero = Scalar::from_int(0);
        let one = Scalar::from_int(1);
        let three = Scalar::from_int(3);
        let low = Scalar::ratio(2, 5);
        let third = Scalar::ratio(1, 3);
        self.emit_arc(shapes, &target.clip, &low, Pen::Grid);
        self.emit_arc(shapes, &target.clip, &low.neg(), Pen::Grid);
        self.emit_arc(shapes, &target.clip, &one, Pen::Grid);
        self.emit_arc(shapes, &target.clip, &one.neg(), Pen::Grid);
        self.emit_arc(shapes, &target.clip, &three, Pen::Grid);
        self.emit_arc(shapes, &target.clip, &three.neg(), Pen::Grid);
        self.emit_circle(shapes, &target.clip, &zero, Pen::Grid);
        self.emit_circle(shapes, &target.clip, &third, Pen::Grid);
        self.emit_circle(shapes, &target.clip, &one, Pen::Grid);
        self.emit_circle(shapes, &target.clip, &three, Pen::Grid);
        self.emit_circle(shapes, &target.clip, &zero, Pen::Emphasis);
        self.emit_circle(shapes, &target.clip, &one, Pen::Emphasis);
        let xaxis_start = self.local_to_abs(&target.frame, &Vec2 { x: one.neg(), y: zero.clone() });
        let xaxis_end = self.local_to_abs(&target.frame, &Vec2 { x: one.clone(), y: zero.clone() });
        emit(shapes, Shape::Segment { from: xaxis_start, to: xaxis_end, pen: Pen::Grid });
        assert(shapes_of(shapes@) =~= shapes_of(old(shapes)@) + grid(target@));
    }

    /// Adds the three lines of text for the impedance `z` to the list.
    fn emit_readouts(&self, shapes: &mut Vec<Shape>, target: &Target, z: &Complex)
        ensures
            shapes_of(final(shapes)@) == shapes_of(old(shapes)@) + readouts(
                self@,
                target@,
                z@,
            ),
    {
        let bottom = target.frame.top.plus(&target.frame.height);
        let scaled = z.times(&self.z0);
        emit(
            shapes,
            Shape::Text {
                at: Vec2 { x: target.frame.left.clone(), y: bottom.minus(&Scalar::from_int(42)) },
                readout: Readout::Reference { z0: self.z0.clone() },
            },
        );
        emit(
            shapes,
            Shape::Text {
                at: Vec2 { x: target.frame.left.clone(), y: bottom.minus(&Scalar::from_int(28)) },
                readout: Readout::Resistance { r: z.re.clone(), scaled: scaled.re },
            },
        );
        emit(
            shapes,
            Shape::Text {
                at: Vec2 { x: target.frame.left.clone(), y: bottom.minus(&Scalar::from_int(14)) },
                readout: Readout::Reactance { x: z.im.clone(), scaled: scaled.im },
            },
        );
        assert(shapes_of(shapes@) =~= shapes_of(old(shapes)@) + readouts(self@, target@, z@));
    }

    /// Adds what belongs to the pointer to the list.
    fn emit_overlay(&self, shapes: &mut Vec<Shape>, target: &Target, local_pos: &Option<Vec2>)
        requires
            pixel_value(*local_pos) == hover(target@),
        ensures
            shapes_of(final(shapes)@) == shapes_of(old(shapes)@) + overlay(self@, target@),
    {
        let one = Scalar::from_int(1);
        match local_pos {
            Some(local) => {
                let distance_squared = local.x.times(&local.x).plus(&local.y.times(&local.y));
                // the pointer is inside the chart
                if distance_squared.lt(&one) {
                    let gamma = Complex { re: local.x.clone(), im: local.y.clone() };
                    proof {
                        lemma_resistance_positive(gamma@);
                    }
                    let mouse_impedance = self.gamma_to_z(&gamma).unwrap();
                    self.emit_circle(shapes, &target.clip, &mouse_impedance.re, Pen::Resistance);
                    self.emit_arc(shapes, &target.clip, &mouse_impedance.im, Pen::Reactance);
                    self.emit_readouts(shapes, target, &mouse_impedance);
                    if self.mouse_vswr {
                        let zero = Scalar::from_int(0);
                        let rel_center = Vec2 { x: zero.clone(), y: zero };
                        let rel_radius = distance_squared.root_floor();
                        let center = self.local_to_abs(&target.clip, &rel_center);
                        let radius = self.scale(&target.clip, &rel_radius);
                        emit(
                            shapes,
                            Shape::Circle { circle: Circle { center, radius }, pen: Pen::Vswr },
                        );
                    }
                    assert(shapes_of(shapes@) =~= shapes_of(old(shapes)@) + overlay(
                        self@,
                        target@,
                    ));
                } else {
                    assert(shapes_of(shapes@) =~= shapes_of(old(shapes)@) + overlay(
                        self@,
                        target@,
                    ));
                }
            },
            None => {
                assert(shapes_of(shapes@) =~= shapes_of(old(shapes)@) + overlay(self@, target@));
            },
        }
    }

    /// Adds the debugging shapes to the list.
    fn emit_debug(&self, shapes: &mut Vec<Shape>, target: &Target)
        ensures
            shapes_of(final(shapes)@) == shapes_of(old(shapes)@) + debug_shapes(
                self@,
                target@,
            ),
    {
        if self.debug {
            let zero = Scalar::from_int(0);
            let origin = Vec2 { x: zero.clone(), y: zero };
            let center = self.local_to_abs(&target.frame, &origin);
            emit(
                shapes,
                Shape::Circle {
                    circle: Circle { center: center.clone(), radius: Scalar::from_int(1) },
                    pen: Pen::Marker,
                },
            );
            match &target.pointer {
                Some(pos) => {
                    emit(
                        shapes,
                        Shape::Segment { from: center, to: pos.clone(), pen: Pen::Pointer },
                    );
                },
                None => {},
            }
            emit(shapes, Shape::Outline { rect: target.frame.clone(), pen: Pen::Outline });
        }
        assert(shapes_of(shapes@) =~= shapes_of(old(shapes)@) + debug_shapes(self@, target@));
    }

    /// One picture of the chart on the target: the grid, what belongs to the
    /// pointer if it is inside the chart, and the debugging shapes if the
    /// chart is set to show them.
    pub fn show(&self, target: &Target) -> (picture: Picture)
        ensures
            is_picture(
                self@,
                target@,
                shapes_of(picture.shapes@),
                trace_value(picture.trace),
            ),
    {
        let local_pos = match &target.pointer {
            Some(pos) => self.abs_to_local(&target.area, pos),
            None => None,
        };
        let mut shapes: Vec<Shape> = Vec::new();
        self.emit_grid(&mut shapes, target);
        self.emit_overlay(&mut shapes, target, &local_pos);
        self.emit_debug(&mut shapes, target);
        assert(shapes_of(shapes@) =~= scene(self@, target@));
        let trace = match local_pos {
            Some(local) => if self.debug {
                let gamma = Complex { re: local.x.clone(), im: local.y.clone() };
                let impedance = self.gamma_to_z(&gamma);
                Some(Trace { local, impedance })
            } else {
                None
            },
            None => None,
        };
        Picture { shapes, trace }
    }

    /// The plane that the chart is set to.
    pub fn selected_plane(&self) -> (plane: Plane)
        ensures
            plane == self@.plane,
    {
        self.plane
    }

    /// The size that the chart asks the host for: a square.
    pub fn desired_size(&self) -> (size: Vec2)
        ensures
            size@ == (Coords { x: self@.size, y: self@.size }),
    {
        Vec2 { x: self.size.clone(), y: self.size.clone() }
    }

    /// Impedance, admittance or both. The setting is kept for the host to
    /// read; the picture is that of the impedance plane whatever it is.
    pub fn plane(self, plane: Plane) -> (chart: SmithChart)
        ensures
            chart@ == (SmithChartValue { plane, ..self@ }),
    {
        let mut chart = self;
        chart.plane = plane;
        chart
    }

    /// The edge of the square that the chart asks for, in pixels.
    pub fn size(self, size: Scalar) -> (chart: SmithChart)
        ensures
            chart@ == (SmithChartValue { size: size@, ..self@ }),
    {
        let mut chart = self;
        chart.size = size;
        chart
    }

    /// Whether to draw the circle of constant standing-wave ratio through the
    /// pointer.
    pub fn mouse_vswr(self, show: bool) -> (chart: SmithChart)
        ensures
            chart@ == (SmithChartValue { mouse_vswr: show, ..self@ }),
    {
        let mut chart = self;
        chart.mouse_vswr = show;
        chart
    }

    /// Whether to draw the debugging shapes.
    pub fn debug(self, debug: bool) -> (chart: SmithChart)
        ensures
            chart@ == (SmithChartValue { debug, ..self@ }),
    {
        let mut chart = self;
        chart.debug = debug;
        chart
    }
}

} // verus!
