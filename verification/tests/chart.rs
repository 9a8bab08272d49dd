use smith_chart::{Pen, Picture, Plane, Readout, Rect, Scalar, Shape, SmithChart, Target, Vec2};

fn q(n: i64, d: i64) -> Scalar {
    Scalar::new(n, d).expect("denominator is not zero")
}

fn n(v: i64) -> Scalar {
    Scalar::from_int(v)
}

fn area(left: i64, top: i64, width: i64, height: i64) -> Rect {
    Rect { left: n(left), top: n(top), width: n(width), height: n(height) }
}

fn target(pointer: Option<(i64, i64)>) -> Target {
    Target {
        area: area(0, 0, 400, 400),
        clip: area(0, 0, 400, 400),
        frame: area(0, 0, 400, 400),
        pointer: pointer.map(|(x, y)| Vec2 { x: n(x), y: n(y) }),
    }
}

fn pens(picture: &Picture) -> Vec<Option<Pen>> {
    picture
        .shapes
        .iter()
        .map(|shape| match shape {
            Shape::Polyline { pen, .. } => Some(*pen),
            Shape::Circle { pen, .. } => Some(*pen),
            Shape::Segment { pen, .. } => Some(*pen),
            Shape::Outline { pen, .. } => Some(*pen),
            Shape::Text { .. } => None,
        })
        .collect()
}

#[test]
fn plane_names() {
    assert_eq!(Plane::Impedance.to_string(), "impedance");
    assert_eq!(Plane::Admittance.to_string(), "admittance");
    assert_eq!(Plane::Both.to_string(), "impedance and admittance");
}

#[test]
fn plane_equality() {
    assert_eq!(Plane::Impedance, Plane::Impedance);
    assert_ne!(Plane::Impedance, Plane::Admittance);
    assert_ne!(Plane::Both, Plane::Admittance);
}

#[test]
fn default_settings() {
    let chart = SmithChart::new();
    assert_eq!(chart.selected_plane(), Plane::Impedance);
    let size = chart.desired_size();
    assert_eq!(size.x, n(64));
    assert_eq!(size.y, n(64));
    let picture = chart.show(&target(Some((300, 200))));
    assert!(picture.trace.is_none());
    assert_eq!(picture.shapes.len(), 18);
}

#[test]
fn builders_set_one_field_each() {
    let chart = SmithChart::new().plane(Plane::Both).size(q(801, 2));
    assert_eq!(chart.selected_plane(), Plane::Both);
    assert_eq!(chart.desired_size().x, q(801, 2));
    assert_eq!(chart.desired_size().y, q(801, 2));
    let chart = chart.mouse_vswr(true).debug(true);
    assert_eq!(chart.selected_plane(), Plane::Both);
    assert_eq!(chart.desired_size().x, q(801, 2));
    let picture = chart.show(&target(Some((300, 200))));
    assert_eq!(picture.shapes.len(), 13 + 6 + 3);
    let chart = chart.mouse_vswr(false).debug(false);
    assert_eq!(chart.show(&target(Some((300, 200)))).shapes.len(), 18);
}

#[test]
fn grid_without_pointer() {
    let picture = SmithChart::new().show(&target(None));
    assert_eq!(picture.shapes.len(), 13);
    let mut expected = vec![Some(Pen::Grid); 10];
    expected.push(Some(Pen::Emphasis));
    expected.push(Some(Pen::Emphasis));
    expected.push(Some(Pen::Grid));
    assert_eq!(pens(&picture), expected);
    for shape in &picture.shapes[0..6] {
        match shape {
            Shape::Polyline { points, .. } => assert_eq!(points.len(), 129),
            other => panic!("an arc was expected, not {:?}", other),
        }
    }
    let radii = [n(200), n(150), n(100), n(50), n(200), n(100)];
    let centers = [n(200), n(250), n(300), n(350), n(200), n(300)];
    for k in 0..6 {
        match &picture.shapes[6 + k] {
            Shape::Circle { circle, .. } => {
                assert_eq!(circle.radius, radii[k]);
                assert_eq!(circle.center.x, centers[k]);
                assert_eq!(circle.center.y, n(200));
            }
            other => panic!("a circle was expected, not {:?}", other),
        }
    }
    match &picture.shapes[12] {
        Shape::Segment { from, to, .. } => {
            assert_eq!(from.x, n(0));
            assert_eq!(from.y, n(200));
            assert_eq!(to.x, n(400));
            assert_eq!(to.y, n(200));
        }
        other => panic!("the axis was expected, not {:?}", other),
    }
}

#[test]
fn grid_arcs_come_in_mirrored_pairs() {
    let picture = SmithChart::new().show(&target(None));
    let ends = [q(20, 29), n(1), q(3, 5)];
    for k in 0..3 {
        let (upper, lower) = match (&picture.shapes[2 * k], &picture.shapes[2 * k + 1]) {
            (Shape::Polyline { points: a, .. }, Shape::Polyline { points: b, .. }) => (a, b),
            other => panic!("two arcs were expected, not {:?}", other),
        };
        for i in 0..129 {
            assert_eq!(upper[i].x, lower[i].x);
            assert_eq!(upper[i].y.plus(&lower[i].y), n(400));
        }
        let rim = if k == 0 { &upper[0] } else { &upper[128] };
        let height = n(200).minus(&rim.y).over(&n(200));
        assert!(!height.lt(&ends[k].minus(&q(1, 1000000))));
        assert!(!ends[k].plus(&q(1, 1000000)).lt(&height));
    }
}

#[test]
fn pointer_inside_the_chart() {
    let picture = SmithChart::new().show(&target(Some((300, 200))));
    assert_eq!(picture.shapes.len(), 18);
    match &picture.shapes[13] {
        Shape::Circle { circle, pen } => {
            assert_eq!(*pen, Pen::Resistance);
            assert_eq!(circle.center.x, n(350));
            assert_eq!(circle.center.y, n(200));
            assert_eq!(circle.radius, n(50));
        }
        other => panic!("a circle was expected, not {:?}", other),
    }
    match &picture.shapes[14] {
        Shape::Polyline { points, pen } => {
            assert_eq!(*pen, Pen::Reactance);
            assert_eq!(points.len(), 129);
            assert_eq!(points[0].x, n(0));
            assert_eq!(points[128].x, n(400));
            assert_eq!(points[96].x, n(300));
            for p in points {
                assert_eq!(p.y, n(200));
            }
        }
        other => panic!("an arc was expected, not {:?}", other),
    }
    match &picture.shapes[15] {
        Shape::Text { at, readout: Readout::Reference { z0 } } => {
            assert_eq!(at.x, n(0));
            assert_eq!(at.y, n(358));
            assert_eq!(z0.re, n(50));
            assert_eq!(z0.im, n(0));
        }
        other => panic!("the reference impedance was expected, not {:?}", other),
    }
    match &picture.shapes[16] {
        Shape::Text { at, readout: Readout::Resistance { r, scaled } } => {
            assert_eq!(at.x, n(0));
            assert_eq!(at.y, n(372));
            assert_eq!(*r, n(3));
            assert_eq!(*scaled, n(150));
        }
        other => panic!("the resistance was expected, not {:?}", other),
    }
    match &picture.shapes[17] {
        Shape::Text { at, readout: Readout::Reactance { x, scaled } } => {
            assert_eq!(at.x, n(0));
            assert_eq!(at.y, n(386));
            assert_eq!(*x, n(0));
            assert_eq!(*scaled, n(0));
        }
        other => panic!("the reactance was expected, not {:?}", other),
    }
}

#[test]
fn pointer_above_the_axis_reads_positive_reactance() {
    let picture = SmithChart::new().show(&target(Some((200, 100))));
    match &picture.shapes[16] {
        Shape::Text { readout: Readout::Resistance { r, scaled }, .. } => {
            assert_eq!(*r, q(3, 5));
            assert_eq!(*scaled, n(30));
        }
        other => panic!("the resistance was expected, not {:?}", other),
    }
    match &picture.shapes[17] {
        Shape::Text { readout: Readout::Reactance { x, scaled }, .. } => {
            assert_eq!(*x, q(4, 5));
            assert_eq!(*scaled, n(40));
        }
        other => panic!("the reactance was expected, not {:?}", other),
    }
}

#[test]
fn pointer_outside_the_chart_adds_nothing() {
    let chart = SmithChart::new().mouse_vswr(true);
    assert_eq!(chart.show(&target(Some((400, 200)))).shapes.len(), 13);
    assert_eq!(chart.show(&target(Some((390, 390)))).shapes.len(), 13);
    assert_eq!(chart.show(&target(Some((-5, 200)))).shapes.len(), 13);
    assert_eq!(chart.show(&target(Some((399, 200)))).shapes.len(), 19);
}

#[test]
fn pointer_over_an_area_without_size_adds_nothing() {
    let chart = SmithChart::new().mouse_vswr(true);
    let mut flat = target(Some((0, 0)));
    flat.area = area(0, 0, 0, 0);
    let picture = chart.show(&flat);
    assert_eq!(picture.shapes.len(), 13);
    assert!(picture.trace.is_none());
}

#[test]
fn vswr_circle_has_the_pointer_distance_as_radius() {
    let chart = SmithChart::new().mouse_vswr(true);
    let picture = chart.show(&target(Some((300, 200))));
    assert_eq!(picture.shapes.len(), 19);
    match &picture.shapes[18] {
        Shape::Circle { circle, pen } => {
            assert_eq!(*pen, Pen::Vswr);
            assert_eq!(circle.center.x, n(200));
            assert_eq!(circle.center.y, n(200));
            assert_eq!(circle.radius, n(100));
        }
        other => panic!("a circle was expected, not {:?}", other),
    }
    let picture = chart.show(&target(Some((260, 120))));
    match &picture.shapes[18] {
        Shape::Circle { circle, .. } => assert_eq!(circle.radius, n(100)),
        other => panic!("a circle was expected, not {:?}", other),
    }
}

#[test]
fn debug_shapes_and_trace() {
    let chart = SmithChart::new().debug(true);
    let picture = chart.show(&target(None));
    assert_eq!(picture.shapes.len(), 15);
    assert!(picture.trace.is_none());
    match &picture.shapes[13] {
        Shape::Circle { circle, pen } => {
            assert_eq!(*pen, Pen::Marker);
            assert_eq!(circle.center.x, n(200));
            assert_eq!(circle.center.y, n(200));
            assert_eq!(circle.radius, n(1));
        }
        other => panic!("the marker was expected, not {:?}", other),
    }
    match &picture.shapes[14] {
        Shape::Outline { rect, pen } => {
            assert_eq!(*pen, Pen::Outline);
            assert_eq!(rect.left, n(0));
            assert_eq!(rect.width, n(400));
        }
        other => panic!("the box was expected, not {:?}", other),
    }
    let picture = chart.show(&target(Some((400, 200))));
    assert_eq!(picture.shapes.len(), 16);
    match &picture.shapes[14] {
        Shape::Segment { from, to, pen } => {
            assert_eq!(*pen, Pen::Pointer);
            assert_eq!(from.x, n(200));
            assert_eq!(to.x, n(400));
            assert_eq!(to.y, n(200));
        }
        other => panic!("the pointer line was expected, not {:?}", other),
    }
    let trace = picture.trace.expect("the chart is being debugged");
    assert_eq!(trace.local.x, n(1));
    assert_eq!(trace.local.y, n(0));
    assert!(trace.impedance.is_none());
    let picture = chart.show(&target(Some((300, 200))));
    let trace = picture.trace.expect("the chart is being debugged");
    assert_eq!(trace.local.x, q(1, 2));
    let z = trace.impedance.expect("gamma is not one");
    assert_eq!(z.re, n(3));
    assert_eq!(z.im, n(0));
}

#[test]
fn shapes_follow_their_own_rectangles() {
    let chart = SmithChart::new().debug(true).mouse_vswr(true);
    let t = Target {
        area: area(0, 0, 400, 400),
        clip: area(0, 0, 200, 200),
        frame: area(-1, -1, 402, 402),
        pointer: Some(Vec2 { x: n(300), y: n(200) }),
    };
    let picture = chart.show(&t);
    assert_eq!(picture.shapes.len(), 22);
    match &picture.shapes[6] {
        Shape::Circle { circle, .. } => {
            assert_eq!(circle.center.x, n(100));
            assert_eq!(circle.radius, n(100));
        }
        other => panic!("a circle was expected, not {:?}", other),
    }
    match &picture.shapes[12] {
        Shape::Segment { from, to, .. } => {
            assert_eq!(from.x, n(-1));
            assert_eq!(from.y, n(200));
            assert_eq!(to.x, n(401));
        }
        other => panic!("the axis was expected, not {:?}", other),
    }
    match &picture.shapes[13] {
        Shape::Circle { circle, .. } => assert_eq!(circle.radius, n(25)),
        other => panic!("a circle was expected, not {:?}", other),
    }
    match &picture.shapes[15] {
        Shape::Text { at, .. } => {
            assert_eq!(at.x, n(-1));
            assert_eq!(at.y, n(359));
        }
        other => panic!("text was expected, not {:?}", other),
    }
    match &picture.shapes[18] {
        Shape::Circle { circle, .. } => {
            assert_eq!(circle.center.x, n(100));
            assert_eq!(circle.radius, n(50));
        }
        other => panic!("a circle was expected, not {:?}", other),
    }
    match &picture.shapes[19] {
        Shape::Circle { circle, .. } => assert_eq!(circle.center.x, n(200)),
        other => panic!("the marker was expected, not {:?}", other),
    }
}

#[test]
fn pictures_of_the_same_target_are_the_same() {
    let chart = SmithChart::new().debug(true).mouse_vswr(true);
    let t = target(Some((260, 120)));
    let first = format!("{:?}", chart.show(&t));
    let second = format!("{:?}", chart.show(&t));
    assert_eq!(first, second);
    let other = format!("{:?}", SmithChart::new().debug(true).mouse_vswr(true).show(&t));
    assert_eq!(first, other);
}

#[test]
fn resistance_circle_passes_through_the_pointer() {
    let chart = SmithChart::new();
    for (px, py) in [(260, 120), (300, 200), (200, 200), (100, 350), (399, 200), (201, 1)] {
        let picture = chart.show(&target(Some((px, py))));
        assert_eq!(picture.shapes.len(), 18);
        match &picture.shapes[13] {
            Shape::Circle { circle, pen } => {
                assert_eq!(*pen, Pen::Resistance);
                let dx = n(px).minus(&circle.center.x);
                let dy = n(py).minus(&circle.center.y);
                assert_eq!(
                    dx.times(&dx).plus(&dy.times(&dy)),
                    circle.radius.times(&circle.radius)
                );
            }
            other => panic!("a circle was expected, not {:?}", other),
        }
    }
}

#[test]
fn reactance_arc_passes_near_the_pointer() {
    let chart = SmithChart::new();
    let picture = chart.show(&target(Some((200, 100))));
    match &picture.shapes[14] {
        Shape::Polyline { points, pen } => {
            assert_eq!(*pen, Pen::Reactance);
            let gap = n(4);
            assert!(points.iter().any(|p| {
                let dx = p.x.minus(&n(200));
                let dy = p.y.minus(&n(100));
                dx.times(&dx).plus(&dy.times(&dy)).lt(&gap)
            }));
        }
        other => panic!("an arc was expected, not {:?}", other),
    }
}
