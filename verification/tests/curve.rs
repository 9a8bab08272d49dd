use smith_chart::curve::{remap_exact, ARC_SEGMENTS};
use smith_chart::{Rect, Scalar, SmithChart};

fn val(n: i64, d: i64) -> Scalar {
    Scalar::new(n, d).expect("denominator is not zero")
}

fn whole(n: i64) -> Scalar {
    Scalar::from_int(n)
}

/// The rectangle whose pixels are the points of the normalized plane.
fn unit_plane() -> Rect {
    Rect { left: whole(-1), top: whole(1), width: whole(2), height: whole(-2) }
}

fn square(edge: i64) -> Rect {
    Rect { left: whole(0), top: whole(0), width: whole(edge), height: whole(edge) }
}

#[test]
fn remap_is_linear() {
    let y = remap_exact(&whole(32), &whole(0), &whole(128), &whole(-1), &whole(1));
    assert_eq!(y, val(-1, 2));
    let y = remap_exact(&whole(0), &whole(0), &whole(128), &whole(5), &whole(9));
    assert_eq!(y, whole(5));
    let y = remap_exact(&whole(128), &whole(0), &whole(128), &whole(5), &whole(9));
    assert_eq!(y, whole(9));
    let y = remap_exact(&whole(3), &whole(1), &whole(5), &whole(10), &whole(20));
    assert_eq!(y, whole(15));
}

#[test]
fn resistance_zero_is_the_rim() {
    let chart = SmithChart::new();
    let circle = chart.resistance_circle(&unit_plane(), &whole(0)).expect("r is not minus one");
    assert_eq!(circle.center.x, whole(0));
    assert_eq!(circle.center.y, whole(0));
    assert_eq!(circle.radius, whole(1));
}

#[test]
fn resistance_one_passes_through_the_centre() {
    let chart = SmithChart::new();
    let circle = chart.resistance_circle(&unit_plane(), &whole(1)).expect("r is not minus one");
    assert_eq!(circle.center.x, val(1, 2));
    assert_eq!(circle.center.y, whole(0));
    assert_eq!(circle.radius, val(1, 2));
}

#[test]
fn resistance_circles_shrink_towards_one() {
    let chart = SmithChart::new();
    let circle = chart.resistance_circle(&unit_plane(), &whole(999)).unwrap();
    assert_eq!(circle.center.x, val(999, 1000));
    assert_eq!(circle.radius, val(1, 1000));
    let circle = chart.resistance_circle(&unit_plane(), &val(1, 3)).unwrap();
    assert_eq!(circle.center.x, val(1, 4));
    assert_eq!(circle.radius, val(3, 4));
}

#[test]
fn resistance_circle_in_pixels() {
    let chart = SmithChart::new();
    let circle = chart.resistance_circle(&square(400), &whole(1)).unwrap();
    assert_eq!(circle.center.x, whole(300));
    assert_eq!(circle.center.y, whole(200));
    assert_eq!(circle.radius, whole(100));
    let flat = Rect { left: whole(3), top: whole(4), width: whole(0), height: whole(0) };
    let circle = chart.resistance_circle(&flat, &whole(1)).unwrap();
    assert_eq!(circle.center.x, whole(3));
    assert_eq!(circle.center.y, whole(4));
    assert_eq!(circle.radius, whole(0));
}

#[test]
fn resistance_minus_one_has_no_circle() {
    let chart = SmithChart::new();
    assert!(chart.resistance_circle(&unit_plane(), &whole(-1)).is_none());
}

#[test]
fn arc_has_one_point_more_than_segments() {
    let chart = SmithChart::new();
    assert_eq!(ARC_SEGMENTS, 128);
    for x in [val(2, 5), whole(1), whole(3), whole(0), val(-2, 5), whole(-100)] {
        assert_eq!(chart.reactance_arc(&unit_plane(), &x).len(), 129);
    }
}

#[test]
fn steep_arc_runs_from_one_to_the_rim() {
    let chart = SmithChart::new();
    let first = chart.arc_point(&whole(1), 0);
    assert_eq!(first.x, whole(1));
    assert_eq!(first.y, whole(0));
    let middle = chart.arc_point(&whole(1), 64);
    assert_eq!(middle.x, val(287708255, 2147483648));
    assert_eq!(middle.y, val(1, 2));
    let last = chart.arc_point(&whole(1), 128);
    assert_eq!(last.x, whole(0));
    assert_eq!(last.y, whole(1));
    let quarter = chart.arc_point(&whole(3), 32);
    assert_eq!(quarter.x, val(774824751, 1073741824));
    assert_eq!(quarter.y, val(3, 20));
    let rim = chart.arc_point(&whole(3), 128);
    assert_eq!(rim.x, val(3435973837, 4294967296));
    assert_eq!(rim.y, val(3, 5));
}

#[test]
fn shallow_arc_runs_from_the_rim_to_one() {
    let chart = SmithChart::new();
    let x = val(2, 5);
    let first = chart.arc_point(&x, 0);
    assert_eq!(first.x, val(-21, 29));
    assert_eq!(first.y, val(740511603, 1073741824));
    let middle = chart.arc_point(&x, 64);
    assert_eq!(middle.x, val(4, 29));
    assert_eq!(middle.y, val(658568375, 4294967296));
    let last = chart.arc_point(&x, 128);
    assert_eq!(last.x, whole(1));
    assert_eq!(last.y, whole(0));
}

#[test]
fn zero_reactance_is_the_axis() {
    let chart = SmithChart::new();
    let arc = chart.reactance_arc(&unit_plane(), &whole(0));
    assert_eq!(arc[0].x, whole(-1));
    assert_eq!(arc[32].x, val(-1, 2));
    assert_eq!(arc[64].x, whole(0));
    assert_eq!(arc[128].x, whole(1));
    for p in &arc {
        assert_eq!(p.y, whole(0));
    }
}

#[test]
fn arcs_of_opposite_reactances_mirror_each_other() {
    let chart = SmithChart::new();
    for x in [val(1, 100), val(2, 5), whole(1), val(3, 2), whole(3), whole(100), whole(0)] {
        let upper = chart.reactance_arc(&unit_plane(), &x);
        let lower = chart.reactance_arc(&unit_plane(), &x.neg());
        assert_eq!(upper.len(), lower.len());
        for i in 0..upper.len() {
            assert_eq!(lower[i].x, upper[i].x);
            assert_eq!(lower[i].y, upper[i].y.neg());
        }
    }
}

#[test]
fn arcs_stay_within_reach_of_the_unit_disk() {
    let chart = SmithChart::new();
    let reach = whole(1).plus(&val(1, 4294967296));
    let reach_squared = reach.times(&reach);
    let loose = whole(1).plus(&val(1, 10000));
    let loose_squared = loose.times(&loose);
    for x in [val(1, 100), val(2, 5), val(99, 100), whole(1), val(3, 2), whole(3), whole(100),
        val(-1, 100), val(-2, 5), whole(-1), whole(-3), whole(-100), whole(0), whole(1000000)]
    {
        for p in chart.reactance_arc(&unit_plane(), &x) {
            let norm = p.x.times(&p.x).plus(&p.y.times(&p.y));
            assert!(!reach_squared.lt(&norm));
            assert!(norm.lt(&loose_squared));
        }
    }
}

#[test]
fn upper_arcs_lie_above_the_axis() {
    let chart = SmithChart::new();
    for x in [val(1, 100), val(2, 5), whole(1), whole(3)] {
        for i in 0..=128 {
            let p = chart.arc_point(&x, i);
            assert!(!p.y.is_negative());
            let q = chart.arc_point(&x.neg(), i);
            assert!(!whole(0).lt(&q.y));
        }
    }
}

#[test]
fn arc_in_pixels_follows_the_rectangle() {
    let chart = SmithChart::new();
    let arc = chart.reactance_arc(&square(400), &whole(1));
    assert_eq!(arc[0].x, whole(400));
    assert_eq!(arc[0].y, whole(200));
    assert_eq!(arc[128].x, whole(200));
    assert_eq!(arc[128].y, whole(0));
    let local = chart.arc_point(&whole(1), 64);
    let pixel = chart.local_to_abs(&square(400), &local);
    assert_eq!(arc[64].x, pixel.x);
    assert_eq!(arc[64].y, pixel.y);
    assert_eq!(arc[64].y, whole(100));
}

#[test]
fn resistance_circles_pass_through_one() {
    let chart = SmithChart::new();
    for r in [whole(0), val(1, 3), whole(1), whole(3), whole(999), val(-1, 2), whole(-3)] {
        let circle = chart.resistance_circle(&unit_plane(), &r).unwrap();
        assert_eq!(circle.center.y, whole(0));
        assert_eq!(circle.center.x.plus(&circle.radius), whole(1));
    }
}

#[test]
fn arcs_run_between_one_and_the_rim() {
    let chart = SmithChart::new();
    let step = val(1, 4294967296);
    let two = whole(2);
    for x in [val(1, 100), val(3, 10), val(2, 5), whole(1), val(3, 2), whole(3), whole(100),
        val(-3, 10), whole(-1), whole(-7), whole(0)]
    {
        let steep = !x.lt(&whole(1)) || !whole(-1).lt(&x);
        let (rim, inner) = if steep {
            (chart.arc_point(&x, 128), chart.arc_point(&x, 0))
        } else {
            (chart.arc_point(&x, 0), chart.arc_point(&x, 128))
        };
        let square = x.times(&x);
        let rim_real = square.minus(&whole(1)).over(&square.plus(&whole(1)));
        let rim_imaginary = two.times(&x).over(&whole(1).plus(&square));
        assert_eq!(
            rim_real.times(&rim_real).plus(&rim_imaginary.times(&rim_imaginary)),
            whole(1)
        );
        for (found, expected) in [(&rim.x, &rim_real), (&rim.y, &rim_imaginary)] {
            assert!(expected.minus(&step).lt(found));
            assert!(found.lt(&expected.plus(&step)));
        }
        assert_eq!(inner.x, whole(1));
        assert!(step.neg().lt(&inner.y));
        assert!(inner.y.lt(&step));
    }
}
