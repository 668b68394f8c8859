use nurbs::curve::{ConstructionError, Curve, HPoint};
use nurbs::eval::de_boor;
use nurbs::rat::Rat;
use nurbs::sample::{control_polygon, sample_polyline, Point2, SampleError};

fn rat(num: i128, den: i128) -> Rat {
    Rat::new(num, den)
}

fn whole(n: i64) -> Rat {
    Rat::from_int(n)
}

fn pt(x: i64, y: i64) -> HPoint {
    HPoint { x: whole(x), y: whole(y), z: whole(0), w: whole(1) }
}

fn to_f64(r: &Rat) -> f64 {
    r.num as f64 / r.den as f64
}

fn dist_origin(p: &Point2) -> f64 {
    let x = to_f64(&p.x);
    let y = to_f64(&p.y);
    (x * x + y * y).sqrt()
}

/// `r` equals the integer `k`, as exact rational values.
fn rat_is_int(r: &Rat, k: i128) -> bool {
    r.num == k * r.den
}

/// A continued-fraction convergent of sqrt(2)/2, off by well under 1e-10.
const W_NUM: i128 = 114243;
const W_DEN: i128 = 161564;

/// The degree-2 rational curve tracing the unit circle: nine homogeneous
/// control points with weights alternating between 1 and ~sqrt(2)/2 (the
/// corner coordinates carry the weight, as homogeneous coordinates do),
/// and the clamped knot vector over quarter arcs.
fn unit_circle() -> Curve {
    let w = rat(W_NUM, W_DEN);
    let nw = rat(-W_NUM, W_DEN);
    let zero = whole(0);
    let control_points = vec![
        HPoint { x: whole(1), y: zero, z: zero, w: whole(1) },
        HPoint { x: w, y: w, z: zero, w },
        HPoint { x: zero, y: whole(1), z: zero, w: whole(1) },
        HPoint { x: nw, y: w, z: zero, w },
        HPoint { x: whole(-1), y: zero, z: zero, w: whole(1) },
        HPoint { x: nw, y: nw, z: zero, w },
        HPoint { x: zero, y: whole(-1), z: zero, w: whole(1) },
        HPoint { x: w, y: nw, z: zero, w },
        HPoint { x: whole(1), y: zero, z: zero, w: whole(1) },
    ];
    let knots = vec![
        whole(0),
        whole(0),
        whole(0),
        rat(1, 4),
        rat(1, 4),
        rat(1, 2),
        rat(1, 2),
        rat(3, 4),
        rat(3, 4),
        whole(1),
        whole(1),
        whole(1),
    ];
    Curve::new(2, control_points, knots).unwrap()
}

/// The cubic Bezier as a clamped degree-3 curve with unit weights.
fn cubic_bezier() -> Curve {
    let control_points = vec![pt(80, 20), pt(280, 280), pt(20, 280), pt(220, 20)];
    let knots = vec![whole(0), whole(0), whole(0), whole(0), whole(1), whole(1), whole(1), whole(1)];
    Curve::new(3, control_points, knots).unwrap()
}

#[test]
fn construction_rejects_short_knot_vector() {
    let control_points = vec![pt(80, 20), pt(280, 280), pt(20, 280), pt(220, 20)];
    let knots = vec![whole(0), whole(0), whole(0), whole(0), whole(1), whole(1), whole(1)];
    let r = Curve::new(3, control_points, knots);
    assert_eq!(r.unwrap_err(), ConstructionError::KnotCountMismatch);
}

#[test]
fn construction_rejects_long_knot_vector() {
    let control_points = vec![pt(80, 20), pt(280, 280), pt(20, 280), pt(220, 20)];
    let knots =
        vec![whole(0), whole(0), whole(0), whole(0), whole(1), whole(1), whole(1), whole(1), whole(1)];
    let r = Curve::new(3, control_points, knots);
    assert_eq!(r.unwrap_err(), ConstructionError::KnotCountMismatch);
}

#[test]
fn construction_rejects_decreasing_knots() {
    let control_points = vec![pt(80, 20), pt(280, 280), pt(20, 280), pt(220, 20)];
    let knots =
        vec![whole(0), whole(0), whole(0), whole(1), rat(1, 2), whole(1), whole(1), whole(1)];
    let r = Curve::new(3, control_points, knots);
    assert_eq!(r.unwrap_err(), ConstructionError::NonMonotonicKnots);
}

#[test]
fn construction_rejects_too_few_control_points() {
    let control_points = vec![pt(80, 20), pt(280, 280)];
    let knots = vec![whole(0), whole(0), whole(0), whole(1), whole(1)];
    let r = Curve::new(2, control_points, knots);
    assert_eq!(r.unwrap_err(), ConstructionError::InsufficientControlPoints);
}

#[test]
fn construction_accepts_valid_inputs() {
    let c = cubic_bezier();
    assert!(rat_is_int(&c.min_u(), 0));
    assert!(rat_is_int(&c.max_u(), 1));
    assert_eq!(c.degree(), 3);
    assert_eq!(c.num_control_points(), 4);
    assert_eq!(c.num_knots(), 8);
    assert!(rat_is_int(&c.knot(3), 0));
    assert!(rat_is_int(&c.knot(4), 1));
    let p1 = c.control_point(1);
    assert!(rat_is_int(&p1.x, 280));
    assert!(rat_is_int(&p1.y, 280));
    assert!(rat_is_int(&p1.z, 0));
    assert!(rat_is_int(&p1.w, 1));
    let cps = c.control_points();
    assert_eq!(cps.len(), 4);
}

#[test]
fn bezier_hits_first_and_last_control_point() {
    let c = cubic_bezier();
    let start = de_boor(&c, &whole(0)).unwrap();
    assert!(rat_is_int(&start.x, 80));
    assert!(rat_is_int(&start.y, 20));
    let end = de_boor(&c, &whole(1)).unwrap();
    assert!(rat_is_int(&end.x, 220));
    assert!(rat_is_int(&end.y, 20));
}

#[test]
fn bezier_midpoint_matches_closed_form() {
    // At u = 1/2 a cubic Bezier evaluates to
    // (p0 + 3 p1 + 3 p2 + p3) / 8 = (150, 215).
    let c = cubic_bezier();
    let mid = de_boor(&c, &rat(1, 2)).unwrap();
    assert!(rat_is_int(&mid.x, 150));
    assert!(rat_is_int(&mid.y, 215));
}

#[test]
fn control_polygon_keeps_order_and_positions() {
    let c = cubic_bezier();
    let poly = control_polygon(&c);
    assert_eq!(poly.len(), 4);
    let expected = [(80, 20), (280, 280), (20, 280), (220, 20)];
    for (p, (ex, ey)) in poly.iter().zip(expected.iter()) {
        assert!(rat_is_int(&p.x, *ex));
        assert!(rat_is_int(&p.y, *ey));
    }
}

#[test]
fn polyline_has_one_more_point_than_divisions() {
    let c = cubic_bezier();
    for n in [1usize, 2, 3, 10, 64] {
        let poly = sample_polyline(&c, n).unwrap();
        assert_eq!(poly.len(), n + 1);
    }
    let circle = unit_circle();
    for n in [1usize, 4, 9, 16] {
        let poly = sample_polyline(&circle, n).unwrap();
        assert_eq!(poly.len(), n + 1);
    }
}

#[test]
fn polyline_ends_are_the_domain_end_evaluations() {
    let circle = unit_circle();
    let lo = de_boor(&circle, &circle.min_u()).unwrap();
    let hi = de_boor(&circle, &circle.max_u()).unwrap();
    for n in [1usize, 4, 7, 12] {
        let poly = sample_polyline(&circle, n).unwrap();
        let first = &poly[0];
        let last = &poly[poly.len() - 1];
        assert_eq!(first.x.num, lo.x.num);
        assert_eq!(first.x.den, lo.x.den);
        assert_eq!(first.y.num, lo.y.num);
        assert_eq!(first.y.den, lo.y.den);
        assert_eq!(last.x.num, hi.x.num);
        assert_eq!(last.x.den, hi.x.den);
        assert_eq!(last.y.num, hi.y.num);
        assert_eq!(last.y.den, hi.y.den);
    }
}

#[test]
fn circle_samples_lie_on_the_unit_circle() {
    let circle = unit_circle();
    for n in [4usize, 7, 16, 32, 40] {
        let poly = sample_polyline(&circle, n).unwrap();
        assert_eq!(poly.len(), n + 1);
        for p in &poly {
            assert!((dist_origin(p) - 1.0).abs() < 1e-9);
        }
    }
}

#[test]
fn circle_quarter_points_are_exact() {
    // The arc joints at u = 1/4, 1/2, 3/4 are the exactly representable
    // points (0, 1), (-1, 0) and (0, -1): span selection at repeated
    // interior knots must land on them exactly.
    let circle = unit_circle();
    let q1 = de_boor(&circle, &rat(1, 4)).unwrap();
    assert!(rat_is_int(&q1.x, 0));
    assert!(rat_is_int(&q1.y, 1));
    let q2 = de_boor(&circle, &rat(1, 2)).unwrap();
    assert!(rat_is_int(&q2.x, -1));
    assert!(rat_is_int(&q2.y, 0));
    let q3 = de_boor(&circle, &rat(3, 4)).unwrap();
    assert!(rat_is_int(&q3.x, 0));
    assert!(rat_is_int(&q3.y, -1));
}

#[test]
fn scaling_multiplies_distances_by_the_factor() {
    let circle = unit_circle();
    let scaled = circle.uniform_scale(&whole(130)).unwrap();
    let n = 8usize;
    let base = sample_polyline(&circle, n).unwrap();
    let big = sample_polyline(&scaled, n).unwrap();
    assert_eq!(base.len(), big.len());
    for (p, q) in base.iter().zip(big.iter()) {
        assert!((dist_origin(q) - 130.0 * dist_origin(p)).abs() < 1e-7);
    }
}

#[test]
fn scaling_leaves_weights_and_domain_alone() {
    let c = cubic_bezier();
    let scaled = c.uniform_scale(&whole(2)).unwrap();
    assert!(rat_is_int(&scaled.min_u(), 0));
    assert!(rat_is_int(&scaled.max_u(), 1));
    let cps = scaled.control_points();
    assert_eq!(cps.len(), 4);
    assert!(rat_is_int(&cps[0].x, 160));
    assert!(rat_is_int(&cps[0].y, 40));
    assert!(rat_is_int(&cps[0].w, 1));
    let start = de_boor(&scaled, &whole(0)).unwrap();
    assert!(rat_is_int(&start.x, 160));
    assert!(rat_is_int(&start.y, 40));
}

#[test]
fn rational_scalars_normalise_sign() {
    let a = rat(1, -2);
    assert!(a.den > 0);
    assert_eq!(a.num * 2, -a.den);
    let b = rat(-3, -4);
    assert!(b.den > 0);
    assert_eq!(b.num * 4, 3 * b.den);
}

/// `r` equals `num / den`, as exact rational values.
fn rat_is(r: &Rat, num: i128, den: i128) -> bool {
    r.num * den == num * r.den
}

#[test]
fn linear_curve_samples_evenly() {
    // A degree-1 curve from (0, 0) to (10, 0) is the segment itself, so
    // uniform parameter steps give uniform points: x_i = 10 * i / 4.
    let control_points = vec![pt(0, 0), pt(10, 0)];
    let knots = vec![whole(0), whole(0), whole(1), whole(1)];
    let line = Curve::new(1, control_points, knots).unwrap();
    let poly = sample_polyline(&line, 4).unwrap();
    assert_eq!(poly.len(), 5);
    for (i, p) in poly.iter().enumerate() {
        assert!(rat_is(&p.x, 10 * i as i128, 4));
        assert!(rat_is_int(&p.y, 0));
    }
}

#[test]
fn weighted_point_divides_by_weight() {
    // Homogeneous (30, 0, 0, 3) next to (0, 0, 0, 1): at u = 1/2 the
    // homogeneous midpoint is (15, 0, 0, 2), so the affine x is 15/2.
    let control_points = vec![
        pt(0, 0),
        HPoint { x: whole(30), y: whole(0), z: whole(0), w: whole(3) },
    ];
    let knots = vec![whole(0), whole(0), whole(1), whole(1)];
    let c = Curve::new(1, control_points, knots).unwrap();
    let mid = de_boor(&c, &rat(1, 2)).unwrap();
    assert!(rat_is(&mid.x, 15, 2));
    assert!(rat_is_int(&mid.y, 0));
}

#[test]
fn evaluation_extrapolates_beyond_domain() {
    // No bounds check is made: a parameter outside [min_u, max_u] is
    // evaluated through the nearest valid span, extending the last
    // segment: at u = 2 the line through (0, 0) and (10, 0) gives (20, 0).
    let control_points = vec![pt(0, 0), pt(10, 0)];
    let knots = vec![whole(0), whole(0), whole(1), whole(1)];
    let line = Curve::new(1, control_points, knots).unwrap();
    let beyond = de_boor(&line, &whole(2)).unwrap();
    assert!(rat_is_int(&beyond.x, 20));
    assert!(rat_is_int(&beyond.y, 0));
}

#[test]
fn sampling_rejects_zero_divisions() {
    let c = cubic_bezier();
    let r = sample_polyline(&c, 0);
    assert_eq!(r.unwrap_err(), SampleError::InvalidSampleCount);
}

#[test]
fn sampling_reports_values_out_of_range() {
    // Knot denominators near 2^31.5 make the exact interpolation factor's
    // denominator exceed the fixed-width integers, so sampling reports
    // OutOfRange instead of a polyline.
    let big = 3_037_000_493i128;
    let control_points = vec![pt(0, 0), pt(10, 0)];
    let knots = vec![
        rat(1, big),
        rat(1, big),
        rat(big - 1, big - 2),
        rat(big - 1, big - 2),
    ];
    let line = Curve::new(1, control_points, knots).unwrap();
    let r = sample_polyline(&line, 3);
    assert_eq!(r.unwrap_err(), SampleError::OutOfRange);
}

#[test]
fn evaluation_reports_values_out_of_range() {
    // The same near-2^31.5 knot denominators overflow the exact
    // interpolation inside the triangle: evaluation yields no point.
    let big = 3_037_000_493i128;
    let control_points = vec![pt(0, 0), pt(10, 0)];
    let knots = vec![
        rat(1, big),
        rat(1, big),
        rat(big - 1, big - 2),
        rat(big - 1, big - 2),
    ];
    let line = Curve::new(1, control_points, knots).unwrap();
    assert!(de_boor(&line, &rat(1, big - 4)).is_none());
}
