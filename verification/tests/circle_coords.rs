//! Circle coordinate conversions: the angular coordinate of points on a
//! circle, the round trip through the parametrization, and sampling.

use fj_kernel::{
    Circle, CycleApprox, Point1, Point3, Scalar, Vector1, Vector3, FRAC_PI_2_BITS, ONE_BITS,
    PI_BITS, TWO_PI_BITS,
};

fn s(units: i64) -> Scalar {
    Scalar {
        bits: units * ONE_BITS,
    }
}

fn p3(x: i64, y: i64, z: i64) -> Point3 {
    Point3 {
        x: s(x),
        y: s(y),
        z: s(z),
    }
}

fn v3(x: i64, y: i64, z: i64) -> Vector3 {
    Vector3 {
        x: s(x),
        y: s(y),
        z: s(z),
    }
}

fn unit_circle_at(center: Point3) -> Circle {
    Circle {
        center,
        a: v3(1, 0, 0),
        b: v3(0, 1, 0),
    }
}

#[test]
fn point_to_circle_coords() {
    let circle = unit_circle_at(p3(1, 2, 3));

    assert_eq!(
        circle.point_to_circle_coords(p3(2, 2, 3)),
        Point1 { t: Scalar { bits: 0 } },
    );
    assert_eq!(
        circle.point_to_circle_coords(p3(1, 3, 3)),
        Point1 {
            t: Scalar {
                bits: FRAC_PI_2_BITS
            }
        },
    );
    assert_eq!(
        circle.point_to_circle_coords(p3(0, 2, 3)),
        Point1 { t: Scalar { bits: PI_BITS } },
    );
    assert_eq!(
        circle.point_to_circle_coords(p3(1, 1, 3)),
        Point1 {
            t: Scalar {
                bits: FRAC_PI_2_BITS * 3
            }
        },
    );
}

#[test]
fn coords_are_normalized() {
    let circle = unit_circle_at(p3(0, 0, 0));
    // Points in all four quadrants, including off-circle points, which are
    // projected rather than rejected.
    let samples = [
        p3(5, 1, 0),
        p3(-3, 2, 0),
        p3(-1, -4, 0),
        p3(2, -2, 7),
        p3(0, 0, 0),
    ];
    for p in samples {
        let c = circle.point_to_circle_coords(p);
        assert!(0 <= c.t.bits && c.t.bits < TWO_PI_BITS);
    }
}

#[test]
fn round_trip_angle() {
    let circle = unit_circle_at(p3(1, 2, 3));
    // Angles spread over all four quadrants, in units of 2^-32 radians.
    let angles: [i64; 6] = [
        0,
        1000000000,
        FRAC_PI_2_BITS + 777,
        PI_BITS - 5,
        PI_BITS + 123456789,
        TWO_PI_BITS - 1000000000,
    ];
    // The transcendental core is iterative; allow a few hundredths of a
    // milliradian of drift across the full round trip.
    let tol: i64 = 200000;
    for &a in &angles {
        let p = circle.point_from_circle_coords(Point1 { t: Scalar { bits: a } });
        let back = circle.point_to_circle_coords(p).t.bits;
        let diff = (back - a).abs();
        let wrapped = diff.min((TWO_PI_BITS - diff).abs());
        assert!(
            wrapped <= tol,
            "angle {} came back as {} (off by {})",
            a,
            back,
            wrapped
        );
    }
}

#[test]
fn reverse_flips_b() {
    let circle = unit_circle_at(p3(0, 0, 0));
    let rev = circle.reverse();
    assert_eq!(rev.center, circle.center);
    assert_eq!(rev.a, circle.a);
    assert_eq!(rev.b, v3(0, -1, 0));
    // Reversing twice restores the original circle.
    assert_eq!(rev.reverse(), circle);
}

#[test]
fn vector_from_circle_coords_axis_values() {
    let circle = unit_circle_at(p3(0, 0, 0));
    let w = circle.vector_from_circle_coords(Vector1 { t: Scalar { bits: 0 } });
    // cos(0) and sin(0) come from an iterative core: expect a vector very
    // close to `a`, far from `b`.
    assert!((w.x.bits - ONE_BITS).abs() < 1000000);
    assert!(w.y.bits.abs() < 1000000);
    assert_eq!(w.z.bits, 0);
}

#[test]
fn circle_approximation_samples_lie_on_circle() {
    let circle = unit_circle_at(p3(0, 0, 0));
    let approx = CycleApprox::from_circle(&circle, 16);
    assert_eq!(approx.points.len(), 16);
    for p in &approx.points {
        // Each sample is within a hair of the unit circle.
        let x = p.x.bits as f64 / ONE_BITS as f64;
        let y = p.y.bits as f64 / ONE_BITS as f64;
        let r = (x * x + y * y).sqrt();
        assert!((r - 1.0).abs() < 1e-4, "sample off circle: {}", r);
        assert_eq!(p.z.bits, 0);
    }
    // The first sample sits at angle zero: on the positive x axis.
    let first = approx.points[0];
    assert!((first.x.bits - ONE_BITS).abs() < 1000000);
    assert!(first.y.bits.abs() < 1000000);
}

#[test]
fn approximation_count_shrinks_with_tolerance() {
    let radius = s(1);
    // A generous tolerance needs few samples; a tight one needs more.
    let coarse = fj_kernel::circle_approx_count(radius, Scalar { bits: ONE_BITS / 10 });
    let fine = fj_kernel::circle_approx_count(radius, Scalar { bits: ONE_BITS / 10000 });
    assert!(coarse < fine, "coarse {} fine {}", coarse, fine);
    assert!(coarse >= 4);
    assert!(fine <= 65536);
    // At the returned counts the chord sagitta meets the tolerance:
    // 1 - cos(pi / 8) is about 0.076 < 0.1.
    assert_eq!(coarse, 8);
}
