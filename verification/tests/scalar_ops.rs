//! The fixed-point scalar: exact arithmetic, rounding rules, and the total
//! order that the deduplicating store keys on.

use fj_kernel::{Circle, Point3, Scalar, Vector3, FRAC_PI_2_BITS, ONE_BITS};

fn s(units: i64) -> Scalar {
    Scalar {
        bits: units * ONE_BITS,
    }
}

#[test]
fn exact_sums_and_differences() {
    let a = Scalar::from_bits(3 * ONE_BITS / 2); // 1.5
    let b = Scalar::from_bits(5 * ONE_BITS / 2); // 2.5
    assert_eq!(a.add(b), s(4));
    assert_eq!(b.sub(a), Scalar::one());
    assert_eq!(a.neg().bits, -a.bits);
    assert_eq!(Scalar::zero().bits, 0);
}

#[test]
fn products_truncate_toward_zero() {
    let a = Scalar::from_bits(3 * ONE_BITS / 2); // 1.5
    let b = Scalar::from_bits(5 * ONE_BITS / 2); // 2.5
    // 1.5 * 2.5 == 3.75, exactly representable in binary fixed point.
    assert_eq!(a.mul(b), Scalar::from_bits(15 * ONE_BITS / 4));
    // The sign mirrors: truncation is symmetric about zero.
    assert_eq!(a.neg().mul(b).bits, -a.mul(b).bits);
}

#[test]
fn unit_quotients() {
    let one = Scalar::one();
    let two = s(2);
    // 1 / 2 == 0.5 exactly.
    assert_eq!(one.div_unit(two), Scalar::from_bits(ONE_BITS / 2));
    // 1 / 3 truncates toward zero.
    let third = one.div_unit(s(3));
    assert_eq!(third.bits, ONE_BITS / 3);
    // A quotient of equal magnitudes is exactly one.
    assert_eq!(two.div_unit(two), one);
    assert_eq!(two.neg().div_unit(two).bits, -ONE_BITS);
}

#[test]
fn total_order_helpers() {
    let a = s(-2);
    let b = s(3);
    assert!(a.lt(b));
    assert!(a.le(b));
    assert!(!b.le(a));
    assert_eq!(a.min(b), a);
    assert_eq!(a.max(b), b);
    // Equality is exact structural equality: one single zero.
    assert_eq!(Scalar::zero(), Scalar::from_bits(0));
}

#[test]
fn quarter_diagonal_angle() {
    // A point at 45 degrees exercises the arc-tangent core on a ratio of
    // exactly one; the result must be pi / 4, not the ratio itself.
    let circle = Circle {
        center: Point3 {
            x: s(1),
            y: s(2),
            z: s(3),
        },
        a: Vector3 {
            x: s(1),
            y: s(0),
            z: s(0),
        },
        b: Vector3 {
            x: s(0),
            y: s(1),
            z: s(0),
        },
    };
    let coord = circle.point_to_circle_coords(Point3 {
        x: s(2),
        y: s(3),
        z: s(3),
    });
    let quarter_pi = FRAC_PI_2_BITS / 2;
    assert!(
        (coord.t.bits - quarter_pi).abs() < 100000,
        "expected about pi/4, got {} bits",
        coord.t.bits
    );
}
