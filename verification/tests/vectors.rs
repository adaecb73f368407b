use poggle::shape::{magnitude, solve_quadratic, Body, Point, PolarPoint, Region, Shape};
use std::ops::Neg;

#[test]
fn test_add() {
    let a = Point::new(1, 2);
    let b = Point::new(3, 4);
    let c = Point::new(5, 6);

    assert_eq!(a + b, Point::new(4, 6));
    assert_eq!(b + a, Point::new(4, 6));
    assert_eq!(a + c, Point::new(6, 8));
    assert_eq!(b + c, Point::new(8, 10));
}

#[test]
fn test_dot() {
    let a = Point::new(1, 2);
    let b = Point::new(3, 4);
    let c = Point::new(5, 6);

    assert_eq!(a.dot(b), 11);
    assert_eq!(b.dot(a), 11);
    assert_eq!(a.dot(c), 17);
    assert_eq!(b.dot(c), 39);
}

#[test]
fn test_length() {
    let a = Point::new(1.0, 2.0);
    let b = Point::new(3.0, 4.0);
    let c = Point::new(5.0, 6.0);

    assert!((a.length_squared() - 5.0f32).abs() < f32::EPSILON);
    assert!((b.length_squared() - 25.0f32).abs() < f32::EPSILON);
    assert!((c.length_squared() - 61.0f32).abs() < f32::EPSILON);

    assert!((a.length(&f32::sqrt) - 5.0f32.sqrt()).abs() < f32::EPSILON);
    assert!((b.length(&f32::sqrt) - 5.0f32).abs() < f32::EPSILON);
    assert!((c.length(&f32::sqrt) - 61.0f32.sqrt()).abs() < f32::EPSILON);
}

#[test]
fn new_keeps_both_coordinates() {
    let p = Point::new(-7i64, 9i64);
    assert_eq!(p.x, -7);
    assert_eq!(p.y, 9);
}

#[test]
fn to_leads_from_self_to_the_other() {
    let a = Point::new(1, 2);
    let b = Point::new(4, -3);
    assert_eq!(a.to(b), Point::new(3, -5));
    assert_eq!(b.to(a), Point::new(-3, 5));
    assert_eq!(a.to(a), Point::new(0, 0));
}

#[test]
fn sub_mul_div_neg_work_by_coordinate() {
    let a = Point::new(7, -9);
    let b = Point::new(2, 3);
    assert_eq!(a - b, Point::new(5, -12));
    assert_eq!(a * 3, Point::new(21, -27));
    assert_eq!(a / 2, Point::new(3, -4));
    assert_eq!(a.neg(), Point::new(-7, 9));
    assert_eq!(-a, Point::new(-7, 9));
}

#[test]
fn assigning_operators_change_in_place() {
    let mut a = Point::new(1, 2);
    a += Point::new(10, 20);
    assert_eq!(a, Point::new(11, 22));
    a *= 3;
    assert_eq!(a, Point::new(33, 66));
}

#[test]
fn points_are_equal_when_both_coordinates_are() {
    assert!(Point::new(1, 2) == Point::new(1, 2));
    assert!(Point::new(1, 2) != Point::new(1, 3));
    assert!(Point::new(1, 2) != Point::new(0, 2));
    assert!(Point::new(f64::NAN, 0.0) != Point::new(f64::NAN, 0.0));
}

#[test]
fn length_squared_and_distance_squared() {
    assert_eq!(Point::new(3, 4).length_squared(), 25);
    assert_eq!(Point::new(-3, 4).length_squared(), 25);
    assert_eq!(Point::new(0, 0).length_squared(), 0);
    assert_eq!(Point::new(1, 1).distance_to_squared(Point::new(4, 5)), 25);
    assert_eq!(Point::new(4, 5).distance_to_squared(Point::new(1, 1)), 25);
    assert_eq!(Point::new(2.5f64, 0.0).distance_to_squared(Point::new(0.5, 0.0)), 4.0);
}

#[test]
fn is_longer_than_is_strict() {
    let p = Point::new(3, 4);
    assert!(p.is_longer_than(4));
    assert!(!p.is_longer_than(5));
    assert!(!p.is_longer_than(6));
    assert!(p.is_longer_than(-4));
    assert!(Point::new(0.6f32, 0.8).is_longer_than(0.5));
}

#[test]
fn zero_is_the_origin() {
    let z: Point<u32> = Point::zero();
    assert_eq!(z, Point::new(0u32, 0u32));
    let f: Point<f32> = Point::zero();
    assert_eq!(f, Point::new(0.0f32, 0.0f32));
    let i: Point<i64> = Point::zero();
    assert_eq!(i, Point::new(0i64, 0i64));
}

#[test]
fn add_signed_moves_and_wraps() {
    let c = Point::new(100u32, 200u32);
    assert_eq!(c.add_signed(Point::new(5, -7)), Point::new(105u32, 193u32));
    assert_eq!(c.add_signed(Point::new(-100, -200)), Point::new(0u32, 0u32));
    assert_eq!(c.add_signed(Point::new(-101, 0)), Point::new(u32::MAX, 200u32));
    let top = Point::new(u32::MAX, u32::MAX - 1);
    assert_eq!(top.add_signed(Point::new(1, 3)), Point::new(0u32, 1u32));
    assert_eq!(
        Point::new(0u32, 0u32).add_signed(Point::new(i32::MIN, i32::MAX)),
        Point::new(0x8000_0000u32, 0x7fff_ffffu32)
    );
}

#[test]
fn circle_contains_exactly_the_points_within_its_radius() {
    let body = Body { pos: Point::new(10, -4), shape: Shape::Circle { radius: 5 } };
    for x in -2..23 {
        for y in -16..9 {
            let dx: i32 = x - 10;
            let dy: i32 = y + 4;
            let within = dx * dx + dy * dy <= 25;
            assert_eq!(body.contains(Point::new(x, y)), within, "at ({x}, {y})");
        }
    }
    assert!(body.contains(Point::new(15, -4)));
    assert!(body.contains(Point::new(13, 0)));
    assert!(!body.contains(Point::new(16, -4)));
    assert!(!body.contains(Point::new(14, 0)));
}

#[test]
fn circle_of_reals_excludes_points_just_outside() {
    let radius = 10.0f64;
    let body = Body { pos: Point::new(50.0, 50.0), shape: Shape::Circle { radius } };
    let eps = 1e-6;
    for step in 0..16 {
        let angle = step as f64 * std::f64::consts::PI / 8.0;
        let (sin, cos) = angle.sin_cos();
        let inside = Point::new(50.0 + (radius - eps) * cos, 50.0 + (radius - eps) * sin);
        let outside = Point::new(50.0 + (radius + eps) * cos, 50.0 + (radius + eps) * sin);
        assert!(body.contains(inside));
        assert!(!body.contains(outside));
    }
    assert!(body.contains(Point::new(50.0, 50.0)));
    assert!(body.contains(Point::new(60.0, 50.0)));
}

fn whole_root(x: i64) -> i64 {
    let mut r = 0;
    while (r + 1) * (r + 1) <= x {
        r += 1;
    }
    r
}

#[test]
fn magnitude_drops_the_sign() {
    assert_eq!(magnitude(-7), 7);
    assert_eq!(magnitude(7), 7);
    assert_eq!(magnitude(0), 0);
    assert_eq!(magnitude(-2.5f64), 2.5);
}

#[test]
fn lengths_and_distances_take_the_root_they_are_given() {
    assert_eq!(Point::new(3i64, 4).length(&whole_root), 5);
    assert_eq!(Point::new(1i64, 1).length(&whole_root), 1);
    assert_eq!(Point::new(1i64, 1).distance_to(Point::new(7, 9), &whole_root), 10);
    assert_eq!(Point::new(3.0f64, 4.0).length(&f64::sqrt), 5.0);
    assert_eq!(Point::new(1.0f64, 2.0).distance_to(Point::new(4.0, 6.0), &f64::sqrt), 5.0);
    // a root that is no root at all is taken at its word
    assert_eq!(Point::new(3i64, 4).length(&|x: i64| x + 1), 26);
}

#[test]
fn normalized_and_with_length_keep_the_direction() {
    assert_eq!(Point::new(3.0f64, 4.0).normalized(&f64::sqrt), Point::new(0.6, 0.8));
    assert_eq!(Point::new(0.0f32, -2.0).normalized(&f32::sqrt), Point::new(0.0, -1.0));
    assert_eq!(Point::new(6.0f64, 8.0).with_length(5.0, &f64::sqrt), Point::new(3.0, 4.0));
    assert_eq!(Point::new(30i64, 40).normalized(&whole_root), Point::new(0, 0));
    assert_eq!(Point::new(0i64, -40).with_length(7, &whole_root), Point::new(0, -7));
    let unit = Point::new(-5.0f32, 12.0).normalized(&f32::sqrt);
    assert!((unit.length(&f32::sqrt) - 1.0).abs() < 1e-6);
}

#[test]
fn quadratic_with_two_solutions() {
    // x^2 - 100 x + 2275 = (x - 65)(x - 35)
    assert_eq!(solve_quadratic(1.0f32, -100.0, 2275.0, &f32::sqrt), Some((65.0, 35.0)));
    assert_eq!(solve_quadratic(1i64, -100, 2275, &whole_root), Some((65, 35)));
    // 2 x^2 + 4 x - 6 = 2 (x - 1)(x + 3)
    assert_eq!(solve_quadratic(2.0f64, 4.0, -6.0, &f64::sqrt), Some((1.0, -3.0)));
    // with a negative leading coefficient the smaller solution comes first
    assert_eq!(solve_quadratic(-1.0f64, 0.0, 4.0, &f64::sqrt), Some((-2.0, 2.0)));
}

#[test]
fn quadratic_with_one_solution_gives_it_twice() {
    assert_eq!(solve_quadratic(1.0f64, -6.0, 9.0, &f64::sqrt), Some((3.0, 3.0)));
    assert_eq!(solve_quadratic(1i64, -6, 9, &whole_root), Some((3, 3)));
}

#[test]
fn quadratic_without_real_solutions() {
    assert_eq!(solve_quadratic(1.0f32, -100.0, 12275.0, &f32::sqrt), None);
    assert_eq!(solve_quadratic(1.0f64, 0.0, 1.0, &f64::sqrt), None);
    assert_eq!(solve_quadratic(1i64, 2, 2, &whole_root), None);
}

#[test]
fn polar_and_back_keeps_angle_and_magnitude() {
    for step in -15..=15 {
        let angle = step as f32 * std::f32::consts::PI / 16.0;
        for magnitude in [0.25f32, 1.0, 6.0, 550.0, 12345.0] {
            let polar = PolarPoint::new(angle, magnitude);
            let point = polar.to_point(&f32::sin_cos);
            let back = PolarPoint::from_point(point, &f32::atan2, &f32::hypot);
            assert!((back.angle - angle).abs() < 1e-5, "angle {angle} came back as {}", back.angle);
            assert!(
                (back.magnitude - magnitude).abs() <= 1e-6 * magnitude,
                "magnitude {magnitude} came back as {}",
                back.magnitude
            );
        }
    }
}

#[test]
fn polar_points_at_the_axes() {
    let east = PolarPoint::new(0.0f64, 2.0).to_point(&f64::sin_cos);
    assert_eq!(east, Point::new(2.0, 0.0));
    let north = PolarPoint::new(std::f64::consts::FRAC_PI_2, 3.0).to_point(&f64::sin_cos);
    assert!(north.x.abs() < 1e-12);
    assert_eq!(north.y, 3.0);
    let polar = PolarPoint::from_point(Point::new(0.0f64, -4.0), &f64::atan2, &f64::hypot);
    assert_eq!(polar.angle, -std::f64::consts::FRAC_PI_2);
    assert_eq!(polar.magnitude, 4.0);
    let polar = PolarPoint::from_point(Point::new(3.0f64, 4.0), &f64::atan2, &f64::hypot);
    assert_eq!(polar.magnitude, 5.0);
    assert_eq!(polar.angle, (4.0f64).atan2(3.0));
}

#[test]
fn polar_conversion_takes_its_functions_in_the_order_given() {
    // sine first, cosine second; the angle from y and x, the magnitude from x and y
    let p = PolarPoint::new(7, 10).to_point(&|angle: i32| (angle + 1, angle + 2));
    assert_eq!(p, Point::new(90, 80));
    let polar = PolarPoint::from_point(
        Point::new(3, 4),
        &|y: i32, x: i32| 10 * y + x,
        &|x: i32, y: i32| 100 * x + y,
    );
    assert_eq!(polar.angle, 43);
    assert_eq!(polar.magnitude, 304);
}
