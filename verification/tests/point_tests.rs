use tracer_core::scalar::Scalar;
use tracer_core::point::Point;
use tracer_core::vector::Vector;

fn s(n: i64) -> Scalar {
    Scalar::from_int(n)
}

fn p3(x: i64, y: i64, z: i64) -> Point {
    Point::new(s(x), s(y), s(z))
}

fn v3(x: i64, y: i64, z: i64) -> Vector {
    Vector::new(s(x), s(y), s(z))
}

#[test]
fn two_points_equal() {
    let a = p3(1, 1, 1);
    let b = p3(1, 1, 1);
    assert_eq!(a, b)
}

#[test]
fn two_points_not_equal() {
    let a = p3(1, -1, 1);
    let b = p3(1, 1, 1);
    assert_ne!(a, b)
}

#[test]
fn add_a_vector_to_a_point() {
    let point = p3(3, -2, 5);
    let vector = v3(-2, 3, 1);

    let want = p3(1, 1, 6);

    assert_eq!(want, point.add(vector));
}

#[test]
fn subtract_two_points() {
    let p_1 = p3(3, 2, 1);
    let p_2 = p3(5, 6, 7);

    let want = v3(-2, -4, -6);

    assert_eq!(want, p_1.sub(p_2));
}

#[test]
fn subtract_vector_from_point() {
    let p = p3(3, 2, 1);
    let v = v3(5, 6, 7);

    let want = p3(-2, -4, -6);

    assert_eq!(want, p.sub_vec(v));
}

#[test]
fn multiply_point_scalar() {
    let p = p3(1, 2, 3);
    let scalar = s(3);

    let want = p3(3, 6, 9);

    assert_eq!(want, p.mul(scalar));
}

#[test]
fn translate_round_trip() {
    let p = p3(3, -2, 5);
    let v = v3(-2, 3, 1);
    assert_eq!(p, p.add(v).sub_vec(v));
}

#[test]
fn divide_point_scalar() {
    let p = p3(2, 4, 6);
    assert_eq!(p3(1, 2, 3), p.div(s(2)));
}
