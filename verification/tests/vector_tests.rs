use tracer_core::scalar::Scalar;
use tracer_core::vector::{cross, dot, Direction, Vector};

/// A whole-number scalar.
fn s(n: i64) -> Scalar {
    Scalar::from_int(n)
}

/// A scalar given in millionths.
fn sm(n: i64) -> Scalar {
    Scalar::from_raw(n)
}

fn vec3(x: i64, y: i64, z: i64) -> Vector {
    Vector::new(s(x), s(y), s(z))
}

#[test]
fn two_vectors_equal() {
    let a = vec3(1, 1, 1);
    let b = vec3(1, 1, 1);
    assert_eq!(a, b)
}

#[test]
fn two_vectors_not_equal() {
    let a = vec3(1, -1, 1);
    let b = vec3(1, 1, 1);
    assert_ne!(a, b)
}

#[test]
fn adding_two_vectors() {
    let a = vec3(1, -1, 1);
    let b = vec3(1, 1, 1);

    let want = vec3(2, 0, 2);

    assert_eq!(want, a.add(b));
}

#[test]
fn subtracing_two_vectors() {
    let a = vec3(1, -1, 1);
    let b = vec3(1, 1, 1);

    let want = vec3(0, -2, 0);

    assert_eq!(want, a.sub(b));
}

#[test]
fn negate_vector() {
    let v = vec3(1, 2, 3);

    let want = vec3(-1, -2, -3);

    assert_eq!(want, v.neg());
}

#[test]
fn multiply_vector_scalar() {
    let v = vec3(1, 2, 3);
    let scalar = s(3);

    let want = vec3(3, 6, 9);

    assert_eq!(want, v.mul(scalar));
}

#[test]
fn magnitude_of_vector() {
    let v = vec3(1, 0, 0);
    assert_eq!(s(1), v.mag());

    let v = vec3(0, 1, 0);
    assert_eq!(s(1), v.mag());

    let v = vec3(0, 0, 1);
    assert_eq!(s(1), v.mag());

    // the square root of 14, rounded down to the millionth
    let v = vec3(1, 2, 3);
    assert_eq!(sm(3_741_657), v.mag());

    let v = vec3(1, 2, 3).neg();
    assert_eq!(sm(3_741_657), v.mag());
}

#[test]
fn normalize_vectors() {
    let v = vec3(4, 0, 0);

    let want = vec3(1, 0, 0);
    assert_eq!(want, v.norm());
    assert_eq!(s(1), v.norm().mag());

    // components of (1, 2, 3) / sqrt(14), each rounded down to the millionth
    let v = vec3(1, 2, 3);

    let want = Vector::new(sm(267_261), sm(534_522), sm(801_783));
    assert_eq!(want, v.norm());
    // one quantum short of 1: each truncated component falls slightly low
    assert_eq!(sm(999_999), v.norm().mag());
}

#[test]
fn compute_dot_product() {
    let a = vec3(1, 2, 3);
    let b = vec3(2, 3, 4);

    assert_eq!(s(20), dot(a, b))
}

#[test]
fn compute_cross_product() {
    let a = vec3(1, 2, 3);
    let b = vec3(2, 3, 4);

    let a_b = vec3(-1, 2, -1);
    let b_a = vec3(1, -2, 1);

    assert_eq!(a_b, cross(a, b));
    assert_eq!(b_a, cross(b, a));
}

#[test]
fn index_vector_by_axis() {
    let v = vec3(4, 5, 6);
    assert_eq!(s(4), v.index(Direction::X));
    assert_eq!(s(5), v.index(Direction::Y));
    assert_eq!(s(6), v.index(Direction::Z));
}

#[test]
fn from_array_matches_new() {
    let v = Vector::from_array([s(7), s(-8), s(9)]);
    assert_eq!(vec3(7, -8, 9), v);
}
