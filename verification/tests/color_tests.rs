use tracer_core::scalar::Scalar;
use tracer_core::color::{Color, Colors};

fn s(n: i64) -> Scalar {
    Scalar::from_int(n)
}

/// A scalar given in millionths.
fn sm(n: i64) -> Scalar {
    Scalar::from_raw(n)
}

#[test]
fn can_create_a_color() {
    // (-0.5, 0.4, 1.7)
    let c = Color::new(sm(-500_000), sm(400_000), sm(1_700_000));

    assert_eq!(sm(-500_000), c.index(Colors::R));
    assert_eq!(sm(400_000), c.index(Colors::G));
    assert_eq!(sm(1_700_000), c.index(Colors::B));
}

#[test]
fn adding_colors() {
    // (0.9, 0.6, 0.75) + (0.1, 0.4, 0.25)
    let a = Color::new(sm(900_000), sm(600_000), sm(750_000));
    let b = Color::new(sm(100_000), sm(400_000), sm(250_000));

    let want = Color::new(s(1), s(1), s(1));

    assert_eq!(want, a.add(b))
}

#[test]
fn subtracting_colors() {
    // (1, 1, 1) - (0.9, 0.6, 0.75)
    let a = Color::new(s(1), s(1), s(1));
    let b = Color::new(sm(900_000), sm(600_000), sm(750_000));

    let want = Color::new(sm(100_000), sm(400_000), sm(250_000));

    assert_eq!(want, a.sub(b))
}

#[test]
fn multipling_colors() {
    // (1, 2, 3) * (2, 0.5, 3), lane by lane
    let a = Color::new(s(1), s(2), s(3));
    let b = Color::new(s(2), sm(500_000), s(3));

    let want = Color::new(s(2), s(1), s(9));

    assert_eq!(want, a.mul(b));
}

#[test]
fn multiplying_color_by_scalar() {
    let a = Color::new(s(1), s(2), s(3));

    let want = Color::new(s(2), s(4), s(6));

    assert_eq!(want, a.scale(s(2)))
}

#[test]
fn default_color_is_black() {
    let c = Color::default();
    assert_eq!(Color::new(s(0), s(0), s(0)), c);
}
