use tracer_math::scalar::Scalar;
use tracer_math::tuple::Tuple;

#[test]
fn integer_square_root_rounds_down() {
    assert_eq!(Scalar::sqrt(0i64), 0);
    assert_eq!(Scalar::sqrt(1i64), 1);
    assert_eq!(Scalar::sqrt(14i64), 3);
    assert_eq!(Scalar::sqrt(16i64), 4);
    assert_eq!(Scalar::sqrt(99i64), 9);
    assert_eq!(Scalar::sqrt(-5i64), 0);
}

#[test]
fn integer_division_truncates_toward_zero() {
    assert_eq!(Scalar::div(7i64, 2), 3);
    assert_eq!(Scalar::div(-7i64, 2), -3);
    assert_eq!(Scalar::div(7i64, -2), -3);
}

#[test]
fn integer_channels_clamp() {
    assert_eq!(Scalar::channel(-3i64), 0);
    assert_eq!(Scalar::channel(0i64), 0);
    assert_eq!(Scalar::channel(1i64), 255);
    assert_eq!(Scalar::channel(7i64), 255);
}

#[test]
fn integer_vector_magnitude() {
    let v: Tuple<i64> = Tuple::to_vector(3, 4, 0);
    assert_eq!(v.magnitude(), 5);
}
