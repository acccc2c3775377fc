use tracer_math::scalar::Scalar;
use tracer_math::tuple::Tuple;

/// The floating-point scalar the geometry is meant to run on. The library is
/// verified for any implementation that honors the `Scalar` contracts;
/// this impl supplies the IEEE operations.
#[derive(Debug, Clone, Copy, PartialEq)]
struct F(f64);

impl Scalar for F {
    fn zero_s() -> F {
        F(0.0)
    }
    fn one_s() -> F {
        F(1.0)
    }
    fn from_i32_s(v: i32) -> F {
        F(v as f64)
    }
    fn add_s(self, o: F) -> F {
        F(self.0 + o.0)
    }
    fn sub_s(self, o: F) -> F {
        F(self.0 - o.0)
    }
    fn mul_s(self, o: F) -> F {
        F(self.0 * o.0)
    }
    fn neg_s(self) -> F {
        F(-self.0)
    }
    fn div_s(self, o: F) -> F {
        F(self.0 / o.0)
    }
    fn sqrt_s(self) -> F {
        F(self.0.sqrt())
    }
    fn channel_s(self) -> u8 {
        (self.0 * 255.0).ceil().clamp(0.0, 255.0) as u8
    }
    fn law_add_zero(_a: F) {}
    fn law_mul_one(_a: F) {}
    fn law_mul_zero(_a: F) {}
    fn law_mul_comm(_a: F, _b: F) {}
    fn law_add_sub(_a: F, _b: F) {}
    fn law_neg_sub(_a: F, _b: F) {}
    fn law_neg_zero() {}
    fn law_from_i32_zero(_v: i32) {}
    fn zero() -> F {
        F(0.0)
    }
    fn one() -> F {
        F(1.0)
    }
    fn from_i32(v: i32) -> F {
        F(v as f64)
    }
    fn add(self, o: F) -> F {
        F(self.0 + o.0)
    }
    fn sub(self, o: F) -> F {
        F(self.0 - o.0)
    }
    fn mul(self, o: F) -> F {
        F(self.0 * o.0)
    }
    fn neg(self) -> F {
        F(-self.0)
    }
    fn div(self, o: F) -> F {
        F(self.0 / o.0)
    }
    fn sqrt(self) -> F {
        F(self.0.sqrt())
    }
    fn channel(self) -> u8 {
        (self.0 * 255.0).ceil().clamp(0.0, 255.0) as u8
    }
    fn eq_val(self, o: F) -> bool {
        self.0 == o.0
    }
}

const EPSILON: f64 = 0.0005;

fn equal(a: f64, b: f64) -> bool {
    (a - b).abs() < EPSILON
}

fn point(x: f64, y: f64, z: f64) -> Tuple<F> {
    Tuple::to_point(F(x), F(y), F(z))
}

fn vector(x: f64, y: f64, z: f64) -> Tuple<F> {
    Tuple::to_vector(F(x), F(y), F(z))
}

#[test]
fn should_be_point() {
    let a: Tuple<F> = Tuple::from(F(4.3), F(-4.2), F(3.1), F(1.0));

    assert_eq!(a.x, F(4.3));
    assert_eq!(a.y, F(-4.2));
    assert_eq!(a.z, F(3.1));
    assert!(a.is_point());
}

#[test]
fn should_be_vector() {
    let a: Tuple<F> = Tuple::from(F(4.3), F(-4.2), F(3.1), F(0.0));

    assert_eq!(a.x, F(4.3));
    assert_eq!(a.y, F(-4.2));
    assert_eq!(a.z, F(3.1));
    assert!(!a.is_point());
}

#[test]
fn to_point_create_tuple() {
    let a = point(4.0, -4.0, 3.0);

    assert_eq!(a.x, F(4.0));
    assert_eq!(a.y, F(-4.0));
    assert_eq!(a.z, F(3.0));
    assert!(a.is_point());
}

#[test]
fn to_vector_create_tuple() {
    let a = vector(4.0, -4.0, 3.0);

    assert_eq!(a.x, F(4.0));
    assert_eq!(a.y, F(-4.0));
    assert_eq!(a.z, F(3.0));
    assert_eq!(a.is_point(), false);
}

#[test]
fn adding_two_tuples() {
    let a = point(3.0, -2.0, 5.0);
    let b = vector(-2.0, 3.0, 1.0);

    assert_eq!(a.add(b), point(1.0, 1.0, 6.0));
}

#[test]
fn adding_two_vectors() {
    let a = vector(3.0, -2.0, 5.0);
    let b = vector(-2.0, 3.0, 1.0);

    assert_eq!(a.add(b), vector(1.0, 1.0, 6.0));
}

#[test]
fn subtracting_two_points() {
    let a = point(3.0, 2.0, 1.0);
    let b = point(5.0, 6.0, 7.0);

    assert_eq!(a.sub(b), vector(-2.0, -4.0, -6.0));
}

#[test]
fn subtracting_vector_and_point() {
    let a = vector(3.0, 2.0, 1.0);
    let b = point(5.0, 6.0, 7.0);

    assert_eq!(a.sub(b), point(-2.0, -4.0, -6.0));
}

#[test]
fn subtracting_two_vectors() {
    let a = vector(3.0, 2.0, 1.0);
    let b = vector(5.0, 6.0, 7.0);

    assert_eq!(a.sub(b), vector(-2.0, -4.0, -6.0));
}

#[test]
fn subtracting_a_vector_from_the_zero_vector() {
    let zero = vector(0.0, 0.0, 0.0);
    let v = vector(1.0, -2.0, 3.0);

    assert_eq!(zero.sub(v), vector(-1.0, 2.0, -3.0));
}

#[test]
fn negating_a_tuple() {
    let mut a: Tuple<F> = Tuple::from(F(1.0), F(-2.0), F(3.0), F(-4.0));
    a.negate();

    assert_eq!(a.x, F(-1.0));
    assert_eq!(a.y, F(2.0));
    assert_eq!(a.z, F(-3.0));
    assert_eq!(a.w, F(4.0));
}

#[test]
fn multiplying_a_tuple_by_a_scalar() {
    let a: Tuple<F> = Tuple::from(F(1.0), F(-2.0), F(3.0), F(-4.0));
    let scalar = F(3.5);

    assert_eq!(a.mul(scalar), Tuple::from(F(3.5), F(-7.0), F(10.5), F(-14.0)));
}

#[test]
fn multiplying_a_tuple_by_a_fraction() {
    let a: Tuple<F> = Tuple::from(F(1.0), F(-2.0), F(3.0), F(-4.0));
    let scalar = F(0.5);

    assert_eq!(a.mul(scalar), Tuple::from(F(0.5), F(-1.0), F(1.5), F(-2.0)));
}

#[test]
fn dividing_a_tuple_by_scalar() {
    let a: Tuple<F> = Tuple::from(F(1.0), F(-2.0), F(3.0), F(-4.0));

    assert_eq!(a.div(2).unwrap(), Tuple::from(F(0.5), F(-1.0), F(1.5), F(-2.0)));
}

#[test]
fn compute_the_magnitude_vec() {
    let a = vector(1.0, 0.0, 0.0);

    assert_eq!(a.magnitude(), F(1.0));
}

#[test]
fn compute_the_magnitude_vec2() {
    let a = vector(0.0, 1.0, 0.0);

    assert_eq!(a.magnitude(), F(1.0));
}

#[test]
fn compute_the_magnitude_vec3() {
    let a = vector(0.0, 0.0, 1.0);

    assert_eq!(a.magnitude(), F(1.0));
}

#[test]
fn compute_the_magnitude_vec4() {
    let a = vector(1.0, 2.0, 3.0);

    assert_eq!(a.magnitude(), F(14.0_f64.sqrt()));
}

#[test]
fn compute_the_magnitude_vec5() {
    let a = vector(-1.0, -2.0, -3.0);

    assert_eq!(a.magnitude(), F(14.0_f64.sqrt()));
}

#[test]
fn normalize_vector() {
    let a = vector(4.0, 0.0, 0.0);
    let normalized_a = a.normalize().unwrap();

    assert_eq!(normalized_a, vector(1.0, 0.0, 0.0));
}

#[test]
fn normalize_vector2() {
    let a = vector(1.0, 2.0, 3.0);
    let normalized_a = a.normalize().unwrap();
    let approx = vector(0.2676, 0.53452, 0.80178);

    assert!(equal(normalized_a.x.0, approx.x.0));
    assert!(equal(normalized_a.y.0, approx.y.0));
    assert!(equal(normalized_a.z.0, approx.z.0));
}

#[test]
fn magnitude_of_normalized_vector() {
    let v = vector(1.0, 2.0, 3.0);
    let norm = v.normalize().unwrap();

    assert_eq!(norm.magnitude(), F(1.0));
}

#[test]
fn dot_product_two_tuples() {
    let a = vector(1.0, 2.0, 3.0);
    let b = vector(2.0, 3.0, 4.0);

    assert_eq!(a.dot(&b), F(20.0));
}

#[test]
fn cross_product_two_vectors() {
    let a = vector(1.0, 2.0, 3.0);
    let b = vector(2.0, 3.0, 4.0);

    assert_eq!(a.cross(&b), vector(-1.0, 2.0, -1.0));
    assert_eq!(b.cross(&a), vector(1.0, -2.0, 1.0));
}

#[test]
fn normalizing_the_zero_vector_is_rejected() {
    let zero = vector(0.0, 0.0, 0.0);
    assert!(zero.normalize().is_none());
}

#[test]
fn dividing_by_zero_is_rejected() {
    let a: Tuple<F> = Tuple::from(F(1.0), F(-2.0), F(3.0), F(-4.0));
    assert!(a.div(0).is_none());
}

#[test]
fn cross_products_in_both_orders_negate() {
    let a = vector(2.5, -1.0, 4.0);
    let b = vector(0.5, 3.0, -2.0);
    let mut flipped = b.cross(&a);
    flipped.negate();

    assert_eq!(a.cross(&b), flipped);
}
