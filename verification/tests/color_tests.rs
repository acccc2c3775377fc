use tracer_math::color::Color;
use tracer_math::scalar::Scalar;

/// The floating-point scalar the geometry is meant to run on. The library is
/// verified for any implementation that honors the `Scalar` contracts;
/// this impl supplies the IEEE operations.
#[derive(Debug, Clone, Copy, PartialEq)]
struct F(f64);

impl Scalar for F {
    fn zero_s() -> F {
        F(0.0)
    }
    fn one_s() -> F {
        F(1.0)
    }
    fn from_i32_s(v: i32) -> F {
        F(v as f64)
    }
    fn add_s(self, o: F) -> F {
        F(self.0 + o.0)
    }
    fn sub_s(self, o: F) -> F {
        F(self.0 - o.0)
    }
    fn mul_s(self, o: F) -> F {
        F(self.0 * o.0)
    }
    fn neg_s(self) -> F {
        F(-self.0)
    }
    fn div_s(self, o: F) -> F {
        F(self.0 / o.0)
    }
    fn sqrt_s(self) -> F {
        F(self.0.sqrt())
    }
    fn channel_s(self) -> u8 {
        (self.0 * 255.0).ceil().clamp(0.0, 255.0) as u8
    }
    fn law_add_zero(_a: F) {}
    fn law_mul_one(_a: F) {}
    fn law_mul_zero(_a: F) {}
    fn law_mul_comm(_a: F, _b: F) {}
    fn law_add_sub(_a: F, _b: F) {}
    fn law_neg_sub(_a: F, _b: F) {}
    fn law_neg_zero() {}
    fn law_from_i32_zero(_v: i32) {}
    fn zero() -> F {
        F(0.0)
    }
    fn one() -> F {
        F(1.0)
    }
    fn from_i32(v: i32) -> F {
        F(v as f64)
    }
    fn add(self, o: F) -> F {
        F(self.0 + o.0)
    }
    fn sub(self, o: F) -> F {
        F(self.0 - o.0)
    }
    fn mul(self, o: F) -> F {
        F(self.0 * o.0)
    }
    fn neg(self) -> F {
        F(-self.0)
    }
    fn div(self, o: F) -> F {
        F(self.0 / o.0)
    }
    fn sqrt(self) -> F {
        F(self.0.sqrt())
    }
    fn channel(self) -> u8 {
        (self.0 * 255.0).ceil().clamp(0.0, 255.0) as u8
    }
    fn eq_val(self, o: F) -> bool {
        self.0 == o.0
    }
}

const EPSILON: f64 = 0.0005;

fn equal(a: f64, b: f64) -> bool {
    (a - b).abs() < EPSILON
}

fn color(r: f64, g: f64, b: f64) -> Color<F> {
    Color::new(F(r), F(g), F(b))
}

#[test]
fn should_test_for_color() {
    let c = color(-0.5, 0.4, 1.7);

    assert_eq!(c.red, F(-0.5));
    assert_eq!(c.green, F(0.4));
    assert_eq!(c.blue, F(1.7));
}

#[test]
fn adding_two_colors() {
    let c1 = color(0.9, 0.6, 0.75);
    let c2 = color(0.7, 0.1, 0.25);

    assert_eq!(c1.add(c2), color(1.6, 0.7, 1.0));
}

#[test]
fn subtract_two_colors() {
    let c1 = color(0.9, 0.6, 0.75);
    let c2 = color(0.7, 0.1, 0.25);
    let diff = c1.sub(c2);

    assert!(equal(diff.red.0, 0.2));
    assert!(equal(diff.green.0, 0.5));
    assert!(equal(diff.blue.0, 0.5));
}

#[test]
fn multiply_by_scalar() {
    let c1 = color(0.2, 0.3, 0.4);

    assert_eq!(c1.mul_scalar(2), color(0.4, 0.6, 0.8));
}

#[test]
fn multiply_colors() {
    let c1 = color(1.0, 0.2, 0.4);
    let c2 = color(0.9, 1.0, 0.1);

    let multiply = c1.mul(c2);

    assert!(equal(multiply.red.0, 0.9));
    assert!(equal(multiply.green.0, 0.2));
    assert!(equal(multiply.blue.0, 0.04));
}

#[test]
fn adding_then_subtracting_a_color_returns_within_epsilon() {
    let c1 = color(0.9, 0.6, 0.75);
    let c2 = color(0.7, 0.1, 0.25);
    let back = c1.add(c2).sub(c2);

    assert!(equal(back.red.0, c1.red.0));
    assert!(equal(back.green.0, c1.green.0));
    assert!(equal(back.blue.0, c1.blue.0));
}

#[test]
fn hadamard_product_commutes() {
    let c1 = color(1.0, 0.2, 0.4);
    let c2 = color(0.9, 1.0, 0.1);

    assert_eq!(c1.mul(c2), c2.mul(c1));
}
