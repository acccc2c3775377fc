use tracer_math::canvas::Canvas;
use tracer_math::color::Color;
use tracer_math::scalar::Scalar;

/// The floating-point scalar the geometry is meant to run on. The library is
/// verified for any implementation that honors the `Scalar` contracts;
/// this impl supplies the IEEE operations.
#[derive(Debug, Clone, Copy, PartialEq)]
struct F(f64);

impl Scalar for F {
    fn zero_s() -> F {
        F(0.0)
    }
    fn one_s() -> F {
        F(1.0)
    }
    fn from_i32_s(v: i32) -> F {
        F(v as f64)
    }
    fn add_s(self, o: F) -> F {
        F(self.0 + o.0)
    }
    fn sub_s(self, o: F) -> F {
        F(self.0 - o.0)
    }
    fn mul_s(self, o: F) -> F {
        F(self.0 * o.0)
    }
    fn neg_s(self) -> F {
        F(-self.0)
    }
    fn div_s(self, o: F) -> F {
        F(self.0 / o.0)
    }
    fn sqrt_s(self) -> F {
        F(self.0.sqrt())
    }
    fn channel_s(self) -> u8 {
        (self.0 * 255.0).ceil().clamp(0.0, 255.0) as u8
    }
    fn law_add_zero(_a: F) {}
    fn law_mul_one(_a: F) {}
    fn law_mul_zero(_a: F) {}
    fn law_mul_comm(_a: F, _b: F) {}
    fn law_add_sub(_a: F, _b: F) {}
    fn law_neg_sub(_a: F, _b: F) {}
    fn law_neg_zero() {}
    fn law_from_i32_zero(_v: i32) {}
    fn zero() -> F {
        F(0.0)
    }
    fn one() -> F {
        F(1.0)
    }
    fn from_i32(v: i32) -> F {
        F(v as f64)
    }
    fn add(self, o: F) -> F {
        F(self.0 + o.0)
    }
    fn sub(self, o: F) -> F {
        F(self.0 - o.0)
    }
    fn mul(self, o: F) -> F {
        F(self.0 * o.0)
    }
    fn neg(self) -> F {
        F(-self.0)
    }
    fn div(self, o: F) -> F {
        F(self.0 / o.0)
    }
    fn sqrt(self) -> F {
        F(self.0.sqrt())
    }
    fn channel(self) -> u8 {
        (self.0 * 255.0).ceil().clamp(0.0, 255.0) as u8
    }
    fn eq_val(self, o: F) -> bool {
        self.0 == o.0
    }
}

fn color(r: f64, g: f64, b: f64) -> Color<F> {
    Color::new(F(r), F(g), F(b))
}

#[test]
fn creating_canvas() {
    let c: Canvas<F> = Canvas::new(10, 20);

    assert_eq!(c.width, 10);
    assert_eq!(c.height, 20);

    for element in c.data.iter() {
        assert_eq!(*element, color(0.0, 0.0, 0.0));
    }
}

#[test]
fn constructing_ppm_header() {
    let c: Canvas<F> = Canvas::new(5, 3);
    let ppm = c.to_ppm();

    assert!(ppm.starts_with("P3\n5 3\n255\n"));
}

#[test]
fn constructing_ppm_pixel_data() {
    let mut c: Canvas<F> = Canvas::new(5, 3);

    let c1 = color(1.5, 0.0, 0.0);
    let c2 = color(0.0, 0.5, 0.0);
    let c3 = color(-0.5, 0.0, 1.0);

    c.write_pixel(0, 0, c1);
    c.write_pixel(2, 1, c2);
    c.write_pixel(4, 2, c3);

    let ppm = c.to_ppm();

    assert_eq!(
        String::from(
            "P3\n\
             5 3\n\
             255\n\
             255 0 0 0 0 0 0 0 0 0 0 0 0 0 0\n\
             0 0 0 0 0 0 0 128 0 0 0 0 0 0 0\n\
             0 0 0 0 0 0 0 0 0 0 0 0 0 0 255\n"
        ),
        ppm
    );
}

#[test]
fn splitting_long_lines_ppm_file() {
    let mut c: Canvas<F> = Canvas::new(10, 2);

    c.fill_every_with(color(1.0, 0.8, 0.6));

    let ppm = c.to_ppm();

    assert_eq!(
        String::from(
            "P3\n\
             10 2\n\
             255\n\
             255 204 153 255 204 153 255 204 153 255 204 153 255 204 153 255 204\n\
             153 255 204 153 255 204 153 255 204 153 255 204 153\n\
             255 204 153 255 204 153 255 204 153 255 204 153 255 204 153 255 204\n\
             153 255 204 153 255 204 153 255 204 153 255 204 153\n"
        ),
        ppm
    );
}

#[test]
fn out_of_bounds_writes_leave_the_canvas_alone() {
    let mut c: Canvas<F> = Canvas::new(2, 2);
    c.write_pixel(2, 0, color(1.0, 1.0, 1.0));
    c.write_pixel(0, 2, color(1.0, 1.0, 1.0));

    for element in c.data.iter() {
        assert_eq!(*element, color(0.0, 0.0, 0.0));
    }
}

#[test]
fn integer_canvas_serializes_with_clamped_channels() {
    let mut c: Canvas<i64> = Canvas::new(3, 1);
    c.write_pixel(0, 0, Color::new(1, 0, 0));
    c.write_pixel(1, 0, Color::new(-2, 5, 0));

    assert_eq!(c.to_ppm(), "P3\n3 1\n255\n255 0 0 0 255 0 0 0 0\n");
}

#[test]
fn zero_width_canvas_emits_only_the_header() {
    let c: Canvas<i64> = Canvas::new(0, 2);
    assert_eq!(c.to_ppm(), "P3\n0 2\n255\n");
}
