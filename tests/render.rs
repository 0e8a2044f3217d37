use juliaset::{gradient, pixel_color, red};
use juliaset::{ConfigError, Escape, EscapeCounter, RenderBuilder, RenderType};
use num::Complex;

/// Runs the recurrence `z <- z*z + c` from `z0`, letting the counter decide when to stop.
fn evaluate(z0: Complex<f64>, c: Complex<f64>, max_iter: u32) -> Option<u32> {
    let mut counter = EscapeCounter::new(max_iter);
    let mut z = z0;
    let mut status = counter.status();
    while status == Escape::Running {
        z = z * z + c;
        status = counter.record(z.norm_sqr() > 4.0);
    }
    match status {
        Escape::Escaped(k) => Some(k),
        _ => None,
    }
}

#[test]
fn build_without_size_is_a_configuration_error() {
    let r = RenderBuilder::new().set_type(RenderType::Mandelbrot).set_bailout(10).build();
    assert_eq!(r.err(), Some(ConfigError::MissingSize));
}

#[test]
fn build_with_zero_dimension_is_rejected() {
    let r = RenderBuilder::new().size_image(0, 750).build();
    assert_eq!(r.err(), Some(ConfigError::InvalidSize));
    let r = RenderBuilder::new().size_image(1000, 0).build();
    assert_eq!(r.err(), Some(ConfigError::InvalidSize));
}

#[test]
fn build_with_buddhabrot_is_rejected() {
    let r = RenderBuilder::new().size_image(4, 3).set_type(RenderType::Buddhabrot).build();
    assert_eq!(r.err(), Some(ConfigError::UnsupportedVariant));
    let r = RenderBuilder::new().set_type(RenderType::Buddhabrot).build();
    assert_eq!(r.err(), Some(ConfigError::MissingSize));
}

#[test]
fn build_keeps_the_options_and_makes_a_blank_buffer() {
    let r = RenderBuilder::new()
        .size_image(1000, 750)
        .set_type(RenderType::Mandelbrot)
        .set_bailout(100)
        .set_filename("mandelbrot.png")
        .build()
        .unwrap();
    assert_eq!(r.width(), 1000);
    assert_eq!(r.height(), 750);
    assert_eq!(r.render_type(), RenderType::Mandelbrot);
    assert_eq!(r.bail_out(), 100);
    assert_eq!(r.filename(), "mandelbrot.png");
    let s = r.samples();
    assert_eq!(s.len(), 4 * 1000 * 750);
    assert!(s.iter().all(|&v| v == 0));
}

#[test]
fn builder_defaults() {
    let r = RenderBuilder::new().size_image(2, 2).build().unwrap();
    assert_eq!(r.render_type(), RenderType::Julia);
    assert_eq!(r.bail_out(), 255);
    assert_eq!(r.filename(), "julia.png");
}

#[test]
fn origin_never_escapes() {
    let zero = Complex { re: 0.0, im: 0.0 };
    for max_iter in [0u32, 1, 2, 10, 255, 1000] {
        assert_eq!(evaluate(zero, zero, max_iter), None);
    }
}

#[test]
fn far_parameter_escapes_at_once() {
    let zero = Complex { re: 0.0, im: 0.0 };
    let c = Complex { re: 2.0, im: 2.0 };
    for max_iter in [1u32, 2, 10, 255, 1000] {
        assert_eq!(evaluate(zero, c, max_iter), Some(0));
    }
}

#[test]
fn evaluation_is_deterministic() {
    let z0 = Complex { re: 0.1, im: -0.2 };
    let c = Complex { re: -0.8, im: 0.156 };
    assert_eq!(evaluate(z0, c, 255), evaluate(z0, c, 255));
    let c = Complex { re: 0.4, im: 0.4 };
    let zero = Complex { re: 0.0, im: 0.0 };
    assert_eq!(evaluate(zero, c, 100), evaluate(zero, c, 100));
}

#[test]
fn raising_the_bound_keeps_an_escape() {
    let zero = Complex { re: 0.0, im: 0.0 };
    let c = Complex { re: 0.4, im: 0.4 };
    let k = evaluate(zero, c, 1000).unwrap();
    assert!(k > 0);
    assert_eq!(evaluate(zero, c, k), None);
    for max_iter in [k + 1, k + 2, 2 * k + 1, 5000] {
        assert_eq!(evaluate(zero, c, max_iter), Some(k));
    }
}

#[test]
fn zero_bound_ends_at_once() {
    let counter = EscapeCounter::new(0);
    assert_eq!(counter.status(), Escape::Bounded);
}

#[test]
fn counter_reports_each_step() {
    let mut counter = EscapeCounter::new(3);
    assert_eq!(counter.status(), Escape::Running);
    assert_eq!(counter.record(false), Escape::Running);
    assert_eq!(counter.record(false), Escape::Running);
    assert_eq!(counter.record(false), Escape::Bounded);
    let mut counter = EscapeCounter::new(3);
    assert_eq!(counter.record(false), Escape::Running);
    assert_eq!(counter.record(true), Escape::Escaped(1));
    assert_eq!(counter.status(), Escape::Escaped(1));
}

#[test]
fn red_channel_from_escape_time() {
    assert_eq!(red(Some(0)), 255);
    assert_eq!(red(Some(10)), 245);
    assert_eq!(red(Some(254)), 1);
    assert_eq!(red(Some(255)), 0);
    assert_eq!(red(Some(300)), 0);
    assert_eq!(red(None), 0);
}

#[test]
fn gradient_is_a_tenth_of_the_index() {
    for i in [0u32, 9, 10, 19, 20, 123, 2549, 2550, 2559, 2560, 100_000, u32::MAX] {
        let expected = (0.1f32 * i as f32) as u8;
        assert_eq!(gradient(i), expected, "index {}", i);
    }
    assert_eq!(gradient(9), 0);
    assert_eq!(gradient(10), 1);
    assert_eq!(gradient(2549), 254);
    assert_eq!(gradient(2550), 255);
}

#[test]
fn pixel_color_channels() {
    assert_eq!(pixel_color(35, 120, Some(5)), [250, 3, 12, 255]);
    assert_eq!(pixel_color(0, 0, None), [0, 0, 0, 255]);
    assert_eq!(pixel_color(3000, 7, Some(0)), [255, 255, 0, 255]);
}

#[test]
fn orbit_start_per_variant() {
    assert_eq!(RenderType::Julia.orbit_start(1, 2, 0), Some((1, 2)));
    assert_eq!(RenderType::Mandelbrot.orbit_start(1, 2, 0), Some((0, 1)));
    assert_eq!(RenderType::Buddhabrot.orbit_start(1, 2, 0), None);
    assert!(RenderType::Julia.is_supported());
    assert!(RenderType::Mandelbrot.is_supported());
    assert!(!RenderType::Buddhabrot.is_supported());
}

#[test]
fn run_writes_every_pixel() {
    let (w, h) = (3u32, 2u32);
    let mut r = RenderBuilder::new().size_image(w, h).build().unwrap();
    let escapes = vec![Some(0), None, Some(7), Some(255), Some(1), None];
    r.run(&escapes);
    let s = r.samples();
    assert_eq!(s.len(), 4 * 3 * 2);
    for row in 0..h {
        for col in 0..w {
            let e = escapes[(row * w + col) as usize];
            let expected = pixel_color(row, col, e);
            assert_eq!(r.pixel(row, col), Some(expected));
            let i = 4 * (row * w + col) as usize;
            assert_eq!(&s[i..i + 4], &expected[..]);
        }
    }
    assert_eq!(r.pixel(0, 0), Some([255, 0, 0, 255]));
    assert_eq!(r.pixel(1, 0), Some([0, 0, 0, 255]));
    assert_eq!(r.pixel(2, 0), None);
    assert_eq!(r.pixel(0, 3), None);
}

#[test]
fn run_gradients_on_a_large_image() {
    let (w, h) = (40u32, 25u32);
    let mut r = RenderBuilder::new().size_image(w, h).build().unwrap();
    let escapes = vec![None; (w * h) as usize];
    r.run(&escapes);
    assert_eq!(r.pixel(24, 39), Some([0, 2, 3, 255]));
    assert_eq!(r.pixel(10, 20), Some([0, 1, 2, 255]));
}

#[test]
fn config_error_messages() {
    assert!(!ConfigError::MissingSize.message().is_empty());
    assert!(!ConfigError::InvalidSize.message().is_empty());
    assert!(!ConfigError::UnsupportedVariant.message().is_empty());
}
