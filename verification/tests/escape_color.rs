//! Tests of the escape-time evaluator and the color mapper.

use mandelbrot::color::{color, Rgb};
use mandelbrot::complex::Complex;
use mandelbrot::escape::calculate;
use mandelbrot::fixed::FIX_ONE;

fn black() -> Rgb {
    Rgb { r: 0, g: 0, b: 0 }
}

#[test]
fn origin_never_escapes() {
    let origin = Complex { re: 0, im: 0 };
    assert_eq!(calculate(origin, 1), 1);
    assert_eq!(calculate(origin, 7), 7);
    assert_eq!(calculate(origin, 250), 250);
}

#[test]
fn far_point_escapes_first() {
    // |c| = 3 > 2: gone after one iteration, whatever the budget.
    let c = Complex { re: 3 * FIX_ONE, im: 0 };
    assert_eq!(calculate(c, 1), 1);
    assert_eq!(calculate(c, 10), 1);
    assert_eq!(calculate(c, 1000), 1);
    // just past the boundary on the real axis
    let d = Complex { re: 2 * FIX_ONE + 1, im: 0 };
    assert_eq!(calculate(d, 50), 1);
}

#[test]
fn boundary_point_takes_two() {
    // c = 2: the first iterate sits exactly on the escape bound, the second
    // is far outside.
    let c = Complex { re: 2 * FIX_ONE, im: 0 };
    assert_eq!(calculate(c, 50), 2);
}

#[test]
fn known_orbits() {
    // c = 1: 0, 1, 2, 5 -> three iterations before |z|^2 > 4.
    assert_eq!(calculate(Complex { re: FIX_ONE, im: 0 }, 10), 3);
    // c = -1: the orbit cycles 0, -1 and never escapes.
    assert_eq!(calculate(Complex { re: -FIX_ONE, im: 0 }, 100), 100);
    // c = 0.25 + 0.5i lies inside the set.
    let inside = Complex { re: FIX_ONE / 4, im: FIX_ONE / 2 };
    assert_eq!(calculate(inside, 40), 40);
}

#[test]
fn zero_budget_returns_zero() {
    assert_eq!(calculate(Complex { re: FIX_ONE, im: 0 }, 0), 0);
    assert_eq!(calculate(Complex { re: 0, im: 0 }, 0), 0);
}

#[test]
fn never_escaped_is_black() {
    assert_eq!(color(1, 1), black());
    assert_eq!(color(10, 10), black());
    assert_eq!(color(250, 250), black());
    assert_eq!(color(359, 359), black());
}

#[test]
fn escaped_is_never_black() {
    for n in 0..360 {
        let c = color(n, 400);
        assert!(c.r == 255 || c.g == 255 || c.b == 255);
        assert_ne!(c, black());
    }
}

#[test]
fn sector_table_values() {
    // sector 0, hue 0: (val, t, p)
    assert_eq!(color(0, 5), Rgb { r: 255, g: 51, b: 51 });
    // sector 0, hue 40: t = 187
    assert_eq!(color(400, 500), Rgb { r: 255, g: 187, b: 51 });
    // sector 1, hue 90: q = 153
    assert_eq!(color(90, 250), Rgb { r: 153, g: 255, b: 51 });
    // sector 2, hue 120
    assert_eq!(color(120, 200), Rgb { r: 51, g: 255, b: 51 });
    // sector 2, hue 179: t = 251
    assert_eq!(color(179, 200), Rgb { r: 51, g: 255, b: 251 });
    // sector 3, hue 180
    assert_eq!(color(180, 200), Rgb { r: 51, g: 255, b: 255 });
    // sector 4, hue 240
    assert_eq!(color(240, 250), Rgb { r: 51, g: 51, b: 255 });
}

#[test]
fn sector_five_has_zero_blue() {
    // The kept quirk: hues in 300..360 set blue to zero, not to the
    // interpolated channel of the neighboring sectors.
    assert_eq!(color(300, 301), Rgb { r: 255, g: 51, b: 0 });
    assert_eq!(color(359, 1000), Rgb { r: 255, g: 51, b: 0 });
}

#[test]
fn hue_wraps_every_360() {
    assert_eq!(color(90, 1000), color(450, 1000));
    assert_eq!(color(0, 1000), color(720, 1000));
}
