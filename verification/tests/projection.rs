//! Tests of the pixel-to-plane projection.

use mandelbrot::complex::Complex;
use mandelbrot::project::pixel_to_point;
use mandelbrot::viewport::Viewport;

#[test]
fn center_pixel_maps_to_origin() {
    let vp = Viewport::initial();
    let p = pixel_to_point(300, 300, &vp, 600);
    assert_eq!(p, vp.origin);
}

#[test]
fn center_pixel_maps_to_origin_after_moving() {
    let vp = Viewport {
        origin: Complex { re: 123456789, im: -987654321 },
        extent: 5368709120,
        max_iterations: 250,
    };
    let p = pixel_to_point(8, 8, &vp, 16);
    assert_eq!(p, vp.origin);
}

#[test]
fn corner_pixels() {
    let vp = Viewport::initial();
    // top-left: origin + 2.5 * (-1/2 + i/2) = (-1.75, 1.25)
    assert_eq!(pixel_to_point(0, 0, &vp, 600), Complex { re: -7516192768, im: 5368709120 });
    // bottom-right pixel, one step short of the far corner
    assert_eq!(pixel_to_point(599, 599, &vp, 600), Complex { re: 3203329774, im: -5350813422 });
}

#[test]
fn row_zero_is_top() {
    let vp = Viewport::initial();
    let top = pixel_to_point(300, 0, &vp, 600);
    let bottom = pixel_to_point(300, 599, &vp, 600);
    assert!(top.im > bottom.im);
    assert_eq!(top.im, 5368709120);
}

#[test]
fn quarter_position() {
    // (450, 150) of a 600-pixel surface sits at (+1/4, +1/4) relative to the
    // center: origin + 2.5 * (1/4 + i/4).
    let vp = Viewport::initial();
    assert_eq!(pixel_to_point(450, 150, &vp, 600), Complex { re: 536870912, im: 2684354560 });
}
