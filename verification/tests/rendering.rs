//! Tests of the pixel buffer and the row renderer.

use mandelbrot::color::{color, Rgb};
use mandelbrot::complex::Complex;
use mandelbrot::escape::calculate;
use mandelbrot::project::pixel_to_point;
use mandelbrot::render::{render_rows, PixelBuffer};
use mandelbrot::viewport::Viewport;

fn small_viewport() -> Viewport {
    Viewport {
        origin: Complex { re: -2147483648, im: 0 },
        extent: 10737418240,
        max_iterations: 30,
    }
}

fn black() -> Rgb {
    Rgb { r: 0, g: 0, b: 0 }
}

#[test]
fn fresh_buffer_is_black() {
    let b = PixelBuffer::new(8);
    assert_eq!(b.length, 8);
    assert_eq!(b.data.len(), 64);
    for py in 0..8 {
        for px in 0..8 {
            assert_eq!(b.get(px, py), black());
        }
    }
}

#[test]
fn rendered_pixels_compose_the_three_stages() {
    let vp = small_viewport();
    let mut b = PixelBuffer::new(8);
    render_rows(&mut b, &vp, 0, 8);
    for py in 0..8u32 {
        for px in 0..8u32 {
            let point = pixel_to_point(px, py, &vp, 8);
            let n = calculate(point, vp.max_iterations);
            assert_eq!(b.get(px, py), color(n, vp.max_iterations));
        }
    }
}

#[test]
fn rerendering_is_reproducible() {
    let vp = small_viewport();
    let mut first = PixelBuffer::new(8);
    render_rows(&mut first, &vp, 0, 8);
    let mut second = PixelBuffer::new(8);
    render_rows(&mut second, &vp, 0, 8);
    assert_eq!(first.data, second.data);
    // and rendering on top of an already-rendered buffer changes nothing
    render_rows(&mut second, &vp, 0, 8);
    assert_eq!(first.data, second.data);
}

#[test]
fn split_renders_agree_with_one_call() {
    let vp = small_viewport();
    let mut whole = PixelBuffer::new(8);
    render_rows(&mut whole, &vp, 0, 8);

    let mut split = PixelBuffer::new(8);
    render_rows(&mut split, &vp, 0, 3);
    render_rows(&mut split, &vp, 3, 5);
    render_rows(&mut split, &vp, 5, 8);
    assert_eq!(whole.data, split.data);
}

#[test]
fn partial_render_leaves_other_rows_alone() {
    let vp = small_viewport();
    let mut b = PixelBuffer::new(8);
    render_rows(&mut b, &vp, 2, 3);
    for py in 0..8u32 {
        for px in 0..8u32 {
            if py == 2 {
                let point = pixel_to_point(px, py, &vp, 8);
                let n = calculate(point, vp.max_iterations);
                assert_eq!(b.get(px, py), color(n, vp.max_iterations));
            } else {
                assert_eq!(b.get(px, py), black());
            }
        }
    }
}

#[test]
fn frame_depends_on_the_viewport() {
    let vp = small_viewport();
    let zoomed = Viewport {
        origin: Complex { re: -2147483648, im: 0 },
        extent: 2684354560,
        max_iterations: 30,
    };
    let mut a = PixelBuffer::new(8);
    render_rows(&mut a, &vp, 0, 8);
    let mut b = PixelBuffer::new(8);
    render_rows(&mut b, &zoomed, 0, 8);
    assert_ne!(a.data, b.data);
}
