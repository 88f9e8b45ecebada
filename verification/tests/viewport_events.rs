//! Tests of the viewport state machine and the interaction controller.

use mandelbrot::complex::Complex;
use mandelbrot::viewport::{
    transition, Controller, InputEvent, KeyCode, Viewport, INITIAL_EXTENT, INITIAL_MAX_ITERATIONS,
    INITIAL_ORIGIN_RE, ITERATION_FLOOR, MAX_EXTENT,
};

fn key(code: KeyCode) -> InputEvent {
    InputEvent::KeyPress(code)
}

#[test]
fn initial_values() {
    let vp = Viewport::initial();
    assert_eq!(vp.origin, Complex { re: -2147483648, im: 0 });
    assert_eq!(vp.extent, 10737418240);
    assert_eq!(vp.max_iterations, 250);
}

#[test]
fn zoom_in_then_pan_right() {
    // One W then one Right: extent 2.5 / 1.5, origin shifted by extent / 25.
    let mut c = Controller::new(600);
    c.handle(&key(KeyCode::W));
    assert_eq!(c.viewport.extent, 7158278826);
    c.handle(&key(KeyCode::Right));
    assert_eq!(c.viewport.origin, Complex { re: -1861152495, im: 0 });
    assert_eq!(c.viewport.extent, 7158278826);
    assert_eq!(c.viewport.max_iterations, 250);
}

#[test]
fn pan_moves_origin_by_a_twentyfifth() {
    let vp = Viewport::initial();
    let up = transition(&vp, &key(KeyCode::Up), 600);
    assert_eq!(up.origin, Complex { re: INITIAL_ORIGIN_RE, im: 429496729 });
    let down = transition(&vp, &key(KeyCode::Down), 600);
    assert_eq!(down.origin, Complex { re: INITIAL_ORIGIN_RE, im: -429496729 });
    let left = transition(&vp, &key(KeyCode::Left), 600);
    assert_eq!(left.origin, Complex { re: -2576980377, im: 0 });
    let right = transition(&vp, &key(KeyCode::Right), 600);
    assert_eq!(right.origin, Complex { re: -1717986919, im: 0 });
}

#[test]
fn scroll_zooms_around_six_fifths() {
    let vp = Viewport::initial();
    let closer = transition(&vp, &InputEvent::ScrollDelta(3), 600);
    assert_eq!(closer.extent, 8947848533);
    let farther = transition(&vp, &InputEvent::ScrollDelta(-2), 600);
    assert_eq!(farther.extent, 12884901888);
    let still = transition(&vp, &InputEvent::ScrollDelta(0), 600);
    assert_eq!(still, vp);
}

#[test]
fn zoom_out_never_exceeds_max_extent() {
    let mut c = Controller::new(600);
    for _ in 0..60 {
        c.handle(&key(KeyCode::S));
        assert!(c.viewport.extent <= MAX_EXTENT);
    }
    assert_eq!(c.viewport.extent, MAX_EXTENT);
    // the wheel path saturates at the same cap
    c.handle(&InputEvent::ScrollDelta(-1));
    assert_eq!(c.viewport.extent, MAX_EXTENT);
}

#[test]
fn iteration_budget_never_drops_below_floor() {
    let mut c = Controller::new(600);
    for _ in 0..20 {
        c.handle(&key(KeyCode::LeftBracket));
        assert!(c.viewport.max_iterations >= ITERATION_FLOOR);
    }
    assert_eq!(c.viewport.max_iterations, ITERATION_FLOOR);
}

#[test]
fn iteration_budget_steps_by_twentyfive() {
    let mut c = Controller::new(600);
    c.handle(&key(KeyCode::RightBracket));
    assert_eq!(c.viewport.max_iterations, 275);
    c.handle(&key(KeyCode::LeftBracket));
    c.handle(&key(KeyCode::LeftBracket));
    assert_eq!(c.viewport.max_iterations, 225);
}

#[test]
fn reset_restores_initial_values() {
    let mut c = Controller::new(600);
    c.handle(&key(KeyCode::W));
    c.handle(&key(KeyCode::Right));
    c.handle(&InputEvent::ScrollDelta(-1));
    c.handle(&key(KeyCode::LeftBracket));
    c.handle(&InputEvent::MouseClick { x: 17, y: 451 });
    c.handle(&key(KeyCode::R));
    assert_eq!(c.viewport.origin, Complex { re: INITIAL_ORIGIN_RE, im: 0 });
    assert_eq!(c.viewport.extent, INITIAL_EXTENT);
    assert_eq!(c.viewport.max_iterations, INITIAL_MAX_ITERATIONS);
}

#[test]
fn click_recenters_on_the_clicked_point() {
    let vp = Viewport::initial();
    // the exact center changes nothing
    let same = transition(&vp, &InputEvent::MouseClick { x: 300, y: 300 }, 600);
    assert_eq!(same.origin, vp.origin);
    // (450, 150) sits at (+1/4, +1/4): origin moves by 2.5/4 on both axes
    let moved = transition(&vp, &InputEvent::MouseClick { x: 450, y: 150 }, 600);
    assert_eq!(moved.origin, Complex { re: 536870912, im: 2684354560 });
    assert_eq!(moved.extent, vp.extent);
}

#[test]
fn close_and_escape_quit_without_redraw() {
    let mut c = Controller::new(600);
    c.clear_dirty();
    c.handle(&InputEvent::Close);
    assert!(c.quit);
    assert!(!c.dirty);

    let mut c2 = Controller::new(600);
    c2.clear_dirty();
    c2.handle(&key(KeyCode::Escape));
    assert!(c2.quit);
    assert!(!c2.dirty);
    assert_eq!(c2.viewport, Viewport::initial());
}

#[test]
fn unknown_keys_are_ignored_but_redraw() {
    let mut c = Controller::new(600);
    c.clear_dirty();
    c.handle(&key(KeyCode::Other));
    assert_eq!(c.viewport, Viewport::initial());
    assert!(c.dirty);
    assert!(!c.quit);
}

#[test]
fn controller_starts_dirty() {
    let c = Controller::new(600);
    assert!(c.dirty);
    assert!(!c.quit);
    assert_eq!(c.viewport, Viewport::initial());
}
