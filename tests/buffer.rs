use planet_raster::color::Color;
use planet_raster::framebuffer::{Framebuffer, FAR_DEPTH};

#[test]
fn clear_resets_every_cell() {
    let mut fb = Framebuffer::new(3, 2);
    fb.set_current_color(0xabcdef);
    fb.point(1, 1, 5);
    fb.set_background_color(0x123456);
    fb.clear();
    for y in 0..2 {
        for x in 0..3 {
            assert_eq!(fb.get_color(x, y), 0x123456);
            assert_eq!(fb.get_depth(x, y), FAR_DEPTH);
        }
    }
    assert_eq!(fb.buffer().len(), 6);
}

#[test]
fn farther_point_is_rejected() {
    let mut fb = Framebuffer::new(4, 4);
    fb.clear();
    fb.set_current_color(0x111111);
    fb.point(2, 3, 10);
    fb.set_current_color(0x222222);
    fb.point(2, 3, 11);
    assert_eq!(fb.get_color(2, 3), 0x111111);
    assert_eq!(fb.get_depth(2, 3), 10);
}

#[test]
fn nearer_point_is_accepted() {
    let mut fb = Framebuffer::new(4, 4);
    fb.clear();
    fb.set_current_color(0x111111);
    fb.point(2, 3, 10);
    fb.set_current_color(0x222222);
    fb.point(2, 3, -4);
    assert_eq!(fb.get_color(2, 3), 0x222222);
    assert_eq!(fb.get_depth(2, 3), -4);
}

#[test]
fn equal_depth_goes_to_the_latest_write() {
    let mut fb = Framebuffer::new(2, 2);
    fb.clear();
    fb.set_current_color(0x111111);
    fb.point(0, 1, 3);
    fb.set_current_color(0x333333);
    fb.point(0, 1, 3);
    assert_eq!(fb.get_color(0, 1), 0x333333);
}

#[test]
fn color_arithmetic() {
    let c = Color::new(200, 100, 10);
    assert_eq!(c.to_hex(), 0xc8640a);
    assert_eq!(Color::from_hex(0xc8640a), c);
    assert_eq!(c.scale(500), Color::new(100, 50, 5));
    assert_eq!(c.scale(2000), Color::new(255, 200, 20));
    assert_eq!(c.scale(0), Color::black());
    let d = Color::new(0, 200, 10);
    assert_eq!(c.lerp(&d, 250), Color::new(150, 125, 10));
    assert_eq!(c.lerp(&d, 5000), d);
    assert_eq!(c.add(&Color::new(100, 100, 100)), Color::new(255, 200, 110));
}
