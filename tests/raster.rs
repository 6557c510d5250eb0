use planet_raster::color::Color;
use planet_raster::framebuffer::{Framebuffer, FAR_DEPTH};
use planet_raster::pipeline::{draw_fragments, rasterize_object, render_point};
use planet_raster::shaders::{Material, NoiseSample};
use planet_raster::transform::{Mat4, Uniforms};
use planet_raster::triangle::triangle;
use planet_raster::vertex::{Vec2, Vec3, Vertex};

fn screen_vertex(x: i64, y: i64, z: i64) -> Vertex {
    Vertex::new(Vec3::new(x, y, z), Vec3::new(0, 0, 1000), Vec2 { x: 0, y: 0 })
}

fn identity_uniforms(time: u32) -> Uniforms {
    Uniforms {
        model_matrix: Mat4::identity(),
        view_matrix: Mat4::identity(),
        projection_matrix: Mat4::identity(),
        viewport_matrix: Mat4::identity(),
        time,
    }
}

#[test]
fn collinear_triangle_has_no_fragments() {
    let a = screen_vertex(0, 0, 0);
    let b = screen_vertex(5000, 5000, 0);
    let c = screen_vertex(10000, 10000, 0);
    assert!(triangle(&a, &b, &c).is_empty());
    let d = screen_vertex(3000, 3000, 0);
    assert!(triangle(&a, &d, &d).is_empty());
}

#[test]
fn unit_triangle_scenario() {
    let mut fb = Framebuffer::new(20, 20);
    fb.set_background_color(0x000000);
    fb.clear();
    let a = screen_vertex(0, 0, 500);
    let b = screen_vertex(10000, 0, 500);
    let c = screen_vertex(0, 10000, 500);
    let frags = triangle(&a, &b, &c);
    assert_eq!(frags.len(), 55);
    let samples = vec![NoiseSample::new(0, 0); frags.len()];
    let red = Color::new(255, 0, 0);
    draw_fragments(&mut fb, &frags, &samples, &identity_uniforms(0), Material::Solid(red), None);
    for y in 0..20usize {
        for x in 0..20usize {
            if x + y <= 9 {
                assert_eq!(fb.get_color(x, y), 0xff0000, "pixel {} {}", x, y);
                assert_eq!(fb.get_depth(x, y), 500);
            } else {
                assert_eq!(fb.get_color(x, y), 0x000000, "pixel {} {}", x, y);
                assert_eq!(fb.get_depth(x, y), FAR_DEPTH);
            }
        }
    }
}

#[test]
fn winding_does_not_matter() {
    let a = screen_vertex(0, 0, 500);
    let b = screen_vertex(10000, 0, 500);
    let c = screen_vertex(0, 10000, 500);
    assert_eq!(triangle(&a, &b, &c), triangle(&a, &c, &b));
}

#[test]
fn fragments_interpolate_depth_and_position() {
    let a = screen_vertex(0, 0, 0);
    let b = screen_vertex(4000, 0, 4000);
    let c = screen_vertex(0, 4000, 0);
    let frags = triangle(&a, &b, &c);
    let f = frags.iter().find(|f| f.x == 1 && f.y == 0).unwrap();
    // Pixel center (1.5, 0.5): the weight of `b` is 1.5 / 4.
    assert_eq!(f.depth, 1500);
    assert_eq!(f.vertex_position, Vec3::new(1500, 500, 1500));
    assert_eq!(f.intensity, 1000);
}

#[test]
fn negative_area_outside_buffer_is_clipped_at_zero() {
    let a = screen_vertex(-5000, -5000, 0);
    let b = screen_vertex(8000, -5000, 0);
    let c = screen_vertex(-5000, 8000, 0);
    let frags = triangle(&a, &b, &c);
    let cells: Vec<(usize, usize)> = frags.iter().map(|f| (f.x, f.y)).collect();
    assert_eq!(cells, vec![(0, 0), (1, 0), (2, 0), (0, 1), (1, 1), (0, 2)]);
}

#[test]
fn rasterize_object_with_identity_matrices() {
    let vs = vec![
        screen_vertex(0, 0, 500),
        screen_vertex(10000, 0, 500),
        screen_vertex(0, 10000, 500),
        screen_vertex(0, 0, 0),
    ];
    let frags = rasterize_object(&identity_uniforms(3), &vs);
    assert_eq!(frags.len(), 55);
    assert!(frags.iter().all(|f| f.depth == 500));
}

#[test]
fn nearer_object_wins_over_farther() {
    let mut fb = Framebuffer::new(20, 20);
    fb.clear();
    let u = identity_uniforms(0);
    let near = triangle(&screen_vertex(0, 0, 100), &screen_vertex(10000, 0, 100), &screen_vertex(0, 10000, 100));
    let far = triangle(&screen_vertex(0, 0, 900), &screen_vertex(10000, 0, 900), &screen_vertex(0, 10000, 900));
    let s = vec![NoiseSample::new(0, 0); near.len()];
    draw_fragments(&mut fb, &near, &s, &u, Material::Solid(Color::new(0, 255, 0)), None);
    draw_fragments(&mut fb, &far, &s, &u, Material::Solid(Color::new(0, 0, 255)), None);
    assert_eq!(fb.get_color(2, 2), 0x00ff00);
    assert_eq!(fb.get_depth(2, 2), 100);
}

#[test]
fn render_point_draws_a_clipped_disc() {
    let mut fb = Framebuffer::new(10, 10);
    fb.clear();
    render_point(&mut fb, 0, 0, 7, 1);
    assert_eq!(fb.get_color(0, 0), 0xffffff);
    assert_eq!(fb.get_color(1, 0), 0xffffff);
    assert_eq!(fb.get_color(0, 1), 0xffffff);
    assert_eq!(fb.get_color(1, 1), 0x000000);
    assert_eq!(fb.get_depth(0, 0), 7);
}

#[test]
fn emission_pass_brightens_marked_cells_only() {
    let mut fb = Framebuffer::new(4, 1);
    fb.clear();
    fb.set_current_color(0x102030);
    fb.set_emission_color(0x0000f0);
    fb.point(0, 0, 1);
    fb.apply_emission();
    assert_eq!(fb.get_color(0, 0), 0x1020ff);
    assert_eq!(fb.get_color(1, 0), 0x000000);
    fb.set_current_color(0x000001);
    fb.point(1, 0, 1);
    fb.apply_emission();
    assert_eq!(fb.get_color(1, 0), 0x000001);
    assert_eq!(fb.get_color(0, 0), 0x1020ff);
}
