use planet_raster::color::Color;
use planet_raster::shaders::{
    dither_color, dither_seed, earth_shader, fragment_shader, fragment_shader2, jupiter_shader, mars_shader,
    neptune_shader, noise_query, saturn_shader, shade, switch_shader, uranus_shader, venus_shader, wave, band,
    Material, NoisePoint, NoiseSample, RenderMode, MODE_COUNT,
};
use planet_raster::transform::{create_model_matrix, create_viewport_matrix, vertex_shader, Mat4, Uniforms};
use planet_raster::triangle::Fragment;
use planet_raster::vertex::{Vec2, Vec3, Vertex};
use rand::{Rng, SeedableRng};

fn uniforms(time: u32) -> Uniforms {
    Uniforms {
        model_matrix: Mat4::identity(),
        view_matrix: Mat4::identity(),
        projection_matrix: Mat4::identity(),
        viewport_matrix: Mat4::identity(),
        time,
    }
}

fn fragment(x: i64, y: i64, intensity: u64) -> Fragment {
    Fragment { x: 0, y: 0, depth: 0, vertex_position: Vec3::new(x, y, 0), intensity }
}

#[test]
fn switching_seven_times_returns_to_start() {
    let all = [
        RenderMode::Default,
        RenderMode::Dalmata,
        RenderMode::Cloud,
        RenderMode::Cellular,
        RenderMode::Lava,
        RenderMode::BlackAndWhite,
        RenderMode::Moon,
    ];
    for start in all {
        let mut m = start;
        for _ in 0..MODE_COUNT {
            switch_shader(&mut m);
        }
        assert_eq!(m, start);
    }
    let mut m = RenderMode::Default;
    switch_shader(&mut m);
    assert_eq!(m, RenderMode::Dalmata);
}

#[test]
fn shading_twice_gives_the_same_color() {
    let u = uniforms(17);
    let f = fragment(321, -654, 800);
    let n = NoiseSample::new(420, -130);
    let materials = [
        Material::Switchable(RenderMode::BlackAndWhite),
        Material::Switchable(RenderMode::Lava),
        Material::Switchable(RenderMode::Cloud),
        Material::Earth,
        Material::Jupiter,
        Material::Sun,
    ];
    for m in materials {
        assert_eq!(shade(m, &f, &u, &n), shade(m, &f, &u, &n));
        assert_eq!(noise_query(m, &f, 17).first, noise_query(m, &f, 17).first);
    }
}

#[test]
fn identity_transform_keeps_the_vertex() {
    let v = Vertex::new(Vec3::new(1234, -5678, 910), Vec3::new(0, 600, 800), Vec2 { x: 1, y: 2 });
    let t = vertex_shader(&v, &uniforms(0)).unwrap();
    assert_eq!(t.transformed_position, v.position);
    assert_eq!(t.transformed_normal, v.normal);
    assert_eq!(t.position, v.position);
}

#[test]
fn viewport_maps_unit_square_to_pixels() {
    let mut u = uniforms(0);
    u.viewport_matrix = create_viewport_matrix(800, 600);
    let v = Vertex::new(Vec3::new(0, 0, 250), Vec3::new(0, 0, 1000), Vec2 { x: 0, y: 0 });
    let t = vertex_shader(&v, &u).unwrap();
    assert_eq!(t.transformed_position, Vec3::new(400_000, 300_000, 250));
    let corner = Vertex::new(Vec3::new(-1000, 1000, 0), Vec3::new(0, 0, 1000), Vec2 { x: 0, y: 0 });
    let t = vertex_shader(&corner, &u).unwrap();
    assert_eq!(t.transformed_position, Vec3::new(0, 0, 0));
}

#[test]
fn perspective_divide_and_scaled_normals() {
    let mut u = uniforms(0);
    // A model matrix that doubles every axis: normals come out halved.
    u.model_matrix = Mat4::new([2000, 0, 0, 0, 0, 2000, 0, 0, 0, 0, 2000, 0, 0, 0, 0, 1000]);
    // A projection that puts 2 in w.
    u.projection_matrix = Mat4::new([1000, 0, 0, 0, 0, 1000, 0, 0, 0, 0, 1000, 0, 0, 0, 0, 2000]);
    let v = Vertex::new(Vec3::new(100, 200, 300), Vec3::new(0, 0, 1000), Vec2 { x: 0, y: 0 });
    let t = vertex_shader(&v, &u).unwrap();
    assert_eq!(t.transformed_position, Vec3::new(100, 200, 300));
    assert_eq!(t.transformed_normal, Vec3::new(0, 0, 500));
}

#[test]
fn zero_w_and_singular_model() {
    let mut u = uniforms(0);
    u.projection_matrix = Mat4::new([1000, 0, 0, 0, 0, 1000, 0, 0, 0, 0, 1000, 0, 0, 0, 0, 0]);
    let v = Vertex::new(Vec3::new(1, 2, 3), Vec3::new(0, 0, 1000), Vec2 { x: 0, y: 0 });
    assert!(vertex_shader(&v, &u).is_none());
    let mut u = uniforms(0);
    u.model_matrix = Mat4::new([0, 0, 0, 0, 0, 0, 0, 0, 0, 0, 0, 0, 0, 0, 0, 1000]);
    let t = vertex_shader(&v, &u).unwrap();
    assert_eq!(t.transformed_position, Vec3::new(0, 0, 0));
    assert_eq!(t.transformed_normal, Vec3::new(0, 0, 1000));
}

#[test]
fn wave_values() {
    assert_eq!(wave(0), 0);
    assert_eq!(wave(1571), 1000);
    assert_eq!(wave(4713), -1000);
    assert_eq!(wave(6284 + 1571), 1000);
    assert_eq!(wave(-1571), -1000);
    assert_eq!(band(0), 500);
    assert_eq!(band(1571), 1000);
    assert_eq!(band(4713), 0);
}

#[test]
fn emissive_color() {
    let c = fragment_shader2(&fragment(0, 0, 1000), &uniforms(0));
    assert_eq!(c, Color::new(255, 251, 183));
    let c = fragment_shader2(&fragment(0, 0, 0), &uniforms(0));
    assert_eq!(c, Color::new(26, 23, 0));
}

#[test]
fn banded_planets() {
    let u = uniforms(0);
    let f = fragment(0, 0, 1000);
    assert_eq!(uranus_shader(&f, &u), Color::new(0, 128, 128));
    assert_eq!(neptune_shader(&f, &u), Color::new(0, 0, 139));
    assert_eq!(saturn_shader(&f, &u), Color::new(245, 245, 245));
    assert_eq!(mars_shader(&f, &u), Color::new(139, 69, 19));
    // y = -0.157 gives the bottom of the wave.
    let low = fragment(0, -157, 1000);
    assert_eq!(uranus_shader(&low, &u), Color::new(0, 255, 255));
    assert_eq!(neptune_shader(&low, &u), Color::new(0, 0, 255));
    // Saturn's ring beyond |y| = 0.8.
    assert_eq!(saturn_shader(&fragment(0, 900, 1000), &u), Color::new(160, 160, 160));
    // Half intensity halves the channels.
    assert_eq!(uranus_shader(&fragment(0, 0, 500), &u), Color::new(0, 64, 64));
}

#[test]
fn jupiter_red_spot() {
    let u = uniforms(0);
    // At the spot's center the spot weight is full: the base band shows.
    assert_eq!(jupiter_shader(&fragment(300, -200, 1000), &u), Color::new(210, 180, 140));
    // Off center (spot weight 0.775) the red shows through.
    assert_eq!(jupiter_shader(&fragment(450, -200, 1000), &u), Color::new(221, 155, 108));
    // Away from the spot, the band color alone.
    assert_eq!(jupiter_shader(&fragment(0, 0, 1000), &u), Color::new(245, 245, 245));
}

#[test]
fn venus_blends_layers() {
    let u = uniforms(0);
    // x wave at 0.5 (gray half way), y wave at its top (white).
    assert_eq!(venus_shader(&fragment(0, 0, 1000), &u), Color::new(255, 250, 240));
}

#[test]
fn earth_regions() {
    let u = uniforms(0);
    let land = NoiseSample::new(100, 0);
    let sea = NoiseSample::new(-100, 0);
    assert_eq!(earth_shader(&fragment(0, 900, 1000), &u, &land), Color::new(240, 248, 255));
    assert_eq!(earth_shader(&fragment(0, 100, 1000), &u, &land), Color::new(237, 201, 175));
    assert_eq!(earth_shader(&fragment(0, 500, 1000), &u, &land), Color::new(34, 139, 34));
    assert_eq!(earth_shader(&fragment(0, 500, 1000), &u, &sea), Color::new(0, 0, 255));
    let cloudy = NoiseSample::new(-100, 400);
    assert_eq!(earth_shader(&fragment(0, 500, 1000), &u, &cloudy), Color::new(127, 127, 255));
}

#[test]
fn noise_patterns() {
    let u = uniforms(0);
    let f = fragment(10, 20, 1000);
    let shade_mode = |m: RenderMode, n: i64| fragment_shader(&f, &u, m, &NoiseSample::new(n, n));
    assert_eq!(shade_mode(RenderMode::Dalmata, 100), Color::new(255, 255, 255));
    assert_eq!(shade_mode(RenderMode::Dalmata, 600), Color::new(0, 0, 0));
    assert_eq!(shade_mode(RenderMode::Cloud, 600), Color::new(255, 255, 255));
    assert_eq!(shade_mode(RenderMode::Cloud, 100), Color::new(30, 97, 145));
    assert_eq!(shade_mode(RenderMode::Cellular, -100), Color::new(85, 107, 47));
    assert_eq!(shade_mode(RenderMode::Cellular, -500), Color::new(124, 252, 0));
    assert_eq!(shade_mode(RenderMode::Cellular, 720), Color::new(34, 139, 34));
    assert_eq!(shade_mode(RenderMode::Default, 900), Color::new(173, 255, 47));
    assert_eq!(shade_mode(RenderMode::Moon, 500), Color::new(200, 200, 200));
    assert_eq!(shade_mode(RenderMode::Moon, 0), Color::new(150, 150, 150));
    assert_eq!(shade_mode(RenderMode::Lava, 1000), Color::new(255, 240, 0));
    assert_eq!(shade_mode(RenderMode::Lava, -300), Color::new(130, 20, 0));
    assert_eq!(shade_mode(RenderMode::Lava, 400), Color::new(180, 108, 0));
}

#[test]
fn noise_query_points() {
    let f = Fragment { x: 0, y: 0, depth: 250, vertex_position: Vec3::new(100, -200, 0), intensity: 1000 };
    let q = noise_query(Material::Switchable(RenderMode::Dalmata), &f, 4);
    assert_eq!(q.first, Some(NoisePoint { x: 10_000, y: -20_000, z: 0 }));
    assert_eq!(q.second, None);
    let q = noise_query(Material::Switchable(RenderMode::Cloud), &f, 4);
    assert_eq!(q.first, Some(NoisePoint { x: 112_000, y: 80_000, z: 0 }));
    let q = noise_query(Material::Switchable(RenderMode::Lava), &f, 0);
    assert!(q.three_d);
    assert_eq!(q.first, Some(NoisePoint { x: 100_000, y: -200_000, z: 250_000 }));
    assert_eq!(q.second, Some(NoisePoint { x: 1_000_100_000, y: 999_800_000, z: 1_000_250_000 }));
    let q = noise_query(Material::Uranus, &f, 4);
    assert_eq!(q.first, None);
}

#[test]
fn dither_follows_the_seeded_generator() {
    let u = uniforms(3);
    let mut blacks = 0;
    for i in 1..40i64 {
        let f = fragment(1000 * i, 1000 + 37 * i, 1000);
        let seed = dither_seed(&f, 3);
        assert_eq!(seed, (3 * (1000 + 37 * i) * 1000 * i / 1_000_000) as u64);
        let draw: i32 = rand::rngs::StdRng::seed_from_u64(seed).gen_range(0..=100);
        let expected = dither_color(draw, &f);
        let got = fragment_shader(&f, &u, RenderMode::BlackAndWhite, &NoiseSample::new(0, 0));
        assert_eq!(got, expected);
        if got == Color::new(0, 0, 0) {
            blacks += 1;
        }
    }
    assert!(blacks > 0);
}

#[test]
fn dither_color_picks_black_or_white() {
    let f = fragment(0, 0, 1000);
    assert_eq!(dither_color(49, &f), Color::new(0, 0, 0));
    assert_eq!(dither_color(50, &f), Color::new(255, 255, 255));
    assert_eq!(dither_color(50, &fragment(0, 0, 200)), Color::new(51, 51, 51));
}

#[test]
fn model_matrix_scales_and_translates() {
    let m = create_model_matrix(Vec3::new(1000, 2000, 3000), 2000, Vec3::zero());
    assert_eq!(m.m, [2000, 0, 0, 1000, 0, 2000, 0, 2000, 0, 0, 2000, 3000, 0, 0, 0, 1000]);
}

#[test]
fn model_matrix_quarter_turn_about_y() {
    let m = create_model_matrix(Vec3::zero(), 1000, Vec3::new(0, 1571, 0));
    assert_eq!(m.m, [0, 0, 1000, 0, 0, 1000, 0, 0, -1000, 0, 0, 0, 0, 0, 0, 1000]);
    let m = create_model_matrix(Vec3::zero(), 1000, Vec3::new(1571, 0, 0));
    assert_eq!(m.m, [1000, 0, 0, 0, 0, 0, -1000, 0, 0, 1000, 0, 0, 0, 0, 0, 1000]);
}

#[test]
fn matrix_product() {
    let a = Mat4::new([1000, 2000, 0, 0, 0, 1000, 0, 0, 0, 0, 1000, 0, 0, 0, 0, 1000]);
    let b = Mat4::new([500, 0, 0, 0, 0, 500, 0, 0, 0, 0, 500, 0, 1000, 1000, 1000, 1000]);
    assert_eq!(a.mul(&b).m, [500, 1000, 0, 0, 0, 500, 0, 0, 0, 0, 500, 0, 1000, 1000, 1000, 1000]);
    assert_eq!(a.mul(&Mat4::identity()).m, a.m);
}
