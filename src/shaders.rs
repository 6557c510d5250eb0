//! The fragment shading stage: a closed set of shader variants, the
//! selectable render mode, and the noise lookups that the variants need.
use vstd::prelude::*;
use vstd::arithmetic::div_mod::{lemma_div_is_ordered, lemma_div_multiples_vanish, lemma_fundamental_div_mod, lemma_mod_bound};
use rand::{Rng, SeedableRng};
use crate::color::{Color, blend_weight};
use crate::fixed::{clamp, clamp_i64, div_floor};
use crate::transform::Uniforms;
use crate::triangle::{Fragment, abs};

verus! {

// ---------------------------------------------------------------- modes

/// The variants that the interactive shader cycles through.
#[derive(Clone, Copy, Debug, PartialEq, Eq, Structural)]
pub enum RenderMode {
    /// The start-up pattern: the same cells as `Cellular`.
    Default,
    Dalmata,
    Cloud,
    Cellular,
    Lava,
    BlackAndWhite,
    Moon,
}

/// The number of render modes.
pub const MODE_COUNT: u8 = 7;

pub open spec fn next_mode(m: RenderMode) -> RenderMode {
    match m {
        RenderMode::Default => RenderMode::Dalmata,
        RenderMode::Dalmata => RenderMode::Cloud,
        RenderMode::Cloud => RenderMode::Cellular,
        RenderMode::Cellular => RenderMode::Lava,
        RenderMode::Lava => RenderMode::BlackAndWhite,
        RenderMode::BlackAndWhite => RenderMode::Moon,
        RenderMode::Moon => RenderMode::Default,
    }
}

/// `n` successive switches.
pub open spec fn switched(m: RenderMode, n: nat) -> RenderMode
    decreases n,
{
    if n == 0 {
        m
    } else {
        next_mode(switched(m, (n - 1) as nat))
    }
}

/// Selects the next render mode, wrapping after the last one.
pub fn switch_shader(mode: &mut RenderMode)
    ensures
        *final(mode) == next_mode(*old(mode)),
{
    *mode = match *mode {
        RenderMode::Default => RenderMode::Dalmata,
        RenderMode::Dalmata => RenderMode::Cloud,
        RenderMode::Cloud => RenderMode::Cellular,
        RenderMode::Cellular => RenderMode::Lava,
        RenderMode::Lava => RenderMode::BlackAndWhite,
        RenderMode::BlackAndWhite => RenderMode::Moon,
        RenderMode::Moon => RenderMode::Default,
    };
}

/// Switching as many times as there are modes returns to the starting mode.
pub proof fn lemma_switch_cycle(m: RenderMode)
    ensures
        switched(m, MODE_COUNT as nat) == m,
{
    reveal_with_fuel(switched, 8);
}

// ---------------------------------------------------------------- waves

/// Half a period of the wave, in thousandths of a radian.
pub const HALF_TURN: i64 = 3142;

/// The largest angle magnitude that `wave` takes.
pub const WAVE_RANGE: i128 = 0x1_0000_0000_0000_0000_0000_0000_0000;

/// Bhaskara's approximation of the sine over half a period, in thousandths.
pub open spec fn arch(u: int) -> int {
    let p = u * (HALF_TURN - u);
    16 * p * 1000 / (5 * HALF_TURN * HALF_TURN - 4 * p)
}

/// A sine-like wave of an angle in thousandths of a radian, with values in
/// thousandths and a period of `2 * HALF_TURN`.
pub open spec fn wave_spec(theta: int) -> int {
    let a = theta % (2 * HALF_TURN);
    if a < HALF_TURN {
        arch(a)
    } else {
        -arch(a - HALF_TURN)
    }
}

/// The wave moved into `[0, 1000]`.
pub open spec fn band_spec(theta: int) -> int {
    (wave_spec(theta) + 1000) / 2
}

proof fn lemma_arch_bounds(u: int)
    requires
        0 <= u <= HALF_TURN,
    ensures
        0 <= arch(u) <= 1000,
        0 <= u * (HALF_TURN - u) <= HALF_TURN * HALF_TURN,
{
    let h = HALF_TURN as int;
    let p = u * (h - u);
    assert(0 <= p && 4 * p <= h * h) by (nonlinear_arith)
        requires 0 <= u <= h, p == u * (h - u);
    let den = 5 * h * h - 4 * p;
    let num = 16 * p * 1000;
    assert(num <= 1000 * den) by (nonlinear_arith)
        requires 4 * p <= h * h, den == 5 * h * h - 4 * p, num == 16 * p * 1000;
    assert(0 <= p <= h * h) by (nonlinear_arith)
        requires 0 <= u <= h, p == u * (h - u);
    assert(den > 0) by (nonlinear_arith)
        requires 4 * p <= h * h, den == 5 * h * h - 4 * p, h == 3142;
    lemma_div_is_ordered(num, 1000 * den, den);
    lemma_div_is_ordered(0, num, den);
    lemma_div_multiples_vanish(1000, den);
    assert(1000 * den == den * 1000);
}

fn arch_value(u: i64) -> (r: i64)
    requires
        0 <= u <= HALF_TURN,
    ensures
        r == arch(u as int),
        0 <= r <= 1000,
{
    proof {
        lemma_arch_bounds(u as int);
    }
    let p: u64 = (u * (HALF_TURN - u)) as u64;
    let h: u64 = HALF_TURN as u64;
    (16 * p * 1000 / (5 * h * h - 4 * p)) as i64
}

pub fn wave(theta: i128) -> (r: i64)
    requires
        -WAVE_RANGE <= theta <= WAVE_RANGE,
    ensures
        r == wave_spec(theta as int),
        -1000 <= r <= 1000,
{
    let period: i128 = 2 * HALF_TURN as i128;
    let q = div_floor(theta, period);
    proof {
        lemma_fundamental_div_mod(theta as int, period as int);
        lemma_mod_bound(theta as int, period as int);
    }
    let a: i64 = (theta - period * q) as i64;
    if a < HALF_TURN {
        arch_value(a)
    } else {
        -arch_value(a - HALF_TURN)
    }
}

pub fn band(theta: i128) -> (r: i64)
    requires
        -WAVE_RANGE <= theta <= WAVE_RANGE,
    ensures
        r == band_spec(theta as int),
        0 <= r <= 1000,
{
    (wave(theta) + 1000) / 2
}

// ---------------------------------------------------------------- noise

/// A point of the noise field, in thousandths.
#[derive(Clone, Copy, Debug, PartialEq, Eq, Structural)]
pub struct NoisePoint {
    pub x: i64,
    pub y: i64,
    pub z: i64,
}

/// The noise lookups that one shading needs: up to two points, sampled in
/// two dimensions (`x`, `y`) or in three.
#[derive(Clone, Copy, Debug)]
pub struct NoiseQuery {
    pub first: Option<NoisePoint>,
    pub second: Option<NoisePoint>,
    pub three_d: bool,
}

/// The noise values found at a query's points, in thousandths (the field
/// ranges over about `[-1000, 1000]`); `0` where the query has no point.
#[derive(Clone, Copy, Debug, PartialEq, Eq, Structural)]
pub struct NoiseSample {
    pub first: i64,
    pub second: i64,
}

impl NoiseSample {
    pub fn new(first: i64, second: i64) -> (s: NoiseSample)
        ensures
            s == (NoiseSample { first, second }),
    {
        NoiseSample { first, second }
    }
}

// ---------------------------------------------------------------- helpers

/// A color dimmed by the fragment's light intensity.
pub open spec fn lit(c: Color, f: Fragment) -> Color {
    c.scale_spec(f.intensity)
}

/// Three bands of a value in `[0, 1000]`, split at `lo` and `hi`.
pub open spec fn banded(v: int, lo: int, hi: int, c0: Color, c1: Color, c2: Color) -> Color {
    if v < lo {
        c0
    } else if v < hi {
        c1
    } else {
        c2
    }
}

fn banded_color(v: i64, lo: i64, hi: i64, c0: Color, c1: Color, c2: Color) -> (c: Color)
    ensures
        c == banded(v as int, lo as int, hi as int, c0, c1, c2),
{
    if v < lo {
        c0
    } else if v < hi {
        c1
    } else {
        c2
    }
}

/// The latitude band wave `y * 10 + time * speed` used by the banded planets.
pub open spec fn latitude_band(f: Fragment, time: u32, speed: int) -> int {
    band_spec(f.vertex_position.y * 10 + time * speed)
}

fn latitude_band_value(f: &Fragment, time: u32, speed: i64) -> (r: i64)
    requires
        f.wf(),
        0 <= speed <= 100,
    ensures
        r == latitude_band(*f, time, speed as int),
        0 <= r <= 1000,
{
    let t: i128 = time as i128;
    let v: i128 = speed as i128;
    proof {
        assert(0 <= t * v <= 0xffff_ffff * 100) by (nonlinear_arith)
            requires 0 <= t <= 0xffff_ffff, 0 <= v <= 100;
    }
    band(f.vertex_position.y as i128 * 10 + t * v)
}

// ---------------------------------------------------------------- planets

pub open spec fn uranus_color(f: Fragment, time: u32) -> Color {
    let base = if latitude_band(f, time, 20) < 500 {
        Color { r: 0, g: 255, b: 255 }
    } else {
        Color { r: 0, g: 128, b: 128 }
    };
    lit(base, f)
}

/// Two alternating cyan bands drifting with time.
pub fn uranus_shader(fragment: &Fragment, uniforms: &Uniforms) -> (c: Color)
    requires
        fragment.wf(),
    ensures
        c == uranus_color(*fragment, uniforms.time),
{
    let b = latitude_band_value(fragment, uniforms.time, 20);
    let base = if b < 500 { Color::new(0, 255, 255) } else { Color::new(0, 128, 128) };
    base.scale(fragment.intensity)
}

pub open spec fn neptune_color(f: Fragment, time: u32) -> Color {
    let base = if latitude_band(f, time, 20) < 500 {
        Color { r: 0, g: 0, b: 255 }
    } else {
        Color { r: 0, g: 0, b: 139 }
    };
    lit(base, f)
}

/// Two alternating deep-blue bands drifting with time.
pub fn neptune_shader(fragment: &Fragment, uniforms: &Uniforms) -> (c: Color)
    requires
        fragment.wf(),
    ensures
        c == neptune_color(*fragment, uniforms.time),
{
    let b = latitude_band_value(fragment, uniforms.time, 20);
    let base = if b < 500 { Color::new(0, 0, 255) } else { Color::new(0, 0, 139) };
    base.scale(fragment.intensity)
}

pub open spec fn venus_color(f: Fragment, time: u32) -> Color {
    let wx = band_spec(f.vertex_position.x * 3 + time * 10);
    let wy = band_spec(f.vertex_position.y * 3 + time * 10 + HALF_TURN / 2);
    let base = Color { r: 255, g: 228, b: 181 }.lerp_spec(Color { r: 220, g: 220, b: 220 }, wx as u64);
    lit(base.lerp_spec(Color { r: 255, g: 250, b: 240 }, wy as u64), f)
}

/// Soft cloud layers: a wave across `x` blends yellow into gray, a
/// quarter-period-shifted wave across `y` blends in white.
pub fn venus_shader(fragment: &Fragment, uniforms: &Uniforms) -> (c: Color)
    requires
        fragment.wf(),
    ensures
        c == venus_color(*fragment, uniforms.time),
{
    let t: i128 = uniforms.time as i128 * 10;
    let wx = band(fragment.vertex_position.x as i128 * 3 + t);
    let wy = band(fragment.vertex_position.y as i128 * 3 + t + (HALF_TURN / 2) as i128);
    let base = Color::new(255, 228, 181).lerp(&Color::new(220, 220, 220), wx as u64);
    base.lerp(&Color::new(255, 250, 240), wy as u64).scale(fragment.intensity)
}

/// How strongly the great red spot shows at a point, in `[0, 1000]`.
pub open spec fn red_spot(x: int, y: int) -> int {
    1000 - clamp((x - 300) * (x - 300) / 100 + (y + 200) * (y + 200) / 200, 0, 1000)
}

pub open spec fn jupiter_color(f: Fragment, time: u32) -> Color {
    let base = banded(
        latitude_band(f, time, 20),
        300,
        600,
        Color { r: 210, g: 180, b: 140 },
        Color { r: 245, g: 245, b: 245 },
        Color { r: 139, g: 69, b: 19 },
    );
    let spot = red_spot(f.vertex_position.x as int, f.vertex_position.y as int);
    let c = if spot > 700 {
        Color { r: 255, g: 69, b: 0 }.lerp_spec(base, spot as u64)
    } else {
        base
    };
    lit(c, f)
}

/// Brown and white bands with a red oval spot blended in near `(0.3, -0.2)`.
pub fn jupiter_shader(fragment: &Fragment, uniforms: &Uniforms) -> (c: Color)
    requires
        fragment.wf(),
    ensures
        c == jupiter_color(*fragment, uniforms.time),
{
    let b = latitude_band_value(fragment, uniforms.time, 20);
    let base = banded_color(
        b,
        300,
        600,
        Color::new(210, 180, 140),
        Color::new(245, 245, 245),
        Color::new(139, 69, 19),
    );
    let dx: i128 = fragment.vertex_position.x as i128 - 300;
    let dy: i128 = fragment.vertex_position.y as i128 + 200;
    proof {
        assert(0 <= dx * dx <= 0x4_0000_0000_0000_0000) by (nonlinear_arith)
            requires -0x2_0000_0000 <= dx <= 0x2_0000_0000;
        assert(0 <= dy * dy <= 0x4_0000_0000_0000_0000) by (nonlinear_arith)
            requires -0x2_0000_0000 <= dy <= 0x2_0000_0000;
    }
    let d: i128 = dx * dx / 100 + dy * dy / 200;
    let spot: i64 = 1000 - (if d > 1000 { 1000 } else { d as i64 });
    let c = if spot > 700 { Color::new(255, 69, 0).lerp(&base, spot as u64) } else { base };
    c.scale(fragment.intensity)
}

pub open spec fn saturn_color(f: Fragment, time: u32) -> Color {
    let base = banded(
        latitude_band(f, time, 20),
        300,
        600,
        Color { r: 205, g: 133, b: 63 },
        Color { r: 245, g: 245, b: 245 },
        Color { r: 139, g: 69, b: 19 },
    );
    let ring = clamp(abs(f.vertex_position.y as int) - 500, 0, 1000);
    lit(if ring > 300 { Color { r: 160, g: 160, b: 160 } } else { base }, f)
}

/// Tan and white bands, gray where `|y|` passes 0.8.
pub fn saturn_shader(fragment: &Fragment, uniforms: &Uniforms) -> (c: Color)
    requires
        fragment.wf(),
    ensures
        c == saturn_color(*fragment, uniforms.time),
{
    let b = latitude_band_value(fragment, uniforms.time, 20);
    let base = banded_color(
        b,
        300,
        600,
        Color::new(205, 133, 63),
        Color::new(245, 245, 245),
        Color::new(139, 69, 19),
    );
    let y = fragment.vertex_position.y;
    let ay: i64 = if y < 0 { -y } else { y };
    let ring = clamp_i64(ay - 500, 0, 1000);
    let c = if ring > 300 { Color::new(160, 160, 160) } else { base };
    c.scale(fragment.intensity)
}

pub open spec fn mars_color(f: Fragment, time: u32) -> Color {
    let base = if latitude_band(f, time, 50) < 500 {
        Color { r: 204, g: 102, b: 51 }
    } else {
        Color { r: 139, g: 69, b: 19 }
    };
    let rocky = band_spec(f.vertex_position.x * f.vertex_position.y / 1000 + time * 50);
    lit(if rocky > 700 { Color { r: 160, g: 82, b: 45 } } else { base }, f)
}

/// Red bands with rocky patches where a wave of `x * y` peaks.
pub fn mars_shader(fragment: &Fragment, uniforms: &Uniforms) -> (c: Color)
    requires
        fragment.wf(),
    ensures
        c == mars_color(*fragment, uniforms.time),
{
    let b = latitude_band_value(fragment, uniforms.time, 50);
    let base = if b < 500 { Color::new(204, 102, 51) } else { Color::new(139, 69, 19) };
    let x: i128 = fragment.vertex_position.x as i128;
    let y: i128 = fragment.vertex_position.y as i128;
    proof {
        assert(-0x1_0000_0000_0000_0000 <= x * y <= 0x1_0000_0000_0000_0000) by (nonlinear_arith)
            requires -0x1_0000_0000 <= x <= 0x1_0000_0000, -0x1_0000_0000 <= y <= 0x1_0000_0000;
    }
    let rocky = band(div_floor(x * y, 1000) + uniforms.time as i128 * 50);
    let c = if rocky > 700 { Color::new(160, 82, 45) } else { base };
    c.scale(fragment.intensity)
}

pub open spec fn earth_color(f: Fragment, n: NoiseSample) -> Color {
    let lat = abs(f.vertex_position.y as int);
    let ground = if lat > 800 {
        Color { r: 240, g: 248, b: 255 }
    } else if n.first > 0 {
        if lat < 250 {
            Color { r: 237, g: 201, b: 175 }
        } else {
            Color { r: 34, g: 139, b: 34 }
        }
    } else {
        Color { r: 0, g: 0, b: 255 }
    };
    let sky = if n.second > 300 {
        ground.lerp_spec(Color { r: 255, g: 255, b: 255 }, 500)
    } else {
        ground
    };
    lit(sky, f)
}

/// Polar ice, then land where the first noise value is positive (desert
/// near the equator) and ocean elsewhere, with half-transparent clouds where
/// the second, slower noise value passes 0.3.
pub fn earth_shader(fragment: &Fragment, uniforms: &Uniforms, noise: &NoiseSample) -> (c: Color)
    requires
        fragment.wf(),
    ensures
        c == earth_color(*fragment, *noise),
{
    let y = fragment.vertex_position.y;
    let lat: i64 = if y < 0 { -y } else { y };
    let ground = if lat > 800 {
        Color::new(240, 248, 255)
    } else if noise.first > 0 {
        if lat < 250 { Color::new(237, 201, 175) } else { Color::new(34, 139, 34) }
    } else {
        Color::new(0, 0, 255)
    };
    let sky = if noise.second > 300 { ground.lerp(&Color::new(255, 255, 255), 500) } else { ground };
    sky.scale(fragment.intensity)
}

pub open spec fn emissive_color(f: Fragment) -> Color {
    let emission = Color { r: 255, g: 255, b: 102 }.scale_spec((f.intensity * 2) as u64);
    Color { r: 255, g: 223, b: 0 }.lerp_spec(emission, 900)
}

/// A warm yellow blended nine tenths toward a bright emission color that
/// grows with the intensity.
fn emissive_shader(fragment: &Fragment) -> (c: Color)
    requires
        fragment.wf(),
    ensures
        c == emissive_color(*fragment),
{
    let emission = Color::new(255, 255, 102).scale(fragment.intensity * 2);
    Color::new(255, 223, 0).lerp(&emission, 900)
}

/// The shader of light-emitting bodies.
pub fn fragment_shader2(fragment: &Fragment, uniforms: &Uniforms) -> (c: Color)
    requires
        fragment.wf(),
    ensures
        c == emissive_color(*fragment),
{
    emissive_shader(fragment)
}

pub open spec fn sun_color(f: Fragment, n: NoiseSample) -> Color {
    let x = f.vertex_position.x as int;
    let y = f.vertex_position.y as int;
    let glow = clamp(1000 - (x * x + y * y) / 1000, 0, 1000);
    let flicker = clamp((n.first + 1000) / 2, 500, 1000);
    let base = Color { r: 255, g: 223, b: 0 }.lerp_spec(Color { r: 255, g: 140, b: 0 }, (1000 - glow) as u64);
    base.scale_spec((glow * flicker / 1000) as u64)
}

/// Bright yellow at the center fading to orange and dark toward a unit
/// distance, flickering with the noise value.
fn sun_shader(fragment: &Fragment, noise: &NoiseSample) -> (c: Color)
    requires
        fragment.wf(),
    ensures
        c == sun_color(*fragment, *noise),
{
    let x: i128 = fragment.vertex_position.x as i128;
    let y: i128 = fragment.vertex_position.y as i128;
    proof {
        assert(0 <= x * x <= 0x1_0000_0000_0000_0000) by (nonlinear_arith)
            requires -0x1_0000_0000 <= x <= 0x1_0000_0000;
        assert(0 <= y * y <= 0x1_0000_0000_0000_0000) by (nonlinear_arith)
            requires -0x1_0000_0000 <= y <= 0x1_0000_0000;
    }
    let d: i128 = (x * x + y * y) / 1000;
    let glow: i64 = if d > 1000 { 0 } else { 1000 - d as i64 };
    let n: i128 = (noise.first as i128 + 1000) / 2;
    let flicker: i64 = if n < 500 { 500 } else if n > 1000 { 1000 } else { n as i64 };
    let base = Color::new(255, 223, 0).lerp(&Color::new(255, 140, 0), (1000 - glow) as u64);
    proof {
        assert(0 <= glow * flicker <= 1_000_000) by (nonlinear_arith)
            requires 0 <= glow <= 1000, 500 <= flicker <= 1000;
    }
    base.scale((glow * flicker / 1000) as u64)
}

// ---------------------------------------------------------------- patterns

pub open spec fn dalmata_color(f: Fragment, n: NoiseSample) -> Color {
    lit(if n.first < 500 { Color { r: 255, g: 255, b: 255 } } else { Color { r: 0, g: 0, b: 0 } }, f)
}

/// White wherever the noise stays under one half, black spots elsewhere.
fn dalmata_shader(fragment: &Fragment, noise: &NoiseSample) -> (c: Color)
    ensures
        c == dalmata_color(*fragment, *noise),
{
    let c = if noise.first < 500 { Color::new(255, 255, 255) } else { Color::new(0, 0, 0) };
    c.scale(fragment.intensity)
}

pub open spec fn cloud_color(f: Fragment, n: NoiseSample) -> Color {
    lit(if n.first > 500 { Color { r: 255, g: 255, b: 255 } } else { Color { r: 30, g: 97, b: 145 } }, f)
}

/// White clouds where the noise passes one half, sky blue elsewhere.
fn cloud_shader(fragment: &Fragment, noise: &NoiseSample) -> (c: Color)
    ensures
        c == cloud_color(*fragment, *noise),
{
    let c = if noise.first > 500 { Color::new(255, 255, 255) } else { Color::new(30, 97, 145) };
    c.scale(fragment.intensity)
}

pub open spec fn cellular_color(f: Fragment, n: NoiseSample) -> Color {
    lit(
        banded4(
            abs(n.first as int),
            Color { r: 85, g: 107, b: 47 },
            Color { r: 124, g: 252, b: 0 },
            Color { r: 34, g: 139, b: 34 },
            Color { r: 173, g: 255, b: 47 },
        ),
        f,
    )
}

/// Four greens by the magnitude of a noise value, split at 0.15, 0.7 and 0.75.
pub open spec fn banded4(v: int, c0: Color, c1: Color, c2: Color, c3: Color) -> Color {
    if v < 150 {
        c0
    } else if v < 700 {
        c1
    } else if v < 750 {
        c2
    } else {
        c3
    }
}

/// Plant-cell greens chosen by the magnitude of the noise.
fn cellular_shader(fragment: &Fragment, noise: &NoiseSample) -> (c: Color)
    ensures
        c == cellular_color(*fragment, *noise),
{
    let v: i128 = noise.first as i128;
    let m: i128 = if v < 0 { -v } else { v };
    let c = if m < 150 {
        Color::new(85, 107, 47)
    } else if m < 700 {
        Color::new(124, 252, 0)
    } else if m < 750 {
        Color::new(34, 139, 34)
    } else {
        Color::new(173, 255, 47)
    };
    c.scale(fragment.intensity)
}

pub open spec fn lava_color(f: Fragment, n: NoiseSample) -> Color {
    let avg = (n.first + n.second) / 2;
    let t = if avg < 0 { 0 } else { avg };
    lit(Color { r: 130, g: 20, b: 0 }.lerp_spec(Color { r: 255, g: 240, b: 0 }, t as u64), f)
}

/// Dark red blended toward bright yellow by the mean of two noise values.
fn lava_shader(fragment: &Fragment, noise: &NoiseSample) -> (c: Color)
    ensures
        c == lava_color(*fragment, *noise),
{
    let avg: i128 = div_floor(noise.first as i128 + noise.second as i128, 2);
    let t: u64 = if avg < 0 { 0 } else if avg > 1000 { 1000 } else { avg as u64 };
    proof {
        assert(blend_weight(t) == blend_weight((if avg < 0 { 0 } else { avg }) as u64));
    }
    Color::new(130, 20, 0).lerp(&Color::new(255, 240, 0), t).scale(fragment.intensity)
}

pub open spec fn moon_color(f: Fragment, n: NoiseSample) -> Color {
    lit(if n.first > 400 { Color { r: 200, g: 200, b: 200 } } else { Color { r: 150, g: 150, b: 150 } }, f)
}

/// Light gray surface with darker craters where the noise stays under 0.4.
fn moon_shader(fragment: &Fragment, noise: &NoiseSample) -> (c: Color)
    ensures
        c == moon_color(*fragment, *noise),
{
    let c = if noise.first > 400 { Color::new(200, 200, 200) } else { Color::new(150, 150, 150) };
    c.scale(fragment.intensity)
}

// ---------------------------------------------------------------- dithering

/// What `draw_percent` returns for a seed.
pub uninterp spec fn seeded_draw(seed: u64) -> i32;

/// Relies on rand's `StdRng::seed_from_u64` and `Rng::gen_range(0..=100)`:
/// one draw from a generator seeded with `seed`. `StdRng` is deterministic,
/// so the draw depends on the seed alone, and it lies in the range.
#[verifier::external_body]
fn draw_percent(seed: u64) -> (r: i32)
    ensures
        r == seeded_draw(seed),
        0 <= r <= 100,
{
    let mut rng = rand::rngs::StdRng::seed_from_u64(seed);
    rng.gen_range(0..=100)
}

/// The dither seed: `|time * y * x|` of the shading position in units,
/// saturating at `u64::MAX`.
pub open spec fn dither_seed_spec(f: Fragment, time: u32) -> u64 {
    let s = abs(time * f.vertex_position.y * f.vertex_position.x) / 1_000_000;
    if s > u64::MAX {
        u64::MAX
    } else {
        s as u64
    }
}

pub fn dither_seed(fragment: &Fragment, time: u32) -> (s: u64)
    requires
        fragment.wf(),
    ensures
        s == dither_seed_spec(*fragment, time),
{
    let x: i128 = fragment.vertex_position.x as i128;
    let y: i128 = fragment.vertex_position.y as i128;
    let t: i128 = time as i128;
    proof {
        assert(-0x1_0000_0000_0000_0000 <= y * x <= 0x1_0000_0000_0000_0000) by (nonlinear_arith)
            requires -0x1_0000_0000 <= x <= 0x1_0000_0000, -0x1_0000_0000 <= y <= 0x1_0000_0000;
        assert(-0x1_0000_0000_0000_0000_0000_0000 <= t * (y * x) <= 0x1_0000_0000_0000_0000_0000_0000)
            by (nonlinear_arith)
            requires 0 <= t <= 0xffff_ffff, -0x1_0000_0000_0000_0000 <= y * x <= 0x1_0000_0000_0000_0000;
        assert(t * y * x == t * (y * x)) by (nonlinear_arith);
    }
    let p: i128 = t * (y * x);
    let a: i128 = if p < 0 { -p } else { p };
    let s: i128 = a / 1_000_000;
    if s > u64::MAX as i128 {
        u64::MAX
    } else {
        s as u64
    }
}

pub open spec fn dither_color_spec(draw: i32, f: Fragment) -> Color {
    lit(if draw < 50 { Color { r: 0, g: 0, b: 0 } } else { Color { r: 255, g: 255, b: 255 } }, f)
}

/// Black for a draw under 50, white otherwise, dimmed by the intensity.
pub fn dither_color(draw: i32, fragment: &Fragment) -> (c: Color)
    ensures
        c == dither_color_spec(draw, *fragment),
{
    let c = if draw < 50 { Color::new(0, 0, 0) } else { Color::new(255, 255, 255) };
    c.scale(fragment.intensity)
}

pub open spec fn black_and_white_color(f: Fragment, time: u32) -> Color {
    dither_color_spec(seeded_draw(dither_seed_spec(f, time)), f)
}

/// Flicker noise: black or white from a generator reseeded per fragment
/// from the frame time and the shading position.
fn black_and_white(fragment: &Fragment, uniforms: &Uniforms) -> (c: Color)
    requires
        fragment.wf(),
    ensures
        c == black_and_white_color(*fragment, uniforms.time),
{
    let seed = dither_seed(fragment, uniforms.time);
    dither_color(draw_percent(seed), fragment)
}

// ---------------------------------------------------------------- dispatch

/// The shader of a drawn object: the interactive, switchable one, or a fixed
/// one of a body.
#[derive(Clone, Copy, Debug, PartialEq, Eq, Structural)]
pub enum Material {
    Switchable(RenderMode),
    /// One color for every fragment, unlit.
    Solid(Color),
    Emissive,
    Sun,
    Earth,
    Mars,
    Venus,
    Jupiter,
    Saturn,
    Uranus,
    Neptune,
}

pub open spec fn mode_color(m: RenderMode, f: Fragment, time: u32, n: NoiseSample) -> Color {
    match m {
        RenderMode::Default => cellular_color(f, n),
        RenderMode::Dalmata => dalmata_color(f, n),
        RenderMode::Cloud => cloud_color(f, n),
        RenderMode::Cellular => cellular_color(f, n),
        RenderMode::Lava => lava_color(f, n),
        RenderMode::BlackAndWhite => black_and_white_color(f, time),
        RenderMode::Moon => moon_color(f, n),
    }
}

/// The color of a fragment under a material, given the frame time and the
/// noise values sampled at the material's query.
pub open spec fn shade_spec(mat: Material, f: Fragment, time: u32, n: NoiseSample) -> Color {
    match mat {
        Material::Switchable(m) => mode_color(m, f, time, n),
        Material::Solid(c) => c,
        Material::Emissive => emissive_color(f),
        Material::Sun => sun_color(f, n),
        Material::Earth => earth_color(f, n),
        Material::Mars => mars_color(f, time),
        Material::Venus => venus_color(f, time),
        Material::Jupiter => jupiter_color(f, time),
        Material::Saturn => saturn_color(f, time),
        Material::Uranus => uranus_color(f, time),
        Material::Neptune => neptune_color(f, time),
    }
}

/// The switchable shader: the pattern of the given render mode.
pub fn fragment_shader(fragment: &Fragment, uniforms: &Uniforms, mode: RenderMode, noise: &NoiseSample) -> (c:
    Color)
    requires
        fragment.wf(),
    ensures
        c == mode_color(mode, *fragment, uniforms.time, *noise),
{
    match mode {
        RenderMode::Default => cellular_shader(fragment, noise),
        RenderMode::Dalmata => dalmata_shader(fragment, noise),
        RenderMode::Cloud => cloud_shader(fragment, noise),
        RenderMode::Cellular => cellular_shader(fragment, noise),
        RenderMode::Lava => lava_shader(fragment, noise),
        RenderMode::BlackAndWhite => black_and_white(fragment, uniforms),
        RenderMode::Moon => moon_shader(fragment, noise),
    }
}

/// Shades one fragment with a material.
pub fn shade(material: Material, fragment: &Fragment, uniforms: &Uniforms, noise: &NoiseSample) -> (c: Color)
    requires
        fragment.wf(),
    ensures
        c == shade_spec(material, *fragment, uniforms.time, *noise),
{
    match material {
        Material::Switchable(m) => fragment_shader(fragment, uniforms, m, noise),
        Material::Solid(c) => c,
        Material::Emissive => fragment_shader2(fragment, uniforms),
        Material::Sun => sun_shader(fragment, noise),
        Material::Earth => earth_shader(fragment, uniforms, noise),
        Material::Mars => mars_shader(fragment, uniforms),
        Material::Venus => venus_shader(fragment, uniforms),
        Material::Jupiter => jupiter_shader(fragment, uniforms),
        Material::Saturn => saturn_shader(fragment, uniforms),
        Material::Uranus => uranus_shader(fragment, uniforms),
        Material::Neptune => neptune_shader(fragment, uniforms),
    }
}

/// Shading is a function of the material, the fragment, the frame time and
/// the noise values: shading the same inputs twice gives the same color,
/// the dithered pattern included.
pub proof fn lemma_shading_reproducible(
    mat: Material,
    f1: Fragment,
    f2: Fragment,
    u1: Uniforms,
    u2: Uniforms,
    n1: NoiseSample,
    n2: NoiseSample,
)
    requires
        f1 == f2,
        u1.time == u2.time,
        n1 == n2,
    ensures
        shade_spec(mat, f1, u1.time, n1) == shade_spec(mat, f2, u2.time, n2),
        noise_query_spec(mat, f1, u1.time) == noise_query_spec(mat, f2, u2.time),
{
}

// ---------------------------------------------------------------- noise lookups

pub open spec fn flat(x: int, y: int) -> NoisePoint {
    NoisePoint { x: x as i64, y: y as i64, z: 0 }
}

pub open spec fn one_point(p: NoisePoint) -> NoiseQuery {
    NoiseQuery { first: Some(p), second: None, three_d: false }
}

/// The lava's bubbling offset along the depth axis, in thousandths.
pub open spec fn pulse(time: u32) -> int {
    wave_spec(time * 2) / 2
}

/// Where a material samples the noise field for a fragment.
pub open spec fn noise_query_spec(mat: Material, f: Fragment, time: u32) -> NoiseQuery {
    let x = f.vertex_position.x as int;
    let y = f.vertex_position.y as int;
    let t = time as int;
    match mat {
        Material::Switchable(RenderMode::Default) => one_point(flat(x * 30 + 50_000, y * 30 + 50_000)),
        Material::Switchable(RenderMode::Cellular) => one_point(flat(x * 30 + 50_000, y * 30 + 50_000)),
        Material::Switchable(RenderMode::Dalmata) => one_point(flat(x * 100, y * 100)),
        Material::Switchable(RenderMode::Cloud) => one_point(
            flat(x * 100 + 100_000 + t * 500, y * 100 + 100_000),
        ),
        Material::Switchable(RenderMode::Lava) => NoiseQuery {
            first: Some(
                NoisePoint {
                    x: (x * 1000) as i64,
                    y: (y * 1000) as i64,
                    z: ((f.depth + pulse(time)) * 1000) as i64,
                },
            ),
            second: Some(
                NoisePoint {
                    x: ((x + 1_000_000) * 1000) as i64,
                    y: ((y + 1_000_000) * 1000) as i64,
                    z: ((f.depth + 1_000_000 + pulse(time)) * 1000) as i64,
                },
            ),
            three_d: true,
        },
        Material::Switchable(RenderMode::Moon) => one_point(flat(x * 50 + t * 100, y * 50 + t * 100)),
        Material::Sun => one_point(flat(x * 100 + t * 500, y * 100 + t * 500)),
        Material::Earth => NoiseQuery {
            first: Some(flat(x * 150, y * 150)),
            second: Some(flat(x * 60 + t * 200, y * 60)),
            three_d: false,
        },
        _ => NoiseQuery { first: None, second: None, three_d: false },
    }
}

/// The noise points that shading `fragment` with `material` needs.
pub fn noise_query(material: Material, fragment: &Fragment, time: u32) -> (q: NoiseQuery)
    requires
        fragment.wf(),
    ensures
        q == noise_query_spec(material, *fragment, time),
{
    let x: i64 = fragment.vertex_position.x;
    let y: i64 = fragment.vertex_position.y;
    let t: i64 = time as i64;
    match material {
        Material::Switchable(RenderMode::Default) => NoiseQuery {
            first: Some(NoisePoint { x: x * 30 + 50_000, y: y * 30 + 50_000, z: 0 }),
            second: None,
            three_d: false,
        },
        Material::Switchable(RenderMode::Cellular) => NoiseQuery {
            first: Some(NoisePoint { x: x * 30 + 50_000, y: y * 30 + 50_000, z: 0 }),
            second: None,
            three_d: false,
        },
        Material::Switchable(RenderMode::Dalmata) => NoiseQuery {
            first: Some(NoisePoint { x: x * 100, y: y * 100, z: 0 }),
            second: None,
            three_d: false,
        },
        Material::Switchable(RenderMode::Cloud) => NoiseQuery {
            first: Some(NoisePoint { x: x * 100 + 100_000 + t * 500, y: y * 100 + 100_000, z: 0 }),
            second: None,
            three_d: false,
        },
        Material::Switchable(RenderMode::Lava) => {
            let p: i64 = div_floor(wave(t as i128 * 2) as i128, 2) as i64;
            let d: i64 = fragment.depth;
            NoiseQuery {
                first: Some(NoisePoint { x: x * 1000, y: y * 1000, z: (d + p) * 1000 }),
                second: Some(
                    NoisePoint {
                        x: (x + 1_000_000) * 1000,
                        y: (y + 1_000_000) * 1000,
                        z: (d + 1_000_000 + p) * 1000,
                    },
                ),
                three_d: true,
            }
        },
        Material::Switchable(RenderMode::Moon) => NoiseQuery {
            first: Some(NoisePoint { x: x * 50 + t * 100, y: y * 50 + t * 100, z: 0 }),
            second: None,
            three_d: false,
        },
        Material::Sun => NoiseQuery {
            first: Some(NoisePoint { x: x * 100 + t * 500, y: y * 100 + t * 500, z: 0 }),
            second: None,
            three_d: false,
        },
        Material::Earth => NoiseQuery {
            first: Some(NoisePoint { x: x * 150, y: y * 150, z: 0 }),
            second: Some(NoisePoint { x: x * 60 + t * 200, y: y * 60, z: 0 }),
            three_d: false,
        },
        _ => NoiseQuery { first: None, second: None, three_d: false },
    }
}

} // verus!
