//! RGB colors with 8-bit channels.
use vstd::prelude::*;

verus! {

#[derive(Clone, Copy, Debug, PartialEq, Eq, Structural)]
pub struct Color {
    pub r: u8,
    pub g: u8,
    pub b: u8,
}

/// Packs a color as `0xRRGGBB`.
pub open spec fn hex_of(c: Color) -> u32 {
    (c.r as int * 65536 + c.g as int * 256 + c.b as int) as u32
}

/// The color that `0xRRGGBB` encodes (higher bits are ignored).
pub open spec fn from_hex_spec(h: u32) -> Color {
    Color { r: ((h / 65536) % 256) as u8, g: ((h / 256) % 256) as u8, b: (h % 256) as u8 }
}

/// A channel scaled by a factor given in thousandths, saturating at 255.
pub open spec fn scale_channel(c: u8, k: u64) -> u8 {
    let v = c as int * k as int / 1000;
    if v > 255 {
        255
    } else {
        v as u8
    }
}

/// The blend weight `t` (thousandths), limited to `[0, 1000]`.
pub open spec fn blend_weight(t: u64) -> int {
    if t > 1000 {
        1000
    } else {
        t as int
    }
}

/// Moves channel `a` toward `b` by the fraction `w / 1000`, rounding toward `a`.
pub open spec fn lerp_channel(a: u8, b: u8, w: int) -> u8 {
    if b >= a {
        (a + (b - a) * w / 1000) as u8
    } else {
        (a - (a - b) * w / 1000) as u8
    }
}

/// The sum of two channels, saturating at 255.
pub open spec fn add_channel(a: u8, b: u8) -> u8 {
    if a + b > 255 {
        255
    } else {
        (a + b) as u8
    }
}

fn scale_u8(c: u8, k: u64) -> (r: u8)
    ensures
        r == scale_channel(c, k),
{
    proof {
        assert(c as int * k as int <= 255 * 0xffff_ffff_ffff_ffff) by (nonlinear_arith)
            requires c <= 255, k <= 0xffff_ffff_ffff_ffff;
    }
    let v: u128 = (c as u128) * (k as u128) / 1000;
    if v > 255 {
        255
    } else {
        v as u8
    }
}

fn lerp_u8(a: u8, b: u8, w: u64) -> (r: u8)
    requires
        w <= 1000,
    ensures
        r == lerp_channel(a, b, w as int),
{
    if b >= a {
        let d: u64 = (b - a) as u64;
        proof {
            assert(d * w / 1000 <= d) by (nonlinear_arith)
                requires w <= 1000, d >= 0;
        }
        let step: u64 = d * w / 1000;
        (a as u64 + step) as u8
    } else {
        let d: u64 = (a - b) as u64;
        proof {
            assert(d * w / 1000 <= d) by (nonlinear_arith)
                requires w <= 1000, d >= 0;
        }
        let step: u64 = d * w / 1000;
        (a as u64 - step) as u8
    }
}

fn add_u8(a: u8, b: u8) -> (r: u8)
    ensures
        r == add_channel(a, b),
{
    let s: u16 = a as u16 + b as u16;
    if s > 255 {
        255
    } else {
        s as u8
    }
}

impl Color {
    pub open spec fn scale_spec(self, k: u64) -> Color {
        Color { r: scale_channel(self.r, k), g: scale_channel(self.g, k), b: scale_channel(self.b, k) }
    }

    pub open spec fn lerp_spec(self, o: Color, t: u64) -> Color {
        Color {
            r: lerp_channel(self.r, o.r, blend_weight(t)),
            g: lerp_channel(self.g, o.g, blend_weight(t)),
            b: lerp_channel(self.b, o.b, blend_weight(t)),
        }
    }

    pub open spec fn add_spec(self, o: Color) -> Color {
        Color { r: add_channel(self.r, o.r), g: add_channel(self.g, o.g), b: add_channel(self.b, o.b) }
    }

    pub fn new(r: u8, g: u8, b: u8) -> (c: Color)
        ensures
            c == (Color { r, g, b }),
    {
        Color { r, g, b }
    }

    pub fn black() -> (c: Color)
        ensures
            c == (Color { r: 0, g: 0, b: 0 }),
    {
        Color { r: 0, g: 0, b: 0 }
    }

    pub fn from_hex(h: u32) -> (c: Color)
        ensures
            c == from_hex_spec(h),
    {
        Color { r: ((h / 65536) % 256) as u8, g: ((h / 256) % 256) as u8, b: (h % 256) as u8 }
    }

    pub fn to_hex(&self) -> (h: u32)
        ensures
            h == hex_of(*self),
            h == self.r * 65536 + self.g * 256 + self.b,
    {
        self.r as u32 * 65536 + self.g as u32 * 256 + self.b as u32
    }

    /// Scales every channel by `k / 1000`, saturating at 255.
    pub fn scale(&self, k: u64) -> (c: Color)
        ensures
            c == self.scale_spec(k),
    {
        Color { r: scale_u8(self.r, k), g: scale_u8(self.g, k), b: scale_u8(self.b, k) }
    }

    /// Linear interpolation toward `other` by `t / 1000`, with `t` limited to 1000.
    pub fn lerp(&self, other: &Color, t: u64) -> (c: Color)
        ensures
            c == self.lerp_spec(*other, t),
    {
        let w: u64 = if t > 1000 { 1000 } else { t };
        Color { r: lerp_u8(self.r, other.r, w), g: lerp_u8(self.g, other.g, w), b: lerp_u8(self.b, other.b, w) }
    }

    /// Channel-wise saturating sum.
    pub fn add(&self, other: &Color) -> (c: Color)
        ensures
            c == self.add_spec(*other),
    {
        Color { r: add_u8(self.r, other.r), g: add_u8(self.g, other.g), b: add_u8(self.b, other.b) }
    }
}

} // verus!
