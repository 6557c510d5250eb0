//! Mesh vertices in fixed-point coordinates (thousandths).
use vstd::prelude::*;
use crate::color::Color;

verus! {

#[derive(Clone, Copy, Debug, PartialEq, Eq, Structural)]
pub struct Vec2 {
    pub x: i64,
    pub y: i64,
}

#[derive(Clone, Copy, Debug, PartialEq, Eq, Structural)]
pub struct Vec3 {
    pub x: i64,
    pub y: i64,
    pub z: i64,
}

impl Vec3 {
    pub fn new(x: i64, y: i64, z: i64) -> (v: Vec3)
        ensures
            v == (Vec3 { x, y, z }),
    {
        Vec3 { x, y, z }
    }

    pub fn zero() -> (v: Vec3)
        ensures
            v == (Vec3 { x: 0, y: 0, z: 0 }),
    {
        Vec3 { x: 0, y: 0, z: 0 }
    }
}

/// The largest magnitude of a coordinate that the pipeline accepts.
pub const LIMIT: i64 = 0x1_0000_0000;

pub open spec fn within(v: i64) -> bool {
    -LIMIT <= v <= LIMIT
}

pub open spec fn vec_within(v: Vec3) -> bool {
    within(v.x) && within(v.y) && within(v.z)
}

/// A mesh vertex: model-space fields, and the screen-space fields that the
/// vertex transform fills in.
#[derive(Clone, Copy, Debug, PartialEq, Eq, Structural)]
pub struct Vertex {
    pub position: Vec3,
    pub normal: Vec3,
    pub tex_coords: Vec2,
    pub color: Color,
    pub transformed_position: Vec3,
    pub transformed_normal: Vec3,
}

impl Vertex {
    /// A vertex whose transformed fields start as its model-space ones.
    pub fn new(position: Vec3, normal: Vec3, tex_coords: Vec2) -> (v: Vertex)
        ensures
            v.position == position,
            v.normal == normal,
            v.tex_coords == tex_coords,
            v.color == (Color { r: 0, g: 0, b: 0 }),
            v.transformed_position == position,
            v.transformed_normal == normal,
    {
        Vertex {
            position,
            normal,
            tex_coords,
            color: Color { r: 0, g: 0, b: 0 },
            transformed_position: position,
            transformed_normal: normal,
        }
    }

    /// Whether every field that rasterization reads is within `LIMIT`.
    pub open spec fn rasterizable(self) -> bool {
        vec_within(self.position) && vec_within(self.transformed_position) && vec_within(
            self.transformed_normal,
        )
    }
}

} // verus!
