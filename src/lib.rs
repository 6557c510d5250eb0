//! A software rasterizer in fixed-point arithmetic: vertex transform,
//! triangle scan conversion, procedural fragment shading and a depth-tested
//! framebuffer.
//!
//! Coordinates, depths, matrix entries, intensities and noise values are
//! integers in thousandths; screen positions are in thousandths of a pixel.
pub mod color;
pub mod fixed;
pub mod framebuffer;
pub mod pipeline;
pub mod shaders;
pub mod transform;
pub mod triangle;
pub mod vertex;
