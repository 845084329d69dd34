//! Shared vocabulary of the rasterizer.
use vstd::prelude::*;
use crate::renderer::Renderer;

verus! {

/// A pixel coordinate `(x, y)`.
pub type Point = (usize, usize);

/// A colour as `0x00RRGGBB`.
pub type Color = u32;

/// The top-left pixel of a shape.
pub type Position = (usize, usize);

/// Width and height in pixels.
pub type Size = (usize, usize);

/// A rotation step.
pub type Rotation = usize;

/// Something that can draw itself into a renderer.
pub trait Renderable {
    fn render(&self, renderer: &mut Renderer);
}

} // verus!
