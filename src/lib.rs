//! An entity-component store with hierarchical positions and
//! axis-aligned box collision classification, plus a small software
//! rasterizer and the pieces of a falling-block game built on them.
pub mod collision;
pub mod component;
pub mod error;
pub mod game;
pub mod math;
pub mod rect;
pub mod render;
pub mod renderer;
pub mod rules;
pub mod tetromino;
pub mod triangle;
pub mod world;
