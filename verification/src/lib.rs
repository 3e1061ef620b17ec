//! Rendering and input core of a 2D painting surface.
//!
//! Every coordinate, length, zoom factor and pressure in this crate is a
//! fixed-point integer counted in thousandths (see [`geometry::UNIT`]), so that
//! all of the arithmetic is exact and its contracts are statements about
//! integers.

pub mod brush;
pub mod canvas;
pub mod color;
pub mod command;
pub mod geometry;
pub mod input;
pub mod mirror;
pub mod widget;

pub use canvas::Canvas;
pub use color::Color;
pub use geometry::{Point, Rectangle};
