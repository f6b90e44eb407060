//! A wireframe-polyhedron rendering engine for character-cell displays.
//!
//! The engine builds three- and four-dimensional shapes (vertex lists plus
//! edge lists), rotates them about a pivot through ordered sequences of
//! planar rotations, projects four-dimensional shapes down to three
//! dimensions, and rasterizes shapes through a perspective camera into a
//! depth-buffered pixel grid.
//!
//! All geometry is carried in fixed-point arithmetic: a coordinate is an
//! `i64` counting sub-units, with [`fixed::UNIT`] sub-units to one world
//! unit. Every operation states its exact result over the mathematical
//! integers, so there is no hidden rounding beyond what the contracts spell
//! out.

pub mod color;
pub mod display;
pub mod fixed;
pub mod point;
pub mod rotation;
pub mod shape;
