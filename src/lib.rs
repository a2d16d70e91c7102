//! A random walk over a rectangular grid that leaves a trail of arrows,
//! and a renderer that draws the trail as a box-drawing maze.

pub mod direction;
pub mod graph;
pub mod node;
pub mod render;
pub mod text;
