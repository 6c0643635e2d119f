//! Building blocks for small terminal games: a half-edge mesh engine with face
//! recovery and fan triangulation, and the layout rules of the text screen.

pub mod game;
pub mod games;
pub mod mesh;
pub mod outside;
pub mod renderer;
pub mod screen;
pub mod shapes;
