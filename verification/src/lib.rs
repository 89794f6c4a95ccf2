//! Conway's Game of Life on a rectangular boolean grid.
//!
//! The library is organised around a mathematical model of the board
//! (`grid`), the verified update rule (`engine`), a parser for the text
//! format of saved boards (`parse`), and a renderer that lays a board out
//! as terminal text (`render`).

pub mod engine;
pub mod grid;
pub mod parse;
pub mod render;
