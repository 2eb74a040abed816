//! Delve: the verified core of an ASCII ray-casting renderer for the terminal.
//!
//! - `matrix`: fixed-size matrices (dimensions in the type) and their algebra;
//! - `integer`: the primitive integer types as matrix elements;
//! - `engine`: sharing the frame's rows among render workers;
//! - `render`: the partitioned frame buffer and which cells a new frame must redraw;
//! - `input`: keys, movements, the movement flags and each turn of the input loop;
//! - `log`: the logger's filter, targets, line format and buffer;
//! - `entities`: the glyphs of a text billboard.
pub mod engine;
pub mod entities;
pub mod input;
pub mod integer;
pub mod log;
pub mod matrix;
pub mod render;
mod sealed;
