//! Renders raster images as blocks of styled text glyphs.
//!
//! An image is cut into cells of two by four pixels. Each cell is reduced to
//! two representative colours and an eight-bit dot pattern, the pattern
//! selects a glyph, and the glyphs are joined, with or without terminal
//! colours, into rows of text.
//!
//! Colours are fixed-point numbers, so every step is exact integer arithmetic
//! and every function states precisely what it returns.
use vstd::prelude::*;

pub mod ansi;
pub mod cell;
pub mod charsets;
pub mod color;
pub mod outputs;
pub mod raster;
pub mod settings;
pub mod utils;

verus! {

/// Which of two reference colours a colour lies nearer to.
#[derive(Clone, Copy, Debug, PartialEq, Eq, Structural)]
pub enum NearestOption {
    A,
    B,
}

} // verus!
