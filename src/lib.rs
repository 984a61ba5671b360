//! Glyph atlas construction: turns per-codepoint glyph outlines into a
//! canonical quadratic-curve buffer plus dense per-codepoint tables.
//!
//! All geometry is kept in exact integer coordinates; turning normalized
//! numerators into GPU floats is left to the caller.

pub mod chars;
pub mod encode;
pub mod font;
pub mod geom;
pub mod outline;
pub mod table;
