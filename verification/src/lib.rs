//! Brightness scoring of single characters.
//!
//! The library renders one character of a fixed embedded typeface onto a
//! small coverage canvas and reduces the canvas to a single brightness
//! score between 0 and 255.  A text-art pipeline calls this once per
//! distinct character to learn how much ink the character carries.

pub mod canvas;
pub mod character_set;
pub mod coverage;
