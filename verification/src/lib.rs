//! Turns an interpolated string literal, given as an already-parsed list of
//! segments, into a positional-placeholder template plus the ordered list of
//! argument expressions rendered back to source text.

pub mod ast;
pub mod render;
pub mod resolve;
pub mod fstring;
pub mod laws;
