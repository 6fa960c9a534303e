//! Shader programs as text.

pub mod parse;
pub mod reading;
pub mod serialize;
pub mod text;
