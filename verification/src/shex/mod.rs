//! Shader programs: the instruction model and its encodings.

pub mod decode;
pub mod encode;
pub mod ir;
pub mod lists;
pub mod opcodes;
pub mod registers;
