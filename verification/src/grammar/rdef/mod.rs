//! Resource definitions as text.

pub mod decode;
pub mod encode;
pub mod hlsl;
pub mod kv;
pub mod usage;
