//! The text forms of the chunks of a shader container.

pub mod rdef;
pub mod shex;
pub mod signature;
pub mod stat;
pub mod tables;
