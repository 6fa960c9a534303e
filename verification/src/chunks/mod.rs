//! The chunks of a shader container.

pub mod rdef;
pub mod rdef_parse;
pub mod rdef_write;
pub mod signature;
pub mod stat;
