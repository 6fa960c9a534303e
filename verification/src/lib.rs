//! Direct3D shader bytecode as lossless, editable text.

pub mod bytes;
pub mod checksum;
pub mod chunks;
pub mod container;
pub mod container_doc;
pub mod debug;
pub mod floats;
pub mod forensic;
pub mod generate;
pub mod grammar;
pub mod lines;
pub mod meaning;
pub mod numerals;
pub mod roundtrip;
pub mod shader;
pub mod shex;
pub mod symbolicate;
pub mod text;
pub mod utf8;
