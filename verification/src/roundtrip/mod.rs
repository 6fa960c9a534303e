//! What is written reads back: the laws that hold between writing and reading.

pub mod annotations;
pub mod bindings;
pub mod bodies;
pub mod bytecode;
pub mod bytecode_fields;
pub mod bytecode_operands;
pub mod clean;
pub mod comments;
pub mod containers;
pub mod data;
pub mod declarations;
pub mod decoded;
pub mod defaults;
pub mod documents;
pub mod files;
pub mod generated;
pub mod hex;
pub mod instructions;
pub mod mnemonics;
pub mod modifiers;
pub mod names;
pub mod operands;
pub mod placed;
pub mod programs;
pub mod rdef_bytes;
pub mod rdef_text;
pub mod rdef_types;
pub mod recoded;
pub mod resources;
pub mod signature_bytes;
pub mod signatures;
pub mod stat_order;
pub mod stats;
pub mod tables;
pub mod words;
