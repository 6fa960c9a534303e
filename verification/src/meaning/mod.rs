//! What names, numbers and positions stand for: the laws that tie texts and bytes
//! to their meaning.

pub mod access;
pub mod checksums;
pub mod cuts;
pub mod documents;
pub mod forms;
pub mod hlsl;
pub mod keys;
pub mod layout;
pub mod made;
pub mod notes;
pub mod numbers;
pub mod opcodes;
pub mod order;
pub mod reading;
pub mod records;
pub mod refusals;
pub mod registers;
pub mod sizes;
pub mod statistics;
pub mod texts;
pub mod usage;
pub mod words;
pub mod written;
