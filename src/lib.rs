//! A reader for Quake-style level sources: entities with string properties
//! and brushes, each brush a list of textured planes. The grammar's meaning
//! is given by the spec functions of `grammar`, and every reader is proved
//! to agree with it.

pub mod bsptree;
pub mod data;
pub mod grammar;
pub mod laws;
mod parser;
pub mod rules;
pub mod text;
