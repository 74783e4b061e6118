//! A syntax tree whose nodes own their parts: statements own their
//! expressions, and expressions the transformations piped onto them.
pub mod ast;
pub mod nodes;
pub mod serializer;
