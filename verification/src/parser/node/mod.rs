//! A syntax tree whose nodes own their parts, built from the tokens of the
//! lexer that keeps lexemes, and its printer.
pub mod ast;
pub mod nodes;
pub mod serializer;
