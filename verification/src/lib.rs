//! Front end of a small declaration language: a tokenizer driven by an
//! ordered list of lexical rules, a recursive-descent parser for variable
//! declarations with optional union-typed annotations, a code generator for
//! two target languages, and the lookup of message templates by language.

pub mod codegen;
pub mod decimal;
pub mod parser;
pub mod text;
pub mod token;
pub mod tokenizer;
pub mod translation;
