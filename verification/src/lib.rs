//! A small compiler front end for a minimal imperative scripting language.
//!
//! The pipeline is strictly linear: source text is scanned into a flat
//! sequence of classified tokens, the token sequence is parsed by recursive
//! descent into an abstract syntax tree while declarations are checked, and
//! the tree is rendered as C source text.

pub mod emitter;
pub mod lexer;
pub mod parser;
pub mod strutil;
