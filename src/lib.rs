//! A compiler for a small interface definition language of structs and
//! enums: it parses a source text into a syntax tree, checks that every
//! referenced type is declared, and emits matching Python or Rust types.
//!
//! Each stage is verified against a model stated in spec functions:
//! [`grammar`] gives the language, [`analyzer`] the diagnostics, and
//! [`python`] and [`rust`] the exact text emitted.
pub mod analyzer;
pub mod ast;
pub mod emitter;
pub mod grammar;
pub mod parser;
pub mod python;
pub mod rust;
pub mod span;
