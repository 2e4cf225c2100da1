//! A tree-walking evaluator for a small imperative language: integer and
//! boolean expressions, lexically scoped bindings with explicit mutability,
//! blocks, conditionals, loops and stack addresses.
//!
//! A line of text is read as an instruction ([`lexer`], [`parser`]) and
//! executed against a stack of scopes ([`namespacestack`]) that lives on
//! from line to line ([`repl`]). What an instruction means is defined in
//! [`semantics`], as functions on mathematical views; the evaluator in
//! [`eval`] is proved to compute exactly that, and [`laws`] states what
//! follows from it.

pub mod identifier;
pub mod types;
pub mod memory;
pub mod memorycell;
pub mod heap;
pub mod parsing;
pub mod error;
pub mod namespace;
pub mod namespacestack;
pub mod semantics;
pub mod eval;
pub mod laws;
pub mod text;
pub mod render;
pub mod lexer;
pub mod parser;
pub mod repl;
