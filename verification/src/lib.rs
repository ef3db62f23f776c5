//! Analysis backend for a small scripting language.
//!
//! The crate keeps a set of open text documents, parses each one into a
//! concrete syntax tree, and answers structural queries on demand:
//! syntax diagnostics, semantic-highlighting tokens, and a typed syntax
//! tree that a small compiler lowers to a JavaScript-like output tree.
//! Derived values are memoized per document and recomputed only when the
//! document's text changes.

pub mod position;
pub mod text;
pub mod tree;
pub mod diagnostics;
pub mod tokens;
pub mod lexer;
pub mod parser;
pub mod db;
pub mod actor;
pub mod syntax;
pub mod estree;
pub mod compiler;
pub mod sexp;

use vstd::prelude::*;

verus! {

} // verus!
