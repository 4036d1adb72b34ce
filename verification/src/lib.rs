//! A small predicate query language: a textual boolean/comparison expression
//! over record fields is parsed into an expression tree, and that tree is
//! evaluated against a record to produce an inclusion/exclusion decision.

pub mod text;
pub mod ast;
pub mod value;
pub mod record;
pub mod parser;
pub mod eval;
pub mod csv_source;
