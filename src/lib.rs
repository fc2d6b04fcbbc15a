//! Verified core of a module transpilation pipeline: dialect selection,
//! diagnostic rendering, emit options and pass planning, source map
//! attachment, and extraction of runnable examples from doc comments.

pub mod text;
pub mod doctest;
pub mod diagnostics;
pub mod syntax;
pub mod emit;

