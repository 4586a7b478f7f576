//! Semantic-analysis core of a small statically typed, ahead-of-time compiled
//! language: module assembly, cross-module name and import resolution,
//! structural type resolution with recursive-value-type detection, and the
//! typed representation handed to the code generator.

pub mod ast;
pub mod context;
pub mod errors;
pub mod module;
pub mod names;
pub mod resolve;
pub mod strmap;
pub mod target;
pub mod tokens;
pub mod typeck;
pub mod types;
