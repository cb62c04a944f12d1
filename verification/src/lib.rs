//! A source-to-source desugaring library for a Rust-like surface language.
//!
//! The host compiler hands this library the fully type-checked tree of a
//! function body ("typed tree"), represented as append-only arenas of nodes
//! addressed by integer indices.  The library can rewrite that tree to make
//! implicit semantics explicit (the temporary-introduction pass) and can
//! render the tree back into surface syntax.

pub mod defs;
pub mod desugar;
pub mod options;
pub mod print;
pub mod thir;
pub mod types;
pub mod util;
