//! Source-to-source expansions on Rust token streams.
//!
//! The core is a literal-map grammar: a declared value type followed by
//! `key = value` entries, parsed from a token stream and expanded into code
//! that builds a `HashMap<String, T>` holding the entries in source order
//! (`parser`, `codegen`, with the meaning of that code and its laws in
//! `laws`). Beside it stand the rewrites that share its token model: option
//! lists of attributes (`attr`), timing and caching of functions (`cached`,
//! `wrap`), string constants (`constant`) and struct-to-map projections
//! (`projection`), each also reachable from source text (`entry`).

pub mod token;
pub mod outside;
pub mod parser;
pub mod codegen;
pub mod laws;
pub mod attr;
pub mod cached;
pub mod wrap;
pub mod constant;
pub mod projection;
pub mod entry;
pub mod demo;
