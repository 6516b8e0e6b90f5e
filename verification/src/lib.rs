//! Configuration model and order-preserving compiler-input serialization for a
//! zkSolc-style Solidity compiler.
//!
//! The crate holds the compiler settings, a builder that assembles a complete
//! configuration from optional pieces, and a compiler-input value whose
//! `sources` are an explicitly ordered sequence of (path, source) pairs.  The
//! serializer emits the `sources` object with its keys in exactly that order,
//! and the parser reads them back in document order; the two are proved to be
//! inverses.

pub mod config;
pub mod input;
pub mod json;
pub mod settings_json;
