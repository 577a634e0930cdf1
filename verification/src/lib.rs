//! A minimal pattern-matching engine.
//!
//! A pattern written in a small subset of regular-expression syntax is
//! compiled once into an ordered sequence of tokens, each of which tests a
//! single input character; a matcher then walks an input line, either
//! anchored to its start or at every offset, and decides match or no-match.

pub mod compiler;
pub mod laws;
pub mod matcher;
pub mod pattern;
