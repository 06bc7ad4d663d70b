//! Generation of unique C/C++ header guards.
//!
//! The library builds the `#ifndef` / `#define` / `#endif` triplet around a
//! fresh time-ordered 128-bit identifier, with an optional prefix, suffix,
//! C-linkage compatibility block and a chosen line-ending style, and carries
//! the decision and message logic of the output sink.

pub mod config;
pub mod guard;
pub mod laws;
pub mod sink;
pub mod text;
