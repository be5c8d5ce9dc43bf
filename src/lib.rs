//! Codec for the legacy VTK data file format: scalar decoding from ASCII or
//! fixed-width binary input, a type-tagged numeric buffer, and a writer that
//! emits the full dataset grammar.
//!
//! Floating-point values are carried as their IEEE-754 bit patterns (`u32` for
//! single precision, `u64` for double precision). Binary output encodes those
//! bits exactly; text output leaves each real value as a token for the caller
//! to render.
pub mod endian;
pub mod error;
pub mod basic;
pub mod model;
pub mod output;
pub mod writer;
pub mod laws;

