//! Parsing, mutation and re-serialization of PNG container files at the
//! chunk level: length-prefixed, type-tagged, checksum-verified records that
//! round-trip byte for byte behind a fixed file signature.

pub mod chunk;
pub mod chunk_type;
pub mod png;
pub mod render;
pub mod wire;

pub use png::Png;
