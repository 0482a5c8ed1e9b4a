//! Reading, editing and writing the chunk layout of PNG files.
//!
//! A file is an eight-byte signature followed by chunks. Each chunk carries a
//! big-endian length, a four-letter type, that many bytes of data, and a
//! CRC-32 of the type and the data.

pub mod args;
pub mod checksum;
pub mod chunk;
pub mod chunk_type;
pub mod commands;
pub mod error;
pub mod laws;
pub mod png;
pub mod text;
pub mod wire;
