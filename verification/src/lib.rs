//! A verified codec for the structural unit of the PNG image format: the
//! chunk, a length-prefixed, type-tagged, checksum-protected byte record.
//!
//! [`chunk_type::ChunkType`] is the 4-byte ASCII-letter identifier whose
//! per-byte letter case encodes boolean flags; [`chunk::Chunk`] couples a
//! payload with its tag, guards both with a CRC-32 checksum, and converts
//! to and from the exact on-disk byte layout
//! `[length:4][tag:4][payload:N][checksum:4]` (big-endian integers).

pub mod be32;
pub mod chunk;
pub mod chunk_type;
pub mod crc32;
pub mod text;

pub use chunk::Chunk;
pub use chunk::ChunkError;
pub use chunk_type::ChunkType;
pub use chunk_type::ChunkTypeError;
