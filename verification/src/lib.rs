//! Length-prefixed, type-tagged, checksummed binary records in the style of
//! PNG chunks.
//!
//! A record is a four-letter [`ChunkType`] and an opaque payload, guarded by a
//! CRC-32 over both. [`Chunk`] builds such records, writes them out bit-exactly
//! and reads them back, rejecting anything malformed or corrupted.

pub mod bytes;
pub mod error;
pub mod checksum;
pub mod text;
pub mod chunk_type;
pub mod chunk;

pub use chunk::{Chunk, ChunkView};
pub use chunk_type::ChunkType;
pub use error::ChunkError;
