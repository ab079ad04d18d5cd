//! The ways in which building or reading a record can fail.

use vstd::prelude::*;

verus! {

/// Why a tag or a record was rejected.
#[derive(Debug, Clone, Copy, PartialEq, Eq, Structural)]
pub enum ChunkError {
    /// A byte of the tag is not an ASCII letter.
    InvalidChunkType,
    /// The text given for a tag is not exactly four bytes long.
    WrongTagLength,
    /// The input is shorter than the twelve bytes of framing.
    TooSmall,
    /// The declared payload length, plus the checksum, exceeds the input.
    InvalidDataLength,
    /// The stored checksum differs from the one computed over tag and payload.
    CrcMismatch,
    /// The payload is not valid UTF-8 and so has no text rendering.
    NotUtf8,
}

impl ChunkError {
    /// A short description of the failure.
    pub fn message(&self) -> (text: &'static str)
        ensures
            text@ == match *self {
                ChunkError::InvalidChunkType => "Invalid Chunk Type"@,
                ChunkError::WrongTagLength => "Chunk Type must be 4 bytes long"@,
                ChunkError::TooSmall => "Chunk is too small"@,
                ChunkError::InvalidDataLength => "Data length is invalid"@,
                ChunkError::CrcMismatch => "CRC check failed"@,
                ChunkError::NotUtf8 => "Chunk data is not valid UTF-8"@,
            },
    {
        match self {
            ChunkError::InvalidChunkType => "Invalid Chunk Type",
            ChunkError::WrongTagLength => "Chunk Type must be 4 bytes long",
            ChunkError::TooSmall => "Chunk is too small",
            ChunkError::InvalidDataLength => "Data length is invalid",
            ChunkError::CrcMismatch => "CRC check failed",
            ChunkError::NotUtf8 => "Chunk data is not valid UTF-8",
        }
    }
}

} // verus!
