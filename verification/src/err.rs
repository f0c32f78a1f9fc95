use vstd::prelude::*;

verus! {

/// Everything that can go wrong while a chunk or one of its records is decoded.
///
/// Offsets are byte positions from the start of the buffer that was being read.
#[derive(Debug, Clone, Copy, PartialEq, Eq)]
pub enum EvtxError {
    /// The byte at `offset` is not an opcode of the token stream.
    InvalidToken { value: u8, offset: u64 },
    /// A read at `offset` needed more bytes than the buffer holds.
    UnexpectedEof { offset: u64 },
    /// The name stored at `offset` is not well-formed UTF-16 of the declared length.
    InvalidName { offset: u64 },
    /// The string stored at `offset` is not well-formed in its declared encoding.
    InvalidStringEncoding { offset: u64 },
    /// The byte at `offset` is not the tag of a value type.
    InvalidValueVariant { value: u8, offset: u64 },
    /// The value type is known, but no decoder exists for it in this position.
    UnimplementedValueVariant { offset: u64 },
    /// A token that is left undecoded on purpose (CDATA sections, character references).
    UnimplementedToken,
    /// A token arrived in a place where the record structure does not allow it.
    BadParserState,
    /// An element was closed that had not been opened, or left open at the end.
    UnbalancedElements,
    /// Values or templates are nested more deeply than the decoder follows.
    NestingTooDeep,
    /// The chunk does not start with the chunk signature, but with `magic`.
    InvalidEvtxChunkMagic { magic: [u8; 8] },
    /// A checksum stored in the chunk header does not match the chunk's bytes.
    InvalidChunkChecksum,
    /// The record at `offset` does not start with the record signature.
    InvalidEvtxRecordHeaderMagic { offset: u64 },
    /// The record at `offset` declares a size that cannot hold its own header.
    InvalidRecordSize { offset: u64 },
    /// A sink could not take what it was handed.
    OutputFailed,
}

impl EvtxError {
    /// The byte position that the error speaks of, where it speaks of one.
    pub open spec fn spec_offset(self) -> Option<u64> {
        match self {
            EvtxError::InvalidToken { offset, .. } => Some(offset),
            EvtxError::UnexpectedEof { offset } => Some(offset),
            EvtxError::InvalidName { offset } => Some(offset),
            EvtxError::InvalidStringEncoding { offset } => Some(offset),
            EvtxError::InvalidValueVariant { offset, .. } => Some(offset),
            EvtxError::UnimplementedValueVariant { offset } => Some(offset),
            EvtxError::InvalidEvtxRecordHeaderMagic { offset } => Some(offset),
            EvtxError::InvalidRecordSize { offset } => Some(offset),
            _ => None,
        }
    }

    /// The byte position that the error speaks of, where it speaks of one.
    pub fn offset(&self) -> (r: Option<u64>)
        ensures
            r == self.spec_offset(),
    {
        match self {
            EvtxError::InvalidToken { offset, .. } => Some(*offset),
            EvtxError::UnexpectedEof { offset } => Some(*offset),
            EvtxError::InvalidName { offset } => Some(*offset),
            EvtxError::InvalidStringEncoding { offset } => Some(*offset),
            EvtxError::InvalidValueVariant { offset, .. } => Some(*offset),
            EvtxError::UnimplementedValueVariant { offset } => Some(*offset),
            EvtxError::InvalidEvtxRecordHeaderMagic { offset } => Some(*offset),
            EvtxError::InvalidRecordSize { offset } => Some(*offset),
            _ => None,
        }
    }
}

} // verus!
