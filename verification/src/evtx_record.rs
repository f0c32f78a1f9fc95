use crate::binxml::assemble::{parse_tokens, record_events};
use crate::err::EvtxError;
use crate::evtx_chunk::EvtxChunk;
use crate::model::deserialized::{tokens_view, BinXMLDeserializedTokens};
use crate::model::token::Token;
use crate::stream::{has_bytes, le_u32, le_u64, ByteCursor, Decoded};
use crate::xml_output::{calls_view, sink_allows, sink_calls, BinXmlOutput, VisitorCall};
use vstd::prelude::*;

verus! {

/// The size of a record's header.
pub const EVTX_RECORD_HEADER_SIZE: usize = 24;

/// The framing of a record: its size in bytes, header and trailer included,
/// its number, and the time it was written, in 100-nanosecond intervals since
/// 1601-01-01.
#[derive(Debug, Clone, Copy, PartialEq, Eq, Structural)]
pub struct EvtxRecordHeader {
    pub data_size: u32,
    pub event_record_id: u64,
    pub timestamp: u64,
}

/// The four bytes that every record starts with.
pub open spec fn record_magic() -> Seq<u8> {
    seq![0x2au8, 0x2a, 0x00, 0x00]
}

/// A record header at `pos`: the record signature, the size of the record,
/// its number and its time. Another signature fails with
/// `InvalidEvtxRecordHeaderMagic`.
pub open spec fn spec_record_header(data: Seq<u8>, pos: int) -> Decoded<EvtxRecordHeader> {
    if !has_bytes(data, pos, 24) {
        Err(EvtxError::UnexpectedEof { offset: pos as u64 })
    } else if data.subrange(pos, pos + 4) != record_magic() {
        Err(EvtxError::InvalidEvtxRecordHeaderMagic { offset: pos as u64 })
    } else {
        Ok(
            (
                EvtxRecordHeader {
                    data_size: le_u32(data, pos + 4),
                    event_record_id: le_u64(data, pos + 8),
                    timestamp: le_u64(data, pos + 16),
                },
                pos + 24,
            ),
        )
    }
}

impl EvtxRecordHeader {
    /// Reads a record header.
    pub fn from_reader(input: &mut ByteCursor<'_>) -> (r: Result<EvtxRecordHeader, EvtxError>)
        ensures
            final(input).data@ == old(input).data@,
            crate::stream::reads(
                r,
                final(input).pos,
                spec_record_header(old(input).data@, old(input).pos as int),
            ),
    {
        if !input.has(24) {
            return Err(input.eof_error());
        }
        let start = input.pos;
        let magic = input.read_bytes(4)?;
        if !(magic[0] == 0x2a && magic[1] == 0x2a && magic[2] == 0x00 && magic[3] == 0x00) {
            assert(magic@ != record_magic()) by {
                if magic@ == record_magic() {
                    assert(record_magic()[0] == 0x2a && record_magic()[1] == 0x2a
                        && record_magic()[2] == 0x00 && record_magic()[3] == 0x00);
                }
            }
            return Err(EvtxError::InvalidEvtxRecordHeaderMagic { offset: start as u64 });
        }
        assert(magic@ =~= record_magic());
        let data_size = input.read_u32()?;
        let event_record_id = input.read_u64()?;
        let timestamp = input.read_u64()?;
        Ok(EvtxRecordHeader { data_size, event_record_id, timestamp })
    }

    /// How many bytes of binary XML the record holds: its size without the
    /// header and without the copy of the size at its end. `None` for a size
    /// that is too small to hold the two.
    pub fn record_data_size(&self) -> (r: Option<u32>)
        ensures
            r == if self.data_size >= 28 {
                Some((self.data_size - 28) as u32)
            } else {
                None
            },
    {
        if self.data_size >= 28 {
            Some(self.data_size - 28)
        } else {
            None
        }
    }
}

/// A record as a mathematical value.
pub struct Record {
    pub event_record_id: u64,
    pub timestamp: u64,
    pub tokens: Seq<Token>,
}

/// A record of a chunk: its number, its time, and the tokens of its body as
/// they were decoded.
#[derive(Debug, PartialEq)]
pub struct EvtxRecord {
    pub event_record_id: u64,
    pub timestamp: u64,
    pub tokens: Vec<BinXMLDeserializedTokens>,
}

impl View for EvtxRecord {
    type V = Record;

    open spec fn view(&self) -> Record {
        Record {
            event_record_id: self.event_record_id,
            timestamp: self.timestamp,
            tokens: tokens_view(self.tokens@),
        }
    }
}

impl EvtxRecord {
    /// Decodes the structure of the record into calls on `visitor`, as
    /// `parse_tokens` does for the record's tokens: a record that does not
    /// expand or build leaves the sink as it was, and any other one hands the
    /// sink the calls of its events in order, up to the sink's first failure.
    pub fn into_output<'a, T: BinXmlOutput>(self, chunk: &'a EvtxChunk<'a>, visitor: &mut T) -> (r:
        Result<(), EvtxError>)
        ensures
            record_events(self@.tokens, chunk.bytes()) matches Err(e) ==> r == Err::<(), EvtxError>(
                e,
            ) && *final(visitor) == *old(visitor),
            record_events(self@.tokens, chunk.bytes()) matches Ok(events) ==> exists|
                calls: Seq<VisitorCall<'_>>,
                sinks: Seq<&mut T>,
            |
                #![trigger calls_view(calls), sinks.len()]
                calls_view(calls) == sink_calls(events).unwrap() && sinks.len() <= calls.len() && (r
                    is Ok ==> sinks.len() == calls.len()) && (r is Err ==> sinks.len() > 0) && (
                sinks.len() == 0 ==> *final(visitor) == *old(visitor)) && (sinks.len() > 0
                    ==> mut_ref_current(sinks[0]) == *old(visitor) && mut_ref_future(
                    sinks[sinks.len() - 1],
                ) == *final(visitor)) && (forall|j: int|
                    0 < j < sinks.len() ==> mut_ref_current(#[trigger] sinks[j]) == mut_ref_future(
                        sinks[j - 1],
                    )) && (forall|j: int|
                    0 <= j < sinks.len() ==> sink_allows(
                        #[trigger] sinks[j],
                        calls[j],
                        if j == sinks.len() - 1 {
                            r
                        } else {
                            Ok::<(), EvtxError>(())
                        },
                    )),
    {
        parse_tokens(self.tokens, chunk, visitor)
    }
}

} // verus!
