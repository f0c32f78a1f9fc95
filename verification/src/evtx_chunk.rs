use crate::binxml::deserializer::{spec_fragment, BinXmlDeserializer};
use crate::binxml::name::spec_name_record;
use crate::evtx_record::{spec_record_header, EvtxRecord, EvtxRecordHeader, Record};
use crate::binxml::tokens::spec_template_definition;
use crate::err::EvtxError;
use crate::model::deserialized::BinXMLTemplateDefinition;
use crate::stream::{has_bytes, le_u32, le_u64, ByteCursor, Decoded};
use crate::string_cache::{populated_strings, CachedString, StringCache};
use crate::template_cache::{populated_templates, TemplateCache};
use crate::ChunkOffset;
use crc::crc32;
use vstd::prelude::*;
use vstd::slice::slice_subrange;

verus! {

/// The size of a chunk's header: the records start right after it.
pub const EVTX_CHUNK_HEADER_SIZE: usize = 512;

/// The checksum of `bytes` by the CRC-32 of IEEE 802.3.
pub uninterp spec fn crc32_ieee(bytes: Seq<u8>) -> u32;

/// `crc32::checksum_ieee` of crc: the CRC-32 checksum of `bytes` with the
/// IEEE polynomial.
#[verifier::external_body]
fn checksum_ieee(bytes: &[u8]) -> (r: u32)
    ensures
        r == crc32_ieee(bytes@),
{
    crc32::checksum_ieee(bytes)
}

/// The header of a chunk.
#[derive(Debug, PartialEq)]
pub struct EvtxChunkHeader {
    pub first_event_record_number: u64,
    pub last_event_record_number: u64,
    pub first_event_record_id: u64,
    pub last_event_record_id: u64,
    pub header_size: u32,
    pub last_event_record_data_offset: u32,
    pub free_space_offset: u32,
    pub events_checksum: u32,
    pub header_chunk_checksum: u32,
    /// The offsets of the string table's 64 buckets; zero for an empty one.
    pub strings_offsets: [u32; 64],
    /// The offsets of the template table's 32 buckets; zero for an empty one.
    pub template_offsets: [u32; 32],
}

/// The eight bytes that every chunk starts with.
pub open spec fn chunk_magic() -> Seq<u8> {
    seq![0x45u8, 0x6c, 0x66, 0x43, 0x68, 0x6e, 0x6b, 0x00]
}

/// Whether `h` is the header stored in the 512 bytes of `data` from `pos` on.
pub open spec fn is_header_at(h: EvtxChunkHeader, data: Seq<u8>, pos: int) -> bool {
    &&& h.first_event_record_number == le_u64(data, pos + 8)
    &&& h.last_event_record_number == le_u64(data, pos + 16)
    &&& h.first_event_record_id == le_u64(data, pos + 24)
    &&& h.last_event_record_id == le_u64(data, pos + 32)
    &&& h.header_size == le_u32(data, pos + 40)
    &&& h.last_event_record_data_offset == le_u32(data, pos + 44)
    &&& h.free_space_offset == le_u32(data, pos + 48)
    &&& h.events_checksum == le_u32(data, pos + 52)
    &&& h.header_chunk_checksum == le_u32(data, pos + 124)
    &&& h.strings_offsets@ == Seq::new(64, |i: int| le_u32(data, pos + 128 + 4 * i))
    &&& h.template_offsets@ == Seq::new(32, |i: int| le_u32(data, pos + 384 + 4 * i))
}

/// How reading a chunk header at some position ends.
pub enum HeaderOutcome {
    /// The data ends before the header does; `at` is where reading stopped.
    TooShort { at: int },
    /// The first eight bytes are `found`, not the chunk signature.
    OtherMagic { found: Seq<u8> },
    /// All 512 bytes are there, and they start with the chunk signature.
    Header,
}

/// How reading a chunk header at `pos` in `data` ends. The signature is
/// looked at first, the length of the rest after it.
pub open spec fn chunk_header_outcome(data: Seq<u8>, pos: int) -> HeaderOutcome {
    if !has_bytes(data, pos, 8) {
        HeaderOutcome::TooShort { at: pos }
    } else if data.subrange(pos, pos + 8) != chunk_magic() {
        HeaderOutcome::OtherMagic { found: data.subrange(pos, pos + 8) }
    } else if !has_bytes(data, pos, 512) {
        HeaderOutcome::TooShort { at: pos + 8 }
    } else {
        HeaderOutcome::Header
    }
}

impl EvtxChunkHeader {
    /// Reads a chunk header: 512 bytes that start with the chunk signature.
    ///
    /// The signature is read first. Fewer than its eight bytes fail with
    /// `UnexpectedEof`, eight other bytes with `InvalidEvtxChunkMagic`, which
    /// holds them. After the signature, fewer bytes than the rest of the
    /// header takes fail with `UnexpectedEof` at the position after it.
    pub fn from_reader(input: &mut ByteCursor<'_>) -> (r: Result<EvtxChunkHeader, EvtxError>)
        ensures
            final(input).data@ == old(input).data@,
            match chunk_header_outcome(old(input).data@, old(input).pos as int) {
                HeaderOutcome::TooShort { at } => r == Err::<EvtxChunkHeader, EvtxError>(
                    EvtxError::UnexpectedEof { offset: at as u64 },
                ),
                HeaderOutcome::OtherMagic { found } => r matches Err(
                    EvtxError::InvalidEvtxChunkMagic { magic },
                ) && magic@ == found,
                HeaderOutcome::Header => r is Ok && is_header_at(
                    r.unwrap(),
                    old(input).data@,
                    old(input).pos as int,
                ) && final(input).pos == old(input).pos + 512,
            },
    {
        if !input.has(8) {
            return Err(input.eof_error());
        }
        let ghost start = input.pos as int;
        let bytes = input.read_bytes(8)?;
        let mut magic: [u8; 8] = [0; 8];
        let mut k: usize = 0;
        while k < 8
            invariant
                k <= 8,
                bytes@.len() == 8,
                forall|j: int| 0 <= j < k ==> magic@[j] == bytes@[j],
            decreases 8 - k,
        {
            magic[k] = bytes[k];
            k += 1;
        }
        assert(magic@ =~= bytes@);
        if !(magic[0] == 0x45 && magic[1] == 0x6c && magic[2] == 0x66 && magic[3] == 0x43
            && magic[4] == 0x68 && magic[5] == 0x6e && magic[6] == 0x6b && magic[7] == 0x00) {
            assert(magic@ != chunk_magic()) by {
                if magic@ == chunk_magic() {
                    assert(chunk_magic()[0] == 0x45 && chunk_magic()[1] == 0x6c && chunk_magic()[2]
                        == 0x66 && chunk_magic()[3] == 0x43 && chunk_magic()[4] == 0x68
                        && chunk_magic()[5] == 0x6e && chunk_magic()[6] == 0x6b && chunk_magic()[7]
                        == 0x00);
                }
            }
            return Err(EvtxError::InvalidEvtxChunkMagic { magic });
        }
        assert(magic@ =~= chunk_magic());
        if !input.has(504) {
            return Err(input.eof_error());
        }
        let first_event_record_number = input.read_u64()?;
        let last_event_record_number = input.read_u64()?;
        let first_event_record_id = input.read_u64()?;
        let last_event_record_id = input.read_u64()?;
        let header_size = input.read_u32()?;
        let last_event_record_data_offset = input.read_u32()?;
        let free_space_offset = input.read_u32()?;
        let events_checksum = input.read_u32()?;
        // Reserved bytes and flags.
        let _reserved = input.read_bytes(68)?;
        let header_chunk_checksum = input.read_u32()?;
        let mut strings_offsets: [u32; 64] = [0; 64];
        let mut i: usize = 0;
        while i < 64
            invariant
                i <= 64,
                input.data@ == old(input).data@,
                has_bytes(input.data@, start, 512),
                input.pos == start + 128 + 4 * i,
                forall|k: int|
                    0 <= k < i ==> strings_offsets@[k] == le_u32(input.data@, start + 128 + 4 * k),
            decreases 64 - i,
        {
            let v = input.read_u32()?;
            strings_offsets[i] = v;
            i += 1;
        }
        let mut template_offsets: [u32; 32] = [0; 32];
        let mut j: usize = 0;
        while j < 32
            invariant
                j <= 32,
                input.data@ == old(input).data@,
                has_bytes(input.data@, start, 512),
                input.pos == start + 384 + 4 * j,
                forall|k: int|
                    0 <= k < j ==> template_offsets@[k] == le_u32(input.data@, start + 384 + 4 * k),
            decreases 32 - j,
        {
            let v = input.read_u32()?;
            template_offsets[j] = v;
            j += 1;
        }
        let header = EvtxChunkHeader {
            first_event_record_number,
            last_event_record_number,
            first_event_record_id,
            last_event_record_id,
            header_size,
            last_event_record_data_offset,
            free_space_offset,
            events_checksum,
            header_chunk_checksum,
            strings_offsets,
            template_offsets,
        };
        assert(header.strings_offsets@ =~= Seq::new(
            64,
            |i: int| le_u32(input.data@, start + 128 + 4 * i),
        ));
        assert(header.template_offsets@ =~= Seq::new(
            32,
            |i: int| le_u32(input.data@, start + 384 + 4 * i),
        ));
        Ok(header)
    }
}

/// A chunk's bytes together with its parsed header.
#[derive(Debug)]
pub struct EvtxChunkData {
    pub header: EvtxChunkHeader,
    pub data: Vec<u8>,
}

/// The bytes of a chunk's header that its checksum covers: the first 120 and
/// those from 128 up to the header's end.
pub open spec fn header_checksum_input(data: Seq<u8>) -> Seq<u8> {
    data.subrange(0, 120) + data.subrange(128, 512)
}

/// Whether the two checksums that the header of the chunk `data` stores are
/// those of the chunk's bytes: the checksum of the header itself, and the
/// checksum of the records, which lie between the header and the free space.
pub open spec fn checksums_match(data: Seq<u8>) -> bool {
    let free = le_u32(data, 48) as int;
    &&& data.len() >= 512
    &&& crc32_ieee(header_checksum_input(data)) == le_u32(data, 124)
    &&& 512 <= free <= data.len()
    &&& crc32_ieee(data.subrange(512, free)) == le_u32(data, 52)
}

impl EvtxChunkData {
    /// Whether the checksum stored for the records matches the bytes from
    /// the end of the header up to the start of the free space.
    ///
    /// A free space that starts inside the header or past the end of the data
    /// matches nothing.
    pub open spec fn data_checksum_valid(&self) -> bool {
        let free = self.header.free_space_offset as int;
        512 <= free <= self.data@.len() && crc32_ieee(self.data@.subrange(512, free))
            == self.header.events_checksum
    }

    /// Whether the checksum stored for the header matches the header's bytes.
    /// Data shorter than a header matches nothing.
    pub open spec fn header_checksum_valid(&self) -> bool {
        self.data@.len() >= 512 && crc32_ieee(header_checksum_input(self.data@))
            == self.header.header_chunk_checksum
    }

    /// Parses the header of `data` and keeps both. With `validate_checksum`
    /// set, the two checksums of the header must match as well.
    ///
    /// The header fails as `EvtxChunkHeader::from_reader` says; a checksum
    /// that does not match fails with `InvalidChunkChecksum`.
    pub fn new(data: Vec<u8>, validate_checksum: bool) -> (r: Result<Self, EvtxError>)
        ensures
            match chunk_header_outcome(data@, 0) {
                HeaderOutcome::TooShort { at } => r == Err::<Self, EvtxError>(
                    EvtxError::UnexpectedEof { offset: at as u64 },
                ),
                HeaderOutcome::OtherMagic { found } => r matches Err(
                    EvtxError::InvalidEvtxChunkMagic { magic },
                ) && magic@ == found,
                HeaderOutcome::Header => if validate_checksum && !checksums_match(data@) {
                    r == Err::<Self, EvtxError>(EvtxError::InvalidChunkChecksum)
                } else {
                    r matches Ok(chunk) && chunk.data@ == data@ && is_header_at(
                        chunk.header,
                        data@,
                        0,
                    )
                },
            },
    {
        let mut cursor = ByteCursor::new(data.as_slice(), 0);
        let header = EvtxChunkHeader::from_reader(&mut cursor)?;
        let chunk = EvtxChunkData { header, data };
        if validate_checksum {
            if !chunk.validate_checksum() {
                return Err(EvtxError::InvalidChunkChecksum);
            }
        }
        Ok(chunk)
    }

    /// Prepares the chunk for decoding: the two caches are filled from the
    /// header's tables.
    pub fn parse<'chunk>(&'chunk self) -> (r: Result<EvtxChunk<'chunk>, EvtxError>)
        ensures
            r is Ok,
            r.unwrap().bytes() == self.data@,
            r.unwrap().header_value() == self.header,
            r.unwrap().strings() == populated_strings(self.data@, self.header.strings_offsets@),
            r.unwrap().templates() == populated_templates(
                self.data@,
                self.header.template_offsets@,
            ),
    {
        EvtxChunk::new(self.data.as_slice(), &self.header)
    }

    /// Whether the checksum of the records is the one stored in the header.
    pub fn validate_data_checksum(&self) -> (r: bool)
        ensures
            r == self.data_checksum_valid(),
    {
        let expected_checksum = self.header.events_checksum;
        let free = self.header.free_space_offset as usize;
        if free < EVTX_CHUNK_HEADER_SIZE || free > self.data.len() {
            return false;
        }
        let checksum = checksum_ieee(slice_subrange(self.data.as_slice(), EVTX_CHUNK_HEADER_SIZE, free));
        checksum == expected_checksum
    }

    /// Whether the checksum of the header is the one stored in it.
    pub fn validate_header_checksum(&self) -> (r: bool)
        ensures
            r == self.header_checksum_valid(),
    {
        let expected_checksum = self.header.header_chunk_checksum;
        if self.data.len() < 512 {
            return false;
        }
        let mut bytes_for_checksum: Vec<u8> = Vec::new();
        let mut i: usize = 0;
        while i < 120
            invariant
                i <= 120,
                self.data@.len() >= 512,
                bytes_for_checksum@ == self.data@.subrange(0, i as int),
            decreases 120 - i,
        {
            bytes_for_checksum.push(self.data[i]);
            assert(bytes_for_checksum@ =~= self.data@.subrange(0, i + 1));
            i += 1;
        }
        let mut j: usize = 128;
        while j < 512
            invariant
                128 <= j <= 512,
                self.data@.len() >= 512,
                bytes_for_checksum@ == self.data@.subrange(0, 120) + self.data@.subrange(
                    128,
                    j as int,
                ),
            decreases 512 - j,
        {
            bytes_for_checksum.push(self.data[j]);
            assert(bytes_for_checksum@ =~= self.data@.subrange(0, 120) + self.data@.subrange(
                128,
                j + 1,
            ));
            j += 1;
        }
        let checksum = checksum_ieee(bytes_for_checksum.as_slice());
        checksum == expected_checksum
    }

    /// Whether both checksums of the header match.
    pub fn validate_checksum(&self) -> (r: bool)
        ensures
            r == (self.header_checksum_valid() && self.data_checksum_valid()),
    {
        self.validate_header_checksum() && self.validate_data_checksum()
    }
}

/// A chunk ready for decoding: its bytes, its header, and the two caches
/// that were filled from the header's tables.
///
/// The caches are filled once, when the chunk is made, and only read after
/// that. Whatever they hold is what decoding the chunk's bytes at the same
/// offset gives.
#[derive(Debug)]
pub struct EvtxChunk<'chunk> {
    pub(crate) data: &'chunk [u8],
    pub(crate) header: &'chunk EvtxChunkHeader,
    pub(crate) string_cache: StringCache,
    pub(crate) template_table: TemplateCache,
}

impl<'chunk> EvtxChunk<'chunk> {
    #[verifier::type_invariant]
    pub closed spec fn caches_agree_with_data(&self) -> bool {
        &&& forall|o: u32| #[trigger]
            self.string_cache@.contains_key(o) ==> spec_name_record(self.data@, o as int) is Ok
                && spec_name_record(self.data@, o as int).unwrap().0 == self.string_cache@[o]
        &&& forall|o: u32| #[trigger]
            self.template_table@.contains_key(o) ==> spec_template_definition(
                self.data@,
                o as int,
            ) is Ok && spec_template_definition(self.data@, o as int).unwrap().0
                == self.template_table@[o]
    }

    /// Makes a chunk of `data` and its parsed `header`, and fills the two
    /// caches from the header's tables. A table entry at which nothing
    /// decodes is left out of its cache.
    pub fn new(data: &'chunk [u8], header: &'chunk EvtxChunkHeader) -> (r: Result<
        EvtxChunk<'chunk>,
        EvtxError,
    >)
        ensures
            r is Ok,
            r.unwrap().bytes() == data@,
            r.unwrap().header_value() == *header,
            r.unwrap().strings() == populated_strings(data@, header.strings_offsets@),
            r.unwrap().templates() == populated_templates(data@, header.template_offsets@),
    {
        let string_cache = StringCache::populate(data, header.strings_offsets.as_slice())?;
        let template_table = TemplateCache::populate(data, header.template_offsets.as_slice())?;
        Ok(EvtxChunk { data, header, string_cache, template_table })
    }

    /// The bytes of the chunk.
    pub closed spec fn bytes(&self) -> Seq<u8> {
        self.data@
    }

    /// The names that the chunk has cached.
    pub closed spec fn strings(&self) -> Map<u32, (u16, Seq<char>)> {
        self.string_cache@
    }

    /// The template definitions that the chunk has cached.
    pub closed spec fn templates(&self) -> Map<u32, crate::model::token::TemplateDefinition> {
        self.template_table@
    }

    /// The bytes of the chunk.
    pub fn data(&self) -> (r: &'chunk [u8])
        ensures
            r@ == self.bytes(),
    {
        self.data
    }

    /// The header of the chunk.
    pub closed spec fn header_value(&self) -> EvtxChunkHeader {
        *self.header
    }

    /// The header of the chunk.
    pub fn header(&self) -> (r: &'chunk EvtxChunkHeader)
        ensures
            *r == self.header_value(),
    {
        self.header
    }

    /// An iterator over the records of the chunk, from the first one on.
    pub fn iter<'a>(&'a self) -> (r: IterChunkRecords<'a>)
        ensures
            r.bytes() == self.bytes(),
            r.header_value() == self.header_value(),
            r.offset() == 512,
            !r.is_exhausted(),
    {
        IterChunkRecords {
            chunk: self,
            offset_from_chunk_start: EVTX_CHUNK_HEADER_SIZE as u64,
            exhausted: false,
        }
    }

    /// The string cache of the chunk.
    pub fn string_cache(&self) -> (r: &StringCache)
        ensures
            r@ == self.strings(),
    {
        &self.string_cache
    }

    /// The template cache of the chunk.
    pub fn template_table(&self) -> (r: &TemplateCache)
        ensures
            r@ == self.templates(),
    {
        &self.template_table
    }

    /// The name cached for `offset`, if there is one. A cached name is the
    /// one that the name record at `offset` decodes to.
    pub fn cached_string(&self, offset: ChunkOffset) -> (r: Option<&CachedString>)
        ensures
            match r {
                Some(c) => self.strings().contains_key(offset) && self.strings()[offset] == c@
                    && spec_name_record(self.bytes(), offset as int) is Ok && spec_name_record(
                    self.bytes(),
                    offset as int,
                ).unwrap().0 == c@,
                None => !self.strings().contains_key(offset),
            },
    {
        proof {
            use_type_invariant(self);
        }
        self.string_cache.get_string_and_hash(offset)
    }

    /// The template definition cached for `offset`, if there is one. A cached
    /// definition is the one that the bytes at `offset` decode to.
    pub fn cached_template(&self, offset: ChunkOffset) -> (r: Option<&BinXMLTemplateDefinition>)
        ensures
            match r {
                Some(t) => self.templates().contains_key(offset) && self.templates()[offset] == t@
                    && spec_template_definition(self.bytes(), offset as int) is Ok
                    && spec_template_definition(self.bytes(), offset as int).unwrap().0 == t@,
                None => !self.templates().contains_key(offset),
            },
    {
        proof {
            use_type_invariant(self);
        }
        self.template_table.get_template(offset)
    }
}

/// The record at `pos`, and the offset of the record after it. The record
/// must be large enough for its header and the copy of its size at its end,
/// and the binary XML between the two must lie within the data.
pub open spec fn spec_record(data: Seq<u8>, pos: int) -> Decoded<Record> {
    match spec_record_header(data, pos) {
        Err(e) => Err(e),
        Ok((header, p)) => if header.data_size < 28 {
            Err(EvtxError::InvalidRecordSize { offset: pos as u64 })
        } else {
            match spec_fragment(data, p, Some((header.data_size - 28) as u32)) {
                Err(e) => Err(e),
                Ok((tokens, _)) => Ok(
                    (
                        Record {
                            event_record_id: header.event_record_id,
                            timestamp: header.timestamp,
                            tokens,
                        },
                        pos + header.data_size,
                    ),
                ),
            }
        },
    }
}

/// Yields the records of a chunk in the order in which they are stored.
///
/// Each record starts where the one before it ends, so the first record that
/// fails to decode ends the iteration: nothing after it can be found.
#[derive(Debug)]
pub struct IterChunkRecords<'a> {
    chunk: &'a EvtxChunk<'a>,
    offset_from_chunk_start: u64,
    exhausted: bool,
}

impl<'a> IterChunkRecords<'a> {
    /// The bytes of the chunk.
    pub closed spec fn bytes(&self) -> Seq<u8> {
        self.chunk.bytes()
    }

    /// The header of the chunk.
    pub closed spec fn header_value(&self) -> EvtxChunkHeader {
        self.chunk.header_value()
    }

    /// Where the next record starts.
    pub closed spec fn offset(&self) -> u64 {
        self.offset_from_chunk_start
    }

    /// Whether the last record has been read, or a record has failed.
    pub closed spec fn is_exhausted(&self) -> bool {
        self.exhausted
    }

    /// Whether no more records come: the iteration has ended, or the next
    /// record would start in the chunk's free space.
    pub open spec fn done(&self) -> bool {
        self.is_exhausted() || self.offset() >= self.header_value().free_space_offset
    }

    /// The next record, or the error with which it fails to decode; `None`
    /// once the iteration is done. The record whose number the header names
    /// as the last one, and any record that fails, ends the iteration.
    pub fn next(&mut self) -> (r: Option<Result<EvtxRecord, EvtxError>>)
        ensures
            final(self).bytes() == old(self).bytes(),
            final(self).header_value() == old(self).header_value(),
            old(self).done() ==> r is None && final(self).offset() == old(self).offset()
                && final(self).is_exhausted() == old(self).is_exhausted(),
            !old(self).done() ==> match spec_record(old(self).bytes(), old(self).offset() as int) {
                Ok((record, next)) => r matches Some(Ok(x)) && x@ == record && final(self).offset()
                    == next && final(self).is_exhausted() == (record.event_record_id == old(self).header_value().last_event_record_id),
                Err(e) => r == Some(Err::<EvtxRecord, EvtxError>(e)) && final(self).is_exhausted(),
            },
    {
        let header = self.chunk.header();
        if self.exhausted || self.offset_from_chunk_start >= header.free_space_offset as u64 {
            return None;
        }
        let offset = self.offset_from_chunk_start;
        let mut cursor = ByteCursor::new(self.chunk.data(), offset as usize);
        let record_header = match EvtxRecordHeader::from_reader(&mut cursor) {
            Ok(record_header) => record_header,
            Err(e) => {
                self.exhausted = true;
                return Some(Err(e));
            },
        };
        let binxml_data_size = match record_header.record_data_size() {
            Some(size) => size,
            None => {
                self.exhausted = true;
                return Some(Err(EvtxError::InvalidRecordSize { offset }));
            },
        };
        let deserializer = BinXmlDeserializer::init(self.chunk, offset + 24);
        let tokens = match deserializer.read_binxml_fragment(Some(binxml_data_size)) {
            Ok(tokens) => tokens,
            Err(e) => {
                self.exhausted = true;
                return Some(Err(e));
            },
        };
        self.offset_from_chunk_start = offset + record_header.data_size as u64;
        if header.last_event_record_id == record_header.event_record_id {
            self.exhausted = true;
        }
        Some(
            Ok(
                EvtxRecord {
                    event_record_id: record_header.event_record_id,
                    timestamp: record_header.timestamp,
                    tokens,
                },
            ),
        )
    }
}

} // verus!
