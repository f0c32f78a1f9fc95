use crate::binxml::model::BinXMLToken;
use crate::binxml::name::spec_name_record;
use crate::binxml::tokens::{
    read_raw_token, read_token_payload, read_tokens, spec_raw_token, spec_token,
    spec_token_payload, spec_tokens, MAX_NESTING,
};
use crate::err::EvtxError;
use crate::evtx_chunk::EvtxChunk;
use crate::model::deserialized::{tokens_view, BinXMLDeserializedTokens};
use crate::stream::{eof, has_bytes, reads, reads_as, ByteCursor};
use crate::string_cache::CachedString;
use crate::ChunkOffset;
use vstd::prelude::*;

verus! {

/// The position that stands for `offset` in a buffer: the offset itself, or
/// the largest position there is where the offset is larger still.
pub open spec fn position_of(offset: u64) -> usize {
    if offset <= usize::MAX {
        offset as usize
    } else {
        usize::MAX
    }
}

/// Where decoding starts, and what it may look names up in.
#[derive(Debug, Clone, Copy)]
pub struct ParsingContext<'a> {
    offset: u64,
    data: &'a [u8],
    chunk: Option<&'a EvtxChunk<'a>>,
}

impl<'a> ParsingContext<'a> {
    #[verifier::type_invariant]
    pub closed spec fn chunk_owns_data(&self) -> bool {
        self.chunk matches Some(c) ==> c.bytes() == self.data@
    }

    /// The bytes that are decoded.
    pub closed spec fn bytes(&self) -> Seq<u8> {
        self.data@
    }

    /// The offset at which decoding starts.
    pub closed spec fn start(&self) -> u64 {
        self.offset
    }

    /// Whether names are looked up in a chunk's string cache.
    pub closed spec fn has_cache(&self) -> bool {
        self.chunk is Some
    }

    /// The names that can be looked up: those of the chunk's string cache,
    /// or none without a chunk.
    pub closed spec fn strings(&self) -> Map<u32, (u16, Seq<char>)> {
        match self.chunk {
            Some(c) => c.strings(),
            None => Map::empty(),
        }
    }

    /// The name that the chunk's string cache holds for `offset`. Without a
    /// chunk there is none. A cached name is the one that the name record at
    /// `offset` decodes to.
    pub fn cached_string_at_offset(&self, offset: ChunkOffset) -> (r: Option<&CachedString>)
        ensures
            !self.has_cache() ==> r is None,
            match r {
                Some(c) => self.strings().contains_key(offset) && self.strings()[offset] == c@
                    && spec_name_record(self.bytes(), offset as int) is Ok && spec_name_record(
                    self.bytes(),
                    offset as int,
                ).unwrap().0 == c@,
                None => !self.strings().contains_key(offset),
            },
    {
        proof {
            use_type_invariant(self);
        }
        match self.chunk {
            Some(chunk) => chunk.cached_string(offset),
            None => None,
        }
    }
}

/// Decodes the tokens of a binary XML fragment.
#[derive(Debug, Clone, Copy)]
pub struct BinXmlDeserializer<'a> {
    ctx: ParsingContext<'a>,
}

/// Yields the tokens of a fragment one by one.
#[derive(Debug)]
pub struct IterTokens<'a> {
    cursor: ByteCursor<'a>,
    chunk: Option<&'a EvtxChunk<'a>>,
    data_size: Option<u32>,
    data_read_so_far: u32,
    eof: bool,
}

/// `position_of(offset)`, computed.
fn to_position(offset: u64) -> (r: usize)
    ensures
        r == position_of(offset),
{
    if offset <= usize::MAX as u64 {
        offset as usize
    } else {
        usize::MAX
    }
}

impl<'a> BinXmlDeserializer<'a> {
    /// The bytes that are decoded.
    pub closed spec fn bytes(&self) -> Seq<u8> {
        self.ctx.bytes()
    }

    /// The offset at which decoding starts.
    pub closed spec fn start(&self) -> u64 {
        self.ctx.start()
    }

    /// A deserializer for the bytes of `chunk`, starting at `start_offset`,
    /// that looks names up in the chunk's string cache.
    pub fn init(chunk: &'a EvtxChunk<'a>, start_offset: u64) -> (r: Self)
        ensures
            r.bytes() == chunk.bytes(),
            r.start() == start_offset,
    {
        BinXmlDeserializer {
            ctx: ParsingContext { offset: start_offset, data: chunk.data(), chunk: Some(chunk) },
        }
    }

    /// The context in which the deserializer works.
    pub fn context(&self) -> (r: ParsingContext<'a>)
        ensures
            r.bytes() == self.bytes(),
            r.start() == self.start(),
    {
        self.ctx
    }

    /// A deserializer that works in the context `ctx`.
    pub fn from_ctx(ctx: ParsingContext<'a>) -> (r: Self)
        ensures
            r.bytes() == ctx.bytes(),
            r.start() == ctx.start(),
    {
        BinXmlDeserializer { ctx }
    }

    /// A deserializer for `data`, starting at `start_offset`, that decodes
    /// every name where it is stored.
    pub fn init_without_cache(data: &'a [u8], start_offset: u64) -> (r: Self)
        ensures
            r.bytes() == data@,
            r.start() == start_offset,
    {
        BinXmlDeserializer { ctx: ParsingContext { offset: start_offset, data, chunk: None } }
    }

    /// A deserializer that starts where `cursor` stands.
    pub fn wrap_cursor(cursor: ByteCursor<'a>) -> (r: Self)
        ensures
            r.bytes() == cursor.data@,
            r.start() == cursor.pos as u64,
    {
        BinXmlDeserializer {
            ctx: ParsingContext { offset: cursor.pos as u64, data: cursor.data, chunk: None },
        }
    }

    /// An iterator over the tokens from the start offset on. It ends after
    /// `data_size` bytes, where a size is given, or with the end-of-stream
    /// token.
    pub fn iter_tokens(self, data_size: Option<u32>) -> (r: IterTokens<'a>)
        ensures
            r.bytes() == self.bytes(),
            r.position() == position_of(self.start()),
            r.budget() == data_size,
            r.consumed() == 0,
            !r.finished(),
    {
        proof {
            use_type_invariant(&self.ctx);
        }
        IterTokens {
            cursor: ByteCursor::new(self.ctx.data, to_position(self.ctx.offset)),
            chunk: self.ctx.chunk,
            data_size,
            data_read_so_far: 0,
            eof: false,
        }
    }

    /// Reads all tokens from the start offset on: up to the end of the
    /// `data_size` bytes that follow, which must lie within the data, or,
    /// where no size is given, up to and with the end-of-stream token.
    pub fn read_binxml_fragment(self, data_size: Option<u32>) -> (r: Result<
        Vec<BinXMLDeserializedTokens>,
        EvtxError,
    >)
        ensures
            match spec_fragment(self.bytes(), position_of(self.start()) as int, data_size) {
                Ok((tokens, _)) => r is Ok && tokens_view(r.unwrap()@) == tokens,
                Err(e) => r == Err::<Vec<BinXMLDeserializedTokens>, EvtxError>(e),
            },
    {
        proof {
            use_type_invariant(&self.ctx);
        }
        let mut cursor = ByteCursor::new(self.ctx.data, to_position(self.ctx.offset));
        let end = match data_size {
            Some(sz) => {
                if !cursor.has(sz as usize) {
                    return Err(cursor.eof_error());
                }
                Some(cursor.pos + sz as usize)
            },
            None => None,
        };
        read_tokens(&mut cursor, self.ctx.chunk, end, MAX_NESTING)
    }
}

/// The tokens of the fragment at `pos`: up to the end of the `data_size`
/// bytes that follow, which must lie within the data, or, where no size is
/// given, up to and with the end-of-stream token.
pub open spec fn spec_fragment(data: Seq<u8>, pos: int, data_size: Option<u32>) -> Result<
    (Seq<crate::model::token::Token>, int),
    EvtxError,
> {
    match data_size {
        Some(sz) => if has_bytes(data, pos, sz as int) {
            spec_tokens(data, pos, Some(pos + sz), Seq::empty(), MAX_NESTING as nat)
        } else {
            eof(pos)
        },
        None => spec_tokens(data, pos, None, Seq::empty(), MAX_NESTING as nat),
    }
}

/// The count of bytes read after `read` more, which stops at the largest
/// 32-bit number.
pub open spec fn consumed_after(consumed: u32, read: int) -> u32 {
    if read <= 0 {
        consumed
    } else if consumed + read > u32::MAX {
        u32::MAX
    } else {
        (consumed + read) as u32
    }
}

impl<'a> IterTokens<'a> {
    #[verifier::type_invariant]
    pub closed spec fn chunk_owns_data(&self) -> bool {
        self.chunk matches Some(c) ==> c.bytes() == self.cursor.data@
    }

    /// The bytes that are decoded.
    pub closed spec fn bytes(&self) -> Seq<u8> {
        self.cursor.data@
    }

    /// Where the next token starts.
    pub closed spec fn position(&self) -> usize {
        self.cursor.pos
    }

    /// How many bytes may be read in all, where there is a limit.
    pub closed spec fn budget(&self) -> Option<u32> {
        self.data_size
    }

    /// How many bytes have been read.
    pub closed spec fn consumed(&self) -> u32 {
        self.data_read_so_far
    }

    /// Whether the end-of-stream token has been read, or a token has failed.
    pub closed spec fn finished(&self) -> bool {
        self.eof
    }

    /// Whether no more tokens come: the stream has ended or failed, or the
    /// byte budget is used up.
    pub open spec fn exhausted(&self) -> bool {
        self.finished() || (self.budget() matches Some(sz) && self.consumed() >= sz)
    }

    /// Reads the opcode of the next token. Where that fails, the position
    /// stays where it was.
    pub fn read_next_token(&mut self) -> (r: Result<BinXMLToken, EvtxError>)
        ensures
            final(self).bytes() == old(self).bytes(),
            final(self).budget() == old(self).budget(),
            final(self).consumed() == old(self).consumed(),
            final(self).finished() == old(self).finished(),
            reads(
                r,
                final(self).position(),
                spec_raw_token(old(self).bytes(), old(self).position() as int),
            ),
            r is Err ==> final(self).position() == old(self).position(),
    {
        proof {
            use_type_invariant(&*self);
        }
        let mut cursor = self.cursor;
        let raw = read_raw_token(&mut cursor)?;
        self.cursor = cursor;
        Ok(raw)
    }

    /// Reads the payload of the token whose opcode is `raw_token`. Where
    /// that fails, the position stays where it was.
    pub fn visit_token(&mut self, raw_token: BinXMLToken) -> (r: Result<
        BinXMLDeserializedTokens,
        EvtxError,
    >)
        ensures
            final(self).bytes() == old(self).bytes(),
            final(self).budget() == old(self).budget(),
            final(self).consumed() == old(self).consumed(),
            final(self).finished() == old(self).finished(),
            reads_as(
                r,
                final(self).position(),
                spec_token_payload(
                    raw_token,
                    old(self).bytes(),
                    old(self).position() as int,
                    MAX_NESTING as nat,
                ),
            ),
            r is Err ==> final(self).position() == old(self).position(),
    {
        proof {
            use_type_invariant(&*self);
        }
        let mut cursor = self.cursor;
        let token = read_token_payload(raw_token, &mut cursor, self.chunk, MAX_NESTING)?;
        self.cursor = cursor;
        Ok(token)
    }

    /// The next token, or the error with which it fails to decode; `None`
    /// once the stream has ended or failed or the byte budget is used up.
    ///
    /// A token that fails counts no bytes as read. It leaves the position on
    /// its opcode where the opcode is at fault, and after the opcode where the
    /// payload is.
    pub fn next(&mut self) -> (r: Option<Result<BinXMLDeserializedTokens, EvtxError>>)
        ensures
            final(self).bytes() == old(self).bytes(),
            final(self).budget() == old(self).budget(),
            old(self).exhausted() ==> r is None && final(self).position() == old(self).position()
                && final(self).consumed() == old(self).consumed() && final(self).finished()
                == old(self).finished(),
            !old(self).exhausted() ==> match spec_token(
                old(self).bytes(),
                old(self).position() as int,
                MAX_NESTING as nat,
            ) {
                Ok((token, p)) => r matches Some(Ok(t)) && t@ == token && final(self).position() == p
                    && final(self).finished() == (token is EndOfStream) && final(self).consumed()
                    == consumed_after(old(self).consumed(), p - old(self).position()),
                Err(e) => r == Some(Err::<BinXMLDeserializedTokens, EvtxError>(e))
                    && final(self).finished() && final(self).consumed() == old(self).consumed()
                    && final(self).position() == if spec_raw_token(
                    old(self).bytes(),
                    old(self).position() as int,
                ) is Err {
                    old(self).position() as int
                } else {
                    old(self).position() + 1
                },
            },
    {
        if self.eof {
            return None;
        }
        if let Some(sz) = self.data_size {
            if self.data_read_so_far >= sz {
                return None;
            }
        }
        let start = self.cursor.pos;
        let result = match self.read_next_token() {
            Ok(raw) => self.visit_token(raw),
            Err(e) => Err(e),
        };
        match result {
            Ok(token) => {
                let is_end = match &token {
                    BinXMLDeserializedTokens::EndOfStream => true,
                    _ => false,
                };
                let end = self.cursor.pos;
                let total_read: usize = if end >= start {
                    end - start
                } else {
                    0
                };
                let room: u32 = u32::MAX - self.data_read_so_far;
                let read_so_far: u32 = if total_read > room as usize {
                    u32::MAX
                } else {
                    self.data_read_so_far + total_read as u32
                };
                proof {
                    use_type_invariant(&*self);
                }
                self.data_read_so_far = read_so_far;
                self.eof = is_end;
                Some(Ok(token))
            },
            Err(e) => {
                proof {
                    use_type_invariant(&*self);
                }
                self.eof = true;
                Some(Err(e))
            },
        }
    }
}

} // verus!
