use crate::err::EvtxError;
use crate::evtx_chunk::EvtxChunk;
use crate::stream::{reads_as, spec_read_u16, spec_read_u32, ByteCursor, Decoded};
use crate::utils::{read_len_prefixed_utf16_string, spec_len_prefixed_utf16};
use vstd::prelude::*;

verus! {

/// The error of a name: a string that does not decode is a bad name.
pub open spec fn name_error(e: EvtxError) -> EvtxError {
    match e {
        EvtxError::InvalidStringEncoding { offset } => EvtxError::InvalidName { offset },
        other => other,
    }
}

/// A name as it is stored in a chunk: the offset of the next name of its
/// bucket, which is not used, the hash of the name, and the name itself as
/// a terminated string with its length in front. An empty string stands for
/// a name of length zero.
pub open spec fn spec_name_record(data: Seq<u8>, pos: int) -> Decoded<(u16, Seq<char>)> {
    match spec_read_u32(data, pos) {
        Err(e) => Err(e),
        Ok((_, p1)) => match spec_read_u16(data, p1) {
            Err(e) => Err(e),
            Ok((hash, p2)) => match spec_len_prefixed_utf16(data, p2, true) {
                Err(e) => Err(name_error(e)),
                Ok((Some(text), end)) => Ok(((hash, text), end)),
                Ok((None, end)) => Ok(((hash, Seq::empty()), end)),
            },
        },
    }
}

/// A reference to a name: the chunk offset of the name's record. Where that
/// offset is the position right after the reference, the record follows
/// inline and is read past. Otherwise the record at the offset is decoded,
/// and reading goes on after the reference.
pub open spec fn spec_name(data: Seq<u8>, pos: int) -> Decoded<Seq<char>> {
    match spec_read_u32(data, pos) {
        Err(e) => Err(e),
        Ok((offset, p)) => if offset == p {
            match spec_name_record(data, p) {
                Err(e) => Err(e),
                Ok(((_, text), end)) => Ok((text, end)),
            }
        } else {
            match spec_name_record(data, offset as int) {
                Err(e) => Err(e),
                Ok(((_, text), _)) => Ok((text, p)),
            }
        },
    }
}

/// The name of an element, an attribute, an entity or a processing
/// instruction target.
#[derive(Debug, PartialEq)]
pub struct BinXmlName {
    pub text: String,
}

impl View for BinXmlName {
    type V = Seq<char>;

    open spec fn view(&self) -> Seq<char> {
        self.text@
    }
}

impl Clone for BinXmlName {
    fn clone(&self) -> (r: Self)
        ensures
            r@ == self@,
    {
        BinXmlName { text: self.text.clone() }
    }
}

impl BinXmlName {
    /// Reads a name record at the cursor: the name and its hash.
    pub fn from_stream(cursor: &mut ByteCursor<'_>) -> (r: Result<(BinXmlName, u16), EvtxError>)
        ensures
            final(cursor).data@ == old(cursor).data@,
            match spec_name_record(old(cursor).data@, old(cursor).pos as int) {
                Ok(((hash, text), end)) => r is Ok && r.unwrap().0@ == text && r.unwrap().1 == hash
                    && final(cursor).pos == end,
                Err(e) => r == Err::<(BinXmlName, u16), EvtxError>(e),
            },
    {
        let _next = cursor.read_u32()?;
        let hash = cursor.read_u16()?;
        match read_len_prefixed_utf16_string(cursor, true) {
            Err(EvtxError::InvalidStringEncoding { offset }) => Err(EvtxError::InvalidName { offset }),
            Err(other) => Err(other),
            Ok(Some(text)) => Ok((BinXmlName { text }, hash)),
            Ok(None) => Ok((BinXmlName { text: String::new() }, hash)),
        }
    }

    /// Reads a reference to a name and the name it refers to. A name that is
    /// not stored inline is taken from the string cache of `chunk` where it
    /// is cached, and decoded at its offset where it is not.
    pub(crate) fn from_binxml_stream(cursor: &mut ByteCursor<'_>, chunk: Option<&EvtxChunk<'_>>) -> (r:
        Result<BinXmlName, EvtxError>)
        requires
            chunk matches Some(c) ==> c.bytes() == old(cursor).data@,
        ensures
            final(cursor).data@ == old(cursor).data@,
            reads_as(r, final(cursor).pos, spec_name(old(cursor).data@, old(cursor).pos as int)),
    {
        let name_offset = cursor.read_u32()?;
        if name_offset as usize == cursor.pos {
            let (name, _hash) = BinXmlName::from_stream(cursor)?;
            return Ok(name);
        }
        if let Some(c) = chunk {
            if let Some(cached) = c.cached_string(name_offset) {
                return Ok(BinXmlName { text: cached.text.clone() });
            }
        }
        let mut at = ByteCursor::new(cursor.data, name_offset as usize);
        let (name, _hash) = BinXmlName::from_stream(&mut at)?;
        Ok(name)
    }
}

} // verus!
