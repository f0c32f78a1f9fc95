use crate::err::EvtxError;
use crate::stream::{eof, has_bytes, spec_read_u16, ByteCursor, Decoded};
use encoding::all::{UTF_16LE, WINDOWS_1252};
use encoding::{DecoderTrap, Encoding};
use vstd::prelude::*;

verus! {

/// The text that `bytes` spell in UTF-16, low byte first, or `None` where
/// they are not well-formed UTF-16.
pub uninterp spec fn utf16le_decoded(bytes: Seq<u8>) -> Option<Seq<char>>;

/// The text that `bytes` spell in the Windows-1252 code page, or `None` where
/// a byte has no character there.
pub uninterp spec fn windows1252_decoded(bytes: Seq<u8>) -> Option<Seq<char>>;

/// `UTF_16LE.decode` of encoding, with the strict trap: the decoded text, or
/// nothing where the decoder reports an error.
#[verifier::external_body]
fn decode_utf16le(bytes: &[u8]) -> (r: Option<String>)
    ensures
        utf16le_decoded(bytes@) == match r {
            Some(s) => Some(s@),
            None => None,
        },
{
    UTF_16LE.decode(bytes, DecoderTrap::Strict).ok()
}

/// `WINDOWS_1252.decode` of encoding, with the strict trap: the decoded text,
/// or nothing where the decoder reports an error.
#[verifier::external_body]
fn decode_windows1252(bytes: &[u8]) -> (r: Option<String>)
    ensures
        windows1252_decoded(bytes@) == match r {
            Some(s) => Some(s@),
            None => None,
        },
{
    WINDOWS_1252.decode(bytes, DecoderTrap::Strict).ok()
}

/// The error of a string at `pos` that does not decode.
pub open spec fn bad_string<T>(pos: int) -> Decoded<T> {
    Err(EvtxError::InvalidStringEncoding { offset: pos as u64 })
}

/// How many bytes `text` takes in UTF-8.
pub open spec fn utf8_len(text: Seq<char>) -> nat {
    vstd::utf8::encode_utf8(text).len()
}

/// A UTF-16 string of `size` bytes at `pos`. No bytes give the empty string.
pub open spec fn spec_utf16_by_size(data: Seq<u8>, pos: int, size: int) -> Decoded<Seq<char>> {
    if !has_bytes(data, pos, size) {
        eof(pos)
    } else if size == 0 {
        Ok((Seq::empty(), pos))
    } else {
        match utf16le_decoded(data.subrange(pos, pos + size)) {
            None => bad_string(pos),
            Some(text) => Ok((text, pos + size)),
        }
    }
}

/// A Windows-1252 string of `size` bytes at `pos`. No bytes give the empty
/// string.
pub open spec fn spec_ansi_by_size(data: Seq<u8>, pos: int, size: int) -> Decoded<Seq<char>> {
    if !has_bytes(data, pos, size) {
        eof(pos)
    } else if size == 0 {
        Ok((Seq::empty(), pos))
    } else {
        match windows1252_decoded(data.subrange(pos, pos + size)) {
            None => bad_string(pos),
            Some(text) => Ok((text, pos + size)),
        }
    }
}

/// A string that is preceded by its length in 16-bit units.
///
/// A length of zero gives no string, and the position just after the
/// length. Otherwise the text must decode, and must take as many bytes in
/// UTF-8 as the length says units; a terminated string is followed by two
/// more bytes, which are skipped.
pub open spec fn spec_len_prefixed_utf16(data: Seq<u8>, pos: int, nul_terminated: bool) -> Decoded<
    Option<Seq<char>>,
> {
    match spec_read_u16(data, pos) {
        Err(e) => Err(e),
        Ok((n, p)) => {
            let needed = 2 * n;
            if n == 0 {
                Ok((None, p))
            } else if !has_bytes(data, p, needed) {
                eof(p)
            } else {
                match utf16le_decoded(data.subrange(p, p + needed)) {
                    None => bad_string(p),
                    Some(text) => if utf8_len(text) != n {
                        bad_string(p)
                    } else if !nul_terminated {
                        Ok((Some(text), p + needed))
                    } else if has_bytes(data, p + needed, 2) {
                        Ok((Some(text), p + needed + 2))
                    } else {
                        eof(p + needed)
                    },
                }
            }
        },
    }
}

/// The view of a string that may be absent.
pub open spec fn opt_text(s: Option<String>) -> Option<Seq<char>> {
    match s {
        Some(t) => Some(t@),
        None => None,
    }
}

/// Reads a UTF-16 string of `size` bytes.
pub fn read_utf16_by_size(cursor: &mut ByteCursor<'_>, size: usize) -> (r: Result<String, EvtxError>)
    ensures
        final(cursor).data@ == old(cursor).data@,
        match spec_utf16_by_size(old(cursor).data@, old(cursor).pos as int, size as int) {
            Ok((text, p)) => r is Ok && r.unwrap()@ == text && final(cursor).pos == p,
            Err(e) => r == Err::<String, EvtxError>(e),
        },
{
    let start = cursor.pos;
    let bytes = cursor.read_bytes(size)?;
    if size == 0 {
        return Ok(String::new());
    }
    match decode_utf16le(bytes) {
        Some(s) => Ok(s),
        None => Err(EvtxError::InvalidStringEncoding { offset: start as u64 }),
    }
}

/// Reads a Windows-1252 string of `size` bytes.
pub fn read_ansi_by_size(cursor: &mut ByteCursor<'_>, size: usize) -> (r: Result<String, EvtxError>)
    ensures
        final(cursor).data@ == old(cursor).data@,
        match spec_ansi_by_size(old(cursor).data@, old(cursor).pos as int, size as int) {
            Ok((text, p)) => r is Ok && r.unwrap()@ == text && final(cursor).pos == p,
            Err(e) => r == Err::<String, EvtxError>(e),
        },
{
    let start = cursor.pos;
    let bytes = cursor.read_bytes(size)?;
    if size == 0 {
        return Ok(String::new());
    }
    match decode_windows1252(bytes) {
        Some(s) => Ok(s),
        None => Err(EvtxError::InvalidStringEncoding { offset: start as u64 }),
    }
}

/// Reads a string that is preceded by its length in 16-bit units.
pub fn read_len_prefixed_utf16_string(cursor: &mut ByteCursor<'_>, is_null_terminated: bool) -> (r:
    Result<Option<String>, EvtxError>)
    ensures
        final(cursor).data@ == old(cursor).data@,
        match spec_len_prefixed_utf16(old(cursor).data@, old(cursor).pos as int, is_null_terminated) {
            Ok((text, p)) => r is Ok && opt_text(r.unwrap()) == text && final(cursor).pos == p,
            Err(e) => r == Err::<Option<String>, EvtxError>(e),
        },
{
    let expected_number_of_characters = cursor.read_u16()?;
    if expected_number_of_characters == 0 {
        return Ok(None);
    }
    let start = cursor.pos;
    let needed_bytes: usize = 2 * (expected_number_of_characters as usize);
    let bytes = cursor.read_bytes(needed_bytes)?;
    match decode_utf16le(bytes) {
        None => Err(EvtxError::InvalidStringEncoding { offset: start as u64 }),
        Some(s) => {
            if s.as_str().as_bytes().len() != expected_number_of_characters as usize {
                return Err(EvtxError::InvalidStringEncoding { offset: start as u64 });
            }
            if is_null_terminated {
                let _terminator = cursor.read_u16()?;
            }
            Ok(Some(s))
        },
    }
}

/// How many bytes after an offset a dump shows.
pub const DUMP_LOOKAHEAD: usize = 100;

/// Where a dump around `offset` starts in data of `len` bytes: `lookbehind`
/// bytes before the offset, or at the start of the data where there are
/// fewer. An offset past the end counts as the end.
pub open spec fn dump_start(len: int, offset: u64, lookbehind: u32) -> int {
    let at = if offset <= len {
        offset as int
    } else {
        len
    };
    if at >= lookbehind {
        at - lookbehind
    } else {
        0
    }
}

/// Where a dump around `offset` ends in data of `len` bytes: a hundred bytes
/// after the offset, or at the end of the data where there are fewer.
pub open spec fn dump_end(len: int, offset: u64) -> int {
    if offset + DUMP_LOOKAHEAD <= len {
        offset + DUMP_LOOKAHEAD
    } else {
        len
    }
}

/// The bytes around `offset` that help to see why decoding failed there:
/// `lookbehind` bytes before it and a hundred after it, as far as the data
/// goes.
pub fn dump_window(data: &[u8], offset: u64, lookbehind: u32) -> (r: &[u8])
    ensures
        r@ == data@.subrange(
            dump_start(data@.len() as int, offset, lookbehind),
            dump_end(data@.len() as int, offset),
        ),
{
    let len = data.len();
    let at: usize = if offset <= len as u64 {
        offset as usize
    } else {
        len
    };
    let start: usize = if at >= lookbehind as usize {
        at - lookbehind as usize
    } else {
        0
    };
    let end: usize = if len - at >= DUMP_LOOKAHEAD {
        at + DUMP_LOOKAHEAD
    } else {
        len
    };
    vstd::slice::slice_subrange(data, start, end)
}

} // verus!
