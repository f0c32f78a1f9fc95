use crate::err::EvtxError;
use byteorder::{ByteOrder, LittleEndian};
use vstd::prelude::*;
use vstd::slice::slice_subrange;

verus! {

/// What reading at some position gives: the value and the position after
/// it, or the error with which the read fails.
pub type Decoded<T> = Result<(T, int), EvtxError>;

/// Whether `n` bytes can be read from `data` at `pos`.
pub open spec fn has_bytes(data: Seq<u8>, pos: int, n: int) -> bool {
    0 <= pos && 0 <= n && pos + n <= data.len()
}

/// The error of a read at `pos` that runs past the end.
pub open spec fn eof<T>(pos: int) -> Decoded<T> {
    Err(EvtxError::UnexpectedEof { offset: pos as u64 })
}

/// The number that two bytes at `pos` spell, lowest byte first.
pub open spec fn le_u16(data: Seq<u8>, pos: int) -> u16 {
    (data[pos] as int + data[pos + 1] as int * 0x100) as u16
}

/// The number that four bytes at `pos` spell, lowest byte first.
pub open spec fn le_u32(data: Seq<u8>, pos: int) -> u32 {
    (data[pos] as int + data[pos + 1] as int * 0x100 + data[pos + 2] as int * 0x1_0000 + data[pos
        + 3] as int * 0x100_0000) as u32
}

/// The number that eight bytes at `pos` spell, lowest byte first.
pub open spec fn le_u64(data: Seq<u8>, pos: int) -> u64 {
    (le_u32(data, pos) as int + le_u32(data, pos + 4) as int * 0x1_0000_0000) as u64
}

/// One byte at `pos`.
pub open spec fn spec_read_u8(data: Seq<u8>, pos: int) -> Decoded<u8> {
    if has_bytes(data, pos, 1) {
        Ok((data[pos], pos + 1))
    } else {
        eof(pos)
    }
}

/// A little-endian 16-bit number at `pos`.
pub open spec fn spec_read_u16(data: Seq<u8>, pos: int) -> Decoded<u16> {
    if has_bytes(data, pos, 2) {
        Ok((le_u16(data, pos), pos + 2))
    } else {
        eof(pos)
    }
}

/// A little-endian 32-bit number at `pos`.
pub open spec fn spec_read_u32(data: Seq<u8>, pos: int) -> Decoded<u32> {
    if has_bytes(data, pos, 4) {
        Ok((le_u32(data, pos), pos + 4))
    } else {
        eof(pos)
    }
}

/// A little-endian 64-bit number at `pos`.
pub open spec fn spec_read_u64(data: Seq<u8>, pos: int) -> Decoded<u64> {
    if has_bytes(data, pos, 8) {
        Ok((le_u64(data, pos), pos + 8))
    } else {
        eof(pos)
    }
}

/// `n` bytes at `pos`.
pub open spec fn spec_read_bytes(data: Seq<u8>, pos: int, n: int) -> Decoded<Seq<u8>> {
    if has_bytes(data, pos, n) {
        Ok((data.subrange(pos, pos + n), pos + n))
    } else {
        eof(pos)
    }
}

/// Whether a read that ended in `r`, with the cursor left at `end`, did
/// what `expected` says.
pub open spec fn reads<T>(r: Result<T, EvtxError>, end: usize, expected: Decoded<T>) -> bool {
    match expected {
        Ok((v, p)) => r == Ok::<T, EvtxError>(v) && end == p,
        Err(e) => r == Err::<T, EvtxError>(e),
    }
}

/// As `reads`, for a result that is compared by its view.
pub open spec fn reads_as<T: View>(r: Result<T, EvtxError>, end: usize, expected: Decoded<T::V>) -> bool {
    match expected {
        Ok((v, p)) => r is Ok && r.unwrap()@ == v && end == p,
        Err(e) => r == Err::<T, EvtxError>(e),
    }
}

/// `LittleEndian::read_u16` of byteorder: the first two bytes of `buf` as a
/// number, lowest byte first. It panics on a shorter buffer.
#[verifier::external_body]
fn le_read_u16(buf: &[u8]) -> (r: u16)
    requires
        buf@.len() >= 2,
    ensures
        r == le_u16(buf@, 0),
{
    LittleEndian::read_u16(buf)
}

/// `LittleEndian::read_u32` of byteorder: the first four bytes of `buf` as a
/// number, lowest byte first. It panics on a shorter buffer.
#[verifier::external_body]
fn le_read_u32(buf: &[u8]) -> (r: u32)
    requires
        buf@.len() >= 4,
    ensures
        r == le_u32(buf@, 0),
{
    LittleEndian::read_u32(buf)
}

/// `LittleEndian::read_u64` of byteorder: the first eight bytes of `buf` as a
/// number, lowest byte first. It panics on a shorter buffer.
#[verifier::external_body]
fn le_read_u64(buf: &[u8]) -> (r: u64)
    requires
        buf@.len() >= 8,
    ensures
        r == le_u64(buf@, 0),
{
    LittleEndian::read_u64(buf)
}

/// A read position in a byte buffer.
#[derive(Debug, Clone, Copy)]
pub struct ByteCursor<'a> {
    pub data: &'a [u8],
    pub pos: usize,
}

impl<'a> ByteCursor<'a> {
    /// A cursor at `pos` in `data`. The position may lie past the end: every
    /// read there fails.
    pub fn new(data: &'a [u8], pos: usize) -> (r: Self)
        ensures
            r.data@ == data@,
            r.pos == pos,
    {
        ByteCursor { data, pos }
    }

    /// Whether `n` more bytes can be read.
    pub fn has(&self, n: usize) -> (b: bool)
        ensures
            b == has_bytes(self.data@, self.pos as int, n as int),
            b ==> self.pos + n <= usize::MAX,
    {
        let len = self.data.len();
        self.pos <= len && n <= len - self.pos
    }

    /// The error of a read at the current position that runs past the end.
    pub fn eof_error(&self) -> (e: EvtxError)
        ensures
            e == (EvtxError::UnexpectedEof { offset: self.pos as u64 }),
    {
        EvtxError::UnexpectedEof { offset: self.pos as u64 }
    }

    /// Reads one byte.
    pub fn read_u8(&mut self) -> (r: Result<u8, EvtxError>)
        ensures
            final(self).data@ == old(self).data@,
            reads(r, final(self).pos, spec_read_u8(old(self).data@, old(self).pos as int)),
    {
        if !self.has(1) {
            return Err(self.eof_error());
        }
        let v = self.data[self.pos];
        self.pos = self.pos + 1;
        Ok(v)
    }

    /// Reads a little-endian 16-bit number.
    pub fn read_u16(&mut self) -> (r: Result<u16, EvtxError>)
        ensures
            final(self).data@ == old(self).data@,
            reads(r, final(self).pos, spec_read_u16(old(self).data@, old(self).pos as int)),
    {
        if !self.has(2) {
            return Err(self.eof_error());
        }
        let v = le_read_u16(slice_subrange(self.data, self.pos, self.pos + 2));
        self.pos = self.pos + 2;
        Ok(v)
    }

    /// Reads a little-endian 32-bit number.
    pub fn read_u32(&mut self) -> (r: Result<u32, EvtxError>)
        ensures
            final(self).data@ == old(self).data@,
            reads(r, final(self).pos, spec_read_u32(old(self).data@, old(self).pos as int)),
    {
        if !self.has(4) {
            return Err(self.eof_error());
        }
        let v = le_read_u32(slice_subrange(self.data, self.pos, self.pos + 4));
        self.pos = self.pos + 4;
        Ok(v)
    }

    /// Reads a little-endian 64-bit number.
    pub fn read_u64(&mut self) -> (r: Result<u64, EvtxError>)
        ensures
            final(self).data@ == old(self).data@,
            reads(r, final(self).pos, spec_read_u64(old(self).data@, old(self).pos as int)),
    {
        if !self.has(8) {
            return Err(self.eof_error());
        }
        let v = le_read_u64(slice_subrange(self.data, self.pos, self.pos + 8));
        self.pos = self.pos + 8;
        Ok(v)
    }

    /// Borrows the next `n` bytes and moves past them.
    pub fn read_bytes(&mut self, n: usize) -> (r: Result<&'a [u8], EvtxError>)
        ensures
            final(self).data@ == old(self).data@,
            match spec_read_bytes(old(self).data@, old(self).pos as int, n as int) {
                Ok((v, p)) => r is Ok && r.unwrap()@ == v && final(self).pos == p,
                Err(e) => r == Err::<&[u8], EvtxError>(e),
            },
    {
        if !self.has(n) {
            return Err(self.eof_error());
        }
        let v = slice_subrange(self.data, self.pos, self.pos + n);
        self.pos = self.pos + n;
        Ok(v)
    }
}

} // verus!
