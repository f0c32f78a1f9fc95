use crate::binxml::model::{BinXMLValueTypes, FromStream};
use crate::err::EvtxError;
use crate::guid::Guid;
use crate::model::deserialized::{clone_tokens, tokens_view, BinXMLDeserializedTokens};
use crate::model::token::{SidValue, TypedValue};
use crate::stream::{
    eof, has_bytes, le_u16, le_u32, reads_as, spec_read_bytes, spec_read_u16, spec_read_u32,
    spec_read_u64, spec_read_u8, ByteCursor, Decoded,
};
use crate::utils::{
    read_ansi_by_size, read_len_prefixed_utf16_string, read_utf16_by_size, spec_ansi_by_size,
    spec_len_prefixed_utf16, spec_utf16_by_size,
};
use vstd::prelude::*;

verus! {

/// A point in time as Windows stores it in sixteen bytes.
#[derive(Debug, Clone, Copy, PartialEq, Eq, Structural)]
pub struct SysTime {
    pub year: u16,
    pub month: u16,
    pub day_of_week: u16,
    pub day: u16,
    pub hour: u16,
    pub minute: u16,
    pub second: u16,
    pub milliseconds: u16,
}

/// A security identifier.
#[derive(Debug, PartialEq)]
pub struct Sid {
    pub revision: u8,
    pub authority: u64,
    pub sub_authorities: Vec<u32>,
}

impl View for Sid {
    type V = SidValue;

    open spec fn view(&self) -> SidValue {
        SidValue {
            revision: self.revision,
            authority: self.authority,
            sub_authorities: self.sub_authorities@,
        }
    }
}

impl Clone for Sid {
    fn clone(&self) -> (r: Self)
        ensures
            r@ == self@,
    {
        let mut subs: Vec<u32> = Vec::new();
        let mut i: usize = 0;
        while i < self.sub_authorities.len()
            invariant
                i <= self.sub_authorities.len(),
                subs@ == self.sub_authorities@.subrange(0, i as int),
            decreases self.sub_authorities.len() - i,
        {
            subs.push(self.sub_authorities[i]);
            assert(subs@ =~= self.sub_authorities@.subrange(0, i + 1));
            i += 1;
        }
        assert(subs@ =~= self.sub_authorities@);
        Sid { revision: self.revision, authority: self.authority, sub_authorities: subs }
    }
}

/// A copy of `v`.
pub fn clone_bytes(v: &Vec<u8>) -> (r: Vec<u8>)
    ensures
        r@ == v@,
{
    let mut out: Vec<u8> = Vec::new();
    let mut i: usize = 0;
    while i < v.len()
        invariant
            i <= v.len(),
            out@ == v@.subrange(0, i as int),
        decreases v.len() - i,
    {
        out.push(v[i]);
        assert(out@ =~= v@.subrange(0, i + 1));
        i += 1;
    }
    assert(out@ =~= v@);
    out
}

/// A decoded value of the token stream.
#[derive(Debug, PartialEq)]
pub enum BinXmlValue {
    NullType,
    StringType(String),
    AnsiStringType(String),
    Int8Type(i8),
    UInt8Type(u8),
    Int16Type(i16),
    UInt16Type(u16),
    Int32Type(i32),
    UInt32Type(u32),
    Int64Type(i64),
    UInt64Type(u64),
    /// The IEEE 754 bit pattern of the number.
    Real32Type(u32),
    /// The IEEE 754 bit pattern of the number.
    Real64Type(u64),
    BoolType(bool),
    BinaryType(Vec<u8>),
    GuidType(Guid),
    SizeTType(u64),
    /// 100-nanosecond intervals since 1601-01-01.
    FileTimeType(u64),
    SysTimeType(SysTime),
    SidType(Sid),
    HexInt32Type(u32),
    HexInt64Type(u64),
    EvtHandle,
    BinXmlType(Vec<BinXMLDeserializedTokens>),
    EvtXml,
}

impl View for BinXmlValue {
    type V = TypedValue;

    open spec fn view(&self) -> TypedValue
        decreases self, 2int,
    {
        match self {
            BinXmlValue::NullType => TypedValue::Null,
            BinXmlValue::StringType(s) => TypedValue::String(s@),
            BinXmlValue::AnsiStringType(s) => TypedValue::AnsiString(s@),
            BinXmlValue::Int8Type(n) => TypedValue::Int8(*n),
            BinXmlValue::UInt8Type(n) => TypedValue::UInt8(*n),
            BinXmlValue::Int16Type(n) => TypedValue::Int16(*n),
            BinXmlValue::UInt16Type(n) => TypedValue::UInt16(*n),
            BinXmlValue::Int32Type(n) => TypedValue::Int32(*n),
            BinXmlValue::UInt32Type(n) => TypedValue::UInt32(*n),
            BinXmlValue::Int64Type(n) => TypedValue::Int64(*n),
            BinXmlValue::UInt64Type(n) => TypedValue::UInt64(*n),
            BinXmlValue::Real32Type(n) => TypedValue::Real32(*n),
            BinXmlValue::Real64Type(n) => TypedValue::Real64(*n),
            BinXmlValue::BoolType(b) => TypedValue::Bool(*b),
            BinXmlValue::BinaryType(b) => TypedValue::Binary(b@),
            BinXmlValue::GuidType(g) => TypedValue::Guid(*g),
            BinXmlValue::SizeTType(n) => TypedValue::SizeT(*n),
            BinXmlValue::FileTimeType(n) => TypedValue::FileTime(*n),
            BinXmlValue::SysTimeType(t) => TypedValue::SysTime(*t),
            BinXmlValue::SidType(s) => TypedValue::Sid(s@),
            BinXmlValue::HexInt32Type(n) => TypedValue::HexInt32(*n),
            BinXmlValue::HexInt64Type(n) => TypedValue::HexInt64(*n),
            BinXmlValue::EvtHandle => TypedValue::EvtHandle,
            BinXmlValue::BinXmlType(tokens) => TypedValue::BinXml(tokens_view(tokens@)),
            BinXmlValue::EvtXml => TypedValue::EvtXml,
        }
    }
}

impl Clone for BinXmlValue {
    fn clone(&self) -> (r: Self)
        ensures
            r@ == self@,
        decreases self, 1int,
    {
        match self {
            BinXmlValue::NullType => BinXmlValue::NullType,
            BinXmlValue::StringType(s) => BinXmlValue::StringType(s.clone()),
            BinXmlValue::AnsiStringType(s) => BinXmlValue::AnsiStringType(s.clone()),
            BinXmlValue::Int8Type(n) => BinXmlValue::Int8Type(*n),
            BinXmlValue::UInt8Type(n) => BinXmlValue::UInt8Type(*n),
            BinXmlValue::Int16Type(n) => BinXmlValue::Int16Type(*n),
            BinXmlValue::UInt16Type(n) => BinXmlValue::UInt16Type(*n),
            BinXmlValue::Int32Type(n) => BinXmlValue::Int32Type(*n),
            BinXmlValue::UInt32Type(n) => BinXmlValue::UInt32Type(*n),
            BinXmlValue::Int64Type(n) => BinXmlValue::Int64Type(*n),
            BinXmlValue::UInt64Type(n) => BinXmlValue::UInt64Type(*n),
            BinXmlValue::Real32Type(n) => BinXmlValue::Real32Type(*n),
            BinXmlValue::Real64Type(n) => BinXmlValue::Real64Type(*n),
            BinXmlValue::BoolType(b) => BinXmlValue::BoolType(*b),
            BinXmlValue::BinaryType(b) => BinXmlValue::BinaryType(clone_bytes(b)),
            BinXmlValue::GuidType(g) => BinXmlValue::GuidType(*g),
            BinXmlValue::SizeTType(n) => BinXmlValue::SizeTType(*n),
            BinXmlValue::FileTimeType(n) => BinXmlValue::FileTimeType(*n),
            BinXmlValue::SysTimeType(t) => BinXmlValue::SysTimeType(*t),
            BinXmlValue::SidType(s) => BinXmlValue::SidType(s.clone()),
            BinXmlValue::HexInt32Type(n) => BinXmlValue::HexInt32Type(*n),
            BinXmlValue::HexInt64Type(n) => BinXmlValue::HexInt64Type(*n),
            BinXmlValue::EvtHandle => BinXmlValue::EvtHandle,
            BinXmlValue::BinXmlType(tokens) => BinXmlValue::BinXmlType(clone_tokens(tokens)),
            BinXmlValue::EvtXml => BinXmlValue::EvtXml,
        }
    }
}

impl FromStream for SysTime {
    /// Sixteen bytes: eight little-endian 16-bit numbers, from the year to
    /// the milliseconds.
    open spec fn decoded(data: Seq<u8>, pos: int) -> Decoded<Self> {
        if has_bytes(data, pos, 16) {
            Ok(
                (
                    SysTime {
                        year: le_u16(data, pos),
                        month: le_u16(data, pos + 2),
                        day_of_week: le_u16(data, pos + 4),
                        day: le_u16(data, pos + 6),
                        hour: le_u16(data, pos + 8),
                        minute: le_u16(data, pos + 10),
                        second: le_u16(data, pos + 12),
                        milliseconds: le_u16(data, pos + 14),
                    },
                    pos + 16,
                ),
            )
        } else {
            eof(pos)
        }
    }

    fn read<'a>(stream: &mut ByteCursor<'a>) -> (r: Result<Self, EvtxError>) {
        if !stream.has(16) {
            return Err(stream.eof_error());
        }
        let year = stream.read_u16()?;
        let month = stream.read_u16()?;
        let day_of_week = stream.read_u16()?;
        let day = stream.read_u16()?;
        let hour = stream.read_u16()?;
        let minute = stream.read_u16()?;
        let second = stream.read_u16()?;
        let milliseconds = stream.read_u16()?;
        Ok(SysTime { year, month, day_of_week, day, hour, minute, second, milliseconds })
    }
}

/// The number that six bytes at `pos` spell, highest byte first.
pub open spec fn be_u48(data: Seq<u8>, pos: int) -> u64 {
    (data[pos] as int * 0x100_0000_0000 + data[pos + 1] as int * 0x1_0000_0000 + data[pos
        + 2] as int * 0x100_0000 + data[pos + 3] as int * 0x1_0000 + data[pos + 4] as int * 0x100
        + data[pos + 5] as int) as u64
}

/// A security identifier: the revision, the count of sub-authorities, the
/// authority in six bytes (highest first), and the sub-authorities as
/// little-endian 32-bit numbers.
pub open spec fn spec_sid(data: Seq<u8>, pos: int) -> Decoded<SidValue> {
    if !has_bytes(data, pos, 8) {
        eof(pos)
    } else {
        let count = data[pos + 1] as int;
        if !has_bytes(data, pos, 8 + 4 * count) {
            eof(pos + 8)
        } else {
            Ok(
                (
                    SidValue {
                        revision: data[pos],
                        authority: be_u48(data, pos + 2),
                        sub_authorities: Seq::new(
                            count as nat,
                            |i: int| le_u32(data, pos + 8 + 4 * i),
                        ),
                    },
                    pos + 8 + 4 * count,
                ),
            )
        }
    }
}

/// Reads a security identifier.
pub fn read_sid(cursor: &mut ByteCursor<'_>) -> (r: Result<Sid, EvtxError>)
    ensures
        final(cursor).data@ == old(cursor).data@,
        reads_as(r, final(cursor).pos, spec_sid(old(cursor).data@, old(cursor).pos as int)),
{
    if !cursor.has(8) {
        return Err(cursor.eof_error());
    }
    let ghost start = cursor.pos as int;
    let revision = cursor.read_u8()?;
    let count = cursor.read_u8()?;
    let a = cursor.read_bytes(6)?;
    let authority: u64 = (a[0] as u64) * 0x100_0000_0000 + (a[1] as u64) * 0x1_0000_0000 + (
    a[2] as u64) * 0x100_0000 + (a[3] as u64) * 0x1_0000 + (a[4] as u64) * 0x100 + (a[5] as u64);
    if !cursor.has(4 * (count as usize)) {
        return Err(cursor.eof_error());
    }
    let mut sub_authorities: Vec<u32> = Vec::new();
    let mut i: u8 = 0;
    while i < count
        invariant
            i <= count,
            cursor.data@ == old(cursor).data@,
            cursor.pos == start + 8 + 4 * i,
            has_bytes(cursor.data@, start, 8 + 4 * count),
            sub_authorities@.len() == i,
            forall|k: int|
                0 <= k < i ==> sub_authorities@[k] == le_u32(cursor.data@, start + 8 + 4 * k),
        decreases count - i,
    {
        let v = cursor.read_u32()?;
        sub_authorities.push(v);
        i += 1;
    }
    let sid = Sid { revision, authority, sub_authorities };
    assert(sid@.sub_authorities =~= spec_sid(cursor.data@, start).unwrap().0.sub_authorities);
    Ok(sid)
}

/// The error for a value type that has no decoder in the given position.
pub open spec fn unimplemented_value<T>(pos: int) -> Decoded<T> {
    Err(EvtxError::UnimplementedValueVariant { offset: pos as u64 })
}

/// `d` with its value turned into a typed value by `f`.
pub open spec fn as_value<A>(d: Decoded<A>, f: spec_fn(A) -> TypedValue) -> Decoded<TypedValue> {
    match d {
        Ok((v, p)) => Ok((f(v), p)),
        Err(e) => Err(e),
    }
}

/// A value of type `value_type` at `pos`, for every type but that of a nested
/// fragment. `size` is the length that the stream declares for the value,
/// where it declares one.
///
/// Strings, byte strings and pointer-sized numbers depend on the declared
/// size; numbers have the width of their type. A boolean takes four bytes and
/// is true unless they are all zero.
pub open spec fn spec_plain_value(
    data: Seq<u8>,
    pos: int,
    value_type: BinXMLValueTypes,
    size: Option<u16>,
) -> Decoded<TypedValue> {
    match value_type {
        BinXMLValueTypes::NullType => Ok((TypedValue::Null, pos)),
        BinXMLValueTypes::StringType => match size {
            Some(sz) => as_value(
                spec_utf16_by_size(data, pos, sz as int),
                |t: Seq<char>| TypedValue::String(t),
            ),
            None => as_value(
                spec_len_prefixed_utf16(data, pos, false),
                |t: Option<Seq<char>>|
                    TypedValue::String(
                        match t {
                            Some(text) => text,
                            None => Seq::empty(),
                        },
                    ),
            ),
        },
        BinXMLValueTypes::AnsiStringType => match size {
            Some(sz) => as_value(
                spec_ansi_by_size(data, pos, sz as int),
                |t: Seq<char>| TypedValue::AnsiString(t),
            ),
            None => unimplemented_value(pos),
        },
        BinXMLValueTypes::Int8Type => as_value(
            spec_read_u8(data, pos),
            |v: u8| TypedValue::Int8(v as i8),
        ),
        BinXMLValueTypes::UInt8Type => as_value(
            spec_read_u8(data, pos),
            |v: u8| TypedValue::UInt8(v),
        ),
        BinXMLValueTypes::Int16Type => as_value(
            spec_read_u16(data, pos),
            |v: u16| TypedValue::Int16(v as i16),
        ),
        BinXMLValueTypes::UInt16Type => as_value(
            spec_read_u16(data, pos),
            |v: u16| TypedValue::UInt16(v),
        ),
        BinXMLValueTypes::Int32Type => as_value(
            spec_read_u32(data, pos),
            |v: u32| TypedValue::Int32(v as i32),
        ),
        BinXMLValueTypes::UInt32Type => as_value(
            spec_read_u32(data, pos),
            |v: u32| TypedValue::UInt32(v),
        ),
        BinXMLValueTypes::Int64Type => as_value(
            spec_read_u64(data, pos),
            |v: u64| TypedValue::Int64(v as i64),
        ),
        BinXMLValueTypes::UInt64Type => as_value(
            spec_read_u64(data, pos),
            |v: u64| TypedValue::UInt64(v),
        ),
        BinXMLValueTypes::Real32Type => as_value(
            spec_read_u32(data, pos),
            |v: u32| TypedValue::Real32(v),
        ),
        BinXMLValueTypes::Real64Type => as_value(
            spec_read_u64(data, pos),
            |v: u64| TypedValue::Real64(v),
        ),
        BinXMLValueTypes::BoolType => as_value(
            spec_read_u32(data, pos),
            |v: u32| TypedValue::Bool(v != 0),
        ),
        BinXMLValueTypes::BinaryType => match size {
            Some(sz) => as_value(
                spec_read_bytes(data, pos, sz as int),
                |b: Seq<u8>| TypedValue::Binary(b),
            ),
            None => unimplemented_value(pos),
        },
        BinXMLValueTypes::GuidType => as_value(
            Guid::decoded(data, pos),
            |g: Guid| TypedValue::Guid(g),
        ),
        BinXMLValueTypes::SizeTType => match size {
            Some(sz) => if sz == 4 {
                as_value(spec_read_u32(data, pos), |v: u32| TypedValue::SizeT(v as u64))
            } else if sz == 8 {
                as_value(spec_read_u64(data, pos), |v: u64| TypedValue::SizeT(v))
            } else {
                unimplemented_value(pos)
            },
            None => unimplemented_value(pos),
        },
        BinXMLValueTypes::FileTimeType => as_value(
            spec_read_u64(data, pos),
            |v: u64| TypedValue::FileTime(v),
        ),
        BinXMLValueTypes::SysTimeType => as_value(
            SysTime::decoded(data, pos),
            |t: SysTime| TypedValue::SysTime(t),
        ),
        BinXMLValueTypes::SidType => as_value(
            spec_sid(data, pos),
            |s: SidValue| TypedValue::Sid(s),
        ),
        BinXMLValueTypes::HexInt32Type => as_value(
            spec_read_u32(data, pos),
            |v: u32| TypedValue::HexInt32(v),
        ),
        BinXMLValueTypes::HexInt64Type => as_value(
            spec_read_u64(data, pos),
            |v: u64| TypedValue::HexInt64(v),
        ),
        BinXMLValueTypes::EvtHandle => unimplemented_value(pos),
        BinXMLValueTypes::BinXmlType => unimplemented_value(pos),
        BinXMLValueTypes::EvtXml => unimplemented_value(pos),
    }
}

impl BinXmlValue {
    /// Reads a value of type `value_type`, for every type but that of a
    /// nested fragment.
    pub fn read_plain(
        cursor: &mut ByteCursor<'_>,
        value_type: BinXMLValueTypes,
        size: Option<u16>,
    ) -> (r: Result<BinXmlValue, EvtxError>)
        ensures
            final(cursor).data@ == old(cursor).data@,
            reads_as(
                r,
                final(cursor).pos,
                spec_plain_value(old(cursor).data@, old(cursor).pos as int, value_type, size),
            ),
    {
        let unimplemented = EvtxError::UnimplementedValueVariant { offset: cursor.pos as u64 };
        match value_type {
            BinXMLValueTypes::NullType => Ok(BinXmlValue::NullType),
            BinXMLValueTypes::StringType => match size {
                Some(sz) => Ok(BinXmlValue::StringType(read_utf16_by_size(cursor, sz as usize)?)),
                None => match read_len_prefixed_utf16_string(cursor, false)? {
                    Some(text) => Ok(BinXmlValue::StringType(text)),
                    None => Ok(BinXmlValue::StringType(String::new())),
                },
            },
            BinXMLValueTypes::AnsiStringType => match size {
                Some(sz) => Ok(BinXmlValue::AnsiStringType(read_ansi_by_size(cursor, sz as usize)?)),
                None => Err(unimplemented),
            },
            BinXMLValueTypes::Int8Type => {
                let v = cursor.read_u8()?;
                Ok(BinXmlValue::Int8Type(#[verifier::truncate] (v as i8)))
            },
            BinXMLValueTypes::UInt8Type => Ok(BinXmlValue::UInt8Type(cursor.read_u8()?)),
            BinXMLValueTypes::Int16Type => {
                let v = cursor.read_u16()?;
                Ok(BinXmlValue::Int16Type(#[verifier::truncate] (v as i16)))
            },
            BinXMLValueTypes::UInt16Type => Ok(BinXmlValue::UInt16Type(cursor.read_u16()?)),
            BinXMLValueTypes::Int32Type => {
                let v = cursor.read_u32()?;
                Ok(BinXmlValue::Int32Type(#[verifier::truncate] (v as i32)))
            },
            BinXMLValueTypes::UInt32Type => Ok(BinXmlValue::UInt32Type(cursor.read_u32()?)),
            BinXMLValueTypes::Int64Type => {
                let v = cursor.read_u64()?;
                Ok(BinXmlValue::Int64Type(#[verifier::truncate] (v as i64)))
            },
            BinXMLValueTypes::UInt64Type => Ok(BinXmlValue::UInt64Type(cursor.read_u64()?)),
            BinXMLValueTypes::Real32Type => Ok(BinXmlValue::Real32Type(cursor.read_u32()?)),
            BinXMLValueTypes::Real64Type => Ok(BinXmlValue::Real64Type(cursor.read_u64()?)),
            BinXMLValueTypes::BoolType => {
                let v = cursor.read_u32()?;
                Ok(BinXmlValue::BoolType(v != 0))
            },
            BinXMLValueTypes::BinaryType => match size {
                Some(sz) => {
                    let bytes = cursor.read_bytes(sz as usize)?;
                    Ok(BinXmlValue::BinaryType(vstd::slice::slice_to_vec(bytes)))
                },
                None => Err(unimplemented),
            },
            BinXMLValueTypes::GuidType => Ok(BinXmlValue::GuidType(Guid::read(cursor)?)),
            BinXMLValueTypes::SizeTType => match size {
                Some(4) => {
                    let v = cursor.read_u32()?;
                    Ok(BinXmlValue::SizeTType(v as u64))
                },
                Some(8) => Ok(BinXmlValue::SizeTType(cursor.read_u64()?)),
                _ => Err(unimplemented),
            },
            BinXMLValueTypes::FileTimeType => Ok(BinXmlValue::FileTimeType(cursor.read_u64()?)),
            BinXMLValueTypes::SysTimeType => Ok(BinXmlValue::SysTimeType(SysTime::read(cursor)?)),
            BinXMLValueTypes::SidType => Ok(BinXmlValue::SidType(read_sid(cursor)?)),
            BinXMLValueTypes::HexInt32Type => Ok(BinXmlValue::HexInt32Type(cursor.read_u32()?)),
            BinXMLValueTypes::HexInt64Type => Ok(BinXmlValue::HexInt64Type(cursor.read_u64()?)),
            BinXMLValueTypes::EvtHandle => Err(unimplemented),
            BinXMLValueTypes::BinXmlType => Err(unimplemented),
            BinXMLValueTypes::EvtXml => Err(unimplemented),
        }
    }
}

} // verus!
