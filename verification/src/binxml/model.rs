use crate::err::EvtxError;
use crate::guid::{be_u64, Guid};
use crate::model::deserialized::BinXMLFragmentHeader;
use crate::stream::{eof, has_bytes, le_u16, le_u32, reads, ByteCursor, Decoded};
use vstd::prelude::*;

verus! {

/// The type tag that precedes every value in the token stream.
#[derive(Debug, Clone, Copy, PartialEq, Eq, Structural)]
pub enum BinXMLValueTypes {
    NullType,
    StringType,
    AnsiStringType,
    Int8Type,
    UInt8Type,
    Int16Type,
    UInt16Type,
    Int32Type,
    UInt32Type,
    Int64Type,
    UInt64Type,
    Real32Type,
    Real64Type,
    BoolType,
    BinaryType,
    GuidType,
    SizeTType,
    FileTimeType,
    SysTimeType,
    SidType,
    HexInt32Type,
    HexInt64Type,
    EvtHandle,
    BinXmlType,
    EvtXml,
}

impl BinXMLValueTypes {
    /// The value type that `byte` is the tag of, if it is one.
    pub open spec fn spec_from_u8(byte: u8) -> Option<BinXMLValueTypes> {
        match byte {
            0x00 => Some(BinXMLValueTypes::NullType),
            0x01 => Some(BinXMLValueTypes::StringType),
            0x02 => Some(BinXMLValueTypes::AnsiStringType),
            0x03 => Some(BinXMLValueTypes::Int8Type),
            0x04 => Some(BinXMLValueTypes::UInt8Type),
            0x05 => Some(BinXMLValueTypes::Int16Type),
            0x06 => Some(BinXMLValueTypes::UInt16Type),
            0x07 => Some(BinXMLValueTypes::Int32Type),
            0x08 => Some(BinXMLValueTypes::UInt32Type),
            0x09 => Some(BinXMLValueTypes::Int64Type),
            0x0a => Some(BinXMLValueTypes::UInt64Type),
            0x0b => Some(BinXMLValueTypes::Real32Type),
            0x0c => Some(BinXMLValueTypes::Real64Type),
            0x0d => Some(BinXMLValueTypes::BoolType),
            0x0e => Some(BinXMLValueTypes::BinaryType),
            0x0f => Some(BinXMLValueTypes::GuidType),
            0x10 => Some(BinXMLValueTypes::SizeTType),
            0x11 => Some(BinXMLValueTypes::FileTimeType),
            0x12 => Some(BinXMLValueTypes::SysTimeType),
            0x13 => Some(BinXMLValueTypes::SidType),
            0x14 => Some(BinXMLValueTypes::HexInt32Type),
            0x15 => Some(BinXMLValueTypes::HexInt64Type),
            0x20 => Some(BinXMLValueTypes::EvtHandle),
            0x21 => Some(BinXMLValueTypes::BinXmlType),
            0x23 => Some(BinXMLValueTypes::EvtXml),
            _ => None,
        }
    }

    /// The value type whose tag is `byte`; `None` for a byte that is no tag.
    pub fn from_u8(byte: u8) -> (r: Option<BinXMLValueTypes>)
        ensures
            r == Self::spec_from_u8(byte),
    {
        match byte {
            0x00 => Some(BinXMLValueTypes::NullType),
            0x01 => Some(BinXMLValueTypes::StringType),
            0x02 => Some(BinXMLValueTypes::AnsiStringType),
            0x03 => Some(BinXMLValueTypes::Int8Type),
            0x04 => Some(BinXMLValueTypes::UInt8Type),
            0x05 => Some(BinXMLValueTypes::Int16Type),
            0x06 => Some(BinXMLValueTypes::UInt16Type),
            0x07 => Some(BinXMLValueTypes::Int32Type),
            0x08 => Some(BinXMLValueTypes::UInt32Type),
            0x09 => Some(BinXMLValueTypes::Int64Type),
            0x0a => Some(BinXMLValueTypes::UInt64Type),
            0x0b => Some(BinXMLValueTypes::Real32Type),
            0x0c => Some(BinXMLValueTypes::Real64Type),
            0x0d => Some(BinXMLValueTypes::BoolType),
            0x0e => Some(BinXMLValueTypes::BinaryType),
            0x0f => Some(BinXMLValueTypes::GuidType),
            0x10 => Some(BinXMLValueTypes::SizeTType),
            0x11 => Some(BinXMLValueTypes::FileTimeType),
            0x12 => Some(BinXMLValueTypes::SysTimeType),
            0x13 => Some(BinXMLValueTypes::SidType),
            0x14 => Some(BinXMLValueTypes::HexInt32Type),
            0x15 => Some(BinXMLValueTypes::HexInt64Type),
            0x20 => Some(BinXMLValueTypes::EvtHandle),
            0x21 => Some(BinXMLValueTypes::BinXmlType),
            0x23 => Some(BinXMLValueTypes::EvtXml),
            _ => None,
        }
    }
}

/// The opcode that starts every token of the stream.
#[derive(Debug, Clone, Copy, PartialEq, Eq, Structural)]
pub enum BinXMLToken {
    EndOfStream,
    /// Carries `true` when an attribute list follows the element's name.
    OpenStartElement(bool),
    CloseStartElement,
    CloseEmptyElement,
    CloseElement,
    TextValue,
    Attribute,
    CDataSection,
    EntityReference,
    ProcessingInstructionTarget,
    ProcessingInstructionData,
    TemplateInstance,
    NormalSubstitution,
    ConditionalSubstitution,
    StartOfStream,
}

impl BinXMLToken {
    /// The token that `byte` opens, if it is an opcode. Some tokens have a
    /// second opcode, with the bit 0x40 set, which announces more data.
    pub open spec fn spec_from_u8(byte: u8) -> Option<BinXMLToken> {
        match byte {
            0x00 => Some(BinXMLToken::EndOfStream),
            0x01 => Some(BinXMLToken::OpenStartElement(false)),
            0x41 => Some(BinXMLToken::OpenStartElement(true)),
            0x02 => Some(BinXMLToken::CloseStartElement),
            0x03 => Some(BinXMLToken::CloseEmptyElement),
            0x04 => Some(BinXMLToken::CloseElement),
            0x05 | 0x45 => Some(BinXMLToken::TextValue),
            0x06 | 0x46 => Some(BinXMLToken::Attribute),
            0x07 | 0x47 => Some(BinXMLToken::CDataSection),
            0x08 | 0x48 => Some(BinXMLToken::EntityReference),
            0x0a | 0x49 => Some(BinXMLToken::ProcessingInstructionTarget),
            0x0b => Some(BinXMLToken::ProcessingInstructionData),
            0x0c => Some(BinXMLToken::TemplateInstance),
            0x0d => Some(BinXMLToken::NormalSubstitution),
            0x0e => Some(BinXMLToken::ConditionalSubstitution),
            0x0f => Some(BinXMLToken::StartOfStream),
            _ => None,
        }
    }

    /// The token that `byte` opens; `None` for a byte that is no opcode.
    pub fn from_u8(byte: u8) -> (r: Option<BinXMLToken>)
        ensures
            r == Self::spec_from_u8(byte),
    {
        match byte {
            0x00 => Some(BinXMLToken::EndOfStream),
            0x01 => Some(BinXMLToken::OpenStartElement(false)),
            0x41 => Some(BinXMLToken::OpenStartElement(true)),
            0x02 => Some(BinXMLToken::CloseStartElement),
            0x03 => Some(BinXMLToken::CloseEmptyElement),
            0x04 => Some(BinXMLToken::CloseElement),
            0x05 | 0x45 => Some(BinXMLToken::TextValue),
            0x06 | 0x46 => Some(BinXMLToken::Attribute),
            0x07 | 0x47 => Some(BinXMLToken::CDataSection),
            0x08 | 0x48 => Some(BinXMLToken::EntityReference),
            0x0a | 0x49 => Some(BinXMLToken::ProcessingInstructionTarget),
            0x0b => Some(BinXMLToken::ProcessingInstructionData),
            0x0c => Some(BinXMLToken::TemplateInstance),
            0x0d => Some(BinXMLToken::NormalSubstitution),
            0x0e => Some(BinXMLToken::ConditionalSubstitution),
            0x0f => Some(BinXMLToken::StartOfStream),
            _ => None,
        }
    }
}

/// A value with a fixed layout that can be read from a byte stream.
pub trait FromStream: Sized {
    /// What reading at `pos` in `data` gives.
    spec fn decoded(data: Seq<u8>, pos: int) -> Decoded<Self>;

    /// Reads one value at the cursor and moves the cursor past it.
    fn read<'a>(stream: &mut ByteCursor<'a>) -> (r: Result<Self, EvtxError>)
        ensures
            final(stream).data@ == old(stream).data@,
            reads(r, final(stream).pos, Self::decoded(old(stream).data@, old(stream).pos as int)),
    ;
}

impl FromStream for Guid {
    /// Sixteen bytes: the three integers little-endian, then the eight
    /// trailing bytes in their order.
    open spec fn decoded(data: Seq<u8>, pos: int) -> Decoded<Self> {
        if has_bytes(data, pos, 16) {
            Ok(
                (
                    Guid {
                        data1: le_u32(data, pos),
                        data2: le_u16(data, pos + 4),
                        data3: le_u16(data, pos + 6),
                        data4: be_u64(data, pos + 8),
                    },
                    pos + 16,
                ),
            )
        } else {
            eof(pos)
        }
    }

    fn read<'a>(stream: &mut ByteCursor<'a>) -> (r: Result<Self, EvtxError>) {
        if !stream.has(16) {
            return Err(stream.eof_error());
        }
        let data1 = stream.read_u32()?;
        let data2 = stream.read_u16()?;
        let data3 = stream.read_u16()?;
        let data4 = stream.read_bytes(8)?;
        Ok(Guid::new(data1, data2, data3, data4))
    }
}

impl FromStream for BinXMLFragmentHeader {
    /// Three bytes: major version, minor version, flags.
    open spec fn decoded(data: Seq<u8>, pos: int) -> Decoded<Self> {
        if has_bytes(data, pos, 3) {
            Ok(
                (
                    BinXMLFragmentHeader {
                        major_version: data[pos],
                        minor_version: data[pos + 1],
                        flags: data[pos + 2],
                    },
                    pos + 3,
                ),
            )
        } else {
            eof(pos)
        }
    }

    fn read<'a>(stream: &mut ByteCursor<'a>) -> (r: Result<Self, EvtxError>) {
        if !stream.has(3) {
            return Err(stream.eof_error());
        }
        let major_version = stream.read_u8()?;
        let minor_version = stream.read_u8()?;
        let flags = stream.read_u8()?;
        Ok(BinXMLFragmentHeader { major_version, minor_version, flags })
    }
}

} // verus!
