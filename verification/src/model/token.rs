use crate::guid::Guid;
use crate::model::deserialized::{BinXMLFragmentHeader, TemplateSubstitutionDescriptor};
use vstd::prelude::*;

verus! {

/// A security identifier as a mathematical value.
pub struct SidValue {
    pub revision: u8,
    pub authority: u64,
    pub sub_authorities: Seq<u32>,
}

/// What a decoded value is, independent of how it is stored.
pub enum TypedValue {
    Null,
    String(Seq<char>),
    AnsiString(Seq<char>),
    Int8(i8),
    UInt8(u8),
    Int16(i16),
    UInt16(u16),
    Int32(i32),
    UInt32(u32),
    Int64(i64),
    UInt64(u64),
    /// The IEEE 754 bit pattern of the number.
    Real32(u32),
    /// The IEEE 754 bit pattern of the number.
    Real64(u64),
    Bool(bool),
    Binary(Seq<u8>),
    Guid(Guid),
    SizeT(u64),
    /// 100-nanosecond intervals since 1601-01-01.
    FileTime(u64),
    
    SysTime(crate::binxml::value_variant::SysTime),
    Sid(SidValue),
    HexInt32(u32),
    HexInt64(u64),
    EvtHandle,
    /// A nested fragment: a full token sequence of its own.
    BinXml(Seq<Token>),
    EvtXml,
}

/// What a token of the stream is, independent of how it is stored.
pub enum Token {
    FragmentHeader(BinXMLFragmentHeader),
    TemplateInstance { template_def_offset: u32, substitution_array: Seq<Token> },
    OpenStartElement { data_size: u32, name: Seq<char> },
    AttributeList,
    Attribute { name: Seq<char> },
    CloseStartElement,
    CloseEmptyElement,
    CloseElement,
    Value(TypedValue),
    CDATASection,
    CharRef,
    EntityRef { name: Seq<char> },
    PITarget { name: Seq<char> },
    PIData(Seq<char>),
    Substitution(TemplateSubstitutionDescriptor),
    EndOfStream,
    StartOfStream,
}

} // verus!

verus! {

/// An element whose start tag is still being read: its name, the attributes
/// read so far, and the name of an attribute that still waits for its value.
pub struct PendingElement {
    pub name: Seq<char>,
    pub attributes: Seq<(Seq<char>, TypedValue)>,
    pub attribute_name: Option<Seq<char>>,
}

/// One step of a document's structure, in reading order.
pub enum StructuralEvent {
    OpenElement { name: Seq<char>, attributes: Seq<(Seq<char>, TypedValue)> },
    CloseElement,
    Value(TypedValue),
    ProcessingInstruction { target: Seq<char>, data: Seq<char> },
    EntityRef { name: Seq<char> },
    StartOfStream,
    EndOfStream,
}

} // verus!

verus! {

/// A template definition: its header and the tokens of its body, which hold
/// placeholders for the values of each instance.
pub struct TemplateDefinition {
    pub header: crate::model::deserialized::BinXmlTemplateDefinitionHeader,
    pub tokens: Seq<Token>,
}

} // verus!
