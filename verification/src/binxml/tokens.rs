use crate::binxml::model::{BinXMLToken, BinXMLValueTypes, FromStream};
use crate::binxml::name::{spec_name, BinXmlName};
use crate::binxml::value_variant::{spec_plain_value, BinXmlValue};
use crate::err::EvtxError;
use crate::evtx_chunk::EvtxChunk;
use crate::guid::Guid;
use crate::model::deserialized::{
    lemma_tokens_view_push, tokens_view, BinXMLAttribute, BinXMLDeserializedTokens,
    BinXMLFragmentHeader, BinXMLOpenStartElement, BinXMLProcessingInstructionTarget,
    BinXMLTemplateDefinition, BinXmlEntityReference, BinXmlTemplateDefinitionHeader,
    BinXmlTemplateRef, TemplateSubstitutionDescriptor, TemplateValueDescriptor,
};
use crate::model::token::{TemplateDefinition, Token, TypedValue};
use crate::stream::{
    eof, has_bytes, le_u16, le_u32, reads, reads_as, spec_read_u32, spec_read_u8, ByteCursor,
    Decoded,
};
use crate::utils::read_len_prefixed_utf16_string;
use crate::utils::spec_len_prefixed_utf16;
use vstd::prelude::*;

verus! {

/// How deeply fragments may be nested inside values before decoding gives up.
pub const MAX_NESTING: u32 = 32;

/// `d` with its value turned into a token by `f`.
pub open spec fn as_token<A>(d: Decoded<A>, f: spec_fn(A) -> Token) -> Decoded<Token> {
    match d {
        Ok((v, p)) => Ok((f(v), p)),
        Err(e) => Err(e),
    }
}

/// The start of an element, after its opcode: two bytes that are not used,
/// the declared size of the element, its name, and, where the opcode
/// announced attributes, the size of the attribute list.
pub open spec fn spec_open_start_element(data: Seq<u8>, pos: int, has_attributes: bool) -> Decoded<
    Token,
> {
    if !has_bytes(data, pos, 6) {
        eof(pos)
    } else {
        let data_size = le_u32(data, pos + 2);
        match spec_name(data, pos + 6) {
            Err(e) => Err(e),
            Ok((name, p)) => if !has_attributes {
                Ok((Token::OpenStartElement { data_size, name }, p))
            } else if has_bytes(data, p, 4) {
                Ok((Token::OpenStartElement { data_size, name }, p + 4))
            } else {
                eof(p)
            },
        }
    }
}

/// The error for a byte at `pos` that is no tag of a value type.
pub open spec fn bad_value_type<T>(value: u8, pos: int) -> Decoded<T> {
    Err(EvtxError::InvalidValueVariant { value, offset: pos as u64 })
}

/// A substitution placeholder, after its opcode: the index into the
/// substitution array and the tag of the expected value type. An optional
/// placeholder that expects no value is to be ignored.
pub open spec fn spec_substitution(data: Seq<u8>, pos: int, optional: bool) -> Decoded<Token> {
    if !has_bytes(data, pos, 3) {
        eof(pos)
    } else {
        match BinXMLValueTypes::spec_from_u8(data[pos + 2]) {
            None => bad_value_type(data[pos + 2], pos + 2),
            Some(value_type) => Ok(
                (
                    Token::Substitution(
                        TemplateSubstitutionDescriptor {
                            substitution_index: le_u16(data, pos),
                            value_type,
                            ignore: optional && value_type == BinXMLValueTypes::NullType,
                        },
                    ),
                    pos + 3,
                ),
            ),
        }
    }
}

/// The payload of a token that holds no value and no template, after its
/// opcode `raw`.
pub open spec fn spec_simple_token(raw: BinXMLToken, data: Seq<u8>, pos: int) -> Decoded<Token> {
    match raw {
        BinXMLToken::EndOfStream => Ok((Token::EndOfStream, pos)),
        BinXMLToken::OpenStartElement(has_attributes) => spec_open_start_element(
            data,
            pos,
            has_attributes,
        ),
        BinXMLToken::CloseStartElement => Ok((Token::CloseStartElement, pos)),
        BinXMLToken::CloseEmptyElement => Ok((Token::CloseEmptyElement, pos)),
        BinXMLToken::CloseElement => Ok((Token::CloseElement, pos)),
        BinXMLToken::Attribute => as_token(
            spec_name(data, pos),
            |name: Seq<char>| Token::Attribute { name },
        ),
        BinXMLToken::CDataSection => Err(EvtxError::UnimplementedToken),
        BinXMLToken::EntityReference => as_token(
            spec_name(data, pos),
            |name: Seq<char>| Token::EntityRef { name },
        ),
        BinXMLToken::ProcessingInstructionTarget => as_token(
            spec_name(data, pos),
            |name: Seq<char>| Token::PITarget { name },
        ),
        BinXMLToken::ProcessingInstructionData => as_token(
            spec_len_prefixed_utf16(data, pos, false),
            |t: Option<Seq<char>>|
                Token::PIData(
                    match t {
                        Some(text) => text,
                        None => Seq::empty(),
                    },
                ),
        ),
        BinXMLToken::NormalSubstitution => spec_substitution(data, pos, false),
        BinXMLToken::ConditionalSubstitution => spec_substitution(data, pos, true),
        BinXMLToken::StartOfStream => as_token(
            BinXMLFragmentHeader::decoded(data, pos),
            |h: BinXMLFragmentHeader| Token::FragmentHeader(h),
        ),
        // The two that follow have payloads of their own kind.
        BinXMLToken::TextValue => Err(EvtxError::BadParserState),
        BinXMLToken::TemplateInstance => Err(EvtxError::BadParserState),
    }
}

impl FromStream for BinXmlTemplateDefinitionHeader {
    /// Twenty-four bytes: the offset of the next template of the bucket, the
    /// template's identifier, and the size of its body.
    open spec fn decoded(data: Seq<u8>, pos: int) -> Decoded<Self> {
        if has_bytes(data, pos, 24) {
            Ok(
                (
                    BinXmlTemplateDefinitionHeader {
                        next_template_offset: le_u32(data, pos),
                        guid: Guid::decoded(data, pos + 4).unwrap().0,
                        data_size: le_u32(data, pos + 20),
                    },
                    pos + 24,
                ),
            )
        } else {
            eof(pos)
        }
    }

    fn read<'a>(stream: &mut crate::stream::ByteCursor<'a>) -> (r: Result<Self, EvtxError>) {
        if !stream.has(24) {
            return Err(stream.eof_error());
        }
        let next_template_offset = stream.read_u32()?;
        let guid = Guid::read(stream)?;
        let data_size = stream.read_u32()?;
        Ok(BinXmlTemplateDefinitionHeader { next_template_offset, guid, data_size })
    }
}

/// `count` value descriptors from `pos` on, appended to `acc`. Each takes
/// four bytes: the size of the value, the tag of its type, and a byte that is
/// not used.
pub open spec fn spec_value_descriptors(
    data: Seq<u8>,
    pos: int,
    count: nat,
    acc: Seq<TemplateValueDescriptor>,
) -> Decoded<Seq<TemplateValueDescriptor>>
    decreases count,
{
    if count == 0 {
        Ok((acc, pos))
    } else if !has_bytes(data, pos, 4) {
        eof(pos)
    } else {
        match BinXMLValueTypes::spec_from_u8(data[pos + 2]) {
            None => bad_value_type(data[pos + 2], pos + 2),
            Some(value_type) => spec_value_descriptors(
                data,
                pos + 4,
                (count - 1) as nat,
                acc.push(TemplateValueDescriptor { size: le_u16(data, pos), value_type }),
            ),
        }
    }
}

/// Where the substitution count of a template instance stands, given that
/// the instance names the definition at `def_offset` and that `pos` is the
/// position after that offset. A definition that starts right there is stored
/// inline: its header and its body are skipped.
pub open spec fn spec_skip_inline_definition(data: Seq<u8>, pos: int, def_offset: u32) -> Decoded<
    (),
> {
    if def_offset != pos {
        Ok(((), pos))
    } else {
        match BinXmlTemplateDefinitionHeader::decoded(data, pos) {
            Err(e) => Err(e),
            Ok((header, p)) => if has_bytes(data, p, header.data_size as int) {
                Ok(((), p + header.data_size))
            } else {
                eof(p)
            },
        }
    }
}

/// A value of type `value_type` at `pos`. A nested fragment is decoded as a
/// token sequence of its own, up to its declared size, which must lie within
/// the data, or up to its end-of-stream token; `depth` says how many more
/// levels of nesting are followed.
pub open spec fn spec_value(
    data: Seq<u8>,
    pos: int,
    value_type: BinXMLValueTypes,
    size: Option<u16>,
    depth: nat,
) -> Decoded<TypedValue>
    decreases depth, 0nat, 0nat,
{
    if value_type == BinXMLValueTypes::BinXmlType {
        if depth == 0 {
            Err(EvtxError::NestingTooDeep)
        } else if size is Some && !has_bytes(data, pos, size.unwrap() as int) {
            eof(pos)
        } else {
            let end = match size {
                Some(sz) => Some(pos + sz),
                None => None,
            };
            match spec_tokens(data, pos, end, Seq::empty(), (depth - 1) as nat) {
                Err(e) => Err(e),
                Ok((tokens, p)) => Ok((TypedValue::BinXml(tokens), p)),
            }
        }
    } else {
        spec_plain_value(data, pos, value_type, size)
    }
}

/// The values of a template instance, one for each of `descriptors`, from
/// `pos` on, appended to `acc`. Each value must fit in the bytes that its
/// descriptor declares, and the next one starts right after those bytes,
/// whatever the value itself took.
pub open spec fn spec_substitution_values(
    data: Seq<u8>,
    pos: int,
    descriptors: Seq<TemplateValueDescriptor>,
    acc: Seq<Token>,
    depth: nat,
) -> Decoded<Seq<Token>>
    decreases depth, 1nat, descriptors.len(),
{
    if descriptors.len() == 0 {
        Ok((acc, pos))
    } else {
        let d = descriptors[0];
        if !has_bytes(data, pos, d.size as int) {
            eof(pos)
        } else {
            match spec_value(data, pos, d.value_type, Some(d.size), depth) {
                Err(e) => Err(e),
                Ok((v, _)) => spec_substitution_values(
                    data,
                    pos + d.size,
                    descriptors.drop_first(),
                    acc.push(Token::Value(v)),
                    depth,
                ),
            }
        }
    }
}

/// A template instance, after its opcode: a byte that is not used, the
/// template's identifier, the chunk offset of its definition, the definition
/// itself where it is stored inline, the count of substitutions, their
/// descriptors and their values.
pub open spec fn spec_template_instance(data: Seq<u8>, pos: int, depth: nat) -> Decoded<Token>
    decreases depth, 2nat, 0nat,
{
    if !has_bytes(data, pos, 9) {
        eof(pos)
    } else {
        let template_def_offset = le_u32(data, pos + 5);
        match spec_skip_inline_definition(data, pos + 9, template_def_offset) {
            Err(e) => Err(e),
            Ok((_, p1)) => match spec_read_u32(data, p1) {
                Err(e) => Err(e),
                Ok((count, p2)) => match spec_value_descriptors(
                    data,
                    p2,
                    count as nat,
                    Seq::empty(),
                ) {
                    Err(e) => Err(e),
                    Ok((descriptors, p3)) => match spec_substitution_values(
                        data,
                        p3,
                        descriptors,
                        Seq::empty(),
                        depth,
                    ) {
                        Err(e) => Err(e),
                        Ok((substitution_array, p4)) => Ok(
                            (Token::TemplateInstance { template_def_offset, substitution_array }, p4),
                        ),
                    },
                },
            },
        }
    }
}

/// The opcode at `pos`. A byte that is no opcode fails with `InvalidToken`.
pub open spec fn spec_raw_token(data: Seq<u8>, pos: int) -> Decoded<BinXMLToken> {
    match spec_read_u8(data, pos) {
        Err(e) => Err(e),
        Ok((opcode, p)) => match BinXMLToken::spec_from_u8(opcode) {
            None => Err(EvtxError::InvalidToken { value: opcode, offset: pos as u64 }),
            Some(raw) => Ok((raw, p)),
        },
    }
}

/// The payload at `pos` of the token whose opcode is `raw`. A value has the
/// tag of its type in front.
pub open spec fn spec_token_payload(raw: BinXMLToken, data: Seq<u8>, pos: int, depth: nat) -> Decoded<
    Token,
>
    decreases depth, 3nat, 0nat,
{
    match raw {
        BinXMLToken::TextValue => match spec_read_u8(data, pos) {
            Err(e) => Err(e),
            Ok((tag, p1)) => match BinXMLValueTypes::spec_from_u8(tag) {
                None => bad_value_type(tag, pos),
                Some(value_type) => match spec_value(data, p1, value_type, None, depth) {
                    Err(e) => Err(e),
                    Ok((v, p2)) => Ok((Token::Value(v), p2)),
                },
            },
        },
        BinXMLToken::TemplateInstance => spec_template_instance(data, pos, depth),
        _ => spec_simple_token(raw, data, pos),
    }
}

/// One token at `pos`: its opcode and its payload.
pub open spec fn spec_token(data: Seq<u8>, pos: int, depth: nat) -> Decoded<Token>
    decreases depth, 4nat, 0nat,
{
    match spec_raw_token(data, pos) {
        Err(e) => Err(e),
        Ok((raw, p)) => spec_token_payload(raw, data, p, depth),
    }
}

/// The tokens from `pos` on, appended to `acc`, up to the position `end`
/// (where one is given) or up to and with the first end-of-stream token.
/// The first token that fails to decode fails the whole sequence.
///
/// Every token moves the position forward (`lemma_token_advances`), so the
/// branch for one that does not is never taken; it is there to show that the
/// definition comes to an end.
pub open spec fn spec_tokens(
    data: Seq<u8>,
    pos: int,
    end: Option<int>,
    acc: Seq<Token>,
    depth: nat,
) -> Decoded<Seq<Token>>
    decreases depth, 5nat, (if pos < data.len() { data.len() - pos } else { 0 }),
{
    if end is Some && pos >= end.unwrap() {
        Ok((acc, pos))
    } else if !has_bytes(data, pos, 1) {
        eof(pos)
    } else {
        match spec_token(data, pos, depth) {
            Err(e) => Err(e),
            Ok((token, p)) => if token is EndOfStream {
                Ok((acc.push(token), p))
            } else if p <= pos {
                Err(EvtxError::BadParserState)
            } else {
                spec_tokens(data, p, end, acc.push(token), depth)
            },
        }
    }
}

/// A template definition at `pos`: its header and the tokens of its body,
/// which ends after the declared size or with an end-of-stream token. The
/// declared size must lie within the data.
pub open spec fn spec_template_definition(data: Seq<u8>, pos: int) -> Decoded<TemplateDefinition> {
    match BinXmlTemplateDefinitionHeader::decoded(data, pos) {
        Err(e) => Err(e),
        Ok((header, p)) => if !has_bytes(data, p, header.data_size as int) {
            eof(p)
        } else {
            match spec_tokens(
                data,
                p,
                Some(p + header.data_size),
                Seq::empty(),
                MAX_NESTING as nat,
            ) {
                Err(e) => Err(e),
                Ok((tokens, end)) => Ok((TemplateDefinition { header, tokens }, end)),
            }
        },
    }
}

proof fn lemma_value_descriptors_advance(
    data: Seq<u8>,
    pos: int,
    count: nat,
    acc: Seq<TemplateValueDescriptor>,
)
    requires
        spec_value_descriptors(data, pos, count, acc) is Ok,
    ensures
        spec_value_descriptors(data, pos, count, acc).unwrap().1 >= pos,
    decreases count,
{
    if count > 0 {
        let value_type = BinXMLValueTypes::spec_from_u8(data[pos + 2]).unwrap();
        lemma_value_descriptors_advance(
            data,
            pos + 4,
            (count - 1) as nat,
            acc.push(TemplateValueDescriptor { size: le_u16(data, pos), value_type }),
        );
    }
}

proof fn lemma_value_advances(
    data: Seq<u8>,
    pos: int,
    value_type: BinXMLValueTypes,
    size: Option<u16>,
    depth: nat,
)
    requires
        spec_value(data, pos, value_type, size, depth) is Ok,
    ensures
        spec_value(data, pos, value_type, size, depth).unwrap().1 >= pos,
    decreases depth, 0nat, 0nat,
{
    if value_type == BinXMLValueTypes::BinXmlType {
        let end = match size {
            Some(sz) => Some(pos + sz),
            None => None,
        };
        lemma_tokens_advance(data, pos, end, Seq::empty(), (depth - 1) as nat);
    }
}

proof fn lemma_substitution_values_advance(
    data: Seq<u8>,
    pos: int,
    descriptors: Seq<TemplateValueDescriptor>,
    acc: Seq<Token>,
    depth: nat,
)
    requires
        spec_substitution_values(data, pos, descriptors, acc, depth) is Ok,
    ensures
        spec_substitution_values(data, pos, descriptors, acc, depth).unwrap().1 >= pos,
    decreases depth, 1nat, descriptors.len(),
{
    if descriptors.len() > 0 {
        let d = descriptors[0];
        let v = spec_value(data, pos, d.value_type, Some(d.size), depth).unwrap().0;
        lemma_substitution_values_advance(
            data,
            pos + d.size,
            descriptors.drop_first(),
            acc.push(Token::Value(v)),
            depth,
        );
    }
}

proof fn lemma_template_instance_advances(data: Seq<u8>, pos: int, depth: nat)
    requires
        spec_template_instance(data, pos, depth) is Ok,
    ensures
        spec_template_instance(data, pos, depth).unwrap().1 >= pos,
    decreases depth, 2nat, 0nat,
{
    let template_def_offset = le_u32(data, pos + 5);
    let p1 = spec_skip_inline_definition(data, pos + 9, template_def_offset).unwrap().1;
    let (count, p2) = spec_read_u32(data, p1).unwrap();
    lemma_value_descriptors_advance(data, p2, count as nat, Seq::empty());
    let (descriptors, p3) = spec_value_descriptors(data, p2, count as nat, Seq::empty()).unwrap();
    lemma_substitution_values_advance(data, p3, descriptors, Seq::empty(), depth);
}

proof fn lemma_token_payload_advances(raw: BinXMLToken, data: Seq<u8>, pos: int, depth: nat)
    requires
        spec_token_payload(raw, data, pos, depth) is Ok,
    ensures
        spec_token_payload(raw, data, pos, depth).unwrap().1 >= pos,
    decreases depth, 3nat, 0nat,
{
    match raw {
        BinXMLToken::TextValue => {
            let (tag, p1) = spec_read_u8(data, pos).unwrap();
            let value_type = BinXMLValueTypes::spec_from_u8(tag).unwrap();
            lemma_value_advances(data, p1, value_type, None, depth);
        },
        BinXMLToken::TemplateInstance => {
            lemma_template_instance_advances(data, pos, depth);
        },
        _ => {},
    }
}

/// Every token takes at least the byte of its opcode: decoding one always
/// moves forward.
pub proof fn lemma_token_advances(data: Seq<u8>, pos: int, depth: nat)
    requires
        spec_token(data, pos, depth) is Ok,
    ensures
        spec_token(data, pos, depth).unwrap().1 > pos,
    decreases depth, 4nat, 0nat,
{
    let (raw, p) = spec_raw_token(data, pos).unwrap();
    lemma_token_payload_advances(raw, data, p, depth);
}

proof fn lemma_tokens_advance(data: Seq<u8>, pos: int, end: Option<int>, acc: Seq<Token>, depth: nat)
    requires
        spec_tokens(data, pos, end, acc, depth) is Ok,
    ensures
        spec_tokens(data, pos, end, acc, depth).unwrap().1 >= pos,
    decreases depth, 5nat, (if pos < data.len() { data.len() - pos } else { 0 }),
{
    if !(end is Some && pos >= end.unwrap()) && has_bytes(data, pos, 1) {
        lemma_token_advances(data, pos, depth);
        let (token, p) = spec_token(data, pos, depth).unwrap();
        if !(token is EndOfStream) {
            lemma_tokens_advance(data, p, end, acc.push(token), depth);
        }
    }
}

/// Reads the start of an element, after its opcode.
pub(crate) fn read_open_start_element(
    cursor: &mut ByteCursor<'_>,
    chunk: Option<&EvtxChunk<'_>>,
    has_attributes: bool,
) -> (r: Result<BinXMLDeserializedTokens, EvtxError>)
    requires
        chunk matches Some(c) ==> c.bytes() == old(cursor).data@,
    ensures
        final(cursor).data@ == old(cursor).data@,
        reads_as(
            r,
            final(cursor).pos,
            spec_open_start_element(old(cursor).data@, old(cursor).pos as int, has_attributes),
        ),
{
    if !cursor.has(6) {
        return Err(cursor.eof_error());
    }
    let _dependency_identifier = cursor.read_u16()?;
    let data_size = cursor.read_u32()?;
    let name = BinXmlName::from_binxml_stream(cursor, chunk)?;
    if has_attributes {
        let _attribute_list_data_size = cursor.read_u32()?;
    }
    Ok(BinXMLDeserializedTokens::OpenStartElement(BinXMLOpenStartElement { data_size, name }))
}

/// Reads a substitution placeholder, after its opcode.
pub fn read_substitution(cursor: &mut ByteCursor<'_>, optional: bool) -> (r: Result<
    BinXMLDeserializedTokens,
    EvtxError,
>)
    ensures
        final(cursor).data@ == old(cursor).data@,
        reads_as(
            r,
            final(cursor).pos,
            spec_substitution(old(cursor).data@, old(cursor).pos as int, optional),
        ),
{
    if !cursor.has(3) {
        return Err(cursor.eof_error());
    }
    let substitution_index = cursor.read_u16()?;
    let tag_offset = cursor.pos;
    let value_type_token = cursor.read_u8()?;
    match BinXMLValueTypes::from_u8(value_type_token) {
        None => Err(
            EvtxError::InvalidValueVariant { value: value_type_token, offset: tag_offset as u64 },
        ),
        Some(value_type) => {
            let is_null = match value_type {
                BinXMLValueTypes::NullType => true,
                _ => false,
            };
            Ok(
                BinXMLDeserializedTokens::Substitution(
                    TemplateSubstitutionDescriptor {
                        substitution_index,
                        value_type,
                        ignore: optional && is_null,
                    },
                ),
            )
        },
    }
}

/// Reads the payload of a token that holds no value and no template.
pub(crate) fn read_simple_token(
    raw: BinXMLToken,
    cursor: &mut ByteCursor<'_>,
    chunk: Option<&EvtxChunk<'_>>,
) -> (r: Result<BinXMLDeserializedTokens, EvtxError>)
    requires
        chunk matches Some(c) ==> c.bytes() == old(cursor).data@,
    ensures
        final(cursor).data@ == old(cursor).data@,
        reads_as(
            r,
            final(cursor).pos,
            spec_simple_token(raw, old(cursor).data@, old(cursor).pos as int),
        ),
{
    match raw {
        BinXMLToken::EndOfStream => Ok(BinXMLDeserializedTokens::EndOfStream),
        BinXMLToken::OpenStartElement(has_attributes) => read_open_start_element(
            cursor,
            chunk,
            has_attributes,
        ),
        BinXMLToken::CloseStartElement => Ok(BinXMLDeserializedTokens::CloseStartElement),
        BinXMLToken::CloseEmptyElement => Ok(BinXMLDeserializedTokens::CloseEmptyElement),
        BinXMLToken::CloseElement => Ok(BinXMLDeserializedTokens::CloseElement),
        BinXMLToken::Attribute => {
            let name = BinXmlName::from_binxml_stream(cursor, chunk)?;
            Ok(BinXMLDeserializedTokens::Attribute(BinXMLAttribute { name }))
        },
        BinXMLToken::CDataSection => Err(EvtxError::UnimplementedToken),
        BinXMLToken::EntityReference => {
            let name = BinXmlName::from_binxml_stream(cursor, chunk)?;
            Ok(BinXMLDeserializedTokens::EntityRef(BinXmlEntityReference { name }))
        },
        BinXMLToken::ProcessingInstructionTarget => {
            let name = BinXmlName::from_binxml_stream(cursor, chunk)?;
            Ok(BinXMLDeserializedTokens::PITarget(BinXMLProcessingInstructionTarget { name }))
        },
        BinXMLToken::ProcessingInstructionData => {
            match read_len_prefixed_utf16_string(cursor, false)? {
                Some(text) => Ok(BinXMLDeserializedTokens::PIData(text)),
                None => Ok(BinXMLDeserializedTokens::PIData(String::new())),
            }
        },
        BinXMLToken::NormalSubstitution => read_substitution(cursor, false),
        BinXMLToken::ConditionalSubstitution => read_substitution(cursor, true),
        BinXMLToken::StartOfStream => {
            let header = BinXMLFragmentHeader::read(cursor)?;
            Ok(BinXMLDeserializedTokens::FragmentHeader(header))
        },
        BinXMLToken::TextValue => Err(EvtxError::BadParserState),
        BinXMLToken::TemplateInstance => Err(EvtxError::BadParserState),
    }
}

/// Reads `count` value descriptors.
pub fn read_value_descriptors(cursor: &mut ByteCursor<'_>, count: u32) -> (r: Result<
    Vec<TemplateValueDescriptor>,
    EvtxError,
>)
    ensures
        final(cursor).data@ == old(cursor).data@,
        match spec_value_descriptors(
            old(cursor).data@,
            old(cursor).pos as int,
            count as nat,
            Seq::empty(),
        ) {
            Ok((v, p)) => r is Ok && r.unwrap()@ == v && final(cursor).pos == p,
            Err(e) => r == Err::<Vec<TemplateValueDescriptor>, EvtxError>(e),
        },
{
    let mut descriptors: Vec<TemplateValueDescriptor> = Vec::new();
    let mut i: u32 = 0;
    while i < count
        invariant
            i <= count,
            cursor.data@ == old(cursor).data@,
            spec_value_descriptors(
                old(cursor).data@,
                old(cursor).pos as int,
                count as nat,
                Seq::empty(),
            ) == spec_value_descriptors(
                cursor.data@,
                cursor.pos as int,
                (count - i) as nat,
                descriptors@,
            ),
        decreases count - i,
    {
        if !cursor.has(4) {
            return Err(cursor.eof_error());
        }
        let size = cursor.read_u16()?;
        let tag_offset = cursor.pos;
        let value_type_token = cursor.read_u8()?;
        let value_type = match BinXMLValueTypes::from_u8(value_type_token) {
            None => {
                return Err(
                    EvtxError::InvalidValueVariant {
                        value: value_type_token,
                        offset: tag_offset as u64,
                    },
                );
            },
            Some(t) => t,
        };
        let _unused = cursor.read_u8()?;
        descriptors.push(TemplateValueDescriptor { size, value_type });
        i += 1;
    }
    Ok(descriptors)
}

/// Moves past a template definition that is stored inline at the cursor,
/// where `def_offset` says that one is.
pub fn skip_inline_definition(cursor: &mut ByteCursor<'_>, def_offset: u32) -> (r: Result<
    (),
    EvtxError,
>)
    ensures
        final(cursor).data@ == old(cursor).data@,
        reads(
            r,
            final(cursor).pos,
            spec_skip_inline_definition(old(cursor).data@, old(cursor).pos as int, def_offset),
        ),
{
    if def_offset as usize != cursor.pos {
        return Ok(());
    }
    let header = BinXmlTemplateDefinitionHeader::read(cursor)?;
    let _body = cursor.read_bytes(header.data_size as usize)?;
    Ok(())
}

/// Reads a value of type `value_type`, nested fragments included.
pub(crate) fn read_value(
    cursor: &mut ByteCursor<'_>,
    chunk: Option<&EvtxChunk<'_>>,
    value_type: BinXMLValueTypes,
    size: Option<u16>,
    depth: u32,
) -> (r: Result<BinXmlValue, EvtxError>)
    requires
        chunk matches Some(c) ==> c.bytes() == old(cursor).data@,
    ensures
        final(cursor).data@ == old(cursor).data@,
        reads_as(
            r,
            final(cursor).pos,
            spec_value(old(cursor).data@, old(cursor).pos as int, value_type, size, depth as nat),
        ),
    decreases depth, 0nat, 0nat,
{
    match value_type {
        BinXMLValueTypes::BinXmlType => {
            if depth == 0 {
                return Err(EvtxError::NestingTooDeep);
            }
            let end = match size {
                Some(sz) => {
                    if !cursor.has(sz as usize) {
                        return Err(cursor.eof_error());
                    }
                    Some(cursor.pos + sz as usize)
                },
                None => None,
            };
            let tokens = read_tokens(cursor, chunk, end, depth - 1)?;
            Ok(BinXmlValue::BinXmlType(tokens))
        },
        _ => BinXmlValue::read_plain(cursor, value_type, size),
    }
}

/// Reads the values of a template instance, one for each descriptor.
pub(crate) fn read_substitution_values(
    cursor: &mut ByteCursor<'_>,
    chunk: Option<&EvtxChunk<'_>>,
    descriptors: &Vec<TemplateValueDescriptor>,
    depth: u32,
) -> (r: Result<Vec<BinXMLDeserializedTokens>, EvtxError>)
    requires
        chunk matches Some(c) ==> c.bytes() == old(cursor).data@,
    ensures
        final(cursor).data@ == old(cursor).data@,
        match spec_substitution_values(
            old(cursor).data@,
            old(cursor).pos as int,
            descriptors@,
            Seq::empty(),
            depth as nat,
        ) {
            Ok((v, p)) => r is Ok && tokens_view(r.unwrap()@) == v && final(cursor).pos == p,
            Err(e) => r == Err::<Vec<BinXMLDeserializedTokens>, EvtxError>(e),
        },
    decreases depth, 1nat, descriptors@.len(),
{
    let mut values: Vec<BinXMLDeserializedTokens> = Vec::new();
    let mut i: usize = 0;
    assert(descriptors@.subrange(0, descriptors@.len() as int) =~= descriptors@);
    assert(tokens_view(values@) =~= Seq::empty());
    while i < descriptors.len()
        invariant
            i <= descriptors.len(),
            cursor.data@ == old(cursor).data@,
            chunk matches Some(c) ==> c.bytes() == cursor.data@,
            spec_substitution_values(
                old(cursor).data@,
                old(cursor).pos as int,
                descriptors@,
                Seq::empty(),
                depth as nat,
            ) == spec_substitution_values(
                cursor.data@,
                cursor.pos as int,
                descriptors@.subrange(i as int, descriptors@.len() as int),
                tokens_view(values@),
                depth as nat,
            ),
        decreases descriptors.len() - i,
    {
        let descriptor = descriptors[i];
        let ghost rest = descriptors@.subrange(i as int, descriptors@.len() as int);
        assert(rest[0] == descriptor);
        assert(rest.drop_first() =~= descriptors@.subrange(i + 1, descriptors@.len() as int));
        if !cursor.has(descriptor.size as usize) {
            return Err(cursor.eof_error());
        }
        let start = cursor.pos;
        let value = read_value(cursor, chunk, descriptor.value_type, Some(descriptor.size), depth)?;
        cursor.pos = start + descriptor.size as usize;
        proof {
            lemma_tokens_view_push(values@, BinXMLDeserializedTokens::Value(value));
        }
        values.push(BinXMLDeserializedTokens::Value(value));
        i += 1;
    }
    Ok(values)
}

/// Reads a template instance, after its opcode.
pub(crate) fn read_template(cursor: &mut ByteCursor<'_>, chunk: Option<&EvtxChunk<'_>>, depth: u32) -> (r:
    Result<BinXMLDeserializedTokens, EvtxError>)
    requires
        chunk matches Some(c) ==> c.bytes() == old(cursor).data@,
    ensures
        final(cursor).data@ == old(cursor).data@,
        reads_as(
            r,
            final(cursor).pos,
            spec_template_instance(old(cursor).data@, old(cursor).pos as int, depth as nat),
        ),
    decreases depth, 2nat, 0nat,
{
    if !cursor.has(9) {
        return Err(cursor.eof_error());
    }
    let _unused = cursor.read_u8()?;
    let _template_id = cursor.read_u32()?;
    let template_def_offset = cursor.read_u32()?;
    skip_inline_definition(cursor, template_def_offset)?;
    let number_of_substitutions = cursor.read_u32()?;
    let descriptors = read_value_descriptors(cursor, number_of_substitutions)?;
    let substitution_array = read_substitution_values(cursor, chunk, &descriptors, depth)?;
    Ok(
        BinXMLDeserializedTokens::TemplateInstance(
            BinXmlTemplateRef { template_def_offset, substitution_array },
        ),
    )
}

/// Reads the opcode of the next token.
pub fn read_raw_token(cursor: &mut ByteCursor<'_>) -> (r: Result<BinXMLToken, EvtxError>)
    ensures
        final(cursor).data@ == old(cursor).data@,
        reads(r, final(cursor).pos, spec_raw_token(old(cursor).data@, old(cursor).pos as int)),
{
    let opcode_offset = cursor.pos;
    let opcode = cursor.read_u8()?;
    match BinXMLToken::from_u8(opcode) {
        None => Err(EvtxError::InvalidToken { value: opcode, offset: opcode_offset as u64 }),
        Some(raw) => Ok(raw),
    }
}

/// Reads the payload of the token whose opcode is `raw`.
pub(crate) fn read_token_payload(
    raw: BinXMLToken,
    cursor: &mut ByteCursor<'_>,
    chunk: Option<&EvtxChunk<'_>>,
    depth: u32,
) -> (r: Result<BinXMLDeserializedTokens, EvtxError>)
    requires
        chunk matches Some(c) ==> c.bytes() == old(cursor).data@,
    ensures
        final(cursor).data@ == old(cursor).data@,
        reads_as(
            r,
            final(cursor).pos,
            spec_token_payload(raw, old(cursor).data@, old(cursor).pos as int, depth as nat),
        ),
    decreases depth, 3nat, 0nat,
{
    match raw {
        BinXMLToken::TextValue => {
            let tag_offset = cursor.pos;
            let tag = cursor.read_u8()?;
            match BinXMLValueTypes::from_u8(tag) {
                None => Err(EvtxError::InvalidValueVariant { value: tag, offset: tag_offset as u64 }),
                Some(value_type) => {
                    let value = read_value(cursor, chunk, value_type, None, depth)?;
                    Ok(BinXMLDeserializedTokens::Value(value))
                },
            }
        },
        BinXMLToken::TemplateInstance => read_template(cursor, chunk, depth),
        _ => read_simple_token(raw, cursor, chunk),
    }
}

/// Reads one token: its opcode and its payload.
pub(crate) fn read_token(cursor: &mut ByteCursor<'_>, chunk: Option<&EvtxChunk<'_>>, depth: u32) -> (r:
    Result<BinXMLDeserializedTokens, EvtxError>)
    requires
        chunk matches Some(c) ==> c.bytes() == old(cursor).data@,
    ensures
        final(cursor).data@ == old(cursor).data@,
        reads_as(
            r,
            final(cursor).pos,
            spec_token(old(cursor).data@, old(cursor).pos as int, depth as nat),
        ),
    decreases depth, 4nat, 0nat,
{
    let raw = read_raw_token(cursor)?;
    read_token_payload(raw, cursor, chunk, depth)
}

/// Reads tokens up to the position `end` (where one is given) or up to and
/// with the first end-of-stream token.
pub(crate) fn read_tokens(
    cursor: &mut ByteCursor<'_>,
    chunk: Option<&EvtxChunk<'_>>,
    end: Option<usize>,
    depth: u32,
) -> (r: Result<Vec<BinXMLDeserializedTokens>, EvtxError>)
    requires
        chunk matches Some(c) ==> c.bytes() == old(cursor).data@,
    ensures
        final(cursor).data@ == old(cursor).data@,
        match spec_tokens(
            old(cursor).data@,
            old(cursor).pos as int,
            match end {
                Some(e) => Some(e as int),
                None => None,
            },
            Seq::empty(),
            depth as nat,
        ) {
            Ok((v, p)) => r is Ok && tokens_view(r.unwrap()@) == v && final(cursor).pos == p,
            Err(e) => r == Err::<Vec<BinXMLDeserializedTokens>, EvtxError>(e),
        },
    decreases depth, 5nat, 0nat,
{
    let ghost spec_end = match end {
        Some(e) => Some(e as int),
        None => None,
    };
    let mut tokens: Vec<BinXMLDeserializedTokens> = Vec::new();
    assert(tokens_view(tokens@) =~= Seq::empty());
    loop
        invariant
            cursor.data@ == old(cursor).data@,
            chunk matches Some(c) ==> c.bytes() == cursor.data@,
            spec_end == match end {
                Some(e) => Some(e as int),
                None => None,
            },
            spec_tokens(
                old(cursor).data@,
                old(cursor).pos as int,
                spec_end,
                Seq::empty(),
                depth as nat,
            ) == spec_tokens(
                cursor.data@,
                cursor.pos as int,
                spec_end,
                tokens_view(tokens@),
                depth as nat,
            ),
        decreases (if cursor.pos < cursor.data@.len() { cursor.data@.len() - cursor.pos } else { 0 }),
    {
        if let Some(e) = end {
            if cursor.pos >= e {
                return Ok(tokens);
            }
        }
        if !cursor.has(1) {
            return Err(cursor.eof_error());
        }
        let start = cursor.pos;
        let token = read_token(cursor, chunk, depth)?;
        let is_end = match &token {
            BinXMLDeserializedTokens::EndOfStream => true,
            _ => false,
        };
        proof {
            lemma_tokens_view_push(tokens@, token);
            lemma_token_advances(cursor.data@, start as int, depth as nat);
        }
        tokens.push(token);
        if is_end {
            return Ok(tokens);
        }
    }
}

/// Reads a template definition: its header and the tokens of its body.
pub(crate) fn read_template_definition(cursor: &mut ByteCursor<'_>, chunk: Option<&EvtxChunk<'_>>) -> (r:
    Result<BinXMLTemplateDefinition, EvtxError>)
    requires
        chunk matches Some(c) ==> c.bytes() == old(cursor).data@,
    ensures
        final(cursor).data@ == old(cursor).data@,
        reads_as(
            r,
            final(cursor).pos,
            spec_template_definition(old(cursor).data@, old(cursor).pos as int),
        ),
{
    let header = BinXmlTemplateDefinitionHeader::read(cursor)?;
    if !cursor.has(header.data_size as usize) {
        return Err(cursor.eof_error());
    }
    let end = cursor.pos + header.data_size as usize;
    let tokens = read_tokens(cursor, chunk, Some(end), MAX_NESTING)?;
    Ok(BinXMLTemplateDefinition { header, tokens })
}

/// Decodes the template definition that `data` holds at `offset`, with
/// every name decoded where it is stored.
pub fn read_template_definition_at(data: &[u8], offset: crate::ChunkOffset) -> (r: Result<
    BinXMLTemplateDefinition,
    EvtxError,
>)
    ensures
        match spec_template_definition(data@, offset as int) {
            Ok((definition, _)) => r is Ok && r.unwrap()@ == definition,
            Err(e) => r == Err::<BinXMLTemplateDefinition, EvtxError>(e),
        },
{
    let mut cursor = ByteCursor::new(data, offset as usize);
    read_template_definition(&mut cursor, None)
}

} // verus!
