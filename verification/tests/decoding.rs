use evtx::binxml::deserializer::BinXmlDeserializer;
use evtx::binxml::model::{BinXMLToken, BinXMLValueTypes, FromStream};
use evtx::binxml::name::BinXmlName;
use evtx::binxml::parse_binxml;
use evtx::binxml::tokens::{
    read_raw_token, read_substitution, read_template_definition_at, read_value_descriptors,
};
use evtx::binxml::value_variant::{read_sid, BinXmlValue, Sid, SysTime};
use evtx::datetime::{filetime_parts, DateTime};
use evtx::err::EvtxError;
use evtx::guid::Guid;
use evtx::model::deserialized::{
    BinXMLAttribute, BinXMLDeserializedTokens, BinXMLFragmentHeader, BinXMLOpenStartElement,
    BinXMLProcessingInstructionTarget, BinXmlEntityReference, BinXmlTemplateDefinitionHeader,
    BinXmlTemplateRef, TemplateSubstitutionDescriptor, TemplateValueDescriptor,
};
use evtx::stream::ByteCursor;
use evtx::string_cache::StringCache;
use evtx::utils::{dump_window, read_ansi_by_size, read_len_prefixed_utf16_string, read_utf16_by_size};

fn utf16(text: &str) -> Vec<u8> {
    text.encode_utf16().flat_map(|u| u.to_le_bytes()).collect()
}

fn name(text: &str) -> BinXmlName {
    BinXmlName { text: text.to_string() }
}

/// A name record: next offset, hash, length, text, terminator.
fn name_record(text: &str, hash: u16) -> Vec<u8> {
    let mut b = vec![0, 0, 0, 0];
    b.extend_from_slice(&hash.to_le_bytes());
    b.extend_from_slice(&(text.encode_utf16().count() as u16).to_le_bytes());
    b.extend_from_slice(&utf16(text));
    b.extend_from_slice(&[0, 0]);
    b
}

/// A reference to a name that follows inline, for a reference at `at`.
fn inline_name(at: usize, text: &str) -> Vec<u8> {
    let mut b = ((at + 4) as u32).to_le_bytes().to_vec();
    b.extend_from_slice(&name_record(text, 7));
    b
}

fn value(value_type: BinXMLValueTypes, size: Option<u16>, bytes: &[u8]) -> Result<BinXmlValue, EvtxError> {
    let mut cursor = ByteCursor::new(bytes, 0);
    BinXmlValue::read_plain(&mut cursor, value_type, size)
}

#[test]
fn value_type_tags() {
    assert_eq!(BinXMLValueTypes::from_u8(0x00), Some(BinXMLValueTypes::NullType));
    assert_eq!(BinXMLValueTypes::from_u8(0x01), Some(BinXMLValueTypes::StringType));
    assert_eq!(BinXMLValueTypes::from_u8(0x0f), Some(BinXMLValueTypes::GuidType));
    assert_eq!(BinXMLValueTypes::from_u8(0x15), Some(BinXMLValueTypes::HexInt64Type));
    assert_eq!(BinXMLValueTypes::from_u8(0x16), None);
    assert_eq!(BinXMLValueTypes::from_u8(0x20), Some(BinXMLValueTypes::EvtHandle));
    assert_eq!(BinXMLValueTypes::from_u8(0x21), Some(BinXMLValueTypes::BinXmlType));
    assert_eq!(BinXMLValueTypes::from_u8(0x22), None);
    assert_eq!(BinXMLValueTypes::from_u8(0x23), Some(BinXMLValueTypes::EvtXml));
    assert_eq!(BinXMLValueTypes::from_u8(0xff), None);
}

#[test]
fn token_opcodes() {
    assert_eq!(BinXMLToken::from_u8(0x00), Some(BinXMLToken::EndOfStream));
    assert_eq!(BinXMLToken::from_u8(0x01), Some(BinXMLToken::OpenStartElement(false)));
    assert_eq!(BinXMLToken::from_u8(0x41), Some(BinXMLToken::OpenStartElement(true)));
    assert_eq!(BinXMLToken::from_u8(0x05), Some(BinXMLToken::TextValue));
    assert_eq!(BinXMLToken::from_u8(0x45), Some(BinXMLToken::TextValue));
    assert_eq!(BinXMLToken::from_u8(0x46), Some(BinXMLToken::Attribute));
    assert_eq!(BinXMLToken::from_u8(0x08), Some(BinXMLToken::EntityReference));
    assert_eq!(BinXMLToken::from_u8(0x09), None);
    assert_eq!(BinXMLToken::from_u8(0x49), Some(BinXMLToken::ProcessingInstructionTarget));
    assert_eq!(BinXMLToken::from_u8(0x0f), Some(BinXMLToken::StartOfStream));
    assert_eq!(BinXMLToken::from_u8(0x10), None);
    assert_eq!(BinXMLToken::from_u8(0x42), None);
}

#[test]
fn guid_text_and_layout() {
    let guid = Guid::new(0x0123abcd, 0x00ef, 0xf00d, &[0x01, 0x23, 0x45, 0x67, 0x89, 0xab, 0xcd, 0xef, 0xff]);
    assert_eq!(guid.data4, 0x0123456789abcdef);
    assert_eq!(guid.to_string(), "0123ABCD-00EF-F00D-0123-456789ABCDEF");

    let bytes = [
        0xcd, 0xab, 0x23, 0x01, 0xef, 0x00, 0x0d, 0xf0, 0x01, 0x23, 0x45, 0x67, 0x89, 0xab, 0xcd,
        0xef,
    ];
    let mut cursor = ByteCursor::new(&bytes, 0);
    assert_eq!(Guid::read(&mut cursor), Ok(guid));
    assert_eq!(cursor.pos, 16);
    let mut short = ByteCursor::new(&bytes[..15], 0);
    assert_eq!(Guid::read(&mut short), Err(EvtxError::UnexpectedEof { offset: 0 }));
}

#[test]
fn little_endian_numbers() {
    let bytes = [0x01, 0x02, 0x03, 0x04, 0x05, 0x06, 0x07, 0x08, 0x09];
    let mut cursor = ByteCursor::new(&bytes, 1);
    assert_eq!(cursor.read_u16(), Ok(0x0302));
    assert_eq!(cursor.pos, 3);
    let mut cursor = ByteCursor::new(&bytes, 1);
    assert_eq!(cursor.read_u32(), Ok(0x05040302));
    let mut cursor = ByteCursor::new(&bytes, 1);
    assert_eq!(cursor.read_u64(), Ok(0x0908070605040302));
    assert_eq!(cursor.pos, 9);
    assert_eq!(cursor.read_u8(), Err(EvtxError::UnexpectedEof { offset: 9 }));
    let mut cursor = ByteCursor::new(&bytes, 6);
    assert_eq!(cursor.read_u32(), Err(EvtxError::UnexpectedEof { offset: 6 }));
    assert_eq!(cursor.pos, 6);
    assert_eq!(cursor.read_bytes(3), Ok(&bytes[6..9]));
    let mut beyond = ByteCursor::new(&bytes, 100);
    assert_eq!(beyond.read_bytes(0), Err(EvtxError::UnexpectedEof { offset: 100 }));
}

#[test]
fn numbers_of_every_width() {
    assert_eq!(value(BinXMLValueTypes::NullType, None, &[]), Ok(BinXmlValue::NullType));
    assert_eq!(value(BinXMLValueTypes::Int8Type, None, &[0xff]), Ok(BinXmlValue::Int8Type(-1)));
    assert_eq!(value(BinXMLValueTypes::UInt8Type, None, &[0xff]), Ok(BinXmlValue::UInt8Type(255)));
    assert_eq!(
        value(BinXMLValueTypes::Int16Type, None, &[0xfe, 0xff]),
        Ok(BinXmlValue::Int16Type(-2))
    );
    assert_eq!(
        value(BinXMLValueTypes::UInt16Type, None, &[0xfe, 0xff]),
        Ok(BinXmlValue::UInt16Type(65534))
    );
    assert_eq!(
        value(BinXMLValueTypes::Int32Type, None, &[0x00, 0x00, 0x00, 0x80]),
        Ok(BinXmlValue::Int32Type(i32::MIN))
    );
    assert_eq!(
        value(BinXMLValueTypes::UInt32Type, None, &[0x78, 0x56, 0x34, 0x12]),
        Ok(BinXmlValue::UInt32Type(0x12345678))
    );
    assert_eq!(
        value(BinXMLValueTypes::Int64Type, None, &[0xfd, 0xff, 0xff, 0xff, 0xff, 0xff, 0xff, 0xff]),
        Ok(BinXmlValue::Int64Type(-3))
    );
    assert_eq!(
        value(BinXMLValueTypes::UInt64Type, None, &[1, 0, 0, 0, 0, 0, 0, 0x80]),
        Ok(BinXmlValue::UInt64Type(0x8000000000000001))
    );
    assert_eq!(
        value(BinXMLValueTypes::Real32Type, None, &1.5f32.to_le_bytes()),
        Ok(BinXmlValue::Real32Type(1.5f32.to_bits()))
    );
    assert_eq!(
        value(BinXMLValueTypes::Real64Type, None, &(-0.25f64).to_le_bytes()),
        Ok(BinXmlValue::Real64Type((-0.25f64).to_bits()))
    );
    assert_eq!(
        value(BinXMLValueTypes::HexInt32Type, None, &[0xef, 0xbe, 0xad, 0xde]),
        Ok(BinXmlValue::HexInt32Type(0xdeadbeef))
    );
    assert_eq!(
        value(BinXMLValueTypes::HexInt64Type, None, &[1, 2, 3, 4, 5, 6, 7, 8]),
        Ok(BinXmlValue::HexInt64Type(0x0807060504030201))
    );
    assert_eq!(
        value(BinXMLValueTypes::FileTimeType, None, &131_000_000_000_000_000u64.to_le_bytes()),
        Ok(BinXmlValue::FileTimeType(131_000_000_000_000_000))
    );
    assert_eq!(
        value(BinXMLValueTypes::UInt32Type, None, &[1, 2, 3]),
        Err(EvtxError::UnexpectedEof { offset: 0 })
    );
}

#[test]
fn booleans_sizes_and_byte_strings() {
    assert_eq!(value(BinXMLValueTypes::BoolType, None, &[0, 0, 0, 0]), Ok(BinXmlValue::BoolType(false)));
    assert_eq!(value(BinXMLValueTypes::BoolType, None, &[1, 0, 0, 0]), Ok(BinXmlValue::BoolType(true)));
    assert_eq!(value(BinXMLValueTypes::BoolType, None, &[0, 0, 2, 0]), Ok(BinXmlValue::BoolType(true)));
    assert_eq!(
        value(BinXMLValueTypes::SizeTType, Some(4), &[4, 3, 2, 1]),
        Ok(BinXmlValue::SizeTType(0x01020304))
    );
    assert_eq!(
        value(BinXMLValueTypes::SizeTType, Some(8), &[8, 7, 6, 5, 4, 3, 2, 1]),
        Ok(BinXmlValue::SizeTType(0x0102030405060708))
    );
    assert_eq!(
        value(BinXMLValueTypes::SizeTType, Some(2), &[8, 7]),
        Err(EvtxError::UnimplementedValueVariant { offset: 0 })
    );
    assert_eq!(
        value(BinXMLValueTypes::SizeTType, None, &[8, 7, 6, 5]),
        Err(EvtxError::UnimplementedValueVariant { offset: 0 })
    );
    assert_eq!(
        value(BinXMLValueTypes::BinaryType, Some(3), &[9, 8, 7, 6]),
        Ok(BinXmlValue::BinaryType(vec![9, 8, 7]))
    );
    assert_eq!(
        value(BinXMLValueTypes::BinaryType, Some(5), &[9, 8, 7, 6]),
        Err(EvtxError::UnexpectedEof { offset: 0 })
    );
    assert_eq!(
        value(BinXMLValueTypes::BinaryType, None, &[9, 8, 7, 6]),
        Err(EvtxError::UnimplementedValueVariant { offset: 0 })
    );
    assert_eq!(
        value(BinXMLValueTypes::EvtHandle, None, &[0; 8]),
        Err(EvtxError::UnimplementedValueVariant { offset: 0 })
    );
    assert_eq!(
        value(BinXMLValueTypes::EvtXml, Some(8), &[0; 8]),
        Err(EvtxError::UnimplementedValueVariant { offset: 0 })
    );
    assert_eq!(
        value(BinXMLValueTypes::BinXmlType, None, &[0; 8]),
        Err(EvtxError::UnimplementedValueVariant { offset: 0 })
    );
}

#[test]
fn times_and_security_identifiers() {
    let mut bytes = Vec::new();
    for field in [2019u16, 3, 5, 8, 13, 21, 34, 550] {
        bytes.extend_from_slice(&field.to_le_bytes());
    }
    let expected = SysTime {
        year: 2019,
        month: 3,
        day_of_week: 5,
        day: 8,
        hour: 13,
        minute: 21,
        second: 34,
        milliseconds: 550,
    };
    assert_eq!(value(BinXMLValueTypes::SysTimeType, None, &bytes), Ok(BinXmlValue::SysTimeType(expected)));
    assert_eq!(
        value(BinXMLValueTypes::SysTimeType, None, &bytes[..15]),
        Err(EvtxError::UnexpectedEof { offset: 0 })
    );

    // S-1-5-21-1000
    let sid = [1, 2, 0, 0, 0, 0, 0, 5, 21, 0, 0, 0, 0xe8, 0x03, 0, 0];
    let mut cursor = ByteCursor::new(&sid, 0);
    assert_eq!(
        read_sid(&mut cursor),
        Ok(Sid { revision: 1, authority: 5, sub_authorities: vec![21, 1000] })
    );
    assert_eq!(cursor.pos, 16);
    let wide = [1, 0, 0x01, 0x02, 0x03, 0x04, 0x05, 0x06];
    let mut cursor = ByteCursor::new(&wide, 0);
    assert_eq!(
        read_sid(&mut cursor),
        Ok(Sid { revision: 1, authority: 0x010203040506, sub_authorities: vec![] })
    );
    let mut cursor = ByteCursor::new(&sid[..14], 0);
    assert_eq!(read_sid(&mut cursor), Err(EvtxError::UnexpectedEof { offset: 8 }));
    let mut cursor = ByteCursor::new(&sid[..7], 0);
    assert_eq!(read_sid(&mut cursor), Err(EvtxError::UnexpectedEof { offset: 0 }));
}

#[test]
fn strings_by_size() {
    let bytes = utf16("héllo €");
    let mut cursor = ByteCursor::new(&bytes, 0);
    assert_eq!(read_utf16_by_size(&mut cursor, bytes.len()), Ok("héllo €".to_string()));
    assert_eq!(cursor.pos, bytes.len());
    let mut cursor = ByteCursor::new(&bytes, 2);
    assert_eq!(read_utf16_by_size(&mut cursor, 0), Ok(String::new()));
    assert_eq!(cursor.pos, 2);
    // A lone low surrogate is no UTF-16.
    let broken = [0x41, 0x00, 0x00, 0xdc];
    let mut cursor = ByteCursor::new(&broken, 0);
    assert_eq!(
        read_utf16_by_size(&mut cursor, 4),
        Err(EvtxError::InvalidStringEncoding { offset: 0 })
    );
    let mut cursor = ByteCursor::new(&broken, 0);
    assert_eq!(read_utf16_by_size(&mut cursor, 6), Err(EvtxError::UnexpectedEof { offset: 0 }));

    assert_eq!(
        value(BinXMLValueTypes::StringType, Some(4), &utf16("ab")),
        Ok(BinXmlValue::StringType("ab".to_string()))
    );
    let ansi = [b'c', b'a', b'f', 0xe9];
    let mut cursor = ByteCursor::new(&ansi, 0);
    assert_eq!(read_ansi_by_size(&mut cursor, 4), Ok("café".to_string()));
    assert_eq!(
        value(BinXMLValueTypes::AnsiStringType, Some(4), &ansi),
        Ok(BinXmlValue::AnsiStringType("café".to_string()))
    );
    assert_eq!(
        value(BinXMLValueTypes::AnsiStringType, None, &ansi),
        Err(EvtxError::UnimplementedValueVariant { offset: 0 })
    );
}

#[test]
fn strings_with_length_prefix() {
    let mut bytes = vec![3, 0];
    bytes.extend_from_slice(&utf16("abc"));
    bytes.extend_from_slice(&[0, 0, 0x55]);
    let mut cursor = ByteCursor::new(&bytes, 0);
    assert_eq!(read_len_prefixed_utf16_string(&mut cursor, true), Ok(Some("abc".to_string())));
    assert_eq!(cursor.pos, 10);
    let mut cursor = ByteCursor::new(&bytes, 0);
    assert_eq!(read_len_prefixed_utf16_string(&mut cursor, false), Ok(Some("abc".to_string())));
    assert_eq!(cursor.pos, 8);
    assert_eq!(
        value(BinXMLValueTypes::StringType, None, &bytes),
        Ok(BinXmlValue::StringType("abc".to_string()))
    );

    let empty = [0, 0, 0x41, 0x00];
    let mut cursor = ByteCursor::new(&empty, 0);
    assert_eq!(read_len_prefixed_utf16_string(&mut cursor, true), Ok(None));
    assert_eq!(cursor.pos, 2);
    assert_eq!(
        value(BinXMLValueTypes::StringType, None, &empty),
        Ok(BinXmlValue::StringType(String::new()))
    );

    // The text must take as many bytes in UTF-8 as the length says units.
    let mut accented = vec![1, 0];
    accented.extend_from_slice(&utf16("é"));
    let mut cursor = ByteCursor::new(&accented, 0);
    assert_eq!(
        read_len_prefixed_utf16_string(&mut cursor, false),
        Err(EvtxError::InvalidStringEncoding { offset: 2 })
    );

    let truncated = [4, 0, 0x41, 0x00];
    let mut cursor = ByteCursor::new(&truncated, 0);
    assert_eq!(
        read_len_prefixed_utf16_string(&mut cursor, false),
        Err(EvtxError::UnexpectedEof { offset: 2 })
    );
    let unterminated = [1, 0, 0x41, 0x00, 0x00];
    let mut cursor = ByteCursor::new(&unterminated, 0);
    assert_eq!(
        read_len_prefixed_utf16_string(&mut cursor, true),
        Err(EvtxError::UnexpectedEof { offset: 4 })
    );
    let mut cursor = ByteCursor::new(&[1], 0);
    assert_eq!(
        read_len_prefixed_utf16_string(&mut cursor, true),
        Err(EvtxError::UnexpectedEof { offset: 0 })
    );
}

#[test]
fn name_records_and_string_cache() {
    let mut data = vec![0xaa; 16];
    data.extend_from_slice(&name_record("Provider", 0xbeef));
    let second = data.len() as u32;
    data.extend_from_slice(&name_record("Name", 0x0102));
    let broken = data.len() as u32;
    data.extend_from_slice(&[0, 0, 0, 0, 1, 0, 1, 0, 0x00, 0xdc, 0, 0]);

    let mut cursor = ByteCursor::new(&data, 16);
    assert_eq!(BinXmlName::from_stream(&mut cursor), Ok((name("Provider"), 0xbeef)));
    assert_eq!(cursor.pos as u32, second);
    let mut cursor = ByteCursor::new(&data, broken as usize);
    assert_eq!(
        BinXmlName::from_stream(&mut cursor),
        Err(EvtxError::InvalidName { offset: broken as u64 + 8 })
    );

    let cache = StringCache::populate(&data, &[0, 16, second, 0, broken, 16, 4000]).unwrap();
    assert_eq!(cache.len(), 2);
    let first = cache.get_string_and_hash(16).unwrap();
    assert_eq!((first.hash, first.text.as_str()), (0xbeef, "Provider"));
    let other = cache.get_string_and_hash(second).unwrap();
    assert_eq!((other.hash, other.text.as_str()), (0x0102, "Name"));
    assert!(cache.get_string_and_hash(0).is_none());
    assert!(cache.get_string_and_hash(broken).is_none());
    assert!(cache.get_string_and_hash(4000).is_none());
    assert_eq!(StringCache::new().len(), 0);
    for offset in [16u32, second, broken] {
        let mut cursor = ByteCursor::new(&data, offset as usize);
        let on_demand = BinXmlName::from_stream(&mut cursor).ok();
        let cached = cache.get_string_and_hash(offset);
        assert_eq!(
            cached.map(|c| (c.text.clone(), c.hash)),
            on_demand.map(|(n, hash)| (n.text, hash))
        );
    }
}

#[test]
fn tokens_of_a_fragment() {
    let mut data = vec![0x0f, 0x01, 0x01, 0x00];
    data.push(0x41);
    data.extend_from_slice(&[0xff, 0xff, 0x2a, 0, 0, 0]);
    data.extend_from_slice(&inline_name(data.len(), "Event"));
    data.extend_from_slice(&[0x10, 0, 0, 0]);
    data.push(0x46);
    data.extend_from_slice(&inline_name(data.len(), "Id"));
    data.extend_from_slice(&[0x05, 0x04, 0x07]);
    data.push(0x02);
    data.push(0x08);
    data.extend_from_slice(&inline_name(data.len(), "amp"));
    data.push(0x0a);
    data.extend_from_slice(&inline_name(data.len(), "target"));
    data.push(0x0b);
    data.extend_from_slice(&[2, 0]);
    data.extend_from_slice(&utf16("pi"));
    data.extend_from_slice(&[0x0e, 0x03, 0x00, 0x00]);
    data.extend_from_slice(&[0x0e, 0x04, 0x00, 0x08]);
    data.extend_from_slice(&[0x0d, 0x05, 0x00, 0x00]);
    data.push(0x03);
    data.push(0x04);
    data.push(0x00);
    data.push(0x04);

    let expected = vec![
        BinXMLDeserializedTokens::FragmentHeader(BinXMLFragmentHeader {
            major_version: 1,
            minor_version: 1,
            flags: 0,
        }),
        BinXMLDeserializedTokens::OpenStartElement(BinXMLOpenStartElement {
            data_size: 0x2a,
            name: name("Event"),
        }),
        BinXMLDeserializedTokens::Attribute(BinXMLAttribute { name: name("Id") }),
        BinXMLDeserializedTokens::Value(BinXmlValue::UInt8Type(7)),
        BinXMLDeserializedTokens::CloseStartElement,
        BinXMLDeserializedTokens::EntityRef(BinXmlEntityReference { name: name("amp") }),
        BinXMLDeserializedTokens::PITarget(BinXMLProcessingInstructionTarget {
            name: name("target"),
        }),
        BinXMLDeserializedTokens::PIData("pi".to_string()),
        BinXMLDeserializedTokens::Substitution(TemplateSubstitutionDescriptor {
            substitution_index: 3,
            value_type: BinXMLValueTypes::NullType,
            ignore: true,
        }),
        BinXMLDeserializedTokens::Substitution(TemplateSubstitutionDescriptor {
            substitution_index: 4,
            value_type: BinXMLValueTypes::UInt32Type,
            ignore: false,
        }),
        BinXMLDeserializedTokens::Substitution(TemplateSubstitutionDescriptor {
            substitution_index: 5,
            value_type: BinXMLValueTypes::NullType,
            ignore: false,
        }),
        BinXMLDeserializedTokens::CloseEmptyElement,
        BinXMLDeserializedTokens::CloseElement,
        BinXMLDeserializedTokens::EndOfStream,
    ];
    assert_eq!(parse_binxml(&data, 0), Ok(expected.clone()));

    // With a budget, decoding stops where the budget ends.
    let budget = (data.len() - 3) as u32;
    let up_to_budget =
        BinXmlDeserializer::init_without_cache(&data, 0).read_binxml_fragment(Some(budget));
    assert_eq!(up_to_budget, Ok(expected[..12].to_vec()));
    let too_much = BinXmlDeserializer::init_without_cache(&data, 0)
        .read_binxml_fragment(Some(data.len() as u32 + 1));
    assert_eq!(too_much, Err(EvtxError::UnexpectedEof { offset: 0 }));

    // One by one.
    let mut iter = BinXmlDeserializer::init_without_cache(&data, 0).iter_tokens(None);
    let mut seen = vec![];
    while let Some(token) = iter.next() {
        seen.push(token.unwrap());
    }
    assert_eq!(seen, expected);
    assert!(iter.next().is_none());

    let mut iter = BinXmlDeserializer::init_without_cache(&data, 0).iter_tokens(Some(5));
    assert!(iter.next().unwrap().is_ok());
    assert!(iter.next().unwrap().is_ok());
    assert!(iter.next().is_none());

    let wrapped = BinXmlDeserializer::wrap_cursor(ByteCursor::new(&data, data.len() - 3));
    assert_eq!(
        wrapped.read_binxml_fragment(None),
        Ok(vec![BinXMLDeserializedTokens::CloseElement, BinXMLDeserializedTokens::EndOfStream])
    );
}

#[test]
fn decoding_errors() {
    assert_eq!(parse_binxml(&[0x04, 0x10, 0x00], 0), Err(EvtxError::InvalidToken { value: 0x10, offset: 1 }));
    assert_eq!(parse_binxml(&[0x04, 0x04], 0), Err(EvtxError::UnexpectedEof { offset: 2 }));
    assert_eq!(parse_binxml(&[0x04, 0x04], 7), Err(EvtxError::UnexpectedEof { offset: 7 }));
    assert_eq!(parse_binxml(&[0x0f, 0x01], 0), Err(EvtxError::UnexpectedEof { offset: 1 }));
    assert_eq!(parse_binxml(&[0x07, 0x00], 0), Err(EvtxError::UnimplementedToken));
    assert_eq!(
        parse_binxml(&[0x05, 0x16, 0x00], 0),
        Err(EvtxError::InvalidValueVariant { value: 0x16, offset: 1 })
    );
    assert_eq!(
        parse_binxml(&[0x0d, 0x00, 0x00, 0x30], 0),
        Err(EvtxError::InvalidValueVariant { value: 0x30, offset: 3 })
    );
    assert_eq!(
        parse_binxml(&[0x05, 0x20, 0x00], 0),
        Err(EvtxError::UnimplementedValueVariant { offset: 2 })
    );
    assert_eq!(
        parse_binxml(&[0x05, 0x01, 0x01, 0x00, 0x00, 0xd8], 0),
        Err(EvtxError::InvalidStringEncoding { offset: 4 })
    );
    let mut bad_name = vec![0x06];
    bad_name.extend_from_slice(&[5, 0, 0, 0]);
    bad_name.extend_from_slice(&[0, 0, 0, 0, 1, 0, 1, 0, 0x00, 0xdc, 0, 0]);
    assert_eq!(parse_binxml(&bad_name, 0), Err(EvtxError::InvalidName { offset: 13 }));

    let mut iter = BinXmlDeserializer::init_without_cache(&[0x04, 0x10, 0x04], 0).iter_tokens(None);
    assert_eq!(iter.next(), Some(Ok(BinXMLDeserializedTokens::CloseElement)));
    assert_eq!(iter.next(), Some(Err(EvtxError::InvalidToken { value: 0x10, offset: 1 })));
    assert_eq!(iter.next(), None);

    // A token whose payload fails leaves the iterator after its opcode.
    let mut iter = BinXmlDeserializer::init_without_cache(&[0x04, 0x05, 0x16], 0).iter_tokens(Some(9));
    assert!(iter.read_next_token().is_ok());
    assert_eq!(iter.read_next_token(), Ok(evtx::binxml::model::BinXMLToken::TextValue));
    assert_eq!(
        iter.visit_token(evtx::binxml::model::BinXMLToken::TextValue),
        Err(EvtxError::InvalidValueVariant { value: 0x16, offset: 2 })
    );
    assert_eq!(iter.read_next_token(), Err(EvtxError::InvalidToken { value: 0x16, offset: 2 }));
    assert_eq!(iter.read_next_token(), Err(EvtxError::InvalidToken { value: 0x16, offset: 2 }));
    assert_eq!(EvtxError::InvalidToken { value: 0x10, offset: 1 }.offset(), Some(1));
    assert_eq!(EvtxError::UnbalancedElements.offset(), None);
}

#[test]
fn nested_fragments_are_followed_to_a_limit() {
    // A value that holds a fragment that holds a value, and so on.
    let mut shallow = vec![];
    for _ in 0..3 {
        shallow.extend_from_slice(&[0x05, 0x21]);
    }
    shallow.extend_from_slice(&[0x00, 0x00, 0x00, 0x00]);
    let inner = BinXmlValue::BinXmlType(vec![BinXMLDeserializedTokens::EndOfStream]);
    let middle = BinXmlValue::BinXmlType(vec![
        BinXMLDeserializedTokens::Value(inner),
        BinXMLDeserializedTokens::EndOfStream,
    ]);
    let outer = BinXmlValue::BinXmlType(vec![
        BinXMLDeserializedTokens::Value(middle),
        BinXMLDeserializedTokens::EndOfStream,
    ]);
    assert_eq!(
        parse_binxml(&shallow, 0),
        Ok(vec![BinXMLDeserializedTokens::Value(outer), BinXMLDeserializedTokens::EndOfStream])
    );

    let mut deep = vec![];
    for _ in 0..40 {
        deep.extend_from_slice(&[0x05, 0x21]);
    }
    deep.extend_from_slice(&[0x00; 41]);
    assert_eq!(parse_binxml(&deep, 0), Err(EvtxError::NestingTooDeep));
}

#[test]
fn template_instances_and_their_values() {
    // The substitution array: a string, a deleted value, a number with
    // padding, a nested fragment.
    let mut data = vec![0x0c, 0x01];
    data.extend_from_slice(&77u32.to_le_bytes());
    data.extend_from_slice(&0x1234u32.to_le_bytes());
    data.extend_from_slice(&4u32.to_le_bytes());
    data.extend_from_slice(&[4, 0, 0x01, 0]);
    data.extend_from_slice(&[3, 0, 0x00, 0]);
    data.extend_from_slice(&[6, 0, 0x06, 0]);
    data.extend_from_slice(&[2, 0, 0x21, 0]);
    data.extend_from_slice(&utf16("hi"));
    data.extend_from_slice(&[0xaa, 0xbb, 0xcc]);
    data.extend_from_slice(&[0x39, 0x30, 0xee, 0xee, 0xee, 0xee]);
    data.extend_from_slice(&[0x04, 0x03]);
    data.push(0x00);

    let expected = BinXMLDeserializedTokens::TemplateInstance(BinXmlTemplateRef {
        template_def_offset: 0x1234,
        substitution_array: vec![
            BinXMLDeserializedTokens::Value(BinXmlValue::StringType("hi".to_string())),
            BinXMLDeserializedTokens::Value(BinXmlValue::NullType),
            BinXMLDeserializedTokens::Value(BinXmlValue::UInt16Type(12345)),
            BinXMLDeserializedTokens::Value(BinXmlValue::BinXmlType(vec![
                BinXMLDeserializedTokens::CloseElement,
                BinXMLDeserializedTokens::CloseEmptyElement,
            ])),
        ],
    });
    assert_eq!(parse_binxml(&data, 0), Ok(vec![expected, BinXMLDeserializedTokens::EndOfStream]));

    // A value that is declared longer than the data.
    let mut short = vec![0x0c, 0x01];
    short.extend_from_slice(&77u32.to_le_bytes());
    short.extend_from_slice(&0x1234u32.to_le_bytes());
    short.extend_from_slice(&1u32.to_le_bytes());
    short.extend_from_slice(&[9, 0, 0x01, 0]);
    short.extend_from_slice(&utf16("hi"));
    assert_eq!(parse_binxml(&short, 0), Err(EvtxError::UnexpectedEof { offset: 18 }));

    let descriptors = [4, 0, 0x01, 0, 8, 0, 0x0a, 0];
    let mut cursor = ByteCursor::new(&descriptors, 0);
    assert_eq!(
        read_value_descriptors(&mut cursor, 2),
        Ok(vec![
            TemplateValueDescriptor { size: 4, value_type: BinXMLValueTypes::StringType },
            TemplateValueDescriptor { size: 8, value_type: BinXMLValueTypes::UInt64Type },
        ])
    );
    let mut cursor = ByteCursor::new(&descriptors, 0);
    assert_eq!(read_value_descriptors(&mut cursor, 3), Err(EvtxError::UnexpectedEof { offset: 8 }));
    let mut cursor = ByteCursor::new(&[4, 0, 0x40, 0], 0);
    assert_eq!(
        read_value_descriptors(&mut cursor, 1),
        Err(EvtxError::InvalidValueVariant { value: 0x40, offset: 2 })
    );
}

#[test]
fn template_definitions() {
    let mut data = vec![0u8; 10];
    data.extend_from_slice(&0x600u32.to_le_bytes());
    data.extend_from_slice(&[0xcd, 0xab, 0x23, 0x01, 0xef, 0x00, 0x0d, 0xf0, 1, 2, 3, 4, 5, 6, 7, 8]);
    data.extend_from_slice(&3u32.to_le_bytes());
    data.extend_from_slice(&[0x02, 0x04, 0x03, 0x04, 0x04]);
    let definition = read_template_definition_at(&data, 10).unwrap();
    assert_eq!(
        definition.header,
        BinXmlTemplateDefinitionHeader {
            next_template_offset: 0x600,
            guid: Guid::new(0x0123abcd, 0x00ef, 0xf00d, &[1, 2, 3, 4, 5, 6, 7, 8]),
            data_size: 3,
        }
    );
    assert_eq!(
        definition.tokens,
        vec![
            BinXMLDeserializedTokens::CloseStartElement,
            BinXMLDeserializedTokens::CloseElement,
            BinXMLDeserializedTokens::CloseEmptyElement,
        ]
    );
    assert_eq!(read_template_definition_at(&data[..36], 10), Err(EvtxError::UnexpectedEof { offset: 34 }));
    assert_eq!(read_template_definition_at(&data[..30], 10), Err(EvtxError::UnexpectedEof { offset: 10 }));
    let mut header = ByteCursor::new(&data, 10);
    assert_eq!(BinXmlTemplateDefinitionHeader::read(&mut header), Ok(definition.header));
    assert_eq!(header.pos, 34);
}

#[test]
fn opcodes_and_placeholders_alone() {
    let mut cursor = ByteCursor::new(&[0x41, 0x99], 0);
    assert_eq!(read_raw_token(&mut cursor), Ok(BinXMLToken::OpenStartElement(true)));
    assert_eq!(read_raw_token(&mut cursor), Err(EvtxError::InvalidToken { value: 0x99, offset: 1 }));
    let mut cursor = ByteCursor::new(&[0x02, 0x01, 0x00], 0);
    assert_eq!(
        read_substitution(&mut cursor, true),
        Ok(BinXMLDeserializedTokens::Substitution(TemplateSubstitutionDescriptor {
            substitution_index: 0x0102,
            value_type: BinXMLValueTypes::NullType,
            ignore: true,
        }))
    );
    let mut cursor = ByteCursor::new(&[0x02, 0x01], 0);
    assert_eq!(read_substitution(&mut cursor, true), Err(EvtxError::UnexpectedEof { offset: 0 }));
    let mut header = ByteCursor::new(&[1, 2, 3], 0);
    assert_eq!(
        BinXMLFragmentHeader::read(&mut header),
        Ok(BinXMLFragmentHeader { major_version: 1, minor_version: 2, flags: 3 })
    );
}

#[test]
fn dump_shows_the_bytes_around_an_offset() {
    let data: Vec<u8> = (0..=255u8).collect();
    assert_eq!(dump_window(&data, 50, 10), &data[40..150]);
    assert_eq!(dump_window(&data, 5, 10), &data[0..105]);
    assert_eq!(dump_window(&data, 200, 10), &data[190..256]);
    assert_eq!(dump_window(&data, 1000, 6), &data[250..256]);
    assert_eq!(dump_window(&data, 156, 0), &data[156..256]);
}

#[test]
fn text_of_values() {
    let text = |v: BinXmlValue| v.as_text();
    assert_eq!(text(BinXmlValue::NullType), Some("".to_string()));
    assert_eq!(text(BinXmlValue::StringType("a<b".to_string())), Some("a<b".to_string()));
    assert_eq!(text(BinXmlValue::AnsiStringType("café".to_string())), Some("café".to_string()));
    assert_eq!(text(BinXmlValue::Int8Type(-128)), Some("-128".to_string()));
    assert_eq!(text(BinXmlValue::UInt8Type(0)), Some("0".to_string()));
    assert_eq!(text(BinXmlValue::Int16Type(-1)), Some("-1".to_string()));
    assert_eq!(text(BinXmlValue::UInt16Type(65535)), Some("65535".to_string()));
    assert_eq!(text(BinXmlValue::Int32Type(1_000_000)), Some("1000000".to_string()));
    assert_eq!(text(BinXmlValue::UInt32Type(4_294_967_295)), Some("4294967295".to_string()));
    assert_eq!(text(BinXmlValue::Int64Type(i64::MIN)), Some("-9223372036854775808".to_string()));
    assert_eq!(text(BinXmlValue::Int64Type(i64::MAX)), Some("9223372036854775807".to_string()));
    assert_eq!(text(BinXmlValue::UInt64Type(u64::MAX)), Some("18446744073709551615".to_string()));
    assert_eq!(text(BinXmlValue::BoolType(true)), Some("true".to_string()));
    assert_eq!(text(BinXmlValue::BoolType(false)), Some("false".to_string()));
    assert_eq!(text(BinXmlValue::BinaryType(vec![0x00, 0x0f, 0xa5, 0xff])), Some("000FA5FF".to_string()));
    assert_eq!(text(BinXmlValue::BinaryType(vec![])), Some("".to_string()));
    assert_eq!(
        text(BinXmlValue::GuidType(Guid::new(1, 2, 3, &[4, 5, 6, 7, 8, 9, 10, 11]))),
        Some("00000001-0002-0003-0405-060708090A0B".to_string())
    );
    assert_eq!(text(BinXmlValue::SizeTType(0)), Some("0x0".to_string()));
    assert_eq!(text(BinXmlValue::HexInt32Type(0xdead_beef)), Some("0xdeadbeef".to_string()));
    assert_eq!(text(BinXmlValue::HexInt64Type(0x1_0000_0000)), Some("0x100000000".to_string()));
    assert_eq!(
        text(BinXmlValue::SidType(Sid { revision: 1, authority: 5, sub_authorities: vec![21, 1000] })),
        Some("S-1-5-21-1000".to_string())
    );
    assert_eq!(
        text(BinXmlValue::SidType(Sid { revision: 1, authority: 0, sub_authorities: vec![] })),
        Some("S-1-0".to_string())
    );
    assert_eq!(text(BinXmlValue::Real32Type(0x3fc0_0000)), None);
    assert_eq!(text(BinXmlValue::Real64Type(0)), None);
    assert_eq!(text(BinXmlValue::FileTimeType(0)), None);
    assert_eq!(text(BinXmlValue::EvtHandle), None);
    assert_eq!(text(BinXmlValue::EvtXml), None);
    assert_eq!(text(BinXmlValue::BinXmlType(vec![])), None);
}

fn date_time(year: u32, month: u8, day: u8, hour: u8, minute: u8, second: u8, microsecond: u32) -> DateTime {
    DateTime { year, month, day, hour, minute, second, microsecond }
}

#[test]
fn file_times_on_the_calendar() {
    assert_eq!(filetime_parts(0), date_time(1601, 1, 1, 0, 0, 0, 0));
    assert_eq!(filetime_parts(116_444_736_000_000_000), date_time(1970, 1, 1, 0, 0, 0, 0));
    assert_eq!(filetime_parts(131_000_000_000_000_000), date_time(2016, 2, 15, 8, 53, 20, 0));
    assert_eq!(filetime_parts(131_000_000_000_000_009), date_time(2016, 2, 15, 8, 53, 20, 0));
    assert_eq!(filetime_parts(864_000_000_000 * 59), date_time(1601, 3, 1, 0, 0, 0, 0));
    assert_eq!(filetime_parts(864_000_000_000 * (365 * 3 + 59)), date_time(1604, 2, 29, 0, 0, 0, 0));
    assert_eq!(filetime_parts(864_000_000_000 * (365 * 3 + 60)), date_time(1604, 3, 1, 0, 0, 0, 0));
    assert_eq!(
        filetime_parts(125_911_583_999_999_999),
        date_time(1999, 12, 31, 23, 59, 59, 999_999)
    );
    assert_eq!(filetime_parts(132_223_104_009_990_010), date_time(2020, 1, 1, 0, 0, 0, 999_001));
    assert_eq!(filetime_parts(u64::MAX), date_time(60056, 5, 28, 5, 36, 10, 955_161));
}
