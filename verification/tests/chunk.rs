use evtx::binxml::assemble::{create_record_model, expand_templates, parse_tokens};
use evtx::binxml::deserializer::BinXmlDeserializer;
use evtx::binxml::name::BinXmlName;
use evtx::binxml::parse_binxml;
use evtx::binxml::tokens::read_template_definition_at;
use evtx::binxml::value_variant::BinXmlValue;
use evtx::err::EvtxError;
use evtx::evtx_chunk::{EvtxChunk, EvtxChunkData, EvtxChunkHeader};
use evtx::evtx_record::EvtxRecordHeader;
use evtx::model::deserialized::{
    BinXMLDeserializedTokens, BinXMLFragmentHeader, BinXMLOpenStartElement, BinXmlTemplateRef,
    TemplateSubstitutionDescriptor,
};
use evtx::binxml::model::BinXMLValueTypes;
use evtx::model::xml::{XmlElement, XmlModel};
use evtx::stream::ByteCursor;
use evtx::xml_output::{visitor_calls, BinXmlOutput, VisitorCall};
use std::borrow::Cow;

const EVTX_CHUNK_HEADER_SIZE: usize = 512;
const EVTX_RECORD_HEADER_SIZE: usize = 24;

/// Writes the bytes of a chunk: the header's place first, then whatever the
/// test puts in, and the header itself at the end.
struct ChunkWriter {
    data: Vec<u8>,
    strings: [u32; 64],
    templates: [u32; 32],
    first_record: u64,
    last_record: u64,
}

impl ChunkWriter {
    fn new() -> Self {
        ChunkWriter {
            data: vec![0; EVTX_CHUNK_HEADER_SIZE],
            strings: [0; 64],
            templates: [0; 32],
            first_record: 1,
            last_record: 0,
        }
    }

    fn pos(&self) -> u32 {
        self.data.len() as u32
    }

    fn u8(&mut self, v: u8) {
        self.data.push(v);
    }

    fn u16(&mut self, v: u16) {
        self.data.extend_from_slice(&v.to_le_bytes());
    }

    fn u32(&mut self, v: u32) {
        self.data.extend_from_slice(&v.to_le_bytes());
    }

    fn u64(&mut self, v: u64) {
        self.data.extend_from_slice(&v.to_le_bytes());
    }

    fn bytes(&mut self, v: &[u8]) {
        self.data.extend_from_slice(v);
    }

    fn patch_u32(&mut self, at: usize, v: u32) {
        self.data[at..at + 4].copy_from_slice(&v.to_le_bytes());
    }

    fn utf16(&mut self, text: &str) {
        for unit in text.encode_utf16() {
            self.u16(unit);
        }
    }

    /// A name record at the current position; gives its offset.
    fn name_record(&mut self, text: &str) -> u32 {
        let at = self.pos();
        self.u32(0);
        self.u16(0x1234);
        self.u16(text.encode_utf16().count() as u16);
        self.utf16(text);
        self.u16(0);
        at
    }

    /// A reference to a name that follows inline.
    fn inline_name(&mut self, text: &str) {
        let at = self.pos() + 4;
        self.u32(at);
        self.name_record(text);
    }

    fn fragment_header(&mut self) {
        self.bytes(&[0x0f, 0x01, 0x01, 0x00]);
    }

    fn open_start_element(&mut self, text: &str) {
        self.u8(0x01);
        self.u16(0xffff);
        self.u32(0);
        self.inline_name(text);
    }

    fn open_start_element_with_attributes(&mut self, text: &str) {
        self.u8(0x41);
        self.u16(0xffff);
        self.u32(0);
        self.inline_name(text);
        self.u32(0);
    }

    fn attribute(&mut self, text: &str) {
        self.u8(0x06);
        self.inline_name(text);
    }

    fn string_value(&mut self, text: &str) {
        self.u8(0x05);
        self.u8(0x01);
        self.u16(text.encode_utf16().count() as u16);
        self.utf16(text);
    }

    fn substitution(&mut self, index: u16, value_type: u8) {
        self.u8(0x0d);
        self.u16(index);
        self.u8(value_type);
    }

    /// The header of a template definition; gives the definition's offset.
    fn begin_template(&mut self) -> u32 {
        let at = self.pos();
        self.u32(0);
        self.u32(0x0a0b0c0d);
        self.u16(0x0102);
        self.u16(0x0304);
        self.bytes(&[1, 2, 3, 4, 5, 6, 7, 8]);
        self.u32(0);
        at
    }

    fn end_template(&mut self, at: u32) {
        let size = self.pos() - at - 24;
        self.patch_u32(at as usize + 20, size);
    }

    /// The start of a template instance that names the definition at
    /// `definition`, up to and with that offset.
    fn template_instance(&mut self, definition: u32) {
        self.u8(0x0c);
        self.u8(0x01);
        self.u32(77);
        self.u32(definition);
    }

    /// The substitution array of a template instance: the count, the
    /// descriptors and the values.
    fn substitutions(&mut self, values: &[(u8, Vec<u8>)]) {
        self.u32(values.len() as u32);
        for (value_type, bytes) in values {
            self.u16(bytes.len() as u16);
            self.u8(*value_type);
            self.u8(0);
        }
        for (_, bytes) in values {
            self.bytes(bytes);
        }
    }

    fn begin_record(&mut self, id: u64) -> u32 {
        let at = self.pos();
        self.bytes(&[0x2a, 0x2a, 0x00, 0x00]);
        self.u32(0);
        self.u64(id);
        self.u64(131_000_000_000_000_000 + id);
        at
    }

    fn end_record(&mut self, at: u32) {
        let size = self.pos() - at + 4;
        self.u32(size);
        self.patch_u32(at as usize + 4, size);
        self.last_record += 1;
    }

    /// The finished chunk, with a header that matches what was written.
    fn finish(mut self) -> Vec<u8> {
        let free_space_offset = self.pos();
        let mut header = Vec::new();
        header.extend_from_slice(b"ElfChnk\x00");
        header.extend_from_slice(&self.first_record.to_le_bytes());
        header.extend_from_slice(&self.last_record.to_le_bytes());
        header.extend_from_slice(&self.first_record.to_le_bytes());
        header.extend_from_slice(&self.last_record.to_le_bytes());
        header.extend_from_slice(&128u32.to_le_bytes());
        header.extend_from_slice(&0u32.to_le_bytes());
        header.extend_from_slice(&free_space_offset.to_le_bytes());
        let events_checksum =
            crc::crc32::checksum_ieee(&self.data[EVTX_CHUNK_HEADER_SIZE..free_space_offset as usize]);
        header.extend_from_slice(&events_checksum.to_le_bytes());
        header.extend_from_slice(&[0; 68]);
        header.extend_from_slice(&0u32.to_le_bytes());
        for offset in self.strings.iter() {
            header.extend_from_slice(&offset.to_le_bytes());
        }
        for offset in self.templates.iter() {
            header.extend_from_slice(&offset.to_le_bytes());
        }
        assert_eq!(header.len(), EVTX_CHUNK_HEADER_SIZE);
        let mut covered = header[..120].to_vec();
        covered.extend_from_slice(&header[128..512]);
        let header_checksum = crc::crc32::checksum_ieee(&covered);
        header[124..128].copy_from_slice(&header_checksum.to_le_bytes());
        self.data[..EVTX_CHUNK_HEADER_SIZE].copy_from_slice(&header);
        self.data
    }
}

fn utf16_bytes(text: &str) -> Vec<u8> {
    text.encode_utf16().flat_map(|u| u.to_le_bytes()).collect()
}

fn name(text: &str) -> BinXmlName {
    BinXmlName { text: text.to_string() }
}

fn open(text: &str) -> BinXMLDeserializedTokens {
    BinXMLDeserializedTokens::OpenStartElement(BinXMLOpenStartElement {
        data_size: 0,
        name: name(text),
    })
}

fn string(text: &str) -> BinXMLDeserializedTokens {
    BinXMLDeserializedTokens::Value(BinXmlValue::StringType(text.to_string()))
}

fn element(text: &str) -> XmlModel {
    XmlModel::OpenElement(XmlElement { name: name(text), attributes: vec![] })
}

fn owned(tokens: Vec<Cow<BinXMLDeserializedTokens>>) -> Vec<BinXMLDeserializedTokens> {
    tokens.into_iter().map(|t| t.into_owned()).collect()
}

/// A chunk that holds, after its header, the template definition
/// `[OpenStartElement("A"), Substitution{0}, CloseElement]`; `cached` says
/// whether the header's template table names it. Gives the chunk's bytes and
/// the definition's offset.
fn chunk_with_template(cached: bool) -> (Vec<u8>, u32) {
    let mut w = ChunkWriter::new();
    let at = w.begin_template();
    w.open_start_element("A");
    w.substitution(0, 0x01);
    w.u8(0x04);
    w.end_template(at);
    if cached {
        w.templates[3] = at;
    }
    (w.finish(), at)
}

/// A chunk with `count` records. Each record holds a fragment header, an
/// instance of one template with the record's number as text, and the end
/// of the stream. The first record stores the template's definition inline.
fn chunk_with_records(count: u64) -> Vec<u8> {
    let mut w = ChunkWriter::new();
    let mut definition = 0;
    for id in 1..=count {
        let record = w.begin_record(id);
        w.fragment_header();
        if id == 1 {
            definition = w.pos() + 10;
            w.template_instance(definition);
            assert_eq!(w.pos(), definition);
            let at = w.begin_template();
            w.fragment_header();
            w.open_start_element_with_attributes("Event");
            w.attribute("Version");
            w.string_value("1");
            w.u8(0x02);
            w.substitution(0, 0x01);
            w.u8(0x04);
            w.u8(0x00);
            w.end_template(at);
            w.templates[0] = at;
        } else {
            w.template_instance(definition);
        }
        w.substitutions(&[(0x01, utf16_bytes(&format!("record {}", id)))]);
        w.u8(0x00);
        w.end_record(record);
    }
    w.finish()
}

fn parse_header(data: &[u8]) -> EvtxChunkHeader {
    let mut cursor = ByteCursor::new(data, 0);
    EvtxChunkHeader::from_reader(&mut cursor).unwrap()
}

#[test]
fn test_parses_evtx_chunk_header() {
    let mut chunk_header = Vec::new();
    chunk_header.extend_from_slice(b"ElfChnk\x00");
    chunk_header.extend_from_slice(&1u64.to_le_bytes());
    chunk_header.extend_from_slice(&91u64.to_le_bytes());
    chunk_header.extend_from_slice(&1u64.to_le_bytes());
    chunk_header.extend_from_slice(&91u64.to_le_bytes());
    chunk_header.extend_from_slice(&128u32.to_le_bytes());
    chunk_header.extend_from_slice(&64928u32.to_le_bytes());
    chunk_header.extend_from_slice(&65376u32.to_le_bytes());
    chunk_header.extend_from_slice(&4_252_479_141u32.to_le_bytes());
    chunk_header.extend_from_slice(&[0; 68]);
    chunk_header.extend_from_slice(&978_805_790u32.to_le_bytes());
    for i in 0..96u32 {
        chunk_header.extend_from_slice(&(i * 16).to_le_bytes());
    }
    assert_eq!(chunk_header.len(), EVTX_CHUNK_HEADER_SIZE);

    let mut cursor = ByteCursor::new(&chunk_header, 0);
    let chunk_header = EvtxChunkHeader::from_reader(&mut cursor).unwrap();

    let expected = EvtxChunkHeader {
        first_event_record_number: 1,
        last_event_record_number: 91,
        first_event_record_id: 1,
        last_event_record_id: 91,
        header_size: 128,
        last_event_record_data_offset: 64928,
        free_space_offset: 65376,
        events_checksum: 4_252_479_141,
        header_chunk_checksum: 978_805_790,
        strings_offsets: [0_u32; 64],
        template_offsets: [0_u32; 32],
    };

    assert_eq!(chunk_header.first_event_record_number, expected.first_event_record_number);
    assert_eq!(chunk_header.last_event_record_number, expected.last_event_record_number);
    assert_eq!(chunk_header.first_event_record_id, expected.first_event_record_id);
    assert_eq!(chunk_header.last_event_record_id, expected.last_event_record_id);
    assert_eq!(chunk_header.header_size, expected.header_size);
    assert_eq!(
        chunk_header.last_event_record_data_offset,
        expected.last_event_record_data_offset
    );
    assert_eq!(chunk_header.free_space_offset, expected.free_space_offset);
    assert_eq!(chunk_header.events_checksum, expected.events_checksum);
    assert_eq!(chunk_header.header_chunk_checksum, expected.header_chunk_checksum);
    assert!(!chunk_header.strings_offsets.is_empty());
    assert!(!chunk_header.template_offsets.is_empty());
    assert_eq!(chunk_header.strings_offsets[5], 80);
    assert_eq!(chunk_header.template_offsets[0], 64 * 16);
    assert_eq!(chunk_header.template_offsets[31], 95 * 16);
    assert_eq!(cursor.pos, 512);
}

#[test]
fn test_validate_checksum() {
    let chunk_data = chunk_with_records(3);

    let chunk = EvtxChunkData::new(chunk_data, false).unwrap();
    assert!(chunk.validate_checksum());
}

#[test]
fn test_reads_a_single_record() {
    let data = chunk_with_records(3);
    let header = parse_header(&data);
    let chunk = EvtxChunk::new(&data, &header).unwrap();

    let mut records = chunk.iter();
    let record = records.next().unwrap();
    assert!(record.is_ok(), "{:?}", record);
}

#[test]
fn test_reads_a_ten_records() {
    let data = chunk_with_records(12);
    let header = parse_header(&data);
    let chunk = EvtxChunk::new(&data, &header).unwrap();

    let mut records = chunk.iter();
    for id in 1..=10u64 {
        let record = records.next().unwrap();
        println!("{:?}", record);
        assert_eq!(record.unwrap().event_record_id, id);
    }
}

#[test]
fn test_read_name_bug() {
    // A record whose second element names the first element's name by its
    // offset: the name is stored before the reference, not after it.
    let mut w = ChunkWriter::new();
    w.bytes(&vec![0; 3872 - EVTX_CHUNK_HEADER_SIZE]);
    let record = w.begin_record(1);
    assert_eq!(record, 3872);
    w.fragment_header();
    w.u8(0x01);
    w.u16(0xffff);
    w.u32(0);
    let stored = w.pos() + 4;
    w.inline_name("Data");
    w.u8(0x02);
    w.u8(0x01);
    w.u16(0xffff);
    w.u32(0);
    w.u32(stored);
    w.u8(0x03);
    w.u8(0x04);
    w.u8(0x00);
    w.end_record(record);
    let data = w.finish();
    let size = u32::from_le_bytes([data[3876], data[3877], data[3878], data[3879]]);

    let deser =
        BinXmlDeserializer::init_without_cache(&data, (3872_usize + EVTX_RECORD_HEADER_SIZE) as u64);
    let mut iter = deser.iter_tokens(Some(size - 4 - 4 - 4 - 8 - 8));
    let mut tokens = vec![];
    while let Some(token) = iter.next() {
        match token {
            Err(e) => {
                println!("{:?} at {:?}", e, e.offset());
                panic!();
            }
            Ok(token) => tokens.push(token),
        }
    }
    assert_eq!(
        tokens,
        vec![
            BinXMLDeserializedTokens::FragmentHeader(BinXMLFragmentHeader {
                major_version: 1,
                minor_version: 1,
                flags: 0
            }),
            open("Data"),
            BinXMLDeserializedTokens::CloseStartElement,
            open("Data"),
            BinXMLDeserializedTokens::CloseEmptyElement,
            BinXMLDeserializedTokens::CloseElement,
            BinXMLDeserializedTokens::EndOfStream,
        ]
    );
}

#[test]
fn test_basic_binxml() {
    let from_start_of_chunk = chunk_with_records(1);
    let xml = parse_binxml(&from_start_of_chunk, 512 + 24);

    println!("{:?}", xml);
    let tokens = xml.unwrap();
    assert_eq!(tokens.len(), 3);
    assert_eq!(tokens[2], BinXMLDeserializedTokens::EndOfStream);
    match &tokens[1] {
        BinXMLDeserializedTokens::TemplateInstance(template) => {
            assert_eq!(template.template_def_offset, 512 + 24 + 4 + 10);
            assert_eq!(template.substitution_array, vec![string("record 1")]);
        }
        other => panic!("{:?}", other),
    }
}

#[test]
fn template_with_value_expands_and_builds() {
    let (data, at) = chunk_with_template(true);
    let header = parse_header(&data);
    let chunk = EvtxChunk::new(&data, &header).unwrap();
    let definition = chunk.template_table().get_template(at).unwrap();
    assert_eq!(
        definition.tokens,
        vec![
            open("A"),
            BinXMLDeserializedTokens::Substitution(TemplateSubstitutionDescriptor {
                substitution_index: 0,
                value_type: BinXMLValueTypes::StringType,
                ignore: false,
            }),
            BinXMLDeserializedTokens::CloseElement,
        ]
    );

    let instance = BinXMLDeserializedTokens::TemplateInstance(BinXmlTemplateRef {
        template_def_offset: at,
        substitution_array: vec![string("x")],
    });
    let expanded = expand_templates(vec![instance], &chunk).unwrap();
    assert_eq!(
        owned(expanded.clone()),
        vec![open("A"), string("x"), BinXMLDeserializedTokens::CloseElement]
    );
    let model = create_record_model(expanded).unwrap();
    assert_eq!(
        model,
        vec![
            element("A"),
            XmlModel::Value(BinXmlValue::StringType("x".to_string())),
            XmlModel::CloseElement,
        ]
    );
    match &model[1] {
        XmlModel::Value(value) => assert_eq!(value.as_text(), Some("x".to_string())),
        other => panic!("{:?}", other),
    }
}

#[test]
fn template_without_values_expands_to_null() {
    let (data, at) = chunk_with_template(true);
    let header = parse_header(&data);
    let chunk = EvtxChunk::new(&data, &header).unwrap();
    let instance = BinXMLDeserializedTokens::TemplateInstance(BinXmlTemplateRef {
        template_def_offset: at,
        substitution_array: vec![],
    });
    let expanded = expand_templates(vec![instance], &chunk).unwrap();
    assert_eq!(
        owned(expanded.clone()),
        vec![
            open("A"),
            BinXMLDeserializedTokens::Value(BinXmlValue::NullType),
            BinXMLDeserializedTokens::CloseElement
        ]
    );
    let model = create_record_model(expanded).unwrap();
    assert_eq!(
        model,
        vec![element("A"), XmlModel::Value(BinXmlValue::NullType), XmlModel::CloseElement]
    );
    match &model[1] {
        XmlModel::Value(value) => assert_eq!(value.as_text(), Some(String::new())),
        other => panic!("{:?}", other),
    }
}

#[test]
fn uncached_template_expands_like_cached_one() {
    let (cached_data, at) = chunk_with_template(true);
    let (uncached_data, same) = chunk_with_template(false);
    assert_eq!(at, same);
    let cached_header = parse_header(&cached_data);
    let uncached_header = parse_header(&uncached_data);
    let cached = EvtxChunk::new(&cached_data, &cached_header).unwrap();
    let uncached = EvtxChunk::new(&uncached_data, &uncached_header).unwrap();
    assert_eq!(cached.template_table().len(), 1);
    assert_eq!(uncached.template_table().len(), 0);
    assert!(uncached.template_table().get_template(at).is_none());

    let instance = || {
        vec![BinXMLDeserializedTokens::TemplateInstance(BinXmlTemplateRef {
            template_def_offset: at,
            substitution_array: vec![string("x")],
        })]
    };
    let from_cache = owned(expand_templates(instance(), &cached).unwrap());
    let on_demand = owned(expand_templates(instance(), &uncached).unwrap());
    assert_eq!(from_cache, on_demand);
    assert_eq!(on_demand, vec![open("A"), string("x"), BinXMLDeserializedTokens::CloseElement]);
}

#[test]
fn nested_fragment_in_substitution_is_spliced_in() {
    let (data, at) = chunk_with_template(true);
    let header = parse_header(&data);
    let chunk = EvtxChunk::new(&data, &header).unwrap();
    let nested = BinXMLDeserializedTokens::Value(BinXmlValue::BinXmlType(vec![
        open("B"),
        BinXMLDeserializedTokens::CloseEmptyElement,
    ]));
    let instance = BinXMLDeserializedTokens::TemplateInstance(BinXmlTemplateRef {
        template_def_offset: at,
        substitution_array: vec![nested],
    });
    let expanded = expand_templates(vec![instance], &chunk).unwrap();
    assert_eq!(
        owned(expanded.clone()),
        vec![
            open("A"),
            open("B"),
            BinXMLDeserializedTokens::CloseEmptyElement,
            BinXMLDeserializedTokens::CloseElement
        ]
    );
    assert_eq!(
        create_record_model(expanded),
        Ok(vec![element("A"), element("B"), XmlModel::CloseElement, XmlModel::CloseElement])
    );
}

#[test]
fn cache_holds_what_decoding_on_demand_gives() {
    let data = chunk_with_records(2);
    let header = parse_header(&data);
    let chunk = EvtxChunk::new(&data, &header).unwrap();
    let mut seen = 0;
    for offset in header.template_offsets.iter().filter(|&&o| o != 0) {
        let on_demand = read_template_definition_at(&data, *offset);
        assert_eq!(chunk.template_table().get_template(*offset), on_demand.as_ref().ok());
        assert!(on_demand.is_ok());
        seen += 1;
    }
    assert_eq!(seen, 1);
    assert_eq!(chunk.template_table().len(), 1);
}

struct Recorder {
    calls: Vec<String>,
    fail_at: Option<usize>,
}

impl Recorder {
    fn note(&mut self, call: String) -> Result<(), EvtxError> {
        if self.fail_at == Some(self.calls.len()) {
            return Err(EvtxError::OutputFailed);
        }
        self.calls.push(call);
        Ok(())
    }
}

impl BinXmlOutput for Recorder {
    fn visit_start_of_stream(&mut self) -> Result<(), EvtxError> {
        self.note("start".to_string())
    }

    fn visit_end_of_stream(&mut self) -> Result<(), EvtxError> {
        self.note("end".to_string())
    }

    fn visit_open_start_element(&mut self, element: &XmlElement) -> Result<(), EvtxError> {
        let attributes: Vec<String> = element
            .attributes
            .iter()
            .map(|a| format!("{}={:?}", a.name.text, a.value))
            .collect();
        self.note(format!("open {} [{}]", element.name.text, attributes.join(",")))
    }

    fn visit_close_element(&mut self, element: &XmlElement) -> Result<(), EvtxError> {
        self.note(format!("close {}", element.name.text))
    }

    fn visit_characters(&mut self, value: &BinXmlValue) -> Result<(), EvtxError> {
        self.note(format!("text {:?}", value))
    }

    fn visit_processing_instruction(
        &mut self,
        pi: &evtx::model::xml::XmlPI,
    ) -> Result<(), EvtxError> {
        self.note(format!("pi {} {}", pi.name.text, pi.data))
    }

    fn visit_entity_reference(&mut self, entity: &BinXmlName) -> Result<(), EvtxError> {
        self.note(format!("entity {}", entity.text))
    }
}

#[test]
fn records_are_handed_to_the_sink_in_an_envelope() {
    let data = chunk_with_records(2);
    let header = parse_header(&data);
    let chunk = EvtxChunk::new(&data, &header).unwrap();
    let mut records = chunk.iter();
    let _first = records.next().unwrap().unwrap();
    let second = records.next().unwrap().unwrap();
    assert!(records.next().is_none());
    assert_eq!(second.event_record_id, 2);
    assert_eq!(second.timestamp, 131_000_000_000_000_002);

    let mut sink = Recorder { calls: vec![], fail_at: None };
    assert_eq!(second.into_output(&chunk, &mut sink), Ok(()));
    assert_eq!(
        sink.calls,
        vec![
            "start".to_string(),
            "open Event [Version=StringType(\"1\")]".to_string(),
            "text StringType(\"record 2\")".to_string(),
            "close Event".to_string(),
            "end".to_string(),
        ]
    );
}

#[test]
fn failing_sink_ends_the_record() {
    let (data, at) = chunk_with_template(false);
    let header = parse_header(&data);
    let chunk = EvtxChunk::new(&data, &header).unwrap();
    let instance = BinXMLDeserializedTokens::TemplateInstance(BinXmlTemplateRef {
        template_def_offset: at,
        substitution_array: vec![string("x")],
    });
    let mut sink = Recorder { calls: vec![], fail_at: Some(2) };
    assert_eq!(parse_tokens(vec![instance], &chunk, &mut sink), Err(EvtxError::OutputFailed));
    assert_eq!(sink.calls, vec!["start".to_string(), "open A []".to_string()]);
}

#[test]
fn unbalanced_record_reaches_no_sink() {
    let (data, _) = chunk_with_template(false);
    let header = parse_header(&data);
    let chunk = EvtxChunk::new(&data, &header).unwrap();
    let mut sink = Recorder { calls: vec![], fail_at: None };
    let tokens = vec![string("before"), BinXMLDeserializedTokens::CloseElement, string("after")];
    assert_eq!(parse_tokens(tokens, &chunk, &mut sink), Err(EvtxError::UnbalancedElements));
    assert!(sink.calls.is_empty());
}

fn placeholder(index: u16, ignore: bool) -> BinXMLDeserializedTokens {
    BinXMLDeserializedTokens::Substitution(TemplateSubstitutionDescriptor {
        substitution_index: index,
        value_type: BinXMLValueTypes::StringType,
        ignore,
    })
}

fn null() -> BinXMLDeserializedTokens {
    BinXMLDeserializedTokens::Value(BinXmlValue::NullType)
}

fn is_flat(token: &BinXMLDeserializedTokens) -> bool {
    !matches!(
        token,
        BinXMLDeserializedTokens::TemplateInstance(_)
            | BinXMLDeserializedTokens::Substitution(_)
            | BinXMLDeserializedTokens::Value(BinXmlValue::BinXmlType(_))
    )
}

/// A chunk with two template definitions: the first holds an element with
/// two placeholders for the same value and an instance of the second, the
/// second holds an empty element and an ignored placeholder.
fn chunk_with_nested_templates() -> (Vec<u8>, u32, u32) {
    let mut w = ChunkWriter::new();
    let inner = w.begin_template();
    w.open_start_element("Inner");
    w.u8(0x03);
    w.bytes(&[0x0e, 0x00, 0x00, 0x00]);
    w.substitution(1, 0x01);
    w.end_template(inner);
    let outer = w.begin_template();
    w.open_start_element("Outer");
    w.u8(0x02);
    w.substitution(0, 0x01);
    w.substitution(0, 0x01);
    w.template_instance(inner);
    w.substitutions(&[(0x01, utf16_bytes("unused"))]);
    w.u8(0x04);
    w.end_template(outer);
    w.templates[0] = inner;
    w.templates[31] = outer;
    (w.finish(), outer, inner)
}

#[test]
fn expansion_leaves_nothing_to_expand() {
    let (data, outer, _) = chunk_with_nested_templates();
    let header = parse_header(&data);
    let chunk = EvtxChunk::new(&data, &header).unwrap();
    assert_eq!(chunk.template_table().len(), 2);
    let tokens = vec![
        BinXMLDeserializedTokens::StartOfStream,
        BinXMLDeserializedTokens::TemplateInstance(BinXmlTemplateRef {
            template_def_offset: outer,
            substitution_array: vec![string("once")],
        }),
        placeholder(0, false),
        placeholder(1, true),
        BinXMLDeserializedTokens::Value(BinXmlValue::BinXmlType(vec![
            placeholder(9, false),
            open("Leaf"),
            BinXMLDeserializedTokens::CloseEmptyElement,
        ])),
        BinXMLDeserializedTokens::EndOfStream,
    ];
    let expanded = owned(expand_templates(tokens, &chunk).unwrap());
    assert!(expanded.iter().all(is_flat));
    assert_eq!(
        expanded,
        vec![
            BinXMLDeserializedTokens::StartOfStream,
            open("Outer"),
            BinXMLDeserializedTokens::CloseStartElement,
            string("once"),
            null(),
            open("Inner"),
            BinXMLDeserializedTokens::CloseEmptyElement,
            null(),
            BinXMLDeserializedTokens::CloseElement,
            null(),
            null(),
            open("Leaf"),
            BinXMLDeserializedTokens::CloseEmptyElement,
            BinXMLDeserializedTokens::EndOfStream,
        ]
    );

    let model = create_record_model(expanded.into_iter().map(Cow::Owned).collect()).unwrap();
    let mut depth = 0i64;
    for event in &model {
        match event {
            XmlModel::OpenElement(_) => depth += 1,
            XmlModel::CloseElement => depth -= 1,
            _ => {}
        }
        assert!(depth >= 0);
    }
    assert_eq!(depth, 0);
}

#[test]
fn ignored_placeholder_contributes_nothing() {
    let (data, _) = chunk_with_template(false);
    let header = parse_header(&data);
    let chunk = EvtxChunk::new(&data, &header).unwrap();
    let expanded = expand_templates(vec![placeholder(0, true), placeholder(40, true)], &chunk);
    assert_eq!(expanded.map(owned), Ok(vec![]));
}

#[test]
fn placeholder_past_the_array_gives_null() {
    let (data, at) = chunk_with_template(false);
    let header = parse_header(&data);
    let chunk = EvtxChunk::new(&data, &header).unwrap();
    let expanded = expand_templates(vec![placeholder(0, false), placeholder(65535, false)], &chunk);
    assert_eq!(expanded.map(owned), Ok(vec![null(), null()]));
    let instance = BinXMLDeserializedTokens::TemplateInstance(BinXmlTemplateRef {
        template_def_offset: at,
        substitution_array: vec![],
    });
    let expanded = expand_templates(vec![instance], &chunk);
    assert_eq!(
        expanded.map(owned),
        Ok(vec![open("A"), null(), BinXMLDeserializedTokens::CloseElement])
    );
}

#[test]
fn template_that_names_itself_hits_the_limit() {
    let mut w = ChunkWriter::new();
    let at = w.begin_template();
    w.open_start_element("Loop");
    w.u8(0x03);
    w.template_instance(at);
    w.substitutions(&[]);
    w.end_template(at);
    w.templates[7] = at;
    let data = w.finish();
    let header = parse_header(&data);
    let chunk = EvtxChunk::new(&data, &header).unwrap();
    assert_eq!(chunk.template_table().len(), 1);
    let instance = BinXMLDeserializedTokens::TemplateInstance(BinXmlTemplateRef {
        template_def_offset: at,
        substitution_array: vec![],
    });
    let mut sink = Recorder { calls: vec![], fail_at: None };
    assert_eq!(expand_templates(vec![instance.clone()], &chunk).map(owned), Err(EvtxError::NestingTooDeep));
    assert_eq!(parse_tokens(vec![instance], &chunk, &mut sink), Err(EvtxError::NestingTooDeep));
    assert!(sink.calls.is_empty());
}

#[test]
fn template_that_does_not_decode_fails_the_expansion() {
    let (data, _) = chunk_with_template(true);
    let header = parse_header(&data);
    let chunk = EvtxChunk::new(&data, &header).unwrap();
    let beyond = data.len() as u32 + 100;
    let instance = |offset| {
        vec![BinXMLDeserializedTokens::TemplateInstance(BinXmlTemplateRef {
            template_def_offset: offset,
            substitution_array: vec![string("x")],
        })]
    };
    assert_eq!(
        expand_templates(instance(beyond), &chunk).map(owned),
        Err(EvtxError::UnexpectedEof { offset: beyond as u64 })
    );
    let cut = data.len() as u32 - 10;
    assert_eq!(
        expand_templates(instance(cut), &chunk).map(owned),
        Err(EvtxError::UnexpectedEof { offset: cut as u64 })
    );
}

#[test]
fn names_are_found_with_and_without_the_string_cache() {
    let mut w = ChunkWriter::new();
    let stored = w.name_record("Shared");
    let broken = w.pos();
    w.bytes(&[0, 0, 0, 0, 1, 0, 1, 0, 0x00, 0xdc, 0, 0]);
    let start = w.pos();
    w.u8(0x01);
    w.u16(0xffff);
    w.u32(0);
    w.u32(stored);
    w.u8(0x03);
    w.u8(0x06);
    w.u32(stored);
    w.u8(0x00);
    w.strings[10] = stored;
    w.strings[11] = broken;
    let data = w.finish();
    let header = parse_header(&data);
    let chunk = EvtxChunk::new(&data, &header).unwrap();
    assert_eq!(chunk.string_cache().len(), 1);
    assert_eq!(chunk.cached_string(stored).map(|c| c.text.as_str()), Some("Shared"));
    assert!(chunk.cached_string(broken).is_none());
    assert_eq!(chunk.data(), &data[..]);
    assert_eq!(chunk.header(), &header);

    let context = BinXmlDeserializer::init(&chunk, start as u64).context();
    assert_eq!(context.cached_string_at_offset(stored).map(|c| c.hash), Some(0x1234));
    assert!(context.cached_string_at_offset(broken).is_none());
    let bare = BinXmlDeserializer::init_without_cache(&data, start as u64).context();
    assert!(bare.cached_string_at_offset(stored).is_none());
    assert_eq!(
        BinXmlDeserializer::from_ctx(context).read_binxml_fragment(None),
        BinXmlDeserializer::from_ctx(bare).read_binxml_fragment(None)
    );

    let with_cache = BinXmlDeserializer::init(&chunk, start as u64).read_binxml_fragment(None);
    let without = BinXmlDeserializer::init_without_cache(&data, start as u64).read_binxml_fragment(None);
    assert_eq!(with_cache, without);
    assert_eq!(
        without,
        Ok(vec![
            open("Shared"),
            BinXMLDeserializedTokens::CloseEmptyElement,
            BinXMLDeserializedTokens::Attribute(evtx::model::deserialized::BinXMLAttribute {
                name: name("Shared")
            }),
            BinXMLDeserializedTokens::EndOfStream,
        ])
    );
}

#[test]
fn chunk_data_is_checked_on_request() {
    let good = chunk_with_records(2);
    assert!(EvtxChunkData::new(good.clone(), true).is_ok());

    assert_eq!(
        EvtxChunkData::new(good[..511].to_vec(), false).err(),
        Some(EvtxError::UnexpectedEof { offset: 8 })
    );
    assert_eq!(
        EvtxChunkData::new(good[..7].to_vec(), false).err(),
        Some(EvtxError::UnexpectedEof { offset: 0 })
    );
    let mut bad_magic = good.clone();
    bad_magic[3] = b'X';
    assert_eq!(
        EvtxChunkData::new(bad_magic.clone(), false).err(),
        Some(EvtxError::InvalidEvtxChunkMagic { magic: *b"ElfXhnk\x00" })
    );
    // The signature is looked at before the length.
    assert_eq!(
        EvtxChunkData::new(bad_magic[..8].to_vec(), true).err(),
        Some(EvtxError::InvalidEvtxChunkMagic { magic: *b"ElfXhnk\x00" })
    );
    assert_eq!(
        EvtxChunkData::new(bad_magic[..300].to_vec(), false).err(),
        Some(EvtxError::InvalidEvtxChunkMagic { magic: *b"ElfXhnk\x00" })
    );

    let mut bad_record = good.clone();
    bad_record[600] ^= 0xff;
    let unchecked = EvtxChunkData::new(bad_record.clone(), false).unwrap();
    assert!(unchecked.validate_header_checksum());
    assert!(!unchecked.validate_data_checksum());
    assert!(!unchecked.validate_checksum());
    assert_eq!(EvtxChunkData::new(bad_record, true).err(), Some(EvtxError::InvalidChunkChecksum));

    let mut bad_header = good.clone();
    bad_header[200] ^= 0xff;
    let unchecked = EvtxChunkData::new(bad_header.clone(), false).unwrap();
    assert!(!unchecked.validate_header_checksum());
    assert!(unchecked.validate_data_checksum());
    assert_eq!(EvtxChunkData::new(bad_header, true).err(), Some(EvtxError::InvalidChunkChecksum));

    // Bytes 120 to 128 are not covered by the header's checksum.
    let mut flags = good.clone();
    flags[121] ^= 0xff;
    assert!(EvtxChunkData::new(flags, false).unwrap().validate_header_checksum());

    // A free space that starts inside the header, or past the data.
    let mut inside = EvtxChunkData::new(good.clone(), false).unwrap();
    inside.header.free_space_offset = 511;
    assert!(!inside.validate_data_checksum());
    inside.header.free_space_offset = good.len() as u32 + 1;
    assert!(!inside.validate_data_checksum());
}

#[test]
fn checksum_is_the_crc32_of_ieee() {
    let mut w = ChunkWriter::new();
    w.bytes(b"123456789");
    let data = w.finish();
    let chunk = EvtxChunkData::new(data, false).unwrap();
    assert_eq!(chunk.header.free_space_offset, 521);
    assert_eq!(chunk.header.events_checksum, 0xcbf4_3926);
    assert!(chunk.validate_data_checksum());
    assert!(chunk.validate_checksum());
}

#[test]
fn records_are_read_in_order_until_the_last() {
    let data = chunk_with_records(3);
    let chunk_data = EvtxChunkData::new(data, true).unwrap();
    let chunk = chunk_data.parse().unwrap();
    assert_eq!(chunk.header().last_event_record_id, 3);
    let mut records = chunk.iter();
    let mut ids = vec![];
    while let Some(record) = records.next() {
        let record = record.unwrap();
        assert_eq!(record.tokens.len(), 3);
        ids.push(record.event_record_id);
    }
    assert_eq!(ids, vec![1, 2, 3]);
    assert!(records.next().is_none());

    // The record that the header names as the last one ends the iteration.
    let mut early = chunk_with_records(3);
    early[16..24].copy_from_slice(&2u64.to_le_bytes());
    early[32..40].copy_from_slice(&2u64.to_le_bytes());
    let header = parse_header(&early);
    let chunk = EvtxChunk::new(&early, &header).unwrap();
    let mut records = chunk.iter();
    assert_eq!(records.next().unwrap().unwrap().event_record_id, 1);
    assert_eq!(records.next().unwrap().unwrap().event_record_id, 2);
    assert!(records.next().is_none());

    // So does the start of the free space.
    let mut full = chunk_with_records(3);
    full[48..52].copy_from_slice(&512u32.to_le_bytes());
    let header = parse_header(&full);
    let chunk = EvtxChunk::new(&full, &header).unwrap();
    assert!(chunk.iter().next().is_none());
}

#[test]
fn a_record_that_fails_ends_the_chunk() {
    let good = chunk_with_records(3);
    let second = 512 + u32::from_le_bytes([good[516], good[517], good[518], good[519]]) as usize;

    let mut bad_magic = good.clone();
    bad_magic[second] = 0x2b;
    let header = parse_header(&bad_magic);
    let chunk = EvtxChunk::new(&bad_magic, &header).unwrap();
    let mut records = chunk.iter();
    assert!(records.next().unwrap().is_ok());
    assert_eq!(
        records.next().unwrap().err(),
        Some(EvtxError::InvalidEvtxRecordHeaderMagic { offset: second as u64 })
    );
    assert!(records.next().is_none());

    let mut small = good.clone();
    small[second + 4..second + 8].copy_from_slice(&27u32.to_le_bytes());
    let header = parse_header(&small);
    let chunk = EvtxChunk::new(&small, &header).unwrap();
    let mut records = chunk.iter();
    assert!(records.next().unwrap().is_ok());
    assert_eq!(
        records.next().unwrap().err(),
        Some(EvtxError::InvalidRecordSize { offset: second as u64 })
    );
    assert!(records.next().is_none());

    let mut large = good.clone();
    large[second + 4..second + 8].copy_from_slice(&100_000u32.to_le_bytes());
    let header = parse_header(&large);
    let chunk = EvtxChunk::new(&large, &header).unwrap();
    let mut records = chunk.iter();
    assert!(records.next().unwrap().is_ok());
    assert_eq!(
        records.next().unwrap().err(),
        Some(EvtxError::UnexpectedEof { offset: second as u64 + 24 })
    );
    assert!(records.next().is_none());

    let mut garbage = good.clone();
    garbage[second + 24] = 0x77;
    let header = parse_header(&garbage);
    let chunk = EvtxChunk::new(&garbage, &header).unwrap();
    let mut records = chunk.iter();
    assert!(records.next().unwrap().is_ok());
    assert_eq!(
        records.next().unwrap().err(),
        Some(EvtxError::InvalidToken { value: 0x77, offset: second as u64 + 24 })
    );
    assert!(records.next().is_none());
}

#[test]
fn chunk_header_errors() {
    let good = chunk_with_records(1);
    let mut cursor = ByteCursor::new(&good[..400], 0);
    assert_eq!(
        EvtxChunkHeader::from_reader(&mut cursor).err(),
        Some(EvtxError::UnexpectedEof { offset: 8 })
    );
    let mut cursor = ByteCursor::new(&good[..7], 0);
    assert_eq!(
        EvtxChunkHeader::from_reader(&mut cursor).err(),
        Some(EvtxError::UnexpectedEof { offset: 0 })
    );
    let mut cursor = ByteCursor::new(&good, 1);
    assert_eq!(
        EvtxChunkHeader::from_reader(&mut cursor).err(),
        Some(EvtxError::InvalidEvtxChunkMagic { magic: *b"lfChnk\x00\x01" })
    );
    let mut cursor = ByteCursor::new(&good[..9], 1);
    assert_eq!(
        EvtxChunkHeader::from_reader(&mut cursor).err(),
        Some(EvtxError::InvalidEvtxChunkMagic { magic: *b"lfChnk\x00\x01" })
    );
    let mut cursor = ByteCursor::new(&good[..520], 10);
    assert_eq!(
        EvtxChunkHeader::from_reader(&mut cursor).err(),
        Some(EvtxError::InvalidEvtxChunkMagic { magic: [0, 0, 0, 0, 0, 0, 1, 0] })
    );
}

#[test]
fn calls_for_a_model() {
    let a = XmlElement { name: name("a"), attributes: vec![] };
    let b = XmlElement { name: name("b"), attributes: vec![] };
    let model = vec![
        XmlModel::StartOfStream,
        XmlModel::OpenElement(a),
        XmlModel::OpenElement(b),
        XmlModel::CloseElement,
        XmlModel::EntityRef(name("amp")),
        XmlModel::CloseElement,
        XmlModel::EndOfStream,
    ];
    let calls = visitor_calls(&model).unwrap();
    let shown: Vec<String> = calls
        .iter()
        .map(|call| match call {
            VisitorCall::StartOfStream => "start".to_string(),
            VisitorCall::OpenStartElement(e) => format!("open {}", e.name.text),
            VisitorCall::CloseElement(e) => format!("close {}", e.name.text),
            VisitorCall::Characters(v) => format!("text {:?}", v),
            VisitorCall::ProcessingInstruction(pi) => format!("pi {}", pi.name.text),
            VisitorCall::EntityReference(n) => format!("entity {}", n.text),
            VisitorCall::EndOfStream => "end".to_string(),
        })
        .collect();
    assert_eq!(shown, vec!["start", "open a", "open b", "close b", "entity amp", "close a", "end"]);

    let unbalanced = vec![XmlModel::CloseElement];
    assert_eq!(visitor_calls(&unbalanced).err(), Some(EvtxError::UnbalancedElements));
    assert_eq!(visitor_calls(&vec![]).unwrap().len(), 2);
}

#[test]
fn record_headers() {
    let data = chunk_with_records(1);
    let mut cursor = ByteCursor::new(&data, 512);
    let header = EvtxRecordHeader::from_reader(&mut cursor).unwrap();
    assert_eq!(cursor.pos, 536);
    assert_eq!(header.event_record_id, 1);
    assert_eq!(header.timestamp, 131_000_000_000_000_001);
    assert_eq!(header.data_size as usize, data.len() - 512);
    assert_eq!(header.record_data_size(), Some(header.data_size - 28));
    let tiny = EvtxRecordHeader { data_size: 28, event_record_id: 1, timestamp: 0 };
    assert_eq!(tiny.record_data_size(), Some(0));
    let broken = EvtxRecordHeader { data_size: 27, event_record_id: 1, timestamp: 0 };
    assert_eq!(broken.record_data_size(), None);

    let mut cursor = ByteCursor::new(&data, 513);
    assert_eq!(
        EvtxRecordHeader::from_reader(&mut cursor),
        Err(EvtxError::InvalidEvtxRecordHeaderMagic { offset: 513 })
    );
    let mut cursor = ByteCursor::new(&data[..530], 512);
    assert_eq!(
        EvtxRecordHeader::from_reader(&mut cursor),
        Err(EvtxError::UnexpectedEof { offset: 512 })
    );
}
