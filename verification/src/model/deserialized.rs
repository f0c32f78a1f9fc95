use crate::binxml::model::BinXMLValueTypes;
use crate::binxml::name::BinXmlName;
use crate::binxml::value_variant::BinXmlValue;
use crate::guid::Guid;
use crate::model::token::{TemplateDefinition, Token};
use crate::ChunkOffset;
use vstd::prelude::*;

verus! {

/// One token of a record's body, with its payload decoded.
#[derive(Debug, PartialEq)]
pub enum BinXMLDeserializedTokens {
    FragmentHeader(BinXMLFragmentHeader),
    TemplateInstance(BinXmlTemplateRef),
    OpenStartElement(BinXMLOpenStartElement),
    AttributeList,
    Attribute(BinXMLAttribute),
    CloseStartElement,
    CloseEmptyElement,
    CloseElement,
    Value(BinXmlValue),
    CDATASection,
    CharRef,
    EntityRef(BinXmlEntityReference),
    PITarget(BinXMLProcessingInstructionTarget),
    PIData(String),
    Substitution(TemplateSubstitutionDescriptor),
    EndOfStream,
    StartOfStream,
}

#[derive(Debug, PartialEq)]
pub struct BinXMLProcessingInstructionTarget {
    pub name: BinXmlName,
}

#[derive(Debug, PartialEq)]
pub struct BinXMLOpenStartElement {
    pub data_size: u32,
    pub name: BinXmlName,
}

#[derive(Debug, Clone, Copy, PartialEq, Eq, Structural)]
pub struct BinXmlTemplateDefinitionHeader {
    /// Where the next template of the same bucket starts.
    pub next_template_offset: ChunkOffset,
    pub guid: Guid,
    pub data_size: u32,
}

#[derive(Debug, PartialEq)]
pub struct BinXMLTemplateDefinition {
    pub header: BinXmlTemplateDefinitionHeader,
    pub tokens: Vec<BinXMLDeserializedTokens>,
}

#[derive(Debug, PartialEq)]
pub struct BinXmlEntityReference {
    pub name: BinXmlName,
}

#[derive(Debug, PartialEq)]
pub struct BinXmlTemplateRef {
    pub template_def_offset: ChunkOffset,
    pub substitution_array: Vec<BinXMLDeserializedTokens>,
}

#[derive(Debug, Clone, Copy, PartialEq, Eq, Structural)]
pub struct TemplateValueDescriptor {
    pub size: u16,
    pub value_type: BinXMLValueTypes,
}

#[derive(Debug, Clone, Copy, PartialEq, Eq, Structural)]
pub struct TemplateSubstitutionDescriptor {
    /// Position in the substitution array, counted from zero.
    pub substitution_index: u16,
    pub value_type: BinXMLValueTypes,
    pub ignore: bool,
}

#[derive(Debug, Clone, Copy, PartialEq, Eq, Structural)]
pub struct BinXMLFragmentHeader {
    pub major_version: u8,
    pub minor_version: u8,
    pub flags: u8,
}

#[derive(Debug, PartialEq)]
pub struct BinXMLAttribute {
    pub name: BinXmlName,
}

impl View for BinXMLTemplateDefinition {
    type V = TemplateDefinition;

    open spec fn view(&self) -> TemplateDefinition {
        TemplateDefinition { header: self.header, tokens: tokens_view(self.tokens@) }
    }
}

/// The tokens of `s`, each as its mathematical value.
pub open spec fn tokens_view(s: Seq<BinXMLDeserializedTokens>) -> Seq<Token>
    decreases s, 0int,
{
    if s.len() == 0 {
        Seq::empty()
    } else {
        tokens_view(s.drop_last()).push(s.last().view())
    }
}

/// `tokens_view` keeps the length and maps position by position.
pub proof fn lemma_tokens_view_index(s: Seq<BinXMLDeserializedTokens>)
    ensures
        tokens_view(s).len() == s.len(),
        forall|i: int| 0 <= i < s.len() ==> (#[trigger] tokens_view(s)[i]) == s[i]@,
    decreases s.len(),
{
    if s.len() > 0 {
        let front = s.drop_last();
        lemma_tokens_view_index(front);
        assert(tokens_view(s) == tokens_view(front).push(s.last()@));
        assert forall|i: int| 0 <= i < s.len() implies (#[trigger] tokens_view(s)[i]) == s[i]@ by {
            if i < front.len() {
                assert(tokens_view(front)[i] == front[i]@);
            }
        }
    }
}

/// `tokens_view` of a sequence with one more token at its end.
pub proof fn lemma_tokens_view_push(s: Seq<BinXMLDeserializedTokens>, t: BinXMLDeserializedTokens)
    ensures
        tokens_view(s.push(t)) == tokens_view(s).push(t@),
{
    assert(s.push(t).drop_last() =~= s);
}

/// A copy of `v`, token by token.
pub fn clone_tokens(v: &Vec<BinXMLDeserializedTokens>) -> (r: Vec<BinXMLDeserializedTokens>)
    ensures
        tokens_view(r@) == tokens_view(v@),
    decreases v, 0int,
{
    let mut out: Vec<BinXMLDeserializedTokens> = Vec::new();
    let mut i: usize = 0;
    while i < v.len()
        invariant
            i <= v.len(),
            out@.len() == i,
            tokens_view(out@) == tokens_view(v@.subrange(0, i as int)),
        decreases v.len() - i,
    {
        let t = v[i].clone();
        proof {
            lemma_tokens_view_push(out@, t);
            lemma_tokens_view_push(v@.subrange(0, i as int), v@[i as int]);
            assert(v@.subrange(0, i as int).push(v@[i as int]) =~= v@.subrange(0, i + 1));
        }
        out.push(t);
        i += 1;
    }
    assert(v@.subrange(0, i as int) =~= v@);
    out
}

impl Clone for BinXmlTemplateRef {
    fn clone(&self) -> (r: Self)
        ensures
            r.template_def_offset == self.template_def_offset,
            tokens_view(r.substitution_array@) == tokens_view(self.substitution_array@),
        decreases self, 1int,
    {
        BinXmlTemplateRef {
            template_def_offset: self.template_def_offset,
            substitution_array: clone_tokens(&self.substitution_array),
        }
    }
}

impl Clone for BinXMLDeserializedTokens {
    fn clone(&self) -> (r: Self)
        ensures
            r@ == self@,
        decreases self, 2int,
    {
        match self {
            BinXMLDeserializedTokens::FragmentHeader(h) => BinXMLDeserializedTokens::FragmentHeader(*h),
            BinXMLDeserializedTokens::TemplateInstance(t) => BinXMLDeserializedTokens::TemplateInstance(t.clone()),
            BinXMLDeserializedTokens::OpenStartElement(e) => BinXMLDeserializedTokens::OpenStartElement(
                BinXMLOpenStartElement { data_size: e.data_size, name: e.name.clone() },
            ),
            BinXMLDeserializedTokens::AttributeList => BinXMLDeserializedTokens::AttributeList,
            BinXMLDeserializedTokens::Attribute(a) => BinXMLDeserializedTokens::Attribute(
                BinXMLAttribute { name: a.name.clone() },
            ),
            BinXMLDeserializedTokens::CloseStartElement => BinXMLDeserializedTokens::CloseStartElement,
            BinXMLDeserializedTokens::CloseEmptyElement => BinXMLDeserializedTokens::CloseEmptyElement,
            BinXMLDeserializedTokens::CloseElement => BinXMLDeserializedTokens::CloseElement,
            BinXMLDeserializedTokens::Value(v) => BinXMLDeserializedTokens::Value(v.clone()),
            BinXMLDeserializedTokens::CDATASection => BinXMLDeserializedTokens::CDATASection,
            BinXMLDeserializedTokens::CharRef => BinXMLDeserializedTokens::CharRef,
            BinXMLDeserializedTokens::EntityRef(e) => BinXMLDeserializedTokens::EntityRef(
                BinXmlEntityReference { name: e.name.clone() },
            ),
            BinXMLDeserializedTokens::PITarget(t) => BinXMLDeserializedTokens::PITarget(
                BinXMLProcessingInstructionTarget { name: t.name.clone() },
            ),
            BinXMLDeserializedTokens::PIData(d) => BinXMLDeserializedTokens::PIData(d.clone()),
            BinXMLDeserializedTokens::Substitution(d) => BinXMLDeserializedTokens::Substitution(*d),
            BinXMLDeserializedTokens::EndOfStream => BinXMLDeserializedTokens::EndOfStream,
            BinXMLDeserializedTokens::StartOfStream => BinXMLDeserializedTokens::StartOfStream,
        }
    }
}

impl View for BinXMLDeserializedTokens {
    type V = Token;

    open spec fn view(&self) -> Token
        decreases self, 1int,
    {
        match self {
            BinXMLDeserializedTokens::FragmentHeader(h) => Token::FragmentHeader(*h),
            BinXMLDeserializedTokens::TemplateInstance(t) => Token::TemplateInstance {
                template_def_offset: t.template_def_offset,
                substitution_array: tokens_view(t.substitution_array@),
            },
            BinXMLDeserializedTokens::OpenStartElement(e) => Token::OpenStartElement {
                data_size: e.data_size,
                name: e.name@,
            },
            BinXMLDeserializedTokens::AttributeList => Token::AttributeList,
            BinXMLDeserializedTokens::Attribute(a) => Token::Attribute { name: a.name@ },
            BinXMLDeserializedTokens::CloseStartElement => Token::CloseStartElement,
            BinXMLDeserializedTokens::CloseEmptyElement => Token::CloseEmptyElement,
            BinXMLDeserializedTokens::CloseElement => Token::CloseElement,
            BinXMLDeserializedTokens::Value(v) => Token::Value(v.view()),
            BinXMLDeserializedTokens::CDATASection => Token::CDATASection,
            BinXMLDeserializedTokens::CharRef => Token::CharRef,
            BinXMLDeserializedTokens::EntityRef(e) => Token::EntityRef { name: e.name@ },
            BinXMLDeserializedTokens::PITarget(t) => Token::PITarget { name: t.name@ },
            BinXMLDeserializedTokens::PIData(d) => Token::PIData(d@),
            BinXMLDeserializedTokens::Substitution(d) => Token::Substitution(*d),
            BinXMLDeserializedTokens::EndOfStream => Token::EndOfStream,
            BinXMLDeserializedTokens::StartOfStream => Token::StartOfStream,
        }
    }
}

} // verus!
