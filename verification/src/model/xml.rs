use crate::binxml::name::BinXmlName;
use crate::binxml::value_variant::BinXmlValue;
use crate::model::token::{PendingElement, StructuralEvent, TypedValue};
use vstd::prelude::*;

verus! {

/// An attribute of an element: its name and its value.
#[derive(Debug, PartialEq)]
pub struct XmlAttribute {
    pub name: BinXmlName,
    pub value: BinXmlValue,
}

impl View for XmlAttribute {
    type V = (Seq<char>, TypedValue);

    open spec fn view(&self) -> (Seq<char>, TypedValue) {
        (self.name@, self.value@)
    }
}

/// The attributes of `s`, each as a pair of name and value.
pub open spec fn attributes_view(s: Seq<XmlAttribute>) -> Seq<(Seq<char>, TypedValue)> {
    Seq::new(s.len(), |i: int| s[i]@)
}

/// The start tag of an element.
#[derive(Debug, PartialEq)]
pub struct XmlElement {
    pub name: BinXmlName,
    pub attributes: Vec<XmlAttribute>,
}

impl View for XmlElement {
    type V = StructuralEvent;

    open spec fn view(&self) -> StructuralEvent {
        StructuralEvent::OpenElement {
            name: self.name@,
            attributes: attributes_view(self.attributes@),
        }
    }
}

/// A processing instruction.
#[derive(Debug, PartialEq)]
pub struct XmlPI {
    pub name: BinXmlName,
    pub data: String,
}

/// One structural event of a record.
#[derive(Debug, PartialEq)]
pub enum XmlModel {
    OpenElement(XmlElement),
    CloseElement,
    PI(XmlPI),
    EntityRef(BinXmlName),
    Value(BinXmlValue),
    EndOfStream,
    StartOfStream,
}

impl View for XmlModel {
    type V = StructuralEvent;

    open spec fn view(&self) -> StructuralEvent {
        match self {
            XmlModel::OpenElement(e) => e@,
            XmlModel::CloseElement => StructuralEvent::CloseElement,
            XmlModel::PI(pi) => StructuralEvent::ProcessingInstruction {
                target: pi.name@,
                data: pi.data@,
            },
            XmlModel::EntityRef(name) => StructuralEvent::EntityRef { name: name@ },
            XmlModel::Value(v) => StructuralEvent::Value(v@),
            XmlModel::EndOfStream => StructuralEvent::EndOfStream,
            XmlModel::StartOfStream => StructuralEvent::StartOfStream,
        }
    }
}

/// The events of `s`, each as its mathematical value.
pub open spec fn model_view(s: Seq<XmlModel>) -> Seq<StructuralEvent> {
    Seq::new(s.len(), |i: int| s[i]@)
}

/// Collects the name and the attributes of an element while its start tag
/// is read.
#[derive(Debug)]
pub struct XmlElementBuilder {
    pub name: BinXmlName,
    pub attributes: Vec<XmlAttribute>,
    pub current_attribute_name: Option<BinXmlName>,
}

impl View for XmlElementBuilder {
    type V = PendingElement;

    open spec fn view(&self) -> PendingElement {
        PendingElement {
            name: self.name@,
            attributes: attributes_view(self.attributes@),
            attribute_name: match self.current_attribute_name {
                Some(n) => Some(n@),
                None => None,
            },
        }
    }
}

impl PendingElement {
    /// The element with `name` recorded as the attribute that waits for its
    /// value; a name that already waited is replaced.
    pub open spec fn with_attribute_name(self, name: Seq<char>) -> PendingElement {
        PendingElement { attribute_name: Some(name), ..self }
    }

    /// The element with `value` bound to the waiting attribute name, or
    /// unchanged when no name waits.
    pub open spec fn with_attribute_value(self, value: TypedValue) -> PendingElement {
        match self.attribute_name {
            Some(n) => PendingElement {
                attributes: self.attributes.push((n, value)),
                attribute_name: None,
                ..self
            },
            None => self,
        }
    }

    /// The event that opens the element.
    pub open spec fn open_event(self) -> StructuralEvent {
        StructuralEvent::OpenElement { name: self.name, attributes: self.attributes }
    }
}

impl XmlElementBuilder {
    /// A builder for an element called `name`, with no attributes yet.
    pub fn new(name: BinXmlName) -> (r: Self)
        ensures
            r@ == (PendingElement { name: name@, attributes: Seq::empty(), attribute_name: None }),
    {
        let r = XmlElementBuilder { name, attributes: Vec::new(), current_attribute_name: None };
        assert(attributes_view(r.attributes@) =~= Seq::empty());
        r
    }

    /// Records the name of the next attribute.
    pub fn attribute_name(self, name: BinXmlName) -> (r: Self)
        ensures
            r@ == self@.with_attribute_name(name@),
    {
        XmlElementBuilder {
            name: self.name,
            attributes: self.attributes,
            current_attribute_name: Some(name),
        }
    }

    /// Binds `value` to the attribute name recorded last. Without such a name
    /// the value is dropped.
    pub fn attribute_value(self, value: BinXmlValue) -> (r: Self)
        ensures
            r@ == self@.with_attribute_value(value@),
    {
        let XmlElementBuilder { name, attributes, current_attribute_name } = self;
        let mut attributes = attributes;
        match current_attribute_name {
            None => XmlElementBuilder { name, attributes, current_attribute_name: None },
            Some(attribute) => {
                let ghost before = attributes@;
                attributes.push(XmlAttribute { name: attribute, value });
                assert(attributes_view(attributes@) =~= attributes_view(before).push(
                    (attribute@, value@),
                ));
                XmlElementBuilder { name, attributes, current_attribute_name: None }
            },
        }
    }

    /// The finished start tag. A name that still waits for its value is dropped.
    pub fn finish(self) -> (r: XmlElement)
        ensures
            r@ == self@.open_event(),
    {
        XmlElement { name: self.name, attributes: self.attributes }
    }
}

/// Holds the target of a processing instruction until its data arrives.
#[derive(Debug)]
pub struct XmlPIBuilder {
    pub name: BinXmlName,
}

impl XmlPIBuilder {
    /// A builder for an instruction aimed at `name`.
    pub fn new(name: BinXmlName) -> (r: Self)
        ensures
            r.name@ == name@,
    {
        XmlPIBuilder { name }
    }

    /// The finished instruction, with `data` as its content.
    pub fn finish(self, data: String) -> (r: XmlModel)
        ensures
            r@ == (StructuralEvent::ProcessingInstruction { target: self.name@, data: data@ }),
    {
        XmlModel::PI(XmlPI { name: self.name, data })
    }
}

} // verus!
