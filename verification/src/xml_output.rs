use crate::binxml::assemble::{depth, depth_change, never_negative};
use crate::binxml::name::BinXmlName;
use crate::binxml::value_variant::BinXmlValue;
use crate::err::EvtxError;
use crate::model::token::{StructuralEvent, TypedValue};
use crate::model::xml::{model_view, XmlElement, XmlModel, XmlPI};
use vstd::prelude::*;

verus! {

/// A sink for the structure of a record. Its methods are called in
/// document order; each may fail, which ends the record.
pub trait BinXmlOutput {
    /// Called once, before anything else.
    fn visit_start_of_stream(&mut self) -> Result<(), EvtxError>;

    /// Called once, after everything else.
    fn visit_end_of_stream(&mut self) -> Result<(), EvtxError>;

    /// Called when an element opens.
    fn visit_open_start_element(&mut self, element: &XmlElement) -> Result<(), EvtxError>;

    /// Called when an element closes, with the element that opened it.
    fn visit_close_element(&mut self, element: &XmlElement) -> Result<(), EvtxError>;

    /// Called for text between elements.
    fn visit_characters(&mut self, value: &BinXmlValue) -> Result<(), EvtxError>;

    /// Called for a processing instruction.
    fn visit_processing_instruction(&mut self, pi: &XmlPI) -> Result<(), EvtxError>;

    /// Called for a reference to an entity.
    fn visit_entity_reference(&mut self, entity: &BinXmlName) -> Result<(), EvtxError>;
}

/// One call that a sink receives, as a mathematical value.
pub enum SinkCall {
    StartOfStream,
    OpenStartElement { name: Seq<char>, attributes: Seq<(Seq<char>, TypedValue)> },
    CloseElement { name: Seq<char>, attributes: Seq<(Seq<char>, TypedValue)> },
    Characters(TypedValue),
    ProcessingInstruction { target: Seq<char>, data: Seq<char> },
    EntityReference { name: Seq<char> },
    EndOfStream,
}

/// The call that closes the element which `opened` opened.
pub open spec fn closing_call(opened: StructuralEvent) -> SinkCall {
    match opened {
        StructuralEvent::OpenElement { name, attributes } => SinkCall::CloseElement {
            name,
            attributes,
        },
        _ => SinkCall::EndOfStream,
    }
}

/// `acc` followed by the calls for `events`, where `open` holds the elements
/// that are open, innermost last. An element is closed with the element that
/// opened it; a close that meets no open element fails. The stream's own
/// start and end events make no call.
pub open spec fn calls_for(events: Seq<StructuralEvent>, open: Seq<StructuralEvent>, acc: Seq<
    SinkCall,
>) -> Result<Seq<SinkCall>, EvtxError>
    decreases events.len(),
{
    if events.len() == 0 {
        Ok(acc)
    } else {
        let rest = events.drop_first();
        match events[0] {
            StructuralEvent::OpenElement { name, attributes } => calls_for(
                rest,
                open.push(events[0]),
                acc.push(SinkCall::OpenStartElement { name, attributes }),
            ),
            StructuralEvent::CloseElement => if open.len() == 0 {
                Err(EvtxError::UnbalancedElements)
            } else {
                calls_for(rest, open.drop_last(), acc.push(closing_call(open.last())))
            },
            StructuralEvent::Value(v) => calls_for(rest, open, acc.push(SinkCall::Characters(v))),
            StructuralEvent::ProcessingInstruction { target, data } => calls_for(
                rest,
                open,
                acc.push(SinkCall::ProcessingInstruction { target, data }),
            ),
            StructuralEvent::EntityRef { name } => calls_for(
                rest,
                open,
                acc.push(SinkCall::EntityReference { name }),
            ),
            StructuralEvent::StartOfStream => calls_for(rest, open, acc),
            StructuralEvent::EndOfStream => calls_for(rest, open, acc),
        }
    }
}

/// The calls that a sink receives for `events`: the start of the stream, the
/// calls for the events, and the end of the stream, whatever the events hold.
pub open spec fn sink_calls(events: Seq<StructuralEvent>) -> Result<Seq<SinkCall>, EvtxError> {
    match calls_for(events, Seq::empty(), seq![SinkCall::StartOfStream]) {
        Err(e) => Err(e),
        Ok(calls) => Ok(calls.push(SinkCall::EndOfStream)),
    }
}

proof fn lemma_depth_prepend(e: StructuralEvent, s: Seq<StructuralEvent>)
    ensures
        depth(seq![e] + s) == depth_change(e) + depth(s),
    decreases s.len(),
{
    let all = seq![e] + s;
    if s.len() == 0 {
        assert(all.drop_last() =~= Seq::<StructuralEvent>::empty());
        assert(depth(all.drop_last()) == 0);
        assert(all.last() == e);
    } else {
        lemma_depth_prepend(e, s.drop_last());
        assert(all.drop_last() =~= seq![e] + s.drop_last());
        assert(all.last() == s.last());
    }
}

proof fn lemma_calls_exist(events: Seq<StructuralEvent>, open: Seq<StructuralEvent>, acc: Seq<SinkCall>)
    requires
        forall|k: int|
            0 <= k <= events.len() ==> open.len() + depth(#[trigger] events.take(k)) >= 0,
    ensures
        calls_for(events, open, acc) is Ok,
    decreases events.len(),
{
    if events.len() > 0 {
        let e = events[0];
        let rest = events.drop_first();
        assert(events.take(1) =~= seq![e] + Seq::<StructuralEvent>::empty());
        lemma_depth_prepend(e, Seq::empty());
        assert(open.len() + depth(events.take(1)) >= 0);
        let next_open = match e {
            StructuralEvent::OpenElement { .. } => open.push(e),
            StructuralEvent::CloseElement => open.drop_last(),
            _ => open,
        };
        assert(next_open.len() == open.len() + depth_change(e));
        assert forall|k: int| 0 <= k <= rest.len() implies next_open.len() + depth(
            #[trigger] rest.take(k),
        ) >= 0 by {
            assert(events.take(k + 1) =~= seq![e] + rest.take(k));
            lemma_depth_prepend(e, rest.take(k));
            assert(open.len() + depth(events.take(k + 1)) >= 0);
        }
        match e {
            StructuralEvent::OpenElement { name, attributes } => {
                lemma_calls_exist(
                    rest,
                    next_open,
                    acc.push(SinkCall::OpenStartElement { name, attributes }),
                );
            },
            StructuralEvent::CloseElement => {
                lemma_calls_exist(rest, next_open, acc.push(closing_call(open.last())));
            },
            StructuralEvent::Value(v) => {
                lemma_calls_exist(rest, next_open, acc.push(SinkCall::Characters(v)));
            },
            StructuralEvent::ProcessingInstruction { target, data } => {
                lemma_calls_exist(
                    rest,
                    next_open,
                    acc.push(SinkCall::ProcessingInstruction { target, data }),
                );
            },
            StructuralEvent::EntityRef { name } => {
                lemma_calls_exist(rest, next_open, acc.push(SinkCall::EntityReference { name }));
            },
            StructuralEvent::StartOfStream => {
                lemma_calls_exist(rest, next_open, acc);
            },
            StructuralEvent::EndOfStream => {
                lemma_calls_exist(rest, next_open, acc);
            },
        }
    }
}

/// Events in which no element is closed that was not opened before can
/// always be handed to a sink: every close finds the element that it closes.
pub proof fn lemma_calls_of_nested_events(events: Seq<StructuralEvent>)
    requires
        never_negative(events),
    ensures
        sink_calls(events) is Ok,
{
    lemma_calls_exist(events, Seq::empty(), seq![SinkCall::StartOfStream]);
}

/// One call that a sink is to receive, with what is handed to it.
#[derive(Debug, Clone, Copy)]
pub enum VisitorCall<'m> {
    StartOfStream,
    OpenStartElement(&'m XmlElement),
    CloseElement(&'m XmlElement),
    Characters(&'m BinXmlValue),
    ProcessingInstruction(&'m XmlPI),
    EntityReference(&'m BinXmlName),
    EndOfStream,
}

impl<'m> View for VisitorCall<'m> {
    type V = SinkCall;

    open spec fn view(&self) -> SinkCall {
        match self {
            VisitorCall::StartOfStream => SinkCall::StartOfStream,
            VisitorCall::OpenStartElement(e) => SinkCall::OpenStartElement {
                name: e.name@,
                attributes: crate::model::xml::attributes_view(e.attributes@),
            },
            VisitorCall::CloseElement(e) => SinkCall::CloseElement {
                name: e.name@,
                attributes: crate::model::xml::attributes_view(e.attributes@),
            },
            VisitorCall::Characters(v) => SinkCall::Characters(v@),
            VisitorCall::ProcessingInstruction(pi) => SinkCall::ProcessingInstruction {
                target: pi.name@,
                data: pi.data@,
            },
            VisitorCall::EntityReference(name) => SinkCall::EntityReference { name: name@ },
            VisitorCall::EndOfStream => SinkCall::EndOfStream,
        }
    }
}

/// The calls of `s`, each as its mathematical value.
pub open spec fn calls_view(s: Seq<VisitorCall<'_>>) -> Seq<SinkCall> {
    Seq::new(s.len(), |i: int| s[i]@)
}

/// The open elements of `s`, each as the event that opened it.
pub open spec fn open_view(s: Seq<&XmlElement>) -> Seq<StructuralEvent> {
    Seq::new(s.len(), |i: int| s[i]@)
}

/// The calls that a sink is to receive for the events of `model`, in order.
pub fn visitor_calls<'m>(model: &'m Vec<XmlModel>) -> (r: Result<Vec<VisitorCall<'m>>, EvtxError>)
    ensures
        match sink_calls(model_view(model@)) {
            Ok(calls) => r is Ok && calls_view(r.unwrap()@) == calls,
            Err(e) => r == Err::<Vec<VisitorCall<'m>>, EvtxError>(e),
        },
{
    let mut calls: Vec<VisitorCall<'m>> = Vec::new();
    let mut stack: Vec<&'m XmlElement> = Vec::new();
    calls.push(VisitorCall::StartOfStream);
    let ghost events = model_view(model@);
    assert(calls_view(calls@) =~= seq![SinkCall::StartOfStream]);
    assert(open_view(stack@) =~= Seq::empty());
    assert(events.subrange(0, events.len() as int) =~= events);
    let mut i: usize = 0;
    while i < model.len()
        invariant
            i <= model.len(),
            events == model_view(model@),
            calls_for(events, Seq::empty(), seq![SinkCall::StartOfStream]) == calls_for(
                events.subrange(i as int, events.len() as int),
                open_view(stack@),
                calls_view(calls@),
            ),
        decreases model.len() - i,
    {
        let ghost rest = events.subrange(i as int, events.len() as int);
        assert(rest[0] == model@[i as int]@);
        assert(rest.drop_first() =~= events.subrange(i + 1, events.len() as int));
        let ghost calls_before = calls@;
        let ghost stack_before = stack@;
        match &model[i] {
            XmlModel::OpenElement(element) => {
                stack.push(element);
                calls.push(VisitorCall::OpenStartElement(element));
                assert(open_view(stack@) =~= open_view(stack_before).push(rest[0]));
            },
            XmlModel::CloseElement => {
                match stack.pop() {
                    None => {
                        return Err(EvtxError::UnbalancedElements);
                    },
                    Some(element) => {
                        calls.push(VisitorCall::CloseElement(element));
                        assert(open_view(stack@) =~= open_view(stack_before).drop_last());
                        assert(open_view(stack_before).last() == element@);
                    },
                }
            },
            XmlModel::Value(value) => {
                calls.push(VisitorCall::Characters(value));
            },
            XmlModel::PI(pi) => {
                calls.push(VisitorCall::ProcessingInstruction(pi));
            },
            XmlModel::EntityRef(entity) => {
                calls.push(VisitorCall::EntityReference(entity));
            },
            XmlModel::EndOfStream => {},
            XmlModel::StartOfStream => {},
        }
        proof {
            if calls@.len() > calls_before.len() {
                assert(calls_view(calls@) =~= calls_view(calls_before).push(calls@.last()@));
            } else {
                assert(calls_view(calls@) =~= calls_view(calls_before));
            }
        }
        i += 1;
    }
    let ghost body = calls@;
    calls.push(VisitorCall::EndOfStream);
    assert(calls_view(calls@) =~= calls_view(body).push(SinkCall::EndOfStream));
    Ok(calls)
}

/// Hands one call to the sink: the method that `call` names is called once.
pub(crate) fn dispatch<T: BinXmlOutput>(visitor: &mut T, call: VisitorCall<'_>) -> (r: Result<
    (),
    EvtxError,
>)
    ensures
        exists|sink: &mut T|
            mut_ref_current(sink) == *old(visitor) && mut_ref_future(sink) == *final(visitor)
                && sink_allows(sink, call, r),
{
    match call {
        VisitorCall::StartOfStream => visitor.visit_start_of_stream(),
        VisitorCall::OpenStartElement(element) => visitor.visit_open_start_element(element),
        VisitorCall::CloseElement(element) => visitor.visit_close_element(element),
        VisitorCall::Characters(value) => visitor.visit_characters(value),
        VisitorCall::ProcessingInstruction(pi) => visitor.visit_processing_instruction(pi),
        VisitorCall::EntityReference(entity) => visitor.visit_entity_reference(entity),
        VisitorCall::EndOfStream => visitor.visit_end_of_stream(),
    }
}

/// Whether the sink behind `sink`, on receiving `call`, can answer `r`: the
/// method that `call` names, called through `sink` with what `call` holds,
/// allows that result and the change that `sink` stands for.
///
/// What a method allows is for each sink to say; a sink that says nothing
/// allows every answer.
#[verifier::inline]
pub open spec fn sink_allows<T: BinXmlOutput>(
    sink: &mut T,
    call: VisitorCall<'_>,
    r: Result<(), EvtxError>,
) -> bool {
    match call {
        VisitorCall::StartOfStream => call_ensures(T::visit_start_of_stream, (sink,), r),
        VisitorCall::OpenStartElement(element) => call_ensures(
            T::visit_open_start_element,
            (sink, element),
            r,
        ),
        VisitorCall::CloseElement(element) => call_ensures(
            T::visit_close_element,
            (sink, element),
            r,
        ),
        VisitorCall::Characters(value) => call_ensures(T::visit_characters, (sink, value), r),
        VisitorCall::ProcessingInstruction(pi) => call_ensures(
            T::visit_processing_instruction,
            (sink, pi),
            r,
        ),
        VisitorCall::EntityReference(entity) => call_ensures(
            T::visit_entity_reference,
            (sink, entity),
            r,
        ),
        VisitorCall::EndOfStream => call_ensures(T::visit_end_of_stream, (sink,), r),
    }
}

} // verus!
