use crate::binxml::tokens::{read_template_definition, spec_template_definition};
use crate::binxml::value_variant::BinXmlValue;
use crate::err::EvtxError;
use crate::evtx_chunk::EvtxChunk;
use crate::model::deserialized::{
    lemma_tokens_view_index, tokens_view, BinXMLDeserializedTokens, BinXmlTemplateRef,
    TemplateSubstitutionDescriptor,
};
use crate::model::token::{PendingElement, StructuralEvent, Token, TypedValue};
use crate::stream::ByteCursor;
use crate::xml_output::{
    calls_view, dispatch, lemma_calls_of_nested_events, sink_allows, sink_calls, visitor_calls,
    BinXmlOutput, VisitorCall,
};
use crate::model::xml::{model_view, XmlElementBuilder, XmlModel, XmlPIBuilder};
use std::borrow::Cow;
use vstd::prelude::*;

verus! {

/// What the record model builder remembers between two tokens.
pub struct BuilderState {
    /// The events emitted so far.
    pub events: Seq<StructuralEvent>,
    /// The element whose start tag is being read, if any.
    pub element: Option<PendingElement>,
    /// The target of a processing instruction that waits for its data.
    pub pi: Option<Seq<char>>,
    /// How many elements are open and not yet closed.
    pub open: nat,
}

impl BuilderState {
    /// The state before the first token.
    pub open spec fn initial() -> BuilderState {
        BuilderState { events: Seq::empty(), element: None, pi: None, open: 0 }
    }

    /// The state with `event` emitted.
    pub open spec fn emit(self, event: StructuralEvent) -> BuilderState {
        BuilderState { events: self.events.push(event), ..self }
    }

    /// The state with the element in progress, if there is one, turned into
    /// an open element that waits for its children.
    pub open spec fn flush(self) -> BuilderState {
        match self.element {
            Some(e) => BuilderState {
                events: self.events.push(e.open_event()),
                element: None,
                open: self.open + 1,
                ..self
            },
            None => self,
        }
    }

    /// Whether an attribute name waits for its value.
    pub open spec fn expects_value(self) -> bool {
        self.element matches Some(e) && e.attribute_name is Some
    }

    /// The state after `token`, or the error with which the token is rejected.
    pub open spec fn step(self, token: Token) -> Result<BuilderState, EvtxError> {
        if self.expects_value() && !(token is Value) {
            Err(EvtxError::BadParserState)
        } else {
            match token {
                Token::FragmentHeader(_) => Ok(self),
                Token::AttributeList => Ok(self),
                Token::TemplateInstance { .. } => Err(EvtxError::BadParserState),
                Token::Substitution(_) => Err(EvtxError::BadParserState),
                Token::CDATASection => Err(EvtxError::UnimplementedToken),
                Token::CharRef => Err(EvtxError::UnimplementedToken),
                Token::OpenStartElement { name, .. } => Ok(
                    BuilderState {
                        element: Some(
                            PendingElement { name, attributes: Seq::empty(), attribute_name: None },
                        ),
                        ..self.flush()
                    },
                ),
                Token::Attribute { name } => match self.element {
                    None => Err(EvtxError::BadParserState),
                    Some(e) => Ok(
                        BuilderState { element: Some(e.with_attribute_name(name)), ..self },
                    ),
                },
                Token::CloseStartElement => match self.element {
                    None => Err(EvtxError::BadParserState),
                    Some(_) => Ok(self.flush()),
                },
                Token::CloseEmptyElement => match self.element {
                    None => Err(EvtxError::BadParserState),
                    Some(e) => Ok(
                        BuilderState {
                            events: self.events.push(e.open_event()).push(
                                StructuralEvent::CloseElement,
                            ),
                            element: None,
                            ..self
                        },
                    ),
                },
                Token::CloseElement => {
                    let s = self.flush();
                    if s.open == 0 {
                        Err(EvtxError::UnbalancedElements)
                    } else {
                        Ok(
                            BuilderState {
                                events: s.events.push(StructuralEvent::CloseElement),
                                open: (s.open - 1) as nat,
                                ..s
                            },
                        )
                    }
                },
                Token::Value(v) => {
                    if self.expects_value() {
                        Ok(
                            BuilderState {
                                element: Some(self.element.unwrap().with_attribute_value(v)),
                                ..self
                            },
                        )
                    } else if v is EvtXml {
                        Err(EvtxError::BadParserState)
                    } else {
                        Ok(self.flush().emit(StructuralEvent::Value(v)))
                    }
                },
                Token::EntityRef { name } => Ok(
                    self.flush().emit(StructuralEvent::EntityRef { name }),
                ),
                Token::PITarget { name } => Ok(BuilderState { pi: Some(name), ..self.flush() }),
                Token::PIData(data) => match self.pi {
                    None => Err(EvtxError::BadParserState),
                    Some(target) => Ok(
                        BuilderState {
                            pi: None,
                            ..self.flush().emit(
                                StructuralEvent::ProcessingInstruction { target, data },
                            )
                        },
                    ),
                },
                Token::StartOfStream => Ok(self.flush().emit(StructuralEvent::StartOfStream)),
                Token::EndOfStream => Ok(self.flush().emit(StructuralEvent::EndOfStream)),
            }
        }
    }

    /// The state after all of `tokens`, taken in order, or the error of the
    /// first token that is rejected.
    pub open spec fn run(self, tokens: Seq<Token>) -> Result<BuilderState, EvtxError>
        decreases tokens.len(),
    {
        if tokens.len() == 0 {
            Ok(self)
        } else {
            match self.step(tokens[0]) {
                Err(e) => Err(e),
                Ok(next) => next.run(tokens.drop_first()),
            }
        }
    }
}

/// The structural events that a flattened token sequence stands for.
///
/// The sequence is rejected with the error of its first offending token, or
/// with `UnbalancedElements` when an element is still open after the last one.
pub open spec fn record_model(tokens: Seq<Token>) -> Result<Seq<StructuralEvent>, EvtxError> {
    match BuilderState::initial().run(tokens) {
        Err(e) => Err(e),
        Ok(s) => if s.element is Some || s.open > 0 {
            Err(EvtxError::UnbalancedElements)
        } else {
            Ok(s.events)
        },
    }
}

/// By how much `event` changes the number of open elements.
pub open spec fn depth_change(event: StructuralEvent) -> int {
    match event {
        StructuralEvent::OpenElement { .. } => 1,
        StructuralEvent::CloseElement => -1,
        _ => 0,
    }
}

/// How many elements are open after `events`: those opened minus those closed.
pub open spec fn depth(events: Seq<StructuralEvent>) -> int
    decreases events.len(),
{
    if events.len() == 0 {
        0
    } else {
        depth(events.drop_last()) + depth_change(events.last())
    }
}

/// Whether no element is closed in `events` that was not opened before.
pub open spec fn never_negative(events: Seq<StructuralEvent>) -> bool {
    forall|k: int| 0 <= k <= events.len() ==> depth(#[trigger] events.take(k)) >= 0
}

/// Whether the open and close events of `events` nest properly: every close
/// meets an element that is open, and none is left open at the end.
pub open spec fn balanced(events: Seq<StructuralEvent>) -> bool {
    never_negative(events) && depth(events) == 0
}

impl BuilderState {
    /// Whether the count of open elements is the depth of the events so far,
    /// and no event closed what was not open.
    pub open spec fn consistent(self) -> bool {
        depth(self.events) == self.open && never_negative(self.events)
    }
}

proof fn lemma_emit_consistent(s: BuilderState, event: StructuralEvent)
    requires
        s.consistent(),
        s.open + depth_change(event) >= 0,
    ensures
        depth(s.events.push(event)) == s.open + depth_change(event),
        never_negative(s.events.push(event)),
{
    let after = s.events.push(event);
    assert(after.drop_last() =~= s.events);
    assert forall|k: int| 0 <= k <= after.len() implies depth(#[trigger] after.take(k)) >= 0 by {
        if k == after.len() {
            assert(after.take(k) =~= after);
        } else {
            assert(after.take(k) =~= s.events.take(k));
        }
    }
}

proof fn lemma_flush_consistent(s: BuilderState)
    requires
        s.consistent(),
    ensures
        s.flush().consistent(),
{
    if s.element is Some {
        lemma_emit_consistent(s, s.element.unwrap().open_event());
    }
}

proof fn lemma_step_consistent(s: BuilderState, token: Token)
    requires
        s.consistent(),
        s.step(token) is Ok,
    ensures
        s.step(token).unwrap().consistent(),
{
    let f = s.flush();
    lemma_flush_consistent(s);
    match token {
        Token::CloseEmptyElement => {
            let e = s.element.unwrap();
            lemma_emit_consistent(s, e.open_event());
            let mid = BuilderState { events: s.events.push(e.open_event()), open: s.open + 1, ..s };
            lemma_emit_consistent(mid, StructuralEvent::CloseElement);
        },
        Token::CloseElement => {
            lemma_emit_consistent(f, StructuralEvent::CloseElement);
        },
        Token::Value(v) => {
            lemma_emit_consistent(f, StructuralEvent::Value(v));
        },
        Token::EntityRef { name } => {
            lemma_emit_consistent(f, StructuralEvent::EntityRef { name });
        },
        Token::PIData(data) => {
            if s.pi is Some {
                let target = s.pi.unwrap();
                lemma_emit_consistent(f, StructuralEvent::ProcessingInstruction { target, data });
            }
        },
        Token::StartOfStream => {
            lemma_emit_consistent(f, StructuralEvent::StartOfStream);
        },
        Token::EndOfStream => {
            lemma_emit_consistent(f, StructuralEvent::EndOfStream);
        },
        _ => {},
    }
}

proof fn lemma_run_consistent(s: BuilderState, tokens: Seq<Token>)
    requires
        s.consistent(),
        s.run(tokens) is Ok,
    ensures
        s.run(tokens).unwrap().consistent(),
    decreases tokens.len(),
{
    if tokens.len() > 0 {
        lemma_step_consistent(s, tokens[0]);
        lemma_run_consistent(s.step(tokens[0]).unwrap(), tokens.drop_first());
    }
}

/// Every token sequence that the record model accepts yields events whose
/// open and close events nest properly.
pub proof fn lemma_record_model_balanced(tokens: Seq<Token>)
    requires
        record_model(tokens) is Ok,
    ensures
        balanced(record_model(tokens).unwrap()),
{
    let start = BuilderState::initial();
    assert(start.events.take(0) =~= start.events);
    assert forall|k: int| 0 <= k <= start.events.len() implies depth(
        #[trigger] start.events.take(k),
    ) >= 0 by {
        assert(start.events.take(k) =~= start.events);
    }
    lemma_run_consistent(start, tokens);
}

/// The tokens of `s`, borrowed or owned, each as its mathematical value.
pub open spec fn cow_tokens_view(s: Seq<Cow<'_, BinXMLDeserializedTokens>>) -> Seq<Token> {
    Seq::new(s.len(), |i: int| s[i]@)
}

/// Emits the start tag of `pending`, if there is one, as an open element.
fn flush_pending(pending: Option<XmlElementBuilder>, model: &mut Vec<XmlModel>, open: &mut usize)
    requires
        *old(open) <= old(model)@.len(),
    ensures
        *final(open) <= final(model)@.len(),
        match pending {
            Some(b) => model_view(final(model)@) == model_view(old(model)@).push(b@.open_event())
                && *final(open) == *old(open) + 1,
            None => final(model)@ == old(model)@ && *final(open) == *old(open),
        },
{
    match pending {
        Some(builder) => {
            let ghost before = model@;
            model.push(XmlModel::OpenElement(builder.finish()));
            let _len = model.len();
            *open = *open + 1;
            assert(model_view(model@) =~= model_view(before).push(builder@.open_event()));
        },
        None => {},
    }
}

/// Appends `event` to `model`.
fn emit(model: &mut Vec<XmlModel>, event: XmlModel)
    ensures
        model_view(final(model)@) == model_view(old(model)@).push(event@),
        final(model)@.len() == old(model)@.len() + 1,
{
    let ghost before = model@;
    model.push(event);
    assert(model_view(model@) =~= model_view(before).push(event@));
}

/// Turns a flattened token sequence into the structural events of the record.
///
/// The tokens are taken in order. A start tag is held back until its
/// attributes are read; it is emitted when the tag is closed or when the first
/// child arrives. Template instances and substitutions are rejected: they must
/// have been expanded before. The stream's own start and end tokens become
/// events like any other; the envelope that a sink receives comes from
/// `visitor_calls`.
pub fn create_record_model<'a>(tokens: Vec<Cow<'a, BinXMLDeserializedTokens>>) -> (r: Result<
    Vec<XmlModel>,
    EvtxError,
>)
    ensures
        match record_model(cow_tokens_view(tokens@)) {
            Ok(events) => r is Ok && model_view(r.unwrap()@) == events,
            Err(e) => r == Err::<Vec<XmlModel>, EvtxError>(e),
        },
        r is Ok ==> balanced(model_view(r.unwrap()@)),
{
    proof {
        if record_model(cow_tokens_view(tokens@)) is Ok {
            lemma_record_model_balanced(cow_tokens_view(tokens@));
        }
    }
    let mut current_element: Option<XmlElementBuilder> = None;
    let mut current_pi: Option<XmlPIBuilder> = None;
    let mut model: Vec<XmlModel> = Vec::new();
    let mut open: usize = 0;
    let ghost all = cow_tokens_view(tokens@);
    let ghost mut state = BuilderState::initial();
    assert(model_view(model@) =~= state.events);
    assert(all.subrange(0, all.len() as int) =~= all);

    for token in it: tokens
        invariant
            all == cow_tokens_view(tokens@),
            it.seq().len() == all.len(),
            forall|i: int| 0 <= i < all.len() ==> all[i] == (#[trigger] it.seq()[i])@,
            BuilderState::initial().run(all) == state.run(
                all.subrange(it.index() as int, all.len() as int),
            ),
            model_view(model@) == state.events,
            state.open == open,
            open <= model@.len(),
            state.element == match current_element {
                Some(b) => Some(b@),
                None => None,
            },
            state.pi == match current_pi {
                Some(b) => Some(b.name@),
                None => None,
            },
    {
        let owned = match token {
            Cow::Owned(t) => t,
            Cow::Borrowed(t) => t.clone(),
        };
        let ghost tok = owned@;
        let ghost rest = all.subrange(it.index() as int, all.len() as int);
        assert(rest[0] == tok);
        assert(rest.drop_first() =~= all.subrange(it.index() + 1, all.len() as int));
        let expects_value = match &current_element {
            Some(b) => b.current_attribute_name.is_some(),
            None => false,
        };
        assert(expects_value == state.expects_value());
        if expects_value {
            match owned {
                BinXMLDeserializedTokens::Value(value) => {
                    let builder = current_element.unwrap();
                    current_element = Some(builder.attribute_value(value));
                },
                _ => {
                    return Err(EvtxError::BadParserState);
                },
            }
        } else {
            match owned {
                BinXMLDeserializedTokens::FragmentHeader(_) => {},
                BinXMLDeserializedTokens::AttributeList => {},
                BinXMLDeserializedTokens::TemplateInstance(_) => {
                    return Err(EvtxError::BadParserState);
                },
                BinXMLDeserializedTokens::Substitution(_) => {
                    return Err(EvtxError::BadParserState);
                },
                BinXMLDeserializedTokens::CDATASection => {
                    return Err(EvtxError::UnimplementedToken);
                },
                BinXMLDeserializedTokens::CharRef => {
                    return Err(EvtxError::UnimplementedToken);
                },
                BinXMLDeserializedTokens::OpenStartElement(elem) => {
                    flush_pending(current_element, &mut model, &mut open);
                    current_element = Some(XmlElementBuilder::new(elem.name));
                },
                BinXMLDeserializedTokens::Attribute(attr) => {
                    match current_element {
                        None => {
                            return Err(EvtxError::BadParserState);
                        },
                        Some(builder) => {
                            current_element = Some(builder.attribute_name(attr.name));
                        },
                    }
                },
                BinXMLDeserializedTokens::CloseStartElement => {
                    match current_element {
                        None => {
                            return Err(EvtxError::BadParserState);
                        },
                        Some(builder) => {
                            flush_pending(Some(builder), &mut model, &mut open);
                            current_element = None;
                        },
                    }
                },
                BinXMLDeserializedTokens::CloseEmptyElement => {
                    match current_element {
                        None => {
                            return Err(EvtxError::BadParserState);
                        },
                        Some(builder) => {
                            emit(&mut model, XmlModel::OpenElement(builder.finish()));
                            emit(&mut model, XmlModel::CloseElement);
                            current_element = None;
                        },
                    }
                },
                BinXMLDeserializedTokens::CloseElement => {
                    flush_pending(current_element, &mut model, &mut open);
                    current_element = None;
                    if open == 0 {
                        return Err(EvtxError::UnbalancedElements);
                    }
                    emit(&mut model, XmlModel::CloseElement);
                    open = open - 1;
                },
                BinXMLDeserializedTokens::Value(value) => {
                    match value {
                        crate::binxml::value_variant::BinXmlValue::EvtXml => {
                            return Err(EvtxError::BadParserState);
                        },
                        other => {
                            flush_pending(current_element, &mut model, &mut open);
                            current_element = None;
                            emit(&mut model, XmlModel::Value(other));
                        },
                    }
                },
                BinXMLDeserializedTokens::EntityRef(entity) => {
                    flush_pending(current_element, &mut model, &mut open);
                    current_element = None;
                    emit(&mut model, XmlModel::EntityRef(entity.name));
                },
                BinXMLDeserializedTokens::PITarget(target) => {
                    flush_pending(current_element, &mut model, &mut open);
                    current_element = None;
                    current_pi = Some(XmlPIBuilder::new(target.name));
                },
                BinXMLDeserializedTokens::PIData(data) => {
                    match current_pi {
                        None => {
                            return Err(EvtxError::BadParserState);
                        },
                        Some(builder) => {
                            flush_pending(current_element, &mut model, &mut open);
                            current_element = None;
                            emit(&mut model, builder.finish(data));
                            current_pi = None;
                        },
                    }
                },
                BinXMLDeserializedTokens::StartOfStream => {
                    flush_pending(current_element, &mut model, &mut open);
                    current_element = None;
                    emit(&mut model, XmlModel::StartOfStream);
                },
                BinXMLDeserializedTokens::EndOfStream => {
                    flush_pending(current_element, &mut model, &mut open);
                    current_element = None;
                    emit(&mut model, XmlModel::EndOfStream);
                },
            }
        }
        proof {
            state = state.step(tok).unwrap();
        }
    }
    if current_element.is_some() || open > 0 {
        return Err(EvtxError::UnbalancedElements);
    }
    Ok(model)
}

/// How deeply template instances and nested fragments are followed during
/// expansion before it gives up.
pub const MAX_EXPANSION_DEPTH: u32 = 32;

/// The value that stands in for a substitution that names no value.
pub open spec fn null_token() -> Token {
    Token::Value(TypedValue::Null)
}

/// `acc` followed by what `token` expands to.
///
/// A nested fragment is replaced by the expansion of its tokens, and a
/// template instance by the expansion of the definition that the bytes
/// `data` hold at its offset, with the instance's substitution array. A
/// substitution outside of any template has no value to take and gives a
/// null value, or nothing where it is to be ignored. Every other token stands
/// for itself. `depth` says how many levels of nesting are still followed.
pub open spec fn expand_token(token: Token, data: Seq<u8>, depth: nat, acc: Seq<Token>) -> Result<
    Seq<Token>,
    EvtxError,
>
    decreases depth, 0nat, 0nat,
{
    match token {
        Token::Value(TypedValue::BinXml(inner)) => if depth == 0 {
            Err(EvtxError::NestingTooDeep)
        } else {
            expand_sequence(inner, Seq::empty(), data, (depth - 1) as nat, acc)
        },
        Token::TemplateInstance { template_def_offset, substitution_array } => if depth == 0 {
            Err(EvtxError::NestingTooDeep)
        } else {
            expand_instance(
                template_def_offset,
                substitution_array,
                data,
                (depth - 1) as nat,
                acc,
            )
        },
        Token::Substitution(d) => if d.ignore {
            Ok(acc)
        } else {
            Ok(acc.push(null_token()))
        },
        other => Ok(acc.push(other)),
    }
}

/// `acc` followed by the expansion of the template definition at
/// `template_def_offset`, with `substitution_array` as the values of its
/// placeholders. A definition that does not decode fails the expansion.
pub open spec fn expand_instance(
    template_def_offset: u32,
    substitution_array: Seq<Token>,
    data: Seq<u8>,
    depth: nat,
    acc: Seq<Token>,
) -> Result<Seq<Token>, EvtxError>
    decreases depth, 3nat, 0nat,
{
    match spec_template_definition(data, template_def_offset as int) {
        Err(e) => Err(e),
        Ok((definition, _)) => expand_sequence(
            definition.tokens,
            substitution_array,
            data,
            depth,
            acc,
        ),
    }
}

/// What one token of a sequence adds to `acc`, and what it leaves of the
/// substitution array.
///
/// A placeholder that is to be ignored gives nothing. Another one takes the
/// value at its index, which is expanded in its turn, and leaves a null value
/// in its place; an index past the end of the array gives a null value. Any
/// other token is expanded as it stands.
pub open spec fn expand_step(
    token: Token,
    substitutions: Seq<Token>,
    data: Seq<u8>,
    depth: nat,
    acc: Seq<Token>,
) -> Result<(Seq<Token>, Seq<Token>), EvtxError>
    decreases depth, 1nat, 0nat,
{
    match token {
        Token::Substitution(d) => if d.ignore {
            Ok((acc, substitutions))
        } else if d.substitution_index < substitutions.len() {
            let index = d.substitution_index as int;
            match expand_token(substitutions[index], data, depth, acc) {
                Err(e) => Err(e),
                Ok(next) => Ok((next, substitutions.update(index, null_token()))),
            }
        } else {
            Ok((acc.push(null_token()), substitutions))
        },
        other => match expand_token(other, data, depth, acc) {
            Err(e) => Err(e),
            Ok(next) => Ok((next, substitutions)),
        },
    }
}

/// `acc` followed by the expansion of `tokens`, taken in order, with
/// `substitutions` as the values that placeholders take.
pub open spec fn expand_sequence(
    tokens: Seq<Token>,
    substitutions: Seq<Token>,
    data: Seq<u8>,
    depth: nat,
    acc: Seq<Token>,
) -> Result<Seq<Token>, EvtxError>
    decreases depth, 2nat, tokens.len(),
{
    if tokens.len() == 0 {
        Ok(acc)
    } else {
        match expand_step(tokens[0], substitutions, data, depth, acc) {
            Err(e) => Err(e),
            Ok((next, left)) => expand_sequence(tokens.drop_first(), left, data, depth, next),
        }
    }
}

/// The flattened form of a record's tokens: all templates inlined, all
/// placeholders replaced, all nested fragments spliced in.
pub open spec fn expanded(tokens: Seq<Token>, data: Seq<u8>) -> Result<Seq<Token>, EvtxError> {
    expand_sequence(tokens, Seq::empty(), data, MAX_EXPANSION_DEPTH as nat, Seq::empty())
}

/// Whether `token` can stand in a flattened sequence: it is no template
/// instance, no placeholder and no nested fragment.
pub open spec fn is_flat(token: Token) -> bool {
    !(token is TemplateInstance) && !(token is Substitution) && !(token matches Token::Value(
        TypedValue::BinXml(_),
    ))
}

/// Whether every token of `tokens` is flat.
pub open spec fn all_flat(tokens: Seq<Token>) -> bool {
    forall|i: int| 0 <= i < tokens.len() ==> is_flat(#[trigger] tokens[i])
}

proof fn lemma_expand_token_flat(token: Token, data: Seq<u8>, depth: nat, acc: Seq<Token>)
    requires
        all_flat(acc),
        expand_token(token, data, depth, acc) is Ok,
    ensures
        all_flat(expand_token(token, data, depth, acc).unwrap()),
    decreases depth, 0nat, 0nat,
{
    match token {
        Token::Value(TypedValue::BinXml(inner)) => {
            lemma_expand_sequence_flat(inner, Seq::empty(), data, (depth - 1) as nat, acc);
        },
        Token::TemplateInstance { template_def_offset, substitution_array } => {
            let definition = spec_template_definition(data, template_def_offset as int).unwrap().0;
            lemma_expand_sequence_flat(
                definition.tokens,
                substitution_array,
                data,
                (depth - 1) as nat,
                acc,
            );
        },
        _ => {},
    }
}

proof fn lemma_expand_step_flat(
    token: Token,
    substitutions: Seq<Token>,
    data: Seq<u8>,
    depth: nat,
    acc: Seq<Token>,
)
    requires
        all_flat(acc),
        expand_step(token, substitutions, data, depth, acc) is Ok,
    ensures
        all_flat(expand_step(token, substitutions, data, depth, acc).unwrap().0),
    decreases depth, 1nat, 0nat,
{
    match token {
        Token::Substitution(d) => {
            if !d.ignore && d.substitution_index < substitutions.len() {
                lemma_expand_token_flat(substitutions[d.substitution_index as int], data, depth, acc);
            }
        },
        other => {
            lemma_expand_token_flat(other, data, depth, acc);
        },
    }
}

proof fn lemma_expand_sequence_flat(
    tokens: Seq<Token>,
    substitutions: Seq<Token>,
    data: Seq<u8>,
    depth: nat,
    acc: Seq<Token>,
)
    requires
        all_flat(acc),
        expand_sequence(tokens, substitutions, data, depth, acc) is Ok,
    ensures
        all_flat(expand_sequence(tokens, substitutions, data, depth, acc).unwrap()),
    decreases depth, 2nat, tokens.len(),
{
    if tokens.len() > 0 {
        lemma_expand_step_flat(tokens[0], substitutions, data, depth, acc);
        let (next, left) = expand_step(tokens[0], substitutions, data, depth, acc).unwrap();
        lemma_expand_sequence_flat(tokens.drop_first(), left, data, depth, next);
    }
}

/// Whatever tokens go into a successful expansion, no template instance,
/// no placeholder and no nested fragment comes out.
pub proof fn lemma_expansion_complete(tokens: Seq<Token>, data: Seq<u8>)
    requires
        expanded(tokens, data) is Ok,
    ensures
        all_flat(expanded(tokens, data).unwrap()),
{
    lemma_expand_sequence_flat(
        tokens,
        Seq::empty(),
        data,
        MAX_EXPANSION_DEPTH as nat,
        Seq::empty(),
    );
}

/// A placeholder whose index lies past the end of the substitution array
/// expands to a null value, and never fails.
pub proof fn lemma_substitution_defaults(
    d: TemplateSubstitutionDescriptor,
    substitutions: Seq<Token>,
    data: Seq<u8>,
    depth: nat,
    acc: Seq<Token>,
)
    requires
        !d.ignore,
        d.substitution_index >= substitutions.len(),
    ensures
        expand_sequence(seq![Token::Substitution(d)], substitutions, data, depth, acc) == Ok::<
            Seq<Token>,
            EvtxError,
        >(acc.push(null_token())),
{
    let tokens = seq![Token::Substitution(d)];
    assert(tokens.drop_first() =~= Seq::<Token>::empty());
    reveal_with_fuel(expand_sequence, 2);
}

/// A placeholder that is to be ignored contributes nothing, whatever the
/// substitution array holds.
pub proof fn lemma_ignored_substitution(
    d: TemplateSubstitutionDescriptor,
    substitutions: Seq<Token>,
    data: Seq<u8>,
    depth: nat,
    acc: Seq<Token>,
)
    requires
        d.ignore,
    ensures
        expand_sequence(seq![Token::Substitution(d)], substitutions, data, depth, acc) == Ok::<
            Seq<Token>,
            EvtxError,
        >(acc),
{
    let tokens = seq![Token::Substitution(d)];
    assert(tokens.drop_first() =~= Seq::<Token>::empty());
    reveal_with_fuel(expand_sequence, 2);
}

/// Being a prefix carries over: a prefix of a prefix is a prefix.
proof fn lemma_prefix_of_prefix(a: Seq<Token>, b: Seq<Token>, c: Seq<Token>)
    requires
        a.is_prefix_of(b),
        b.is_prefix_of(c),
    ensures
        a.is_prefix_of(c),
{
    assert(a =~= c.subrange(0, a.len() as int)) by {
        assert forall|i: int| 0 <= i < a.len() implies a[i] == c.subrange(0, a.len() as int)[i] by {
            assert(a[i] == b.subrange(0, a.len() as int)[i]);
            assert(b[i] == c.subrange(0, b.len() as int)[i]);
        }
    }
}

/// Takes the value at `index` out of the substitution array and leaves a
/// null value in its place.
fn take_substitution(substitutions: &mut Vec<BinXMLDeserializedTokens>, index: usize) -> (r:
    BinXMLDeserializedTokens)
    requires
        index < old(substitutions)@.len(),
    ensures
        r@ == tokens_view(old(substitutions)@)[index as int],
        tokens_view(final(substitutions)@) == tokens_view(old(substitutions)@).update(
            index as int,
            null_token(),
        ),
{
    substitutions.push(BinXMLDeserializedTokens::Value(BinXmlValue::NullType));
    let value = substitutions.swap_remove(index);
    proof {
        lemma_tokens_view_index(old(substitutions)@);
        lemma_tokens_view_index(substitutions@);
        assert(tokens_view(substitutions@) =~= tokens_view(old(substitutions)@).update(
            index as int,
            null_token(),
        ));
    }
    value
}

/// Whether the expansion that ended in `r`, with `stack` as the output,
/// did what `expected` says.
pub open spec fn expands_to(
    r: Result<(), EvtxError>,
    stack: Seq<Cow<'_, BinXMLDeserializedTokens>>,
    expected: Result<Seq<Token>, EvtxError>,
) -> bool {
    match expected {
        Ok(out) => r is Ok && cow_tokens_view(stack) == out,
        Err(e) => r == Err::<(), EvtxError>(e),
    }
}

/// As `expands_to`, for a step that also changes the substitution array.
pub open spec fn steps_to(
    r: Result<(), EvtxError>,
    stack: Seq<Cow<'_, BinXMLDeserializedTokens>>,
    substitutions: Seq<BinXMLDeserializedTokens>,
    expected: Result<(Seq<Token>, Seq<Token>), EvtxError>,
) -> bool {
    match expected {
        Ok((out, left)) => r is Ok && cow_tokens_view(stack) == out && tokens_view(substitutions)
            == left,
        Err(e) => r == Err::<(), EvtxError>(e),
    }
}

/// Appends `token` to the output.
fn push_output<'a>(
    stack: &mut Vec<Cow<'a, BinXMLDeserializedTokens>>,
    token: Cow<'a, BinXMLDeserializedTokens>,
)
    ensures
        cow_tokens_view(final(stack)@) == cow_tokens_view(old(stack)@).push(token@),
        cow_tokens_view(old(stack)@).is_prefix_of(cow_tokens_view(final(stack)@)),
{
    stack.push(token);
    assert(cow_tokens_view(stack@) =~= cow_tokens_view(old(stack)@).push(token@));
    assert(cow_tokens_view(old(stack)@) =~= cow_tokens_view(stack@).subrange(
        0,
        old(stack)@.len() as int,
    ));
}

/// Resolves one placeholder against the substitution array and appends what
/// its value expands to. A placeholder that is to be ignored changes nothing;
/// one whose index lies past the array appends a null value, whatever the
/// chunk holds.
fn expand_token_substitution<'a>(
    substitutions: &mut Vec<BinXMLDeserializedTokens>,
    substitution_descriptor: &TemplateSubstitutionDescriptor,
    chunk: &'a EvtxChunk<'a>,
    stack: &mut Vec<Cow<'a, BinXMLDeserializedTokens>>,
    depth: u32,
) -> (r: Result<(), EvtxError>)
    ensures
        steps_to(
            r,
            final(stack)@,
            final(substitutions)@,
            expand_step(
                Token::Substitution(*substitution_descriptor),
                tokens_view(old(substitutions)@),
                chunk.bytes(),
                depth as nat,
                cow_tokens_view(old(stack)@),
            ),
        ),
        cow_tokens_view(old(stack)@).is_prefix_of(cow_tokens_view(final(stack)@)),
        substitution_descriptor.ignore ==> r is Ok && final(stack)@ == old(stack)@
            && final(substitutions)@ == old(substitutions)@,
        !substitution_descriptor.ignore && substitution_descriptor.substitution_index
            >= old(substitutions)@.len() ==> r is Ok && cow_tokens_view(final(stack)@)
            == cow_tokens_view(old(stack)@).push(null_token()) && final(substitutions)@
            == old(substitutions)@,
    decreases depth, 1nat, 0nat,
{
    if substitution_descriptor.ignore {
        return Ok(());
    }
    proof {
        lemma_tokens_view_index(substitutions@);
    }
    let index = substitution_descriptor.substitution_index as usize;
    if index < substitutions.len() {
        let value = take_substitution(substitutions, index);
        _expand_templates(Cow::Owned(value), chunk, stack, depth)
    } else {
        push_output(stack, Cow::Owned(BinXMLDeserializedTokens::Value(BinXmlValue::NullType)));
        Ok(())
    }
}

/// Expands one token of a sequence that the caller owns.
fn expand_owned_step<'a>(
    token: BinXMLDeserializedTokens,
    substitutions: &mut Vec<BinXMLDeserializedTokens>,
    chunk: &'a EvtxChunk<'a>,
    stack: &mut Vec<Cow<'a, BinXMLDeserializedTokens>>,
    depth: u32,
) -> (r: Result<(), EvtxError>)
    ensures
        steps_to(
            r,
            final(stack)@,
            final(substitutions)@,
            expand_step(
                token@,
                tokens_view(old(substitutions)@),
                chunk.bytes(),
                depth as nat,
                cow_tokens_view(old(stack)@),
            ),
        ),
        cow_tokens_view(old(stack)@).is_prefix_of(cow_tokens_view(final(stack)@)),
    decreases depth, 1nat, 1nat,
{
    match token {
        BinXMLDeserializedTokens::Substitution(d) => expand_token_substitution(
            substitutions,
            &d,
            chunk,
            stack,
            depth,
        ),
        other => _expand_templates(Cow::Owned(other), chunk, stack, depth),
    }
}

/// Expands one token of a sequence that the cache owns.
fn expand_borrowed_step<'a>(
    token: &'a BinXMLDeserializedTokens,
    substitutions: &mut Vec<BinXMLDeserializedTokens>,
    chunk: &'a EvtxChunk<'a>,
    stack: &mut Vec<Cow<'a, BinXMLDeserializedTokens>>,
    depth: u32,
) -> (r: Result<(), EvtxError>)
    ensures
        steps_to(
            r,
            final(stack)@,
            final(substitutions)@,
            expand_step(
                token@,
                tokens_view(old(substitutions)@),
                chunk.bytes(),
                depth as nat,
                cow_tokens_view(old(stack)@),
            ),
        ),
        cow_tokens_view(old(stack)@).is_prefix_of(cow_tokens_view(final(stack)@)),
    decreases depth, 1nat, 1nat,
{
    match token {
        BinXMLDeserializedTokens::Substitution(d) => expand_token_substitution(
            substitutions,
            d,
            chunk,
            stack,
            depth,
        ),
        other => _expand_templates(Cow::Borrowed(other), chunk, stack, depth),
    }
}

/// Expands the tokens of a template definition or of a fragment that the
/// caller owns.
fn expand_owned_sequence<'a>(
    tokens: Vec<BinXMLDeserializedTokens>,
    substitutions: &mut Vec<BinXMLDeserializedTokens>,
    chunk: &'a EvtxChunk<'a>,
    stack: &mut Vec<Cow<'a, BinXMLDeserializedTokens>>,
    depth: u32,
) -> (r: Result<(), EvtxError>)
    ensures
        expands_to(
            r,
            final(stack)@,
            expand_sequence(
                tokens_view(tokens@),
                tokens_view(old(substitutions)@),
                chunk.bytes(),
                depth as nat,
                cow_tokens_view(old(stack)@),
            ),
        ),
        cow_tokens_view(old(stack)@).is_prefix_of(cow_tokens_view(final(stack)@)),
    decreases depth, 2nat, tokens@.len(),
{
    let ghost all = tokens_view(tokens@);
    proof {
        lemma_tokens_view_index(tokens@);
        assert(all.subrange(0, all.len() as int) =~= all);
    }
    for token in it: tokens
        invariant
            all == tokens_view(tokens@),
            it.seq().len() == all.len(),
            forall|i: int| 0 <= i < all.len() ==> all[i] == (#[trigger] it.seq()[i])@,
            expand_sequence(
                all,
                tokens_view(old(substitutions)@),
                chunk.bytes(),
                depth as nat,
                cow_tokens_view(old(stack)@),
            ) == expand_sequence(
                all.subrange(it.index() as int, all.len() as int),
                tokens_view(substitutions@),
                chunk.bytes(),
                depth as nat,
                cow_tokens_view(stack@),
            ),
            cow_tokens_view(old(stack)@).is_prefix_of(cow_tokens_view(stack@)),
    {
        let ghost rest = all.subrange(it.index() as int, all.len() as int);
        assert(rest[0] == token@);
        assert(rest.drop_first() =~= all.subrange(it.index() + 1, all.len() as int));
        let ghost before = cow_tokens_view(stack@);
        let step = expand_owned_step(token, substitutions, chunk, stack, depth);
        proof {
            lemma_prefix_of_prefix(cow_tokens_view(old(stack)@), before, cow_tokens_view(stack@));
        }
        step?;
    }
    Ok(())
}

/// Expands the tokens of a template definition that the cache owns. Only
/// what the expansion puts out is copied, and only where it must be.
fn expand_borrowed_sequence<'a>(
    tokens: &'a Vec<BinXMLDeserializedTokens>,
    substitutions: &mut Vec<BinXMLDeserializedTokens>,
    chunk: &'a EvtxChunk<'a>,
    stack: &mut Vec<Cow<'a, BinXMLDeserializedTokens>>,
    depth: u32,
) -> (r: Result<(), EvtxError>)
    ensures
        expands_to(
            r,
            final(stack)@,
            expand_sequence(
                tokens_view(tokens@),
                tokens_view(old(substitutions)@),
                chunk.bytes(),
                depth as nat,
                cow_tokens_view(old(stack)@),
            ),
        ),
        cow_tokens_view(old(stack)@).is_prefix_of(cow_tokens_view(final(stack)@)),
    decreases depth, 2nat, tokens@.len(),
{
    let ghost all = tokens_view(tokens@);
    proof {
        lemma_tokens_view_index(tokens@);
        assert(all.subrange(0, all.len() as int) =~= all);
    }
    let mut i: usize = 0;
    while i < tokens.len()
        invariant
            i <= tokens.len(),
            all == tokens_view(tokens@),
            all.len() == tokens@.len(),
            forall|k: int| 0 <= k < all.len() ==> (#[trigger] all[k]) == tokens@[k]@,
            expand_sequence(
                all,
                tokens_view(old(substitutions)@),
                chunk.bytes(),
                depth as nat,
                cow_tokens_view(old(stack)@),
            ) == expand_sequence(
                all.subrange(i as int, all.len() as int),
                tokens_view(substitutions@),
                chunk.bytes(),
                depth as nat,
                cow_tokens_view(stack@),
            ),
            cow_tokens_view(old(stack)@).is_prefix_of(cow_tokens_view(stack@)),
        decreases tokens.len() - i,
    {
        let token = &tokens[i];
        let ghost rest = all.subrange(i as int, all.len() as int);
        assert(rest[0] == token@);
        assert(rest.drop_first() =~= all.subrange(i + 1, all.len() as int));
        let ghost before = cow_tokens_view(stack@);
        let step = expand_borrowed_step(token, substitutions, chunk, stack, depth);
        proof {
            lemma_prefix_of_prefix(cow_tokens_view(old(stack)@), before, cow_tokens_view(stack@));
        }
        step?;
        i += 1;
    }
    Ok(())
}

/// Expands one template instance: the definition is taken from the chunk's
/// template cache, or decoded from the chunk's bytes where the cache does not
/// hold it. Either way it is the definition that the bytes hold at the
/// instance's offset, so what comes out, or the error, is the same for two
/// chunks over the same bytes, whatever their caches hold.
fn expand_template<'a>(
    template: BinXmlTemplateRef,
    chunk: &'a EvtxChunk<'a>,
    stack: &mut Vec<Cow<'a, BinXMLDeserializedTokens>>,
    depth: u32,
) -> (r: Result<(), EvtxError>)
    ensures
        expands_to(
            r,
            final(stack)@,
            expand_instance(
                template.template_def_offset,
                tokens_view(template.substitution_array@),
                chunk.bytes(),
                depth as nat,
                cow_tokens_view(old(stack)@),
            ),
        ),
        cow_tokens_view(old(stack)@).is_prefix_of(cow_tokens_view(final(stack)@)),
    decreases depth, 3nat, 0nat,
{
    let BinXmlTemplateRef { template_def_offset, substitution_array } = template;
    let mut substitutions = substitution_array;
    match chunk.cached_template(template_def_offset) {
        Some(template_def) => expand_borrowed_sequence(
            &template_def.tokens,
            &mut substitutions,
            chunk,
            stack,
            depth,
        ),
        None => {
            let mut cursor = ByteCursor::new(chunk.data(), template_def_offset as usize);
            let template_def = read_template_definition(&mut cursor, Some(chunk))?;
            expand_owned_sequence(template_def.tokens, &mut substitutions, chunk, stack, depth)
        },
    }
}

/// Appends to `stack` what `token` expands to.
fn _expand_templates<'a>(
    token: Cow<'a, BinXMLDeserializedTokens>,
    chunk: &'a EvtxChunk<'a>,
    stack: &mut Vec<Cow<'a, BinXMLDeserializedTokens>>,
    depth: u32,
) -> (r: Result<(), EvtxError>)
    ensures
        expands_to(
            r,
            final(stack)@,
            expand_token(token@, chunk.bytes(), depth as nat, cow_tokens_view(old(stack)@)),
        ),
        cow_tokens_view(old(stack)@).is_prefix_of(cow_tokens_view(final(stack)@)),
    decreases depth, 0nat, 0nat,
{
    match token {
        Cow::Owned(BinXMLDeserializedTokens::Value(BinXmlValue::BinXmlType(tokens))) => {
            if depth == 0 {
                return Err(EvtxError::NestingTooDeep);
            }
            let mut none: Vec<BinXMLDeserializedTokens> = Vec::new();
            assert(tokens_view(none@) =~= Seq::empty());
            expand_owned_sequence(tokens, &mut none, chunk, stack, depth - 1)
        },
        Cow::Borrowed(BinXMLDeserializedTokens::Value(BinXmlValue::BinXmlType(tokens))) => {
            if depth == 0 {
                return Err(EvtxError::NestingTooDeep);
            }
            let mut none: Vec<BinXMLDeserializedTokens> = Vec::new();
            assert(tokens_view(none@) =~= Seq::empty());
            expand_borrowed_sequence(tokens, &mut none, chunk, stack, depth - 1)
        },
        Cow::Owned(BinXMLDeserializedTokens::TemplateInstance(template)) => {
            if depth == 0 {
                return Err(EvtxError::NestingTooDeep);
            }
            expand_template(template, chunk, stack, depth - 1)
        },
        Cow::Borrowed(BinXMLDeserializedTokens::TemplateInstance(template)) => {
            if depth == 0 {
                return Err(EvtxError::NestingTooDeep);
            }
            expand_template(template.clone(), chunk, stack, depth - 1)
        },
        Cow::Owned(BinXMLDeserializedTokens::Substitution(d)) => {
            if !d.ignore {
                push_output(stack, Cow::Owned(BinXMLDeserializedTokens::Value(BinXmlValue::NullType)));
            }
            Ok(())
        },
        Cow::Borrowed(BinXMLDeserializedTokens::Substitution(d)) => {
            if !d.ignore {
                push_output(stack, Cow::Owned(BinXMLDeserializedTokens::Value(BinXmlValue::NullType)));
            }
            Ok(())
        },
        other => {
            push_output(stack, other);
            Ok(())
        },
    }
}

/// Flattens the tokens of a record: every template instance is replaced by
/// the tokens of its definition with the instance's values in the place of
/// the placeholders, and every nested fragment by its tokens.
///
/// What comes out depends on the chunk's bytes alone: a definition that the
/// template cache holds and one that is decoded on demand expand alike.
pub fn expand_templates<'a>(token_tree: Vec<BinXMLDeserializedTokens>, chunk: &'a EvtxChunk<'a>) -> (r:
    Result<Vec<Cow<'a, BinXMLDeserializedTokens>>, EvtxError>)
    ensures
        match expanded(tokens_view(token_tree@), chunk.bytes()) {
            Ok(out) => r is Ok && cow_tokens_view(r.unwrap()@) == out,
            Err(e) => r == Err::<Vec<Cow<'a, BinXMLDeserializedTokens>>, EvtxError>(e),
        },
        r is Ok ==> all_flat(cow_tokens_view(r.unwrap()@)),
{
    proof {
        if expanded(tokens_view(token_tree@), chunk.bytes()) is Ok {
            lemma_expansion_complete(tokens_view(token_tree@), chunk.bytes());
        }
    }
    let mut stack: Vec<Cow<'a, BinXMLDeserializedTokens>> = Vec::new();
    let mut none: Vec<BinXMLDeserializedTokens> = Vec::new();
    assert(tokens_view(none@) =~= Seq::empty());
    assert(cow_tokens_view(stack@) =~= Seq::empty());
    expand_owned_sequence(token_tree, &mut none, chunk, &mut stack, MAX_EXPANSION_DEPTH)?;
    Ok(stack)
}

/// The structural events of a record, given its tokens as they were
/// decoded and the bytes of its chunk: the tokens are flattened, and the
/// record model is built from what comes out.
pub open spec fn record_events(tokens: Seq<Token>, data: Seq<u8>) -> Result<
    Seq<StructuralEvent>,
    EvtxError,
> {
    match expanded(tokens, data) {
        Err(e) => Err(e),
        Ok(flat) => record_model(flat),
    }
}

/// The calls that a sink receives for a record whose events are `events`.
/// A record model that was built has such calls: its elements nest.
pub proof fn lemma_record_has_calls(tokens: Seq<Token>)
    requires
        record_model(tokens) is Ok,
    ensures
        sink_calls(record_model(tokens).unwrap()) is Ok,
{
    lemma_record_model_balanced(tokens);
    lemma_calls_of_nested_events(record_model(tokens).unwrap());
}

/// Flattens the tokens of a record and builds its record model.
pub fn build_record_model<'a>(tokens: Vec<BinXMLDeserializedTokens>, chunk: &'a EvtxChunk<'a>) -> (r:
    Result<Vec<XmlModel>, EvtxError>)
    ensures
        match record_events(tokens_view(tokens@), chunk.bytes()) {
            Ok(events) => r is Ok && model_view(r.unwrap()@) == events,
            Err(e) => r == Err::<Vec<XmlModel>, EvtxError>(e),
        },
        r is Ok ==> balanced(model_view(r.unwrap()@)),
{
    let expanded_tokens = expand_templates(tokens, chunk)?;
    create_record_model(expanded_tokens)
}

/// Decodes the structure of a record into calls on `visitor`.
///
/// The record's tokens are flattened and its record model is built before
/// the sink sees anything: a record that fails there fails with that error,
/// and the sink is left as it was.
///
/// Otherwise the sink receives calls from the list that `sink_calls` gives
/// for the record's events, from the first one on and in order: the start of
/// the stream, one call for each event, and the end of the stream. Each call
/// finds the sink as the call before it left it. All calls but the last one
/// made were answered with success. The result is the answer to the last one:
/// success only after the whole list, and the first failure of the sink, after
/// which no call is made.
pub fn parse_tokens<'a, T: BinXmlOutput>(
    tokens: Vec<BinXMLDeserializedTokens>,
    chunk: &'a EvtxChunk<'a>,
    visitor: &mut T,
) -> (r: Result<(), EvtxError>)
    ensures
        record_events(tokens_view(tokens@), chunk.bytes()) matches Err(e) ==> r == Err::<
            (),
            EvtxError,
        >(e) && *final(visitor) == *old(visitor),
        record_events(tokens_view(tokens@), chunk.bytes()) matches Ok(events) ==> exists|
            calls: Seq<VisitorCall<'_>>,
            sinks: Seq<&mut T>,
        |
            #![trigger calls_view(calls), sinks.len()]
            calls_view(calls) == sink_calls(events).unwrap() && sinks.len() <= calls.len() && (r is Ok
                ==> sinks.len() == calls.len()) && (r is Err ==> sinks.len() > 0) && (sinks.len()
                == 0 ==> *final(visitor) == *old(visitor)) && (sinks.len() > 0 ==> mut_ref_current(
                sinks[0],
            ) == *old(visitor) && mut_ref_future(sinks[sinks.len() - 1]) == *final(visitor))
                && (forall|j: int|
                0 < j < sinks.len() ==> mut_ref_current(#[trigger] sinks[j]) == mut_ref_future(
                    sinks[j - 1],
                )) && (forall|j: int|
                0 <= j < sinks.len() ==> sink_allows(
                    #[trigger] sinks[j],
                    calls[j],
                    if j == sinks.len() - 1 {
                        r
                    } else {
                        Ok::<(), EvtxError>(())
                    },
                )),
{
    let record_model = build_record_model(tokens, chunk)?;
    proof {
        lemma_calls_of_nested_events(model_view(record_model@));
    }
    let calls = visitor_calls(&record_model)?;
    let ghost events = model_view(record_model@);
    let mut i: usize = 0;
    proof {
        let none = Seq::<&mut T>::empty();
        assert(none.len() == 0);
    }
    while i < calls.len()
        invariant
            i <= calls.len(),
            record_events(tokens_view(tokens@), chunk.bytes()) == Ok::<
                Seq<StructuralEvent>,
                EvtxError,
            >(events),
            calls_view(calls@) == sink_calls(events).unwrap(),
            exists|sinks: Seq<&mut T>| #[trigger]
                sinks.len() == i && (i == 0 ==> *visitor == *old(visitor)) && (i > 0
                    ==> mut_ref_current(sinks[0]) == *old(visitor) && mut_ref_future(sinks[i - 1])
                    == *visitor) && (forall|j: int|
                    0 < j < i ==> mut_ref_current(#[trigger] sinks[j]) == mut_ref_future(
                        sinks[j - 1],
                    )) && (forall|j: int|
                    0 <= j < i ==> sink_allows(
                        #[trigger] sinks[j],
                        calls@[j],
                        Ok::<(), EvtxError>(()),
                    )),
        decreases calls.len() - i,
    {
        let ghost before = *visitor;
        let ghost made = choose|sinks: Seq<&mut T>| #[trigger]
            sinks.len() == i && (i == 0 ==> *visitor == *old(visitor)) && (i > 0
                ==> mut_ref_current(sinks[0]) == *old(visitor) && mut_ref_future(sinks[i - 1])
                == *visitor) && (forall|j: int|
                0 < j < i ==> mut_ref_current(#[trigger] sinks[j]) == mut_ref_future(sinks[j - 1]))
                && (forall|j: int|
                0 <= j < i ==> sink_allows(#[trigger] sinks[j], calls@[j], Ok::<(), EvtxError>(())));
        let answer = dispatch(visitor, calls[i]);
        let ghost sink = choose|sink: &mut T|
            mut_ref_current(sink) == before && mut_ref_future(sink) == *visitor && sink_allows(
                sink,
                calls@[i as int],
                answer,
            );
        let ghost sinks = made.push(sink);
        proof {
            assert(sinks.len() == i + 1);
            assert(forall|j: int| 0 <= j < i ==> sinks[j] == made[j]);
            assert(sinks[i as int] == sink);
        }
        match answer {
            Ok(done) => {
                proof {
                    assert(done == ());
                    assert(answer == Ok::<(), EvtxError>(()));
                }
            },
            Err(e) => {
                proof {
                    assert(calls_view(calls@) == sink_calls(events).unwrap());
                    assert(sinks.len() > 0);
                }
                return Err(e);
            },
        }
        i += 1;
    }
    proof {
        let made = choose|sinks: Seq<&mut T>| #[trigger]
            sinks.len() == i && (i == 0 ==> *visitor == *old(visitor)) && (i > 0
                ==> mut_ref_current(sinks[0]) == *old(visitor) && mut_ref_future(sinks[i - 1])
                == *visitor) && (forall|j: int|
                0 < j < i ==> mut_ref_current(#[trigger] sinks[j]) == mut_ref_future(sinks[j - 1]))
                && (forall|j: int|
                0 <= j < i ==> sink_allows(#[trigger] sinks[j], calls@[j], Ok::<(), EvtxError>(())));
        assert(made.len() == calls@.len());
        assert(calls_view(calls@) == sink_calls(events).unwrap());
    }
    Ok(())
}

} // verus!
