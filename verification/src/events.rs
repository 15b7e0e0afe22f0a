use vstd::prelude::*;
use vstd::pervasive::VecAdditionalExecFns;

use crate::builder::DataBuilder;
use crate::diagram::Diagram;
use crate::error::Error;
use crate::handler::str_eq;
use crate::model::{
    Activity, ActivityType, Bpmn, DirectionType, Event, EventType, Gateway, GatewayType, Id,
    Outputs, Symbol,
};

verus! {

/// The attributes this engine reads off an element; all others are ignored.
#[derive(Debug, Clone, PartialEq, Eq)]
pub struct ElementAttrs {
    pub id: Option<String>,
    pub name: Option<String>,
    pub attached_to_ref: Option<String>,
    pub target_ref: Option<String>,
    pub source_ref: Option<String>,
    pub default: Option<String>,
}

impl ElementAttrs {
    pub fn new() -> (r: ElementAttrs)
        ensures
            r.id is None,
            r.name is None,
            r.attached_to_ref is None,
            r.target_ref is None,
            r.source_ref is None,
            r.default is None,
    {
        ElementAttrs {
            id: None,
            name: None,
            attached_to_ref: None,
            target_ref: None,
            source_ref: None,
            default: None,
        }
    }
}

/// One plain element event of a diagram document, with the element's local
/// name and the attributes this engine reads.
#[derive(Debug, Clone, PartialEq, Eq)]
pub enum XmlEvent {
    /// A start tag with child content to follow.
    Open(String, ElementAttrs),
    /// An element without child content.
    Solitary(String, ElementAttrs),
    /// An end tag.
    Close(String),
    /// Text between tags.
    Content(String),
}

/// What a recognized element's local name stands for.
#[derive(Debug, Clone, PartialEq, Eq)]
pub enum ElementKind {
    Definitions,
    Process,
    SubProcess,
    Event(EventType),
    Activity(ActivityType),
    Gateway(GatewayType),
    SequenceFlow,
    Direction(DirectionType),
    EventSymbol(Symbol),
    Other,
}

/// The meaning of each recognized local element name; anything else is
/// ignored.
pub open spec fn classify_spec(tag: Seq<char>) -> ElementKind {
    if tag == "definitions"@ {
        ElementKind::Definitions
    } else if tag == "process"@ {
        ElementKind::Process
    } else if tag == "subProcess"@ {
        ElementKind::SubProcess
    } else if tag == "startEvent"@ {
        ElementKind::Event(EventType::Start)
    } else if tag == "endEvent"@ {
        ElementKind::Event(EventType::End)
    } else if tag == "intermediateThrowEvent"@ {
        ElementKind::Event(EventType::IntermediateThrow)
    } else if tag == "intermediateCatchEvent"@ {
        ElementKind::Event(EventType::IntermediateCatch)
    } else if tag == "boundaryEvent"@ {
        ElementKind::Event(EventType::Boundary)
    } else if tag == "task"@ {
        ElementKind::Activity(ActivityType::Task)
    } else if tag == "scriptTask"@ {
        ElementKind::Activity(ActivityType::ScriptTask)
    } else if tag == "userTask"@ {
        ElementKind::Activity(ActivityType::UserTask)
    } else if tag == "serviceTask"@ {
        ElementKind::Activity(ActivityType::ServiceTask)
    } else if tag == "callActivity"@ {
        ElementKind::Activity(ActivityType::CallActivity)
    } else if tag == "receiveTask"@ {
        ElementKind::Activity(ActivityType::ReceiveTask)
    } else if tag == "sendTask"@ {
        ElementKind::Activity(ActivityType::SendTask)
    } else if tag == "manualTask"@ {
        ElementKind::Activity(ActivityType::ManualTask)
    } else if tag == "businessRuleTask"@ {
        ElementKind::Activity(ActivityType::BusinessRuleTask)
    } else if tag == "exclusiveGateway"@ {
        ElementKind::Gateway(GatewayType::Exclusive)
    } else if tag == "inclusiveGateway"@ {
        ElementKind::Gateway(GatewayType::Inclusive)
    } else if tag == "parallelGateway"@ {
        ElementKind::Gateway(GatewayType::Parallel)
    } else if tag == "eventBasedGateway"@ {
        ElementKind::Gateway(GatewayType::EventBased)
    } else if tag == "sequenceFlow"@ {
        ElementKind::SequenceFlow
    } else if tag == "incoming"@ {
        ElementKind::Direction(DirectionType::Incoming)
    } else if tag == "outgoing"@ {
        ElementKind::Direction(DirectionType::Outgoing)
    } else if tag == "messageEventDefinition"@ {
        ElementKind::EventSymbol(Symbol::Message)
    } else if tag == "timerEventDefinition"@ {
        ElementKind::EventSymbol(Symbol::Timer)
    } else if tag == "signalEventDefinition"@ {
        ElementKind::EventSymbol(Symbol::Signal)
    } else if tag == "errorEventDefinition"@ {
        ElementKind::EventSymbol(Symbol::Error)
    } else if tag == "escalationEventDefinition"@ {
        ElementKind::EventSymbol(Symbol::Escalation)
    } else if tag == "cancelEventDefinition"@ {
        ElementKind::EventSymbol(Symbol::Cancel)
    } else if tag == "compensateEventDefinition"@ {
        ElementKind::EventSymbol(Symbol::Compensation)
    } else if tag == "terminateEventDefinition"@ {
        ElementKind::EventSymbol(Symbol::Terminate)
    } else if tag == "conditionalEventDefinition"@ {
        ElementKind::EventSymbol(Symbol::Conditional)
    } else if tag == "linkEventDefinition"@ {
        ElementKind::EventSymbol(Symbol::Link)
    } else {
        ElementKind::Other
    }
}

/// Recognize an element by its local name.
pub fn classify(tag: &str) -> (r: ElementKind)
    ensures
        r == classify_spec(tag@),
{
    if str_eq(tag, "definitions") {
        ElementKind::Definitions
    } else if str_eq(tag, "process") {
        ElementKind::Process
    } else if str_eq(tag, "subProcess") {
        ElementKind::SubProcess
    } else if str_eq(tag, "startEvent") {
        ElementKind::Event(EventType::Start)
    } else if str_eq(tag, "endEvent") {
        ElementKind::Event(EventType::End)
    } else if str_eq(tag, "intermediateThrowEvent") {
        ElementKind::Event(EventType::IntermediateThrow)
    } else if str_eq(tag, "intermediateCatchEvent") {
        ElementKind::Event(EventType::IntermediateCatch)
    } else if str_eq(tag, "boundaryEvent") {
        ElementKind::Event(EventType::Boundary)
    } else if str_eq(tag, "task") {
        ElementKind::Activity(ActivityType::Task)
    } else if str_eq(tag, "scriptTask") {
        ElementKind::Activity(ActivityType::ScriptTask)
    } else if str_eq(tag, "userTask") {
        ElementKind::Activity(ActivityType::UserTask)
    } else if str_eq(tag, "serviceTask") {
        ElementKind::Activity(ActivityType::ServiceTask)
    } else if str_eq(tag, "callActivity") {
        ElementKind::Activity(ActivityType::CallActivity)
    } else if str_eq(tag, "receiveTask") {
        ElementKind::Activity(ActivityType::ReceiveTask)
    } else if str_eq(tag, "sendTask") {
        ElementKind::Activity(ActivityType::SendTask)
    } else if str_eq(tag, "manualTask") {
        ElementKind::Activity(ActivityType::ManualTask)
    } else if str_eq(tag, "businessRuleTask") {
        ElementKind::Activity(ActivityType::BusinessRuleTask)
    } else if str_eq(tag, "exclusiveGateway") {
        ElementKind::Gateway(GatewayType::Exclusive)
    } else if str_eq(tag, "inclusiveGateway") {
        ElementKind::Gateway(GatewayType::Inclusive)
    } else if str_eq(tag, "parallelGateway") {
        ElementKind::Gateway(GatewayType::Parallel)
    } else if str_eq(tag, "eventBasedGateway") {
        ElementKind::Gateway(GatewayType::EventBased)
    } else if str_eq(tag, "sequenceFlow") {
        ElementKind::SequenceFlow
    } else if str_eq(tag, "incoming") {
        ElementKind::Direction(DirectionType::Incoming)
    } else if str_eq(tag, "outgoing") {
        ElementKind::Direction(DirectionType::Outgoing)
    } else if str_eq(tag, "messageEventDefinition") {
        ElementKind::EventSymbol(Symbol::Message)
    } else if str_eq(tag, "timerEventDefinition") {
        ElementKind::EventSymbol(Symbol::Timer)
    } else if str_eq(tag, "signalEventDefinition") {
        ElementKind::EventSymbol(Symbol::Signal)
    } else if str_eq(tag, "errorEventDefinition") {
        ElementKind::EventSymbol(Symbol::Error)
    } else if str_eq(tag, "escalationEventDefinition") {
        ElementKind::EventSymbol(Symbol::Escalation)
    } else if str_eq(tag, "cancelEventDefinition") {
        ElementKind::EventSymbol(Symbol::Cancel)
    } else if str_eq(tag, "compensateEventDefinition") {
        ElementKind::EventSymbol(Symbol::Compensation)
    } else if str_eq(tag, "terminateEventDefinition") {
        ElementKind::EventSymbol(Symbol::Terminate)
    } else if str_eq(tag, "conditionalEventDefinition") {
        ElementKind::EventSymbol(Symbol::Conditional)
    } else if str_eq(tag, "linkEventDefinition") {
        ElementKind::EventSymbol(Symbol::Link)
    } else {
        ElementKind::Other
    }
}

/// What `make_node` hands back for each element kind: the node built from
/// the element's attributes with its references unresolved, nothing for an
/// ignored element, `MissingId` for a node element without an id, and
/// `MissingTargetRef` for a sequence flow without a target.
pub open spec fn made_node(
    kind: ElementKind,
    tagv: Seq<char>,
    attrs: ElementAttrs,
    r: Result<Option<Bpmn>, Error>,
) -> bool {
    match kind {
        ElementKind::Definitions => match attrs.id {
            Some(idv) => r == Ok::<Option<Bpmn>, Error>(
                Some(Bpmn::Definitions { id: Id { bpmn_id: idv, local_id: 0 } }),
            ),
            None => missing_id(tagv, r),
        },
        ElementKind::Process => match attrs.id {
            Some(idv) => r == Ok::<Option<Bpmn>, Error>(
                Some(Bpmn::Process { id: Id { bpmn_id: idv, local_id: 0 }, data_index: None }),
            ),
            None => missing_id(tagv, r),
        },
        ElementKind::SubProcess => match attrs.id {
            Some(idv) => r matches Ok(Some(b)) && (b matches Bpmn::Activity(a) && a.id == (Id {
                bpmn_id: idv,
                local_id: 0,
            }) && a.name == attrs.name && a.activity_type == (ActivityType::SubProcess {
                data_index: None,
            }) && empty_outputs(a.outputs) && a.func_idx is None),
            None => missing_id(tagv, r),
        },
        ElementKind::Event(et) => match attrs.id {
            Some(idv) => r matches Ok(Some(b)) && (b matches Bpmn::Event(e) && e.id == (Id {
                bpmn_id: idv,
                local_id: 0,
            }) && e.name == attrs.name && e.event_type == et && e.symbol is None && empty_outputs(
                e.outputs,
            ) && (match attrs.attached_to_ref {
                Some(a) => e.attached_to_ref == Some(Id { bpmn_id: a, local_id: 0 }),
                None => e.attached_to_ref is None,
            })),
            None => missing_id(tagv, r),
        },
        ElementKind::Activity(at) => match attrs.id {
            Some(idv) => r matches Ok(Some(b)) && (b matches Bpmn::Activity(a) && a.id == (Id {
                bpmn_id: idv,
                local_id: 0,
            }) && a.name == attrs.name && a.activity_type == (if at matches
                ActivityType::SubProcess { .. } {
                ActivityType::SubProcess { data_index: None }
            } else {
                at
            }) && empty_outputs(a.outputs) && a.func_idx is None),
            None => missing_id(tagv, r),
        },
        ElementKind::Gateway(gt) => match attrs.id {
            Some(idv) => r matches Ok(Some(b)) && (b matches Bpmn::Gateway(g) && g.id == (Id {
                bpmn_id: idv,
                local_id: 0,
            }) && g.name == attrs.name && g.gateway_type == gt && empty_outputs(g.outputs)
                && g.inputs == 0 && (match attrs.default {
                Some(d) => g.default == Some(Id { bpmn_id: d, local_id: 0 }),
                None => g.default is None,
            }) && g.func_idx is None),
            None => missing_id(tagv, r),
        },
        ElementKind::SequenceFlow => match attrs.id {
            Some(idv) => match attrs.target_ref {
                Some(t) => r matches Ok(Some(b)) && (b matches Bpmn::SequenceFlow {
                    id,
                    name,
                    target_ref,
                    source_ref,
                } && id == (Id { bpmn_id: idv, local_id: 0 }) && name == attrs.name && target_ref
                    == (Id { bpmn_id: t, local_id: 0 }) && (match attrs.source_ref {
                    Some(s) => source_ref == (Id { bpmn_id: s, local_id: 0 }),
                    None => source_ref.bpmn_id@ == Seq::<char>::empty() && source_ref.local_id
                        == 0,
                })),
                None => r == Err::<Option<Bpmn>, Error>(Error::MissingTargetRef),
            },
            None => missing_id(tagv, r),
        },
        ElementKind::Direction(dt) => r == Ok::<Option<Bpmn>, Error>(
            Some(Bpmn::Direction { direction_type: dt, text: None }),
        ),
        ElementKind::EventSymbol(_) => r == Ok::<Option<Bpmn>, Error>(None),
        ElementKind::Other => r == Ok::<Option<Bpmn>, Error>(None),
    }
}

/// The element needed an id and has none.
pub open spec fn missing_id(tagv: Seq<char>, r: Result<Option<Bpmn>, Error>) -> bool {
    r matches Err(e) && (e matches Error::MissingId(s) && s@ == tagv)
}

/// No outgoing references recorded yet.
pub open spec fn empty_outputs(o: Outputs) -> bool {
    o.bpmn_ids@ == Seq::<String>::empty() && o.local_ids@ == Seq::<usize>::empty()
}

/// Build the node an element stands for. An element that needs an id but
/// has none is `MissingId`; a sequence flow without a target reference is
/// `MissingTargetRef`.
pub fn make_node(kind: &ElementKind, tag: &str, attrs: ElementAttrs) -> (r: Result<
    Option<Bpmn>,
    Error,
>)
    ensures
        made_node(*kind, tag@, attrs, r),
        r matches Ok(Some(b)) ==> crate::diagram::node_wf(b) && crate::builder::no_data_index(b),
        r matches Err(e) ==> ((e matches Error::MissingId(_)) || (e matches Error::MissingTargetRef)),
{
    let ElementAttrs { id, name, attached_to_ref, target_ref, source_ref, default } = attrs;
    match kind {
        ElementKind::Definitions => {
            let id = match id {
                Some(v) => v,
                None => {
                    return Err(Error::MissingId(tag.to_owned()));
                }
            };
            let node = Bpmn::Definitions { id: Id::new(id) };
            proof {
                assert(crate::diagram::node_wf(node));
                assert(crate::builder::no_data_index(node));
            }
            Ok(Some(node))
        }
        ElementKind::Process | ElementKind::SubProcess => {
            let id = match id {
                Some(v) => v,
                None => {
                    return Err(Error::MissingId(tag.to_owned()));
                }
            };
            if matches!(kind, ElementKind::Process) {
                Ok(Some(Bpmn::Process { id: Id::new(id), data_index: None }))
            } else {
                Ok(
                    Some(
                        Bpmn::Activity(
                            Activity {
                                id: Id::new(id),
                                name,
                                activity_type: ActivityType::SubProcess { data_index: None },
                                outputs: Outputs::new(),
                                func_idx: None,
                            },
                        ),
                    ),
                )
            }
        }
        ElementKind::Event(event_type) => {
            let id = match id {
                Some(v) => v,
                None => {
                    return Err(Error::MissingId(tag.to_owned()));
                }
            };
            Ok(
                Some(
                    Bpmn::Event(
                        Event {
                            id: Id::new(id),
                            name,
                            event_type: *event_type,
                            symbol: None,
                            outputs: Outputs::new(),
                            attached_to_ref: match attached_to_ref {
                                Some(v) => Some(Id::new(v)),
                                None => None,
                            },
                        },
                    ),
                ),
            )
        }
        ElementKind::Activity(activity_type) => {
            let id = match id {
                Some(v) => v,
                None => {
                    return Err(Error::MissingId(tag.to_owned()));
                }
            };
            let at = match activity_type {
                ActivityType::SubProcess { .. } => ActivityType::SubProcess { data_index: None },
                other => *other,
            };
            Ok(
                Some(
                    Bpmn::Activity(
                        Activity {
                            id: Id::new(id),
                            name,
                            activity_type: at,
                            outputs: Outputs::new(),
                            func_idx: None,
                        },
                    ),
                ),
            )
        }
        ElementKind::Gateway(gateway_type) => {
            let id = match id {
                Some(v) => v,
                None => {
                    return Err(Error::MissingId(tag.to_owned()));
                }
            };
            Ok(
                Some(
                    Bpmn::Gateway(
                        Gateway {
                            id: Id::new(id),
                            name,
                            gateway_type: *gateway_type,
                            outputs: Outputs::new(),
                            inputs: 0,
                            default: match default {
                                Some(v) => Some(Id::new(v)),
                                None => None,
                            },
                            func_idx: None,
                        },
                    ),
                ),
            )
        }
        ElementKind::SequenceFlow => {
            let id = match id {
                Some(v) => v,
                None => {
                    return Err(Error::MissingId(tag.to_owned()));
                }
            };
            let target = match target_ref {
                Some(v) => v,
                None => {
                    return Err(Error::MissingTargetRef);
                }
            };
            let source = match source_ref {
                Some(v) => v,
                None => String::new(),
            };
            Ok(
                Some(
                    Bpmn::SequenceFlow {
                        id: Id::new(id),
                        name,
                        target_ref: Id::new(target),
                        source_ref: Id::new(source),
                    },
                ),
            )
        }
        ElementKind::Direction(direction_type) => Ok(
            Some(Bpmn::Direction { direction_type: *direction_type, text: None }),
        ),
        ElementKind::EventSymbol(_) => Ok(None),
        ElementKind::Other => Ok(None),
    }
}

/// The errors the diagram builder can report: a node element without an
/// id, a sequence flow without a target, an unsupported construct, a
/// violated BPMN rule, or an impossible event sequence.
pub open spec fn builder_error(e: Error) -> bool {
    ||| e matches Error::MissingId(_)
    ||| e matches Error::MissingTargetRef
    ||| e matches Error::NotSupported(_)
    ||| e matches Error::BpmnRequirement(_)
    ||| e matches Error::Builder(_)
}

/// The builder is untouched.
pub open spec fn builder_unchanged(b1: DataBuilder, b2: DataBuilder) -> bool {
    &&& b2.data@ == b1.data@
    &&& b2.process_stack@ == b1.process_stack@
    &&& b2.stack@ == b1.stack@
}

/// What one opening tag does to the builder, by element kind: a process-
/// like element opens a block, a node element is pushed, a symbol marks
/// the open event, everything else is ignored; a bad element reports its
/// error and leaves the builder untouched.
pub open spec fn open_dispatch(
    b1: DataBuilder,
    b2: DataBuilder,
    kind: ElementKind,
    tagv: Seq<char>,
    attrs: ElementAttrs,
    r: Result<(), Error>,
) -> bool {
    match kind {
        ElementKind::Definitions | ElementKind::Process | ElementKind::SubProcess => exists|
            x: Result<Option<Bpmn>, Error>,
        |
            #[trigger] made_node(kind, tagv, attrs, x) && match x {
                Ok(Some(node)) => r is Ok && crate::builder::opened_process(b1, b2, node),
                Ok(None) => r is Ok && builder_unchanged(b1, b2),
                Err(e) => r == Err::<(), Error>(e) && builder_unchanged(b1, b2),
            },
        ElementKind::Event(_) | ElementKind::Activity(_) | ElementKind::Gateway(_)
            | ElementKind::SequenceFlow | ElementKind::Direction(_) => exists|
            x: Result<Option<Bpmn>, Error>,
        |
            #[trigger] made_node(kind, tagv, attrs, x) && match x {
                Ok(Some(node)) => r is Ok && crate::builder::pushed_node(b1, b2, node),
                Ok(None) => r is Ok && builder_unchanged(b1, b2),
                Err(e) => r == Err::<(), Error>(e) && builder_unchanged(b1, b2),
            },
        ElementKind::EventSymbol(sym) => r is Ok && crate::builder::symbol_applied(b1, b2, sym),
        ElementKind::Other => r is Ok && builder_unchanged(b1, b2),
    }
}

/// What one self-closing element does to the builder, by element kind: a
/// process-like element opens and at once closes a block, a node element
/// joins the open block directly, a symbol marks the open event, a bare
/// direction is ignored.
pub open spec fn solitary_dispatch(
    b1: DataBuilder,
    b2: DataBuilder,
    kind: ElementKind,
    tagv: Seq<char>,
    attrs: ElementAttrs,
    r: Result<(), Error>,
) -> bool {
    match kind {
        ElementKind::Definitions | ElementKind::Process | ElementKind::SubProcess => exists|
            x: Result<Option<Bpmn>, Error>,
        |
            #[trigger] made_node(kind, tagv, attrs, x) && match x {
                Ok(Some(node)) => exists|mid: DataBuilder|
                    #[trigger] crate::builder::opened_process(b1, mid, node)
                        && crate::builder::process_ended(mid, b2, r),
                Ok(None) => r is Ok && builder_unchanged(b1, b2),
                Err(e) => r == Err::<(), Error>(e) && builder_unchanged(b1, b2),
            },
        ElementKind::Event(_) | ElementKind::Activity(_) | ElementKind::Gateway(_)
            | ElementKind::SequenceFlow => exists|x: Result<Option<Bpmn>, Error>|
            #[trigger] made_node(kind, tagv, attrs, x) && match x {
                Ok(Some(node)) => crate::builder::appended_to_process(b1, b2, node, r),
                Ok(None) => r is Ok && builder_unchanged(b1, b2),
                Err(e) => r == Err::<(), Error>(e) && builder_unchanged(b1, b2),
            },
        ElementKind::EventSymbol(sym) => r is Ok && crate::builder::symbol_applied(b1, b2, sym),
        ElementKind::Direction(_) | ElementKind::Other => r is Ok && builder_unchanged(b1, b2),
    }
}

/// What one element event does to the builder: the opening, closing and
/// text steps of the assembly, each tied to the builder relation of the
/// method that performs it.
pub open spec fn event_applied(
    b1: DataBuilder,
    b2: DataBuilder,
    ev: XmlEvent,
    r: Result<(), Error>,
) -> bool {
    match ev {
        XmlEvent::Open(tag, attrs) => open_dispatch(b1, b2, classify_spec(tag@), tag@, attrs, r),
        XmlEvent::Solitary(tag, attrs) => solitary_dispatch(
            b1,
            b2,
            classify_spec(tag@),
            tag@,
            attrs,
            r,
        ),
        XmlEvent::Close(tag) => match classify_spec(tag@) {
            ElementKind::Definitions | ElementKind::Process | ElementKind::SubProcess => crate::builder::process_ended(
                b1,
                b2,
                r,
            ),
            ElementKind::Event(_) | ElementKind::Activity(_) | ElementKind::Gateway(_)
                | ElementKind::SequenceFlow => crate::builder::element_ended(b1, b2, r),
            ElementKind::Direction(dt) => r is Ok && crate::builder::direction_applied(b1, b2, dt),
            _ => r is Ok && builder_unchanged(b1, b2),
        },
        XmlEvent::Content(value) => r is Ok && crate::builder::text_applied(b1, b2, value),
    }
}

/// Drive the builder with one element event.
pub fn apply_event(builder: &mut DataBuilder, event: XmlEvent) -> (r: Result<(), Error>)
    requires
        old(builder).wf(),
    ensures
        final(builder).wf(),
        event_applied(*old(builder), *final(builder), event, r),
        (event matches XmlEvent::Close(tag) && classify_spec(tag@) is SequenceFlow && old(
            builder,
        ).stack@.len() > 0 && (old(builder).stack@.last() matches Bpmn::SequenceFlow { .. }))
            ==> r matches Err(Error::NotSupported(_)),
        (event matches XmlEvent::Close(tag) && (classify_spec(tag@) matches ElementKind::Event(_))
            && old(builder).stack@.len() > 0 && crate::diagram::is_none_start(
            old(builder).stack@.last(),
        ) && old(builder).process_stack@.len() > 0 && old(
            builder,
        ).process_stack@.last().start is Some) ==> r matches Err(Error::BpmnRequirement(_)),
        r matches Err(e) ==> builder_error(e),
{
    match event {
        XmlEvent::Open(tag, attrs) => {
            let kind = classify(tag.as_str());
            match kind {
                ElementKind::Definitions | ElementKind::Process | ElementKind::SubProcess => {
                    let made = make_node(&kind, tag.as_str(), attrs);
                    match made {
                        Ok(Some(node)) => {
                            builder.add_new_process(node);
                            Ok(())
                        }
                        Ok(None) => Ok(()),
                        Err(e) => Err(e),
                    }
                }
                ElementKind::Event(_) | ElementKind::Activity(_) | ElementKind::Gateway(_)
                    | ElementKind::SequenceFlow | ElementKind::Direction(_) => {
                    let made = make_node(&kind, tag.as_str(), attrs);
                    match made {
                        Ok(Some(node)) => {
                            builder.add(node);
                            Ok(())
                        }
                        Ok(None) => Ok(()),
                        Err(e) => Err(e),
                    }
                }
                ElementKind::EventSymbol(symbol) => {
                    builder.update_symbol(symbol);
                    Ok(())
                }
                ElementKind::Other => Ok(()),
            }
        }
        XmlEvent::Solitary(tag, attrs) => {
            let kind = classify(tag.as_str());
            match kind {
                ElementKind::Definitions | ElementKind::Process | ElementKind::SubProcess => {
                    let made = make_node(&kind, tag.as_str(), attrs);
                    match made {
                        Ok(Some(node)) => {
                            builder.add_new_process(node);
                            let ghost mid = *builder;
                            builder.end_process()
                        }
                        Ok(None) => Ok(()),
                        Err(e) => Err(e),
                    }
                }
                ElementKind::Event(_) | ElementKind::Activity(_) | ElementKind::Gateway(_)
                    | ElementKind::SequenceFlow => {
                    let made = make_node(&kind, tag.as_str(), attrs);
                    match made {
                        Ok(Some(node)) => {
                            proof {
                                assert(crate::diagram::nested_below(
                                    node,
                                    builder.data@.len() as int,
                                ));
                            }
                            builder.add_to_process(node)
                        }
                        Ok(None) => Ok(()),
                        Err(e) => Err(e),
                    }
                }
                ElementKind::EventSymbol(symbol) => {
                    builder.update_symbol(symbol);
                    Ok(())
                }
                ElementKind::Direction(_) | ElementKind::Other => Ok(()),
            }
        }
        XmlEvent::Close(tag) => {
            match classify(tag.as_str()) {
                ElementKind::Definitions | ElementKind::Process | ElementKind::SubProcess => {
                    builder.end_process()
                }
                ElementKind::Event(_) | ElementKind::Activity(_) | ElementKind::Gateway(_)
                    | ElementKind::SequenceFlow => builder.end(),
                ElementKind::Direction(direction_type) => {
                    builder.add_direction(direction_type);
                    Ok(())
                }
                ElementKind::EventSymbol(_) | ElementKind::Other => Ok(()),
            }
        }
        XmlEvent::Content(value) => {
            builder.add_text(value);
            Ok(())
        }
    }
}

/// A builder that has seen nothing.
pub open spec fn empty_builder(b: DataBuilder) -> bool {
    &&& b.data@ == Seq::<crate::diagram::ProcessData>::empty()
    &&& b.process_stack@ == Seq::<crate::diagram::ProcessData>::empty()
    &&& b.stack@ == Seq::<Bpmn>::empty()
}

/// The builder states a run of the assembly passes through: an empty
/// builder, then one `event_applied` step per event, each succeeding.
pub open spec fn build_trace(tr: Seq<DataBuilder>, evs: Seq<XmlEvent>) -> bool {
    &&& tr.len() == evs.len() + 1
    &&& empty_builder(tr[0])
    &&& forall|j: int|
        0 <= j < evs.len() ==> event_applied(tr[j], #[trigger] tr[j + 1], evs[j], Ok(()))
}

/// The blocks are what folding the builder steps over the events, all
/// succeeding, leaves behind.
pub open spec fn built_from(events: Seq<XmlEvent>, blocks: Seq<crate::diagram::ProcessData>) -> bool {
    exists|tr: Seq<DataBuilder>| #[trigger] build_trace(tr, events) && blocks == tr.last().data@
}

/// Folding the builder steps over the events reaches a first failing step,
/// which reports this error.
pub open spec fn build_failed(events: Seq<XmlEvent>, e: Error) -> bool {
    &&& builder_error(e)
    &&& exists|tr: Seq<DataBuilder>, b2: DataBuilder, k: int|
        #![trigger build_trace(tr, events.take(k)), event_applied(tr.last(), b2, events[k], Err(e))]
        0 <= k < events.len() && build_trace(tr, events.take(k)) && event_applied(
            tr.last(),
            b2,
            events[k],
            Err(e),
        )
}

/// Build the whole diagram from a linear stream of element events: the
/// result is reached by folding the builder steps over the events, and an
/// error is the first failing step.
pub fn build_diagram(events: Vec<XmlEvent>) -> (r: Result<Diagram, Error>)
    ensures
        match r {
            Ok(d) => crate::diagram::diagram_wf(d) && crate::diagram::diagram_nested_wf(d)
                && built_from(events@, d.data@),
            Err(e) => build_failed(events@, e),
        },
{
    let mut builder = DataBuilder::new();
    let ghost events0 = events@;
    let ghost mut trace: Seq<DataBuilder> = seq![builder];
    let mut events = events;
    let n = events.len();
    let mut i: usize = 0;
    proof {
        assert(events0.take(0) =~= Seq::<XmlEvent>::empty());
    }
    #[verifier::loop_isolation(false)]
    while i < n
        invariant
            builder.wf(),
            n == events@.len(),
            n == events0.len(),
            i <= n,
            forall|j: int| i <= j < n ==> events@[j] == events0[j],
            build_trace(trace, events0.take(i as int)),
            trace.last() == builder,
        decreases n - i,
    {
        let mut event = XmlEvent::Content(String::new());
        events.set_and_swap(i, &mut event);
        proof {
            assert(event == events0[i as int]);
        }
        let res = apply_event(&mut builder, event);
        match res {
            Ok(()) => {
                proof {
                    assert(events0.take(i + 1).drop_last() =~= events0.take(i as int));
                    assert(events0.take(i + 1).last() == events0[i as int]);
                    let tr2 = trace.push(builder);
                    assert forall|j: int|
                        0 <= j < i + 1 implies event_applied(
                        tr2[j],
                        #[trigger] tr2[j + 1],
                        events0.take(i + 1)[j],
                        Ok(()),
                    ) by {
                        if j < i {
                            assert(tr2[j] == trace[j]);
                            assert(tr2[j + 1] == trace[j + 1]);
                            assert(event_applied(trace[j], trace[j + 1], events0.take(i as int)[j], Ok(())));
                        } else {
                            assert(tr2[j] == trace.last());
                        }
                    }
                    trace = trace.push(builder);
                    assert(build_trace(trace, events0.take(i + 1)));
                }
            }
            Err(e) => {
                proof {
                    assert(build_trace(trace, events0.take(i as int)));
                    assert(event_applied(trace.last(), builder, events0[i as int], Err(e)));
                }
                return Err(e);
            }
        }
        i = i + 1;
    }
    proof {
        assert(events0.take(n as int) =~= events0);
    }
    Ok(builder.into_diagram())
}

} // verus!
