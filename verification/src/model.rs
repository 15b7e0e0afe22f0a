use vstd::prelude::*;

use crate::error::Error;

verus! {

/// Annotation symbol carried by an event. Symbols drive routing only; none of
/// them is a real-world integration.
#[derive(Debug, Clone, Copy, PartialEq, Eq, Structural)]
pub enum Symbol {
    Blank,
    Message,
    Timer,
    Escalation,
    Conditional,
    Link,
    Error,
    Cancel,
    Compensation,
    Signal,
    Multiple,
    ParallelMultiple,
    Terminate,
}

/// The view of `Symbol::text` as a sequence of characters.
pub open spec fn symbol_text_spec(s: Symbol) -> Seq<char> {
    match s {
        Symbol::Blank => "None"@,
        Symbol::Message => "Message"@,
        Symbol::Timer => "Timer"@,
        Symbol::Escalation => "Escalation"@,
        Symbol::Conditional => "Conditional"@,
        Symbol::Link => "Link"@,
        Symbol::Error => "Error"@,
        Symbol::Cancel => "Cancel"@,
        Symbol::Compensation => "Compensation"@,
        Symbol::Signal => "Signal"@,
        Symbol::Multiple => "Multiple"@,
        Symbol::ParallelMultiple => "ParallelMultiple"@,
        Symbol::Terminate => "Terminate"@,
    }
}

impl Symbol {
    /// The symbol's name, used when composing error descriptions.
    pub fn text(&self) -> (r: &'static str)
        ensures
            r@ == symbol_text_spec(*self),
    {
        match self {
            Symbol::Blank => "None",
            Symbol::Message => "Message",
            Symbol::Timer => "Timer",
            Symbol::Escalation => "Escalation",
            Symbol::Conditional => "Conditional",
            Symbol::Link => "Link",
            Symbol::Error => "Error",
            Symbol::Cancel => "Cancel",
            Symbol::Compensation => "Compensation",
            Symbol::Signal => "Signal",
            Symbol::Multiple => "Multiple",
            Symbol::ParallelMultiple => "ParallelMultiple",
            Symbol::Terminate => "Terminate",
        }
    }
}

/// A cross-reference: the textual BPMN id and, after finalize, the index of
/// the referenced node inside its process block.
#[derive(Debug, Clone, PartialEq, Eq)]
pub struct Id {
    pub bpmn_id: String,
    pub local_id: usize,
}

impl Id {
    /// Wrap a textual BPMN id; the local index starts unresolved at zero.
    pub fn new(bpmn_id: String) -> (r: Id)
        ensures
            r == (Id { bpmn_id, local_id: 0 }),
    {
        Id { bpmn_id, local_id: 0 }
    }

    /// The textual BPMN id.
    pub fn bpmn(&self) -> (r: &str)
        ensures
            r@ == self.bpmn_id@,
    {
        self.bpmn_id.as_str()
    }

    /// The resolved index into the process block.
    pub fn local(&self) -> (r: usize)
        ensures
            r == self.local_id,
    {
        self.local_id
    }
}

/// The outgoing flows of a node: the referenced BPMN ids in declaration
/// order, with the resolved local indices kept in a parallel array.
#[derive(Debug, Clone, PartialEq, Eq)]
pub struct Outputs {
    pub bpmn_ids: Vec<String>,
    pub local_ids: Vec<usize>,
}

impl Outputs {
    /// The two parallel arrays always have the same length.
    pub open spec fn wf(&self) -> bool {
        self.bpmn_ids@.len() == self.local_ids@.len()
    }

    pub fn new() -> (r: Outputs)
        ensures
            r.bpmn_ids@ == Seq::<String>::empty(),
            r.local_ids@ == Seq::<usize>::empty(),
            r.wf(),
    {
        Outputs { bpmn_ids: Vec::new(), local_ids: Vec::new() }
    }

    /// Record one more outgoing flow reference, not yet resolved.
    pub fn add(&mut self, output_id: String)
        ensures
            final(self).bpmn_ids@ == old(self).bpmn_ids@.push(output_id),
            final(self).local_ids@ == old(self).local_ids@.push(0usize),
    {
        self.bpmn_ids.push(output_id);
        self.local_ids.push(0);
    }

    /// The resolved local indices, in declaration order.
    pub fn ids(&self) -> (r: &Vec<usize>)
        ensures
            r@ == self.local_ids@,
    {
        &self.local_ids
    }

    pub fn len(&self) -> (r: usize)
        ensures
            r == self.local_ids@.len(),
    {
        self.local_ids.len()
    }

    /// The first resolved index, if any flow was declared.
    pub fn first(&self) -> (r: Option<usize>)
        ensures
            match r {
                Some(v) => self.local_ids@.len() > 0 && v == self.local_ids@[0],
                None => self.local_ids@.len() == 0,
            },
    {
        if self.local_ids.len() > 0 {
            Some(self.local_ids[0])
        } else {
            None
        }
    }
}

/// The kind of an event node.
#[derive(Debug, Clone, Copy, PartialEq, Eq, Structural)]
pub enum EventType {
    Start,
    IntermediateCatch,
    IntermediateThrow,
    Boundary,
    End,
}

/// An event node: start, intermediate, boundary or end.
#[derive(Debug, Clone, PartialEq, Eq)]
pub struct Event {
    pub id: Id,
    pub name: Option<String>,
    pub event_type: EventType,
    pub symbol: Option<Symbol>,
    pub outputs: Outputs,
    pub attached_to_ref: Option<Id>,
}

/// The kind of an activity node. All task kinds run a registered handler;
/// a sub-process runs its own process block.
#[derive(Debug, Clone, Copy, PartialEq, Eq)]
pub enum ActivityType {
    Task,
    ScriptTask,
    UserTask,
    ServiceTask,
    CallActivity,
    ReceiveTask,
    SendTask,
    ManualTask,
    BusinessRuleTask,
    SubProcess { data_index: Option<usize> },
}

impl ActivityType {
    /// True for every activity kind that runs a registered task handler.
    pub open spec fn is_task_kind(&self) -> bool {
        !(*self matches ActivityType::SubProcess { .. })
    }

    /// The kind's name, used when composing error descriptions.
    pub fn text(&self) -> (r: &'static str)
        ensures
            r@ == activity_type_text(*self),
    {
        match self {
            ActivityType::Task => "Task",
            ActivityType::ScriptTask => "ScriptTask",
            ActivityType::UserTask => "UserTask",
            ActivityType::ServiceTask => "ServiceTask",
            ActivityType::CallActivity => "CallActivity",
            ActivityType::ReceiveTask => "ReceiveTask",
            ActivityType::SendTask => "SendTask",
            ActivityType::ManualTask => "ManualTask",
            ActivityType::BusinessRuleTask => "BusinessRuleTask",
            ActivityType::SubProcess { .. } => "SubProcess",
        }
    }
}

/// The view of `ActivityType::text` as a sequence of characters.
pub open spec fn activity_type_text(a: ActivityType) -> Seq<char> {
    match a {
        ActivityType::Task => "Task"@,
        ActivityType::ScriptTask => "ScriptTask"@,
        ActivityType::UserTask => "UserTask"@,
        ActivityType::ServiceTask => "ServiceTask"@,
        ActivityType::CallActivity => "CallActivity"@,
        ActivityType::ReceiveTask => "ReceiveTask"@,
        ActivityType::SendTask => "SendTask"@,
        ActivityType::ManualTask => "ManualTask"@,
        ActivityType::BusinessRuleTask => "BusinessRuleTask"@,
        ActivityType::SubProcess { .. } => "SubProcess"@,
    }
}

/// The view of `GatewayType::text` as a sequence of characters.
pub open spec fn gateway_type_text(g: GatewayType) -> Seq<char> {
    match g {
        GatewayType::Exclusive => "Exclusive"@,
        GatewayType::Inclusive => "Inclusive"@,
        GatewayType::Parallel => "Parallel"@,
        GatewayType::EventBased => "EventBased"@,
        GatewayType::Complex => "Complex"@,
    }
}

/// An activity node: a task of some kind, or a sub-process.
#[derive(Debug, Clone, PartialEq, Eq)]
pub struct Activity {
    pub id: Id,
    pub name: Option<String>,
    pub activity_type: ActivityType,
    pub outputs: Outputs,
    pub func_idx: Option<usize>,
}

/// The kind of a gateway node.
#[derive(Debug, Clone, Copy, PartialEq, Eq, Structural)]
pub enum GatewayType {
    Exclusive,
    Inclusive,
    Parallel,
    EventBased,
    Complex,
}

/// A gateway node. `inputs` counts the incoming flows; `default` is the
/// fallback flow of exclusive and inclusive gateways.
#[derive(Debug, Clone, PartialEq, Eq)]
pub struct Gateway {
    pub id: Id,
    pub name: Option<String>,
    pub gateway_type: GatewayType,
    pub outputs: Outputs,
    pub inputs: usize,
    pub default: Option<Id>,
    pub func_idx: Option<usize>,
}

impl GatewayType {
    /// The kind's name, used when composing error descriptions.
    pub fn text(&self) -> (r: &'static str)
        ensures
            r@ == gateway_type_text(*self),
    {
        match self {
            GatewayType::Exclusive => "Exclusive",
            GatewayType::Inclusive => "Inclusive",
            GatewayType::Parallel => "Parallel",
            GatewayType::EventBased => "EventBased",
            GatewayType::Complex => "Complex",
        }
    }
}

impl Gateway {
    /// The local index of the gateway's default flow, or `MissingDefault`.
    pub fn default_path(&self) -> (r: Result<usize, Error>)
        ensures
            match r {
                Ok(v) => self.default matches Some(d) && v == d.local_id,
                Err(e) => self.default is None && (e matches Error::MissingDefault(s) && s@
                    == name_or_id(self.name, self.id)),
            },
    {
        match &self.default {
            Some(d) => Ok(d.local_id),
            None => Err(Error::MissingDefault(key_of(&self.name, &self.id).to_owned())),
        }
    }
}

/// Whether `<incoming>` or `<outgoing>` is currently open.
#[derive(Debug, Clone, Copy, PartialEq, Eq, Structural)]
pub enum DirectionType {
    Incoming,
    Outgoing,
}

/// One BPMN node. `Direction` exists only transiently while the builder is
/// inside an `<incoming>` or `<outgoing>` element.
#[derive(Debug, Clone, PartialEq, Eq)]
pub enum Bpmn {
    Definitions { id: Id },
    Process { id: Id, data_index: Option<usize> },
    Event(Event),
    Activity(Activity),
    Gateway(Gateway),
    SequenceFlow { id: Id, name: Option<String>, target_ref: Id, source_ref: Id },
    Direction { direction_type: DirectionType, text: Option<String> },
}

/// The key a node is registered and looked up under: its name when it has
/// one, its BPMN id otherwise.
pub open spec fn name_or_id(name: Option<String>, id: Id) -> Seq<char> {
    match name {
        Some(n) => n@,
        None => id.bpmn_id@,
    }
}

/// The registration key of a node: its name if set, its BPMN id otherwise.
pub fn key_of<'a>(name: &'a Option<String>, id: &'a Id) -> (r: &'a str)
    ensures
        r@ == name_or_id(*name, *id),
{
    match name {
        Some(n) => n.as_str(),
        None => id.bpmn_id.as_str(),
    }
}

impl Bpmn {
    /// The node's cross-reference id; a transient direction node has none.
    pub fn id(&self) -> (r: Result<&Id, Error>)
        ensures
            match r {
                Ok(id) => bpmn_id_spec(*self) matches Some(i) && *id == i,
                Err(e) => bpmn_id_spec(*self) is None && e matches Error::MissingId(_),
            },
    {
        match self {
            Bpmn::Event(Event { id, .. }) => Ok(id),
            Bpmn::SequenceFlow { id, .. } => Ok(id),
            Bpmn::Activity(Activity { id, .. }) => Ok(id),
            Bpmn::Definitions { id } => Ok(id),
            Bpmn::Gateway(Gateway { id, .. }) => Ok(id),
            Bpmn::Process { id, .. } => Ok(id),
            Bpmn::Direction { .. } => Err(Error::MissingId("direction".to_owned())),
        }
    }

    /// Store this node's own index inside its process block.
    pub fn update_local_id(&mut self, value: usize)
        ensures
            *final(self) == set_local_id(*old(self), value),
    {
        match self {
            Bpmn::Event(Event { id, .. }) => id.local_id = value,
            Bpmn::SequenceFlow { id, .. } => id.local_id = value,
            Bpmn::Activity(Activity { id, .. }) => id.local_id = value,
            Bpmn::Definitions { id } => id.local_id = value,
            Bpmn::Gateway(Gateway { id, .. }) => id.local_id = value,
            Bpmn::Process { id, .. } => id.local_id = value,
            Bpmn::Direction { .. } => {}
        }
    }

    /// Point a process or sub-process node at its finished data block.
    pub fn update_data_index(&mut self, value: usize)
        ensures
            *final(self) == set_data_index(*old(self), value),
    {
        match self {
            Bpmn::Activity(Activity {
                activity_type: ActivityType::SubProcess { data_index },
                ..
            }) => {
                *data_index = Some(value);
            }
            Bpmn::Process { data_index, .. } => {
                *data_index = Some(value);
            }
            _ => {}
        }
    }

    /// Append an outgoing flow reference to an event, gateway or activity.
    pub fn add_output(&mut self, text: String)
        ensures
            add_output_rel(*old(self), *final(self), text),
    {
        match self {
            Bpmn::Event(Event { outputs, .. }) => outputs.add(text),
            Bpmn::Gateway(Gateway { outputs, .. }) => outputs.add(text),
            Bpmn::Activity(Activity { outputs, .. }) => outputs.add(text),
            _ => {}
        }
    }

    /// Count one more incoming flow on a gateway.
    pub fn add_input(&mut self)
        ensures
            *final(self) == bump_input(*old(self)),
    {
        if let Bpmn::Gateway(Gateway { inputs, .. }) = self {
            if *inputs < usize::MAX {
                *inputs = *inputs + 1;
            }
        }
    }
}

/// The id of a node, or `None` for a transient direction node.
pub open spec fn bpmn_id_spec(b: Bpmn) -> Option<Id> {
    match b {
        Bpmn::Event(e) => Some(e.id),
        Bpmn::SequenceFlow { id, .. } => Some(id),
        Bpmn::Activity(a) => Some(a.id),
        Bpmn::Definitions { id } => Some(id),
        Bpmn::Gateway(g) => Some(g.id),
        Bpmn::Process { id, .. } => Some(id),
        Bpmn::Direction { .. } => None,
    }
}

/// `b` with its own local index set to `value`.
pub open spec fn set_local_id(b: Bpmn, value: usize) -> Bpmn {
    match b {
        Bpmn::Event(e) => Bpmn::Event(Event { id: Id { local_id: value, ..e.id }, ..e }),
        Bpmn::SequenceFlow { id, name, target_ref, source_ref } => Bpmn::SequenceFlow {
            id: Id { local_id: value, ..id },
            name,
            target_ref,
            source_ref,
        },
        Bpmn::Activity(a) => Bpmn::Activity(Activity { id: Id { local_id: value, ..a.id }, ..a }),
        Bpmn::Definitions { id } => Bpmn::Definitions { id: Id { local_id: value, ..id } },
        Bpmn::Gateway(g) => Bpmn::Gateway(Gateway { id: Id { local_id: value, ..g.id }, ..g }),
        Bpmn::Process { id, data_index } => Bpmn::Process {
            id: Id { local_id: value, ..id },
            data_index,
        },
        Bpmn::Direction { direction_type, text } => Bpmn::Direction { direction_type, text },
    }
}

/// `b` with its data block index set to `value`, when it can hold one.
pub open spec fn set_data_index(b: Bpmn, value: usize) -> Bpmn {
    match b {
        Bpmn::Activity(a) => if a.activity_type matches ActivityType::SubProcess { .. } {
            Bpmn::Activity(
                Activity { activity_type: ActivityType::SubProcess { data_index: Some(value) }, ..a },
            )
        } else {
            b
        },
        Bpmn::Process { id, .. } => Bpmn::Process { id, data_index: Some(value) },
        _ => b,
    }
}

/// `after` extends `before` with one more outgoing reference, unresolved.
pub open spec fn outputs_pushed(before: Outputs, after: Outputs, text: String) -> bool {
    after.bpmn_ids@ == before.bpmn_ids@.push(text) && after.local_ids@ == before.local_ids@.push(
        0usize,
    )
}

/// `b2` is `b1` with one more outgoing reference, when `b1` can hold outputs;
/// otherwise `b2` is `b1` unchanged.
pub open spec fn add_output_rel(b1: Bpmn, b2: Bpmn, text: String) -> bool {
    match b1 {
        Bpmn::Event(a) => b2 matches Bpmn::Event(b) && b == (Event { outputs: b.outputs, ..a })
            && outputs_pushed(a.outputs, b.outputs, text),
        Bpmn::Gateway(a) => b2 matches Bpmn::Gateway(b) && b == (Gateway {
            outputs: b.outputs,
            ..a
        }) && outputs_pushed(a.outputs, b.outputs, text),
        Bpmn::Activity(a) => b2 matches Bpmn::Activity(b) && b == (Activity {
            outputs: b.outputs,
            ..a
        }) && outputs_pushed(a.outputs, b.outputs, text),
        _ => b2 == b1,
    }
}

/// `b` with one more incoming flow counted, when it is a gateway.
pub open spec fn bump_input(b: Bpmn) -> Bpmn {
    match b {
        Bpmn::Gateway(g) => if g.inputs < usize::MAX {
            Bpmn::Gateway(Gateway { inputs: (g.inputs + 1) as usize, ..g })
        } else {
            b
        },
        _ => b,
    }
}

} // verus!
