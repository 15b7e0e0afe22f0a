use vstd::prelude::*;

verus! {

/// The ways building or running a process can fail.
///
/// Structural errors come from the diagram itself, binding errors from
/// missing handler registrations, routing errors from tokens that cannot
/// advance, and `ProcessExecution` wraps a failure reported by a handler.
#[derive(Debug, PartialEq, Eq, Clone)]
pub enum Error {
    /// A BPMN element that needs an id has none; carries the element kind.
    MissingId(String),
    /// A node has no outgoing sequence flow where one is needed.
    MissingOutput(String),
    /// A task or gateway reached at run time has no bound handler.
    MissingImplementation(String),
    /// Handlers required by the diagram were never registered; lists each one.
    MissingImplementations(Vec<String>),
    /// An exclusive or inclusive gateway needed its default flow, but none is set.
    MissingDefault(String),
    /// A token pointed at a node index that does not exist.
    MissingBpmnData(String),
    /// A process or sub-process node has no data block.
    MissingProcessData(String),
    /// The diagram has no definitions block.
    MissingDefinitionsId,
    /// A sequence flow lacks its target reference.
    MissingTargetRef,
    /// A node kind the engine does not run.
    TypeNotImplemented(String),
    /// No boundary event with the requested name and symbol is attached; carries
    /// the requested boundary description and the activity description.
    MissingBoundary(String, String),
    /// An event-based gateway selected an intermediate event with no matching output.
    MissingIntermediateEvent(String, String),
    /// A link throw event has no name to match a catch event by.
    MissingIntermediateThrowEventName(String),
    /// No intermediate catch event matches the thrown link; carries symbol and name.
    MissingIntermediateCatchEvent(String, String),
    /// A process finished without ever reaching an end event.
    MissingEndEvent,
    /// A process has no none-symbol start event.
    MissingStartEvent,
    /// The final user data could not be recovered after the run.
    NoProcessResult,
    /// A BPMN construct this engine rejects, such as a conditional sequence flow.
    NotSupported(String),
    /// A rule of the BPMN standard was violated by the diagram or the run.
    BpmnRequirement(String),
    /// A handler reported a failure; execution stops immediately.
    ProcessExecution(String),
    /// The diagram builder was driven with an impossible sequence of events.
    Builder(String),
    /// The XML text could not be read.
    File(String),
}

} // verus!
