use vstd::prelude::*;

use crate::error::Error;
use crate::model::Symbol;

verus! {

/// Information about the end node where a process completed.
#[derive(Debug, Clone, PartialEq, Eq)]
pub struct EndNode {
    /// The BPMN id of the end node.
    pub id: String,
    /// The name of the end node, if it has one.
    pub name: Option<String>,
    /// The symbol of the end event; `Symbol::Blank` when it carries none.
    pub symbol: Symbol,
}

/// What a finished run hands back: the final user data together with the
/// end node that terminated the last process.
#[derive(Debug, PartialEq, Eq)]
pub struct ProcessOutput<T> {
    /// The final state of the process data.
    pub data: T,
    /// Information about the end node where the process completed.
    pub end_node: EndNode,
}

/// What an inclusive gateway handler selects.
#[derive(Debug, Clone, PartialEq, Eq)]
pub enum With {
    /// Follow the gateway's default flow.
    Default,
    /// Follow the one outgoing sequence flow with this name or id.
    Flow(String),
    /// Follow every listed outgoing sequence flow; duplicates are discarded.
    Fork(Vec<String>),
}

/// What a task handler selects: a boundary event attached to the task,
/// identified by its symbol and possibly its name.
#[derive(Debug, Clone, PartialEq, Eq)]
pub enum Boundary {
    Symbol(Symbol),
    NameSymbol(String, Symbol),
}

impl Boundary {
    /// The symbol the boundary event must carry.
    pub fn symbol(&self) -> (r: Symbol)
        ensures
            r == boundary_symbol(*self),
    {
        match self {
            Boundary::Symbol(symbol) => *symbol,
            Boundary::NameSymbol(_, symbol) => *symbol,
        }
    }

    /// The name the boundary event must carry, if one was requested.
    pub fn name(&self) -> (r: Option<&str>)
        ensures
            match r {
                Some(n) => boundary_name(*self) matches Some(m) && n@ == m@,
                None => boundary_name(*self) is None,
            },
    {
        match self {
            Boundary::NameSymbol(name, _) => Some(name.as_str()),
            Boundary::Symbol(_) => None,
        }
    }
}

/// The symbol a `Boundary` selection asks for.
pub open spec fn boundary_symbol(b: Boundary) -> Symbol {
    match b {
        Boundary::Symbol(symbol) => symbol,
        Boundary::NameSymbol(_, symbol) => symbol,
    }
}

/// The name a `Boundary` selection asks for, if any.
pub open spec fn boundary_name(b: Boundary) -> Option<String> {
    match b {
        Boundary::NameSymbol(name, _) => Some(name),
        Boundary::Symbol(_) => None,
    }
}

/// What an event-based gateway handler selects: the name and symbol of the
/// intermediate event to wait for.
#[derive(Debug, Clone, PartialEq, Eq)]
pub struct IntermediateEvent(pub String, pub Symbol);

/// The user-supplied behaviour of a diagram. The engine calls one method per
/// reached task or decision gateway, passing the node's registration key
/// (its name when it has one, its BPMN id otherwise) and the shared user
/// data.
///
/// Returning an error stops the run at once with that error, unwinding
/// every pending token; no partial result is produced. Handlers return the
/// library's own error type, so nothing is wrapped on the way out: a
/// handler that wants its failure marked as its own business logic returns
/// `Error::ProcessExecution` itself.
pub trait Callbacks<T> {
    /// Run the task registered under `key`. `None` continues through the
    /// task's outgoing flow; `Some` routes to a matching boundary event.
    fn task(&self, key: &str, data: &mut T) -> Result<Option<Boundary>, Error>;

    /// Decide an exclusive gateway registered under `key`. `None` takes the
    /// gateway's default flow.
    fn exclusive(&self, key: &str, data: &mut T) -> Result<Option<String>, Error>;

    /// Decide an inclusive gateway registered under `key`.
    fn inclusive(&self, key: &str, data: &mut T) -> Result<With, Error>;

    /// Decide an event-based gateway registered under `key`.
    fn event_based(&self, key: &str, data: &mut T) -> Result<IntermediateEvent, Error>;
}

} // verus!
