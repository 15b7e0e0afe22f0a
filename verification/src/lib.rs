//! A BPMN 2.0 process execution engine for a light-weight subset of the
//! standard. A diagram is parsed into an index-addressable model, handler
//! callbacks are bound to its tasks and gateways by name or id, and tokens
//! are then propagated through the graph until a terminating end event.

mod api;
mod builder;
mod diagram;
mod engine;
mod error;
mod events;
mod handler;
mod laws;
mod model;
mod process;
mod xml;

pub use diagram::{Diagram, ProcessData};
pub use events::{build_diagram, ElementAttrs, XmlEvent};
pub use engine::{ExecuteHandler, TokenData};

pub use api::{Boundary, Callbacks, EndNode, IntermediateEvent, ProcessOutput, With};
pub use error::Error;
pub use handler::{Handler, HandlerMap, HandlerType};
pub use process::{inclusive_targets, is_interrupting, is_terminating_end, Build, Process, Run};
pub use xml::parse_events;
pub use model::{
    Activity, ActivityType, Bpmn, DirectionType, Event, EventType, Gateway, GatewayType, Id,
    Outputs, Symbol,
};
