use core::marker::PhantomData;
use vstd::prelude::*;
use vstd::string::StringExecFns;

use crate::api::{Callbacks, EndNode, ProcessOutput, With};
use crate::diagram::{
    binds, diagram_nested_wf, diagram_wf, find_flow_from, installed_ok, install_rel,
    missing_report_ok, needs_handler, nested_below, node_wf, Diagram, ProcessData,
};
use crate::engine::{eh_wf, is_join_gateway, ExecuteHandler};
use crate::error::Error;
use crate::handler::{Handler, HandlerType};
use crate::model::{
    key_of, ActivityType, Bpmn, Event, EventType, Gateway, GatewayType, Outputs, Symbol,
};

verus! {

/// The state of a process that is still registering handlers.
#[derive(Debug)]
pub struct Build;

/// The state of a process that passed `build` and can run.
#[derive(Debug)]
pub struct Run;

/// What `flow` hands back to the scheduler when a token cannot advance in a
/// straight line any further.
enum Return {
    /// The token reached a fan-out: all these tokens start together.
    Fork(Vec<usize>),
    /// The token reached a multi-input parallel or inclusive gateway.
    Join(usize),
    /// The token reached an end event.
    End(usize),
}

/// The node at `e` is an end event of the block.
pub open spec fn end_event_at(pd: ProcessData, e: usize) -> bool {
    &&& e < pd.data@.len()
    &&& pd.data@[e as int] matches Bpmn::Event(ev) && ev.event_type is End
}

/// A sub-process ending with one of these symbols interrupts its parent
/// activity and routes through a matching boundary event.
pub open spec fn interrupting(s: Symbol) -> bool {
    ||| s is Cancel
    ||| s is Compensation
    ||| s is Conditional
    ||| s is Error
    ||| s is Escalation
    ||| s is Message
    ||| s is Signal
    ||| s is Timer
}

/// An end event with a terminate or cancel symbol stops the whole run at
/// once, abandoning every other live token.
pub fn is_terminating_end(symbol: &Option<Symbol>) -> (r: bool)
    ensures
        r == (*symbol == Some(Symbol::Terminate) || *symbol == Some(Symbol::Cancel)),
{
    match symbol {
        Some(Symbol::Terminate) => true,
        Some(Symbol::Cancel) => true,
        _ => false,
    }
}

/// Whether a sub-process end symbol interrupts the enclosing activity.
pub fn is_interrupting(s: &Symbol) -> (r: bool)
    ensures
        r == interrupting(*s),
{
    match s {
        Symbol::Cancel => true,
        Symbol::Compensation => true,
        Symbol::Conditional => true,
        Symbol::Error => true,
        Symbol::Escalation => true,
        Symbol::Message => true,
        Symbol::Signal => true,
        Symbol::Timer => true,
        _ => false,
    }
}

/// The gateway stored at `gidx` of the block.
pub open spec fn gateway_at(pd: ProcessData, gidx: usize) -> Gateway
    recommends
        gidx < pd.data@.len(),
        pd.data@[gidx as int] matches Bpmn::Gateway(_),
{
    pd.data@[gidx as int]->Gateway_0
}

/// The gateway's default flow decides: its target when one is set,
/// `MissingDefault` otherwise.
pub open spec fn inclusive_default_ok(gw: Gateway, r: Result<Vec<usize>, Error>) -> bool {
    match gw.default {
        Some(d) => r matches Ok(out) && out@ == seq![d.local_id],
        None => r matches Err(e) && e matches Error::MissingDefault(_),
    }
}

/// One selected flow decides: the first output whose name or id matches,
/// `MissingOutput` when none does.
pub open spec fn flow_pick_ok(pd: ProcessData, gw: Gateway, v: String, r: Result<
    Vec<usize>,
    Error,
>) -> bool {
    match find_flow_from(pd.data@, gw.outputs.local_ids@, v@, 0) {
        Some(x) => r matches Ok(out) && out@ == seq![x],
        None => r matches Err(e) && e matches Error::MissingOutput(_),
    }
}

/// A selected list of flows decides: every listed name resolves to its
/// first matching output, the result holds exactly the resolved flows with
/// duplicates discarded, and one unresolved name is `MissingOutput`.
pub open spec fn fork_pick_ok(pd: ProcessData, gw: Gateway, vs: Seq<String>, r: Result<
    Vec<usize>,
    Error,
>) -> bool {
    if forall|j: int|
        0 <= j < vs.len() ==> find_flow_from(pd.data@, gw.outputs.local_ids@, (#[trigger] vs[j])@, 0)
            is Some {
        r matches Ok(out) && out@.no_duplicates() && (forall|x: usize|
            #[trigger] out@.contains(x) <==> exists|j: int|
                0 <= j < vs.len() && find_flow_from(
                    pd.data@,
                    gw.outputs.local_ids@,
                    (#[trigger] vs[j])@,
                    0,
                ) == Some(x))
    } else {
        r matches Err(e) && e matches Error::MissingOutput(_)
    }
}

/// What resolving an inclusive selection against the gateway's outputs
/// yields: a named flow or a list of named flows resolve to their first
/// matching outputs, an empty selection falls back to the default flow.
pub open spec fn inclusive_selection_ok(
    pd: ProcessData,
    gidx: usize,
    with: With,
    r: Result<Vec<usize>, Error>,
) -> bool {
    let gw = gateway_at(pd, gidx);
    match with {
        With::Default => inclusive_default_ok(gw, r),
        With::Flow(v) => flow_pick_ok(pd, gw, v, r),
        With::Fork(vs) => if vs@.len() == 0 {
            inclusive_default_ok(gw, r)
        } else {
            fork_pick_ok(pd, gw, vs@, r)
        },
    }
}

/// The flows an inclusive gateway advances along, given what its handler
/// selected: a named flow or a list of named flows resolve against the
/// gateway's outputs, an empty selection falls back to the default flow.
pub fn inclusive_targets(process: &ProcessData, gidx: usize, with: With) -> (r: Result<
    Vec<usize>,
    Error,
>)
    requires
        gidx < process.data@.len(),
        process.data@[gidx as int] matches Bpmn::Gateway(_),
    ensures
        inclusive_selection_ok(*process, gidx, with, r),
{
    let g = match process.get(gidx) {
        Some(Bpmn::Gateway(g)) => g,
        _ => {
            return Err(Error::MissingBpmnData("not a gateway".to_owned()));
        }
    };
    proof {
        assert(*g == gateway_at(*process, gidx));
    }
    match with {
        With::Default => default_flow_of(g),
        With::Flow(v) => match process.find_by_name_or_id(v.as_str(), &g.outputs) {
            Some(x) => {
                let mut out: Vec<usize> = Vec::new();
                out.push(x);
                Ok(out)
            }
            None => Err(Error::MissingOutput(key_of(&g.name, &g.id).to_owned())),
        },
        With::Fork(vs) => {
            if vs.len() == 0 {
                default_flow_of(g)
            } else {
                let mut out: Vec<usize> = Vec::new();
                let mut j: usize = 0;
                #[verifier::loop_isolation(false)]
                while j < vs.len()
                    invariant
                        j <= vs@.len(),
                        out@.no_duplicates(),
                        forall|m: int|
                            0 <= m < j ==> find_flow_from(
                                process.data@,
                                gateway_at(*process, gidx).outputs.local_ids@,
                                (#[trigger] vs@[m])@,
                                0,
                            ) is Some,
                        forall|x: usize|
                            #[trigger] out@.contains(x) <==> exists|m: int|
                                0 <= m < j && find_flow_from(
                                    process.data@,
                                    gateway_at(*process, gidx).outputs.local_ids@,
                                    (#[trigger] vs@[m])@,
                                    0,
                                ) == Some(x),
                    decreases vs@.len() - j,
                {
                    let ghost out0 = out@;
                    match process.find_by_name_or_id(vs[j].as_str(), &g.outputs) {
                        Some(x) => {
                            if !contains_usize(&out, x) {
                                out.push(x);
                                proof {
                                    assert forall|y: usize| #[trigger]
                                        out@.contains(y) implies out0.contains(y) || y == x by {
                                        let w = choose|w: int|
                                            0 <= w < out@.len() && out@[w] == y;
                                        if w < out0.len() {
                                            assert(out0[w] == y);
                                        }
                                    }
                                    assert forall|y: usize|
                                        out0.contains(y) || y == x implies #[trigger] out@.contains(
                                        y,
                                    ) by {
                                        if out0.contains(y) {
                                            let w = choose|w: int|
                                                0 <= w < out0.len() && out0[w] == y;
                                            assert(out@[w] == y);
                                        } else {
                                            assert(out@[out0.len() as int] == x);
                                        }
                                    }
                                    assert(out@.no_duplicates()) by {
                                        assert forall|p: int, q: int|
                                            0 <= p < q < out@.len() implies out@[p] != out@[q] by {
                                            if q < out0.len() {
                                                assert(out0[p] == out@[p] && out0[q] == out@[q]);
                                            } else {
                                                assert(out@[q] == x);
                                                assert(out0[p] == out@[p]);
                                                assert(!out0.contains(x));
                                                assert(out0.contains(out0[p]));
                                            }
                                        }
                                    }
                                }
                            }
                        }
                        None => {
                            return Err(Error::MissingOutput(key_of(&g.name, &g.id).to_owned()));
                        }
                    }
                    j = j + 1;
                }
                Ok(out)
            }
        }
    }
}

/// The default flow of a gateway as a single-token frontier, or
/// `MissingDefault`.
fn default_flow_of(g: &Gateway) -> (r: Result<Vec<usize>, Error>)
    ensures
        inclusive_default_ok(*g, r),
{
    match g.default_path() {
        Ok(d) => {
            let mut out: Vec<usize> = Vec::new();
            out.push(d);
            Ok(out)
        }
        Err(e) => Err(e),
    }
}

/// Whether `x` occurs in `v`.
fn contains_usize(v: &Vec<usize>, x: usize) -> (r: bool)
    ensures
        r == v@.contains(x),
{
    let mut k: usize = 0;
    while k < v.len()
        invariant
            k <= v@.len(),
            forall|m: int| 0 <= m < k ==> v@[m] != x,
        decreases v@.len() - k,
    {
        if v[k] == x {
            return true;
        }
        k = k + 1;
    }
    false
}

/// The resolved output indices of a node, as a fresh frontier.
fn copy_ids(outputs: &Outputs) -> (r: Vec<usize>)
    ensures
        r@ == outputs.local_ids@,
{
    let mut out: Vec<usize> = Vec::new();
    let mut k: usize = 0;
    while k < outputs.local_ids.len()
        invariant
            k <= outputs.local_ids@.len(),
            out@ == outputs.local_ids@.take(k as int),
        decreases outputs.local_ids@.len() - k,
    {
        out.push(outputs.local_ids[k]);
        proof {
            assert(out@ =~= outputs.local_ids@.take(k + 1));
        }
        k = k + 1;
    }
    proof {
        assert(outputs.local_ids@.take(outputs.local_ids@.len() as int) =~= outputs.local_ids@);
    }
    out
}

/// Where a token goes next along a node's outputs.
enum Step {
    /// Exactly one output: continue there.
    Goto(usize),
    /// Several outputs: fork.
    Emit(Return),
}

/// Advance along a node's outputs: one output continues the token, several
/// fork, none is `MissingOutput`.
fn take_outputs(outputs: &Outputs, who: &str) -> (r: Result<Step, Error>)
    ensures
        match r {
            Ok(s) => match s {
                Step::Goto(x) => outputs.local_ids@.len() == 1 && x == outputs.local_ids@[0],
                Step::Emit(ret) => outputs.local_ids@.len() > 1 && (ret matches Return::Fork(v)
                    && v@ == outputs.local_ids@),
            },
            Err(e) => outputs.local_ids@.len() == 0 && e matches Error::MissingOutput(_),
        },
{
    let n = outputs.len();
    if n == 0 {
        Err(Error::MissingOutput(who.to_owned()))
    } else if n == 1 {
        match outputs.first() {
            Some(x) => Ok(Step::Goto(x)),
            None => Err(Error::MissingOutput(who.to_owned())),
        }
    } else {
        Ok(Step::Emit(Return::Fork(copy_ids(outputs))))
    }
}

/// A BPMN process: parsed from diagram text into an index-addressable
/// model, handlers bound by name or id, then run by propagating tokens.
#[derive(Debug)]
pub struct Process<S> {
    diagram: Diagram,
    handler: Handler,
    marker: PhantomData<S>,
}

impl<S> Process<S> {
    /// Every block keeps its parallel arrays in step, and every
    /// sub-process reference descends to an earlier block.
    #[verifier::type_invariant]
    spec fn inv(self) -> bool {
        diagram_wf(self.diagram) && diagram_nested_wf(self.diagram)
    }

    /// The process blocks of the parsed diagram.
    pub closed spec fn blocks(&self) -> Seq<ProcessData> {
        self.diagram.data@
    }

    /// The handler registrations made so far; consumed by `build`.
    pub closed spec fn registrations(&self) -> Option<Seq<(HandlerType, String, usize)>> {
        match self.handler.handler_map {
            Some(m) => Some(m.entries@),
            None => None,
        }
    }
}

impl Process<Build> {
    /// Build a process from a stream of diagram element events: the blocks
    /// are what folding the builder steps over the events leaves behind,
    /// with no handlers registered yet; an error is the first failing step.
    pub fn from_events(events: Vec<crate::events::XmlEvent>) -> (r: Result<Process<Build>, Error>)
        ensures
            r matches Ok(p) ==> (p.registrations() matches Some(e) && e.len() == 0)
                && crate::events::built_from(events@, p.blocks()),
            r matches Err(e) ==> crate::events::build_failed(events@, e),
    {
        let diagram = crate::events::build_diagram(events)?;
        Ok(Process { diagram, handler: Handler::new(), marker: PhantomData })
    }

    /// Build a process from BPMN XML text: the text alone decides the
    /// element events (`xml_tokens_of`), and the blocks are what folding
    /// the builder steps over those events leaves behind. An error is the
    /// text's read error, or the first failing build step.
    pub fn from_str(s: &str) -> (r: Result<Process<Build>, Error>)
        ensures
            r matches Ok(p) ==> (p.registrations() matches Some(e) && e.len() == 0) && (
            crate::xml::xml_tokens_of(s@) matches Ok(w) && crate::events::built_from(
                w,
                p.blocks(),
            )),
            r matches Err(e) ==> (crate::xml::xml_tokens_of(s@) matches Err(m) && (e
                matches Error::File(msg) && msg@ == m)) || (crate::xml::xml_tokens_of(s@)
                matches Ok(w) && crate::events::build_failed(w, e)),
    {
        let events = crate::xml::parse_events(s)?;
        Process::from_events(events)
    }

    /// Register a task handler key under this name or id.
    pub fn task(self, name: &str) -> (r: Process<Build>)
        ensures
            registered(&self, &r, HandlerType::Task, name@),
    {
        self.register(HandlerType::Task, name)
    }

    /// Register an exclusive gateway handler key under this name or id.
    pub fn exclusive(self, name: &str) -> (r: Process<Build>)
        ensures
            registered(&self, &r, HandlerType::Exclusive, name@),
    {
        self.register(HandlerType::Exclusive, name)
    }

    /// Register an inclusive gateway handler key under this name or id.
    pub fn inclusive(self, name: &str) -> (r: Process<Build>)
        ensures
            registered(&self, &r, HandlerType::Inclusive, name@),
    {
        self.register(HandlerType::Inclusive, name)
    }

    /// Register an event-based gateway handler key under this name or id.
    pub fn event_based(self, name: &str) -> (r: Process<Build>)
        ensures
            registered(&self, &r, HandlerType::EventBased, name@),
    {
        self.register(HandlerType::EventBased, name)
    }

    fn register(self, handler_type: HandlerType, name: &str) -> (r: Process<Build>)
        ensures
            registered(&self, &r, handler_type, name@),
    {
        proof {
            use_type_invariant(&self);
        }
        let ghost hm0 = self.handler.handler_map;
        let Process { diagram, mut handler, marker: _ } = self;
        handler.add_callback(handler_type, name.to_owned());
        proof {
            match hm0 {
                Some(m) => {
                    assert(handler.handler_map matches Some(m2) && m2.entries@.drop_last()
                        =~= m.entries@);
                }
                None => {}
            }
        }
        Process { diagram, handler, marker: PhantomData }
    }

    /// Bind every registered handler into the diagram and check that every
    /// task and every deciding gateway got one; the unbound ones are
    /// reported in `MissingImplementations`.
    pub fn build(self) -> (r: Result<Process<Run>, Error>)
        ensures
            match r {
                Ok(p) => {
                    &&& p.blocks().len() == self.blocks().len()
                    &&& self.registrations() matches Some(hm) && (forall|q: int, i: int|
                        0 <= q < self.blocks().len() && 0 <= i < self.blocks()[q].data@.len()
                            ==> install_rel(
                            self.blocks()[q].data@[i],
                            #[trigger] p.blocks()[q].data@[i],
                            hm,
                        ))
                    &&& forall|q: int, i: int|
                        0 <= q < p.blocks().len() && 0 <= i < p.blocks()[q].data@.len()
                            ==> installed_ok(#[trigger] p.blocks()[q].data@[i])
                },
                Err(e) => build_error_ok(self.blocks(), self.registrations(), e),
            },
    {
        proof {
            use_type_invariant(&self);
        }
        let ghost orig_blocks = self.diagram.data@;
        let Process { diagram, mut handler, marker: _ } = self;
        let mut diagram = diagram;
        let map = match handler.build() {
            Ok(m) => m,
            Err(e) => {
                return Err(e);
            }
        };
        let missing = diagram.install_and_check(map);
        if missing.len() == 0 {
            proof {
                assert forall|q: int|
                    0 <= q < diagram.data@.len() implies (#[trigger] diagram.data@[q]).wf() && (
                forall|i: int|
                    0 <= i < diagram.data@[q].data@.len() ==> nested_below(
                        #[trigger] diagram.data@[q].data@[i],
                        q,
                    )) by {
                    assert forall|i: int|
                        0 <= i < diagram.data@[q].data@.len() implies node_wf(
                        #[trigger] diagram.data@[q].data@[i],
                    ) && nested_below(diagram.data@[q].data@[i], q) by {
                        assert(install_rel(
                            orig_blocks[q].data@[i],
                            diagram.data@[q].data@[i],
                            map.entries@,
                        ));
                        assert(node_wf(orig_blocks[q].data@[i]));
                        assert(nested_below(orig_blocks[q].data@[i], q));
                    }
                }
            }
            Ok(Process { diagram, handler, marker: PhantomData })
        } else {
            Err(Error::MissingImplementations(missing))
        }
    }
}


/// Every node that must have a handler binds one under the registrations.
pub open spec fn all_bound(blocks: Seq<ProcessData>, hm: Seq<(HandlerType, String, usize)>) -> bool {
    forall|q: int, i: int|
        0 <= q < blocks.len() && 0 <= i < blocks[q].data@.len() && needs_handler(
            #[trigger] blocks[q].data@[i],
        ) ==> binds(blocks[q].data@[i], hm) is Some
}

/// How a build fails: `MissingImplementations` carries a faithful report of
/// the unbound required nodes, and a consumed registration table is the
/// only other failure.
pub open spec fn build_error_ok(
    blocks: Seq<ProcessData>,
    regs: Option<Seq<(HandlerType, String, usize)>>,
    e: Error,
) -> bool {
    ||| (e matches Error::MissingImplementations(ms) && (regs matches Some(hm) && !all_bound(
        blocks,
        hm,
    ) && missing_report_ok(blocks, hm, ms@)))
    ||| ((e matches Error::Builder(_)) && regs is None)
}

/// `after` is `before` with one more handler key registered under the given
/// kind and name.
pub open spec fn registered(
    before: &Process<Build>,
    after: &Process<Build>,
    ht: HandlerType,
    name: Seq<char>,
) -> bool {
    &&& after.blocks() == before.blocks()
    &&& match before.registrations() {
        Some(e1) => after.registrations() matches Some(e2) && e2.len() == e1.len() + 1
            && e2.drop_last() == e1 && e2.last().0 == ht && e2.last().1@ == name,
        None => after.registrations() is None,
    }
}


/// The node at `t` lets a token walk on in a straight line: a sequence
/// flow, a single-output event, a resolvable link throw, a bound task or
/// sub-process, a pass-through or handler-decided selective gateway.
spec fn token_steps_on(pd: ProcessData, t: usize) -> bool {
    &&& t < pd.data@.len()
    &&& match pd.data@[t as int] {
        Bpmn::SequenceFlow { .. } => true,
        Bpmn::Event(ev) => event_steps_on(pd, ev),
        Bpmn::Activity(a) => match a.activity_type {
            ActivityType::SubProcess { data_index } => data_index is Some,
            _ => a.func_idx is Some,
        },
        Bpmn::Gateway(g) => gateway_steps_on(g),
        _ => false,
    }
}

/// An event node a token can walk past: a single-output start, catch or
/// boundary event, or a named throw event whose continuation resolves.
spec fn event_steps_on(pd: ProcessData, ev: Event) -> bool {
    match ev.event_type {
        EventType::End => false,
        EventType::Start | EventType::IntermediateCatch | EventType::Boundary => {
            ev.outputs.local_ids@.len() == 1
        },
        EventType::IntermediateThrow => match (ev.name, ev.symbol) {
            (Some(n), Some(Symbol::Link)) => crate::diagram::table_lookup(
                pd.catch_event_links@,
                n@,
            ) is Some,
            (Some(_), _) => ev.outputs.local_ids@.len() == 1,
            _ => false,
        },
    }
}

/// A gateway a token can walk past: a one-in-one-out pass-through, or an
/// exclusive or event-based gateway whose handler is bound.
spec fn gateway_steps_on(g: Gateway) -> bool {
    let n = g.outputs.local_ids@.len();
    ||| (n == 1 && g.inputs == 1)
    ||| (g.gateway_type is Exclusive && n >= 1 && (n == 1 || g.func_idx is Some))
    ||| (g.gateway_type is EventBased && n > 1 && g.func_idx is Some)
}

/// What `flow` owes for the node its token stands on, before any handler
/// decides: an end event returns itself, a waiting join returns itself, a
/// fan-out returns the node's outputs, and each structural defect reports
/// its own error.
spec fn token_obligations(pd: ProcessData, t: usize, r: Result<Return, Error>) -> bool {
    &&& (t >= pd.data@.len() ==> r matches Err(Error::MissingBpmnData(_)))
    &&& (t < pd.data@.len() ==> match pd.data@[t as int] {
        Bpmn::Event(ev) => event_obligations(pd, ev, t, r),
        Bpmn::Activity(a) => match a.activity_type {
            ActivityType::SubProcess { data_index } => data_index is None ==> r matches Err(
                Error::MissingProcessData(_),
            ),
            _ => a.func_idx is None ==> r matches Err(Error::MissingImplementation(_)),
        },
        Bpmn::Gateway(g) => gateway_obligations(g, t, r),
        Bpmn::SequenceFlow { .. } => true,
        _ => r matches Err(Error::TypeNotImplemented(_)),
    })
}

/// A token on an event: an end event is returned as it stands; a fan-out
/// returns the event's outputs; no output is `MissingOutput`; a nameless
/// throw and an unresolvable link report their own errors.
spec fn event_obligations(pd: ProcessData, ev: Event, t: usize, r: Result<Return, Error>) -> bool {
    match ev.event_type {
        EventType::End => r == Ok::<Return, Error>(Return::End(t)),
        EventType::Start | EventType::IntermediateCatch | EventType::Boundary => outputs_obligations(
            ev.outputs,
            r,
        ),
        EventType::IntermediateThrow => {
            &&& (ev.name is None ==> r matches Err(Error::MissingIntermediateThrowEventName(_)))
            &&& (match (ev.name, ev.symbol) {
                (Some(n), Some(Symbol::Link)) => crate::diagram::table_lookup(
                    pd.catch_event_links@,
                    n@,
                ) is None ==> r matches Err(Error::MissingIntermediateCatchEvent(_, _)),
                (Some(_), _) => outputs_obligations(ev.outputs, r),
                _ => true,
            })
        },
    }
}

/// Following a node's outputs: none is `MissingOutput`, several fork into
/// exactly those outputs.
spec fn outputs_obligations(o: Outputs, r: Result<Return, Error>) -> bool {
    &&& (o.local_ids@.len() == 0 ==> r matches Err(Error::MissingOutput(_)))
    &&& (o.local_ids@.len() > 1 ==> (r matches Ok(ret) && (ret matches Return::Fork(v) && v@
        == o.local_ids@)))
}

/// A token on a gateway: no output is `MissingOutput`; past the one-in-
/// one-out pass-through, a multi-input parallel or inclusive gateway waits
/// as a join, a parallel fork returns all outputs, a one-output event
/// gateway violates the standard, and an unbound deciding gateway is
/// `MissingImplementation`.
spec fn gateway_obligations(g: Gateway, t: usize, r: Result<Return, Error>) -> bool {
    let n = g.outputs.local_ids@.len();
    let m = g.inputs;
    &&& (n == 0 ==> r matches Err(Error::MissingOutput(_)))
    &&& (n > 0 && !(n == 1 && m == 1) ==> match g.gateway_type {
        GatewayType::Parallel => if m > 1 {
            r == Ok::<Return, Error>(Return::Join(t))
        } else {
            r matches Ok(ret) && (ret matches Return::Fork(v) && v@ == g.outputs.local_ids@)
        },
        GatewayType::Inclusive => m > 1 ==> r == Ok::<Return, Error>(Return::Join(t)),
        GatewayType::EventBased => {
            &&& (n == 1 ==> (r matches Err(e2) && (e2 matches Error::BpmnRequirement(m) && m@
                == "Event gateway must have at least two outgoing sequence flows"@)))
            &&& (n > 1 && g.func_idx is None ==> r matches Err(Error::MissingImplementation(_)))
        },
        GatewayType::Exclusive => (n > 1 && g.func_idx is None) ==> r matches Err(
            Error::MissingImplementation(_),
        ),
        GatewayType::Complex => r matches Err(Error::TypeNotImplemented(_)),
    })
}


/// Where a token that walks on may continue: each node kind admits only
/// the continuations its own routing computes. A sequence flow goes to its
/// target, a single-output node to that output, a link throw to the named
/// catch event; a task may also enter one of its boundary events, a
/// sub-process one matching an interrupting symbol; an exclusive gateway
/// enters a selected or default flow, an event-based gateway a matched
/// event target.
spec fn goto_target_ok(pd: ProcessData, c: usize, x: usize) -> bool {
    &&& c < pd.data@.len()
    &&& match pd.data@[c as int] {
        Bpmn::SequenceFlow { target_ref, .. } => x == target_ref.local_id,
        Bpmn::Event(ev) => match ev.event_type {
            EventType::End => false,
            EventType::Start | EventType::IntermediateCatch | EventType::Boundary => sole_output(
                ev.outputs,
                x,
            ),
            EventType::IntermediateThrow => match (ev.name, ev.symbol) {
                (Some(n), Some(Symbol::Link)) => crate::diagram::table_lookup(
                    pd.catch_event_links@,
                    n@,
                ) == Some(x),
                (Some(_), _) => sole_output(ev.outputs, x),
                _ => false,
            },
        },
        Bpmn::Activity(a) => match a.activity_type {
            ActivityType::SubProcess { .. } => sole_output(a.outputs, x) || some_boundary(
                pd,
                a.id.local_id,
                x,
                true,
            ),
            _ => sole_output(a.outputs, x) || some_boundary(pd, a.id.local_id, x, false),
        },
        Bpmn::Gateway(g) => {
            let n = g.outputs.local_ids@.len();
            ||| (n == 1 && g.inputs == 1 && x == g.outputs.local_ids@[0])
            ||| (g.gateway_type is Exclusive && ((n == 1 && x == g.outputs.local_ids@[0]) || (n > 1
                && ((exists|v: Seq<char>|
                #[trigger] find_flow_from(pd.data@, g.outputs.local_ids@, v, 0) == Some(x)) || (
            g.default matches Some(d) && x == d.local_id)))))
            ||| (g.gateway_type is EventBased && n > 1 && (exists|nm: Seq<char>, sym: Symbol|
                #[trigger] crate::diagram::find_ie_from(
                    pd.data@,
                    g.outputs.local_ids@,
                    nm,
                    sym,
                    0,
                ) == Some(x)))
        },
        _ => false,
    }
}

/// The node's one output is `x`.
pub open spec fn sole_output(o: Outputs, x: usize) -> bool {
    o.local_ids@.len() == 1 && x == o.local_ids@[0]
}

/// `x` is a boundary event found attached to activity `a` for some
/// searched name and symbol; a sub-process reaches one only through an
/// interrupting symbol.
spec fn some_boundary(pd: ProcessData, a: usize, x: usize, must_interrupt: bool) -> bool {
    exists|nm: Option<Seq<char>>, sym: Symbol|
        (must_interrupt ==> interrupting(sym)) && #[trigger] crate::diagram::find_boundary_from(
            pd.boundaries@,
            pd.data@,
            a,
            nm,
            sym,
            0,
        ) == Some(x)
}

/// The walk is a function of the diagram wherever no handler and no
/// sub-process run decides: on such nodes the step's whole outcome is
/// pinned, and a task or sub-process can only fork into its own outputs.
spec fn step_determined(pd: ProcessData, c: usize, r: Result<Step, Error>) -> bool {
    c < pd.data@.len() ==> match pd.data@[c as int] {
        Bpmn::SequenceFlow { target_ref, .. } => r == Ok::<Step, Error>(
            Step::Goto(target_ref.local_id),
        ),
        Bpmn::Event(ev) => match ev.event_type {
            EventType::End => true,
            EventType::Start | EventType::IntermediateCatch | EventType::Boundary => {
                ev.outputs.local_ids@.len() == 1 ==> r == Ok::<Step, Error>(
                    Step::Goto(ev.outputs.local_ids@[0]),
                )
            },
            EventType::IntermediateThrow => match (ev.name, ev.symbol) {
                (Some(n), Some(Symbol::Link)) => (crate::diagram::table_lookup(
                    pd.catch_event_links@,
                    n@,
                ) matches Some(v) ==> r == Ok::<Step, Error>(Step::Goto(v))),
                (Some(_), _) => ev.outputs.local_ids@.len() == 1 ==> r == Ok::<Step, Error>(
                    Step::Goto(ev.outputs.local_ids@[0]),
                ),
                _ => true,
            },
        },
        Bpmn::Activity(a) => match r {
            Ok(Step::Emit(ret)) => ret matches Return::Fork(v) && v@ == a.outputs.local_ids@
                && a.outputs.local_ids@.len() > 1,
            _ => true,
        },
        Bpmn::Gateway(g) => {
            let n = g.outputs.local_ids@.len();
            &&& (n == 1 && g.inputs == 1 ==> r == Ok::<Step, Error>(
                Step::Goto(g.outputs.local_ids@[0]),
            ))
            &&& (g.gateway_type is Exclusive && n == 1 && g.inputs != 1 ==> r == Ok::<Step, Error>(
                Step::Goto(g.outputs.local_ids@[0]),
            ))
        },
        _ => true,
    }
}


/// One deterministic walking step that no handler and no sub-process run
/// decides: a sequence flow to its target, a single-output event onward, a
/// resolvable link jump, or a one-in-one-out gateway pass-through.
pub open spec fn structural_step(pd: ProcessData, a: usize, b: usize) -> bool {
    &&& a < pd.data@.len()
    &&& match pd.data@[a as int] {
        Bpmn::SequenceFlow { target_ref, .. } => b == target_ref.local_id,
        Bpmn::Event(ev) => match ev.event_type {
            EventType::End => false,
            EventType::Start | EventType::IntermediateCatch | EventType::Boundary => sole_output(
                ev.outputs,
                b,
            ),
            EventType::IntermediateThrow => match (ev.name, ev.symbol) {
                (Some(n), Some(Symbol::Link)) => crate::diagram::table_lookup(
                    pd.catch_event_links@,
                    n@,
                ) == Some(b),
                (Some(_), _) => sole_output(ev.outputs, b),
                _ => false,
            },
        },
        Bpmn::Gateway(g) => g.outputs.local_ids@.len() == 1 && g.inputs == 1 && b
            == g.outputs.local_ids@[0],
        _ => false,
    }
}

/// A straight structural walk through the block, ending at an end event:
/// on such a path nothing is left to any handler.
pub open spec fn structural_path(pd: ProcessData, path: Seq<usize>) -> bool {
    &&& 1 <= path.len() <= usize::MAX
    &&& forall|k: int| 0 <= k < path.len() - 1 ==> structural_step(pd, path[k], #[trigger] path[k + 1])
    &&& end_event_at(pd, path.last())
}

/// A structural walk that begins at the block's start event.
pub open spec fn structural_start_path(pd: ProcessData, path: Seq<usize>) -> bool {
    &&& pd.start matches Some(st) && path[0] == st
    &&& structural_path(pd, path)
}


/// The engine state just after seeding, while the one structural token is
/// still to run: one ready frontier holding the start token, nothing else.
spec fn walk_seeded(h: ExecuteHandler, last_end: Option<usize>, path: Seq<usize>) -> bool {
    &&& h.tokens_ready@.len() == 1
    &&& h.tokens_ready@[0]@ == seq![path[0]]
    &&& h.uncommitted@.len() == 0
    &&& h.token_stack@.len() == 0
    &&& last_end is None
}

/// The engine state after the structural token reached the path's end
/// event: everything drained, the end recorded.
spec fn walk_done(h: ExecuteHandler, last_end: Option<usize>, path: Seq<usize>) -> bool {
    &&& h.tokens_ready@.len() == 0
    &&& h.uncommitted@.len() == 0
    &&& h.token_stack@.len() == 0
    &&& last_end == Some(path.last())
}

/// A node a token can walk past imposes no obligation on the final result:
/// every demand of `token_obligations` concerns a node the walk stops at.
proof fn lemma_steps_on_vacuous(pd: ProcessData, t: usize)
    requires
        token_steps_on(pd, t),
    ensures
        forall|r: Result<Return, Error>| #[trigger] token_obligations(pd, t, r),
{
}


/// The data block indices of the processes the definitions block lists, in
/// declaration order.
pub open spec fn listed_processes(nodes: Seq<Bpmn>) -> Seq<usize>
    decreases nodes.len(),
{
    if nodes.len() == 0 {
        Seq::empty()
    } else {
        listed_processes(nodes.drop_last()) + (match nodes.last() {
            Bpmn::Process { data_index: Some(d), .. } => seq![d],
            _ => Seq::empty(),
        })
    }
}


/// A process node with a data index contributes that index to the listed
/// processes.
proof fn lemma_listed_member(nodes: Seq<Bpmn>, i: int)
    requires
        0 <= i < nodes.len(),
        nodes[i] matches Bpmn::Process { data_index: Some(_), .. },
    ensures
        exists|j: int|
            0 <= j < listed_processes(nodes).len() && #[trigger] listed_processes(nodes)[j]
                == nodes[i]->Process_data_index.unwrap(),
    decreases nodes.len(),
{
    if i < nodes.len() - 1 {
        lemma_listed_member(nodes.drop_last(), i);
        let j = choose|j: int|
            0 <= j < listed_processes(nodes.drop_last()).len() && #[trigger] listed_processes(
                nodes.drop_last(),
            )[j] == nodes[i]->Process_data_index.unwrap();
        assert(listed_processes(nodes)[j] == listed_processes(nodes.drop_last())[j]);
    } else {
        assert(listed_processes(nodes).last() == nodes[i]->Process_data_index.unwrap());
    }
}

/// `en` reports an end event of this block: same id, same name, and its
/// symbol (or `Blank` where the event carries none).
pub open spec fn end_node_in_block(pd: ProcessData, en: EndNode) -> bool {
    exists|i: int|
        0 <= i < pd.data@.len() && (#[trigger] pd.data@[i] matches Bpmn::Event(ev)
            && ev.event_type is End && en.id@ == ev.id.bpmn_id@ && (match (en.name, ev.name) {
            (Some(a), Some(b)) => a@ == b@,
            (None, None) => true,
            _ => false,
        }) && en.symbol == (match ev.symbol {
            Some(s) => s,
            None => Symbol::Blank,
        }))
}

/// A block list that holds a process node with a data index lists at least
/// one process.
proof fn lemma_listed_nonempty(nodes: Seq<Bpmn>, j: int)
    requires
        0 <= j < nodes.len(),
        nodes[j] matches Bpmn::Process { data_index: Some(_), .. },
    ensures
        listed_processes(nodes).len() > 0,
    decreases nodes.len(),
{
    if j < nodes.len() - 1 {
        lemma_listed_nonempty(nodes.drop_last(), j);
    }
}

impl Process<Run> {
    /// Run every top level process of the diagram on `data`, driving the
    /// registered callbacks, and report the end node that terminated the
    /// last listed process. An empty diagram is `MissingDefinitionsId`; a
    /// definitions block that lists no process succeeds at once with the
    /// data untouched and an empty end node.
    pub fn run<T, C: Callbacks<T>>(&self, data: T, callbacks: &C) -> (r: Result<
        ProcessOutput<T>,
        Error,
    >)
        ensures
            self.blocks().len() == 0 ==> r matches Err(Error::MissingDefinitionsId),
            (self.blocks().len() > 0 && listed_processes(self.blocks().last().data@).len() == 0)
                ==> (r matches Ok(out) && out.end_node.id@ == Seq::<char>::empty()
                && out.end_node.name is None && out.end_node.symbol is Blank && out.data == data),
            r matches Ok(out) ==> ({
                let lp = listed_processes(self.blocks().last().data@);
                lp.len() > 0 ==> lp.last() < self.blocks().len() && end_node_in_block(
                    self.blocks()[lp.last() as int],
                    out.end_node,
                )
            }),
            (self.blocks().len() > 0 && (forall|j: int|
                #![trigger listed_processes(self.blocks().last().data@)[j]]
                0 <= j < listed_processes(self.blocks().last().data@).len() ==> (
                listed_processes(self.blocks().last().data@)[j] < self.blocks().len() && exists|
                    path: Seq<usize>,
                |
                    structural_start_path(
                        self.blocks()[listed_processes(self.blocks().last().data@)[j] as int],
                        path,
                    )))) ==> r is Ok,
    {
        proof {
            use_type_invariant(&*self);
        }
        let ghost data0 = data;
        let mut data = data;
        let def = match self.diagram.get_definition() {
            Some(p) => p,
            None => {
                return Err(Error::MissingDefinitionsId);
            }
        };
        let nodes = def.iter();
        let mut end_id = String::new();
        let mut end_name: Option<String> = None;
        let mut end_symbol = Symbol::Blank;
        let mut i: usize = 0;
        proof {
            assert(listed_processes(nodes@.take(0)) =~= Seq::<usize>::empty());
        }
        #[verifier::loop_isolation(false)]
        while i < nodes.len()
            invariant
                i <= nodes@.len(),
                ({
                    let lp = listed_processes(nodes@.take(i as int));
                    if lp.len() == 0 {
                        end_id@ == Seq::<char>::empty() && end_name is None && end_symbol
                            is Blank && data == data0
                    } else {
                        lp.last() < self.blocks().len() && end_node_in_block(
                            self.blocks()[lp.last() as int],
                            EndNode { id: end_id, name: end_name, symbol: end_symbol },
                        )
                    }
                }),
            decreases nodes@.len() - i,
        {
            proof {
                assert(nodes@.take(i + 1).drop_last() =~= nodes@.take(i as int));
                assert(nodes@.take(i + 1).last() == nodes@[i as int]);
            }
            match &nodes[i] {
                Bpmn::Process { id: _, data_index: Some(index) } => {
                    let index = *index;
                    proof {
                        lemma_listed_nonempty(nodes@, i as int);
                        assert(nested_below(
                            self.diagram.data@[self.diagram.data@.len() - 1].data@[i as int],
                            self.diagram.data@.len() - 1,
                        ));
                        assert(listed_processes(nodes@.take(i + 1)) =~= listed_processes(
                            nodes@.take(i as int),
                        ).push(index));
                    }
                    let e = match self.execute(index, &mut data, callbacks) {
                        Ok(v) => v,
                        Err(err) => {
                            proof {
                                lemma_listed_member(nodes@, i as int);
                            }
                            return Err(err);
                        }
                    };
                    let sub = match self.diagram.get_process(index) {
                        Some(p) => p,
                        None => {
                            return Err(Error::MissingEndEvent);
                        }
                    };
                    match sub.get(e) {
                        Some(Bpmn::Event(ev)) => {
                            end_id = ev.id.bpmn_id.clone();
                            end_name = match &ev.name {
                                Some(n) => Some(n.clone()),
                                None => None,
                            };
                            end_symbol = match &ev.symbol {
                                Some(s) => *s,
                                None => Symbol::Blank,
                            };
                        }
                        _ => {
                            return Err(Error::MissingEndEvent);
                        }
                    }
                }
                _ => {
                    proof {
                        assert(listed_processes(nodes@.take(i + 1)) =~= listed_processes(
                            nodes@.take(i as int),
                        ));
                    }
                }
            }
            i = i + 1;
        }
        proof {
            assert(nodes@.take(nodes@.len() as int) =~= nodes@);
        }
        Ok(
            ProcessOutput {
                data,
                end_node: EndNode { id: end_id, name: end_name, symbol: end_symbol },
            },
        )
    }

    /// Run one process block to an end event: advance the ready frontiers
    /// round by round, keeping fork accounting, until a terminating end
    /// event fires or all tokens are consumed.
    fn execute<T, C: Callbacks<T>>(&self, pidx: usize, data: &mut T, callbacks: &C) -> (r: Result<
        usize,
        Error,
    >)
        requires
            diagram_wf(self.diagram),
            diagram_nested_wf(self.diagram),
            pidx < self.diagram.data@.len(),
        ensures
            r matches Ok(e) ==> end_event_at(self.diagram.data@[pidx as int], e),
            self.diagram.data@[pidx as int].start is None ==> r == Err::<usize, Error>(
                Error::MissingStartEvent,
            ),
            forall|path: Seq<usize>|
                structural_start_path(self.diagram.data@[pidx as int], path) ==> r == Ok::<
                    usize,
                    Error,
                >(path.last()),
        decreases pidx, 3int,
    {
        let process = match self.diagram.get_process(pidx) {
            Some(p) => p,
            None => {
                return Err(Error::MissingProcessData("no such block".to_owned()));
            }
        };
        let start = match process.start() {
            Some(s) => s,
            None => {
                return Err(Error::MissingStartEvent);
            }
        };
        let mut handler = ExecuteHandler::new(start);
        let mut last_end: Option<usize> = None;
        let mut fuel: usize = usize::MAX;
        #[verifier::loop_isolation(false)]
        loop
            invariant
                eh_wf(handler, process.data@),
                last_end matches Some(e) ==> end_event_at(*process, e),
                forall|path: Seq<usize>|
                    structural_start_path(*process, path) ==> (walk_seeded(
                        handler,
                        last_end,
                        path,
                    ) && fuel == usize::MAX) || (walk_done(handler, last_end, path) && fuel
                        >= usize::MAX - 1),
            decreases fuel,
        {
            if fuel == 0 {
                proof {
                    assert forall|path: Seq<usize>|
                        structural_start_path(*process, path) implies false by {}
                }
                return Err(Error::Builder("the engine's step budget is exhausted".to_owned()));
            }
            fuel = fuel - 1;
            let ghost fuel0 = fuel + 1;
            let active = handler.active_tokens();
            if active.len() == 0 {
                return match last_end {
                    Some(e) => Ok(e),
                    None => Err(Error::MissingEndEvent),
                };
            }
            let mut fi = active.len();
            #[verifier::loop_isolation(false)]
            while fi > 0
                invariant
                    fi <= active@.len(),
                    eh_wf(handler, process.data@),
                    last_end matches Some(e) ==> end_event_at(*process, e),
                    forall|path: Seq<usize>|
                        structural_start_path(*process, path) ==> (fi == 1 && active@.len() == 1
                            && active@[0]@ == seq![path[0]] && handler.tokens_ready@.len() == 0
                            && handler.uncommitted@.len() == 0 && handler.token_stack@.len() == 0
                            && last_end is None) || (fi == 0 && walk_done(
                            handler,
                            last_end,
                            path,
                        )),
                decreases fi,
            {
                fi = fi - 1;
                let frontier = &active[fi];
                let mut ti: usize = 0;
                #[verifier::loop_isolation(false)]
                while ti < frontier.len()
                    invariant
                        ti <= frontier@.len(),
                        eh_wf(handler, process.data@),
                        last_end matches Some(e) ==> end_event_at(*process, e),
                        forall|path: Seq<usize>|
                            structural_start_path(*process, path) ==> (ti == 0 && frontier@
                                == seq![path[0]] && handler.tokens_ready@.len() == 0
                                && handler.uncommitted@.len() == 0 && handler.token_stack@.len()
                                == 0 && last_end is None) || (ti == 1 && walk_done(
                                handler,
                                last_end,
                                path,
                            )),
                    decreases frontier@.len() - ti,
                {
                    let token = frontier[ti];
                    let ghost h0 = handler;
                    match self.flow(pidx, token, data, callbacks)? {
                        Return::Join(g) => {
                            handler.consume_token(Some(g));
                            proof {
                                lemma_consume_keeps_wf(h0, handler, process.data@, Some(g));
                            }
                        }
                        Return::End(e) => {
                            match process.get(e) {
                                Some(Bpmn::Event(ev)) => {
                                    if is_terminating_end(&ev.symbol) {
                                        return Ok(e);
                                    }
                                }
                                _ => {}
                            }
                            last_end = Some(e);
                            handler.consume_token(None);
                            proof {
                                lemma_consume_keeps_wf(h0, handler, process.data@, None);
                            }
                        }
                        Return::Fork(item) => {
                            handler.pending_fork(item);
                        }
                    }
                    ti = ti + 1;
                }
                let ghost h1 = handler;
                match handler.tokens_consumed(process)? {
                    Some(gid) => {
                        proof {
                            assert(is_join_gateway(process.data@, gid)) by {
                                assert(h1.token_stack@.last().joined@.len() > 0);
                                assert(h1.token_stack@[h1.token_stack@.len() - 1].joined@[0]
                                    == gid);
                            }
                        }
                        match process.get(gid) {
                            Some(Bpmn::Gateway(g)) => {
                                if g.outputs.len() == 1 {
                                    handler.immediate(copy_ids(&g.outputs));
                                } else {
                                    match g.gateway_type {
                                        GatewayType::Parallel => {
                                            handler.pending_fork(copy_ids(&g.outputs));
                                        }
                                        GatewayType::Inclusive => {
                                            let targets = self.handle_inclusive_gateway(
                                                pidx,
                                                gid,
                                                data,
                                                callbacks,
                                            )?;
                                            handler.pending_fork(targets);
                                        }
                                        _ => {}
                                    }
                                }
                            }
                            _ => {
                                return Err(Error::MissingBpmnData("gateway expected".to_owned()));
                            }
                        }
                    }
                    None => {}
                }
            }
            let ghost h2 = handler;
            handler.commit();
            proof {
                assert forall|m: int|
                    h2.token_stack@.len() <= m < handler.token_stack@.len() implies (
                #[trigger] handler.token_stack@[m]).joined@.len() == 0 by {
                    let mm = m - h2.token_stack@.len();
                    assert(handler.token_stack@[h2.token_stack@.len() + mm].joined@.len() == 0);
                }
                lemma_commit_keeps_wf(h2, handler, process.data@);
            }
        }
    }

    /// Advance one token through straight-line nodes until it forks, waits
    /// at a join, or reaches an end event. Beyond the shape of the result,
    /// the node the token stands on pins it: an end event returns itself, a
    /// waiting join returns itself, and each structural defect reports its
    /// own error, all before any handler decides.
    fn flow<T, C: Callbacks<T>>(
        &self,
        pidx: usize,
        token: usize,
        data: &mut T,
        callbacks: &C,
    ) -> (r: Result<Return, Error>)
        requires
            diagram_wf(self.diagram),
            diagram_nested_wf(self.diagram),
            pidx < self.diagram.data@.len(),
        ensures
            r matches Ok(ret) ==> match ret {
                Return::End(e) => end_event_at(self.diagram.data@[pidx as int], e),
                Return::Join(g) => is_join_gateway(self.diagram.data@[pidx as int].data@, g),
                Return::Fork(_) => true,
            },
            token_obligations(self.diagram.data@[pidx as int], token, r),
            forall|path: Seq<usize>|
                structural_path(self.diagram.data@[pidx as int], path) && path[0] == token
                    ==> r == Ok::<Return, Error>(Return::End(path.last())),
        decreases pidx, 2int,
    {
        let mut current = token;
        let mut fuel: usize = usize::MAX;
        let ghost mut first = true;
        #[verifier::loop_isolation(false)]
        loop
            invariant
                first ==> current == token && fuel == usize::MAX,
                !first ==> token_steps_on(self.diagram.data@[pidx as int], token),
                forall|path: Seq<usize>|
                    structural_path(self.diagram.data@[pidx as int], path) && path[0] == token
                        ==> exists|k: int|
                        0 <= k < path.len() && current == path[k] && fuel == usize::MAX - k,
            decreases fuel,
        {
            let ghost pd = self.diagram.data@[pidx as int];
            if fuel == 0 {
                proof {
                    lemma_steps_on_vacuous(pd, token);
                    assert forall|path: Seq<usize>|
                        structural_path(pd, path) && path[0] == token implies false by {
                        let k = choose|k: int|
                            0 <= k < path.len() && current == path[k] && fuel == usize::MAX - k;
                    }
                }
                return Err(Error::Builder("the engine's step budget is exhausted".to_owned()));
            }
            fuel = fuel - 1;
            let ghost fuel0 = fuel + 1;
            match self.flow_step(pidx, current, data, callbacks) {
                Ok(Step::Goto(x)) => {
                    proof {
                        first = false;
                        assert forall|path: Seq<usize>|
                            structural_path(pd, path) && path[0] == token implies exists|k: int|
                            0 <= k < path.len() && x == path[k] && fuel == usize::MAX - k by {
                            let k = choose|k: int|
                                0 <= k < path.len() && current == path[k] && fuel0 == usize::MAX
                                    - k;
                            assert(token_steps_on(pd, current));
                            assert(k < path.len() - 1) by {
                                if k == path.len() - 1 {
                                    assert(end_event_at(pd, current));
                                }
                            }
                            assert(structural_step(pd, path[k], path[k + 1]));
                            assert(x == path[k + 1]);
                            assert(0 <= k + 1 < path.len() && x == path[k + 1] && fuel
                                == usize::MAX - (k + 1));
                        }
                    }
                    current = x;
                }
                Ok(Step::Emit(ret)) => {
                    proof {
                        if !first {
                            lemma_steps_on_vacuous(pd, token);
                        }
                        assert forall|path: Seq<usize>|
                            structural_path(pd, path) && path[0] == token implies Ok::<
                            Return,
                            Error,
                        >(ret) == Ok::<Return, Error>(Return::End(path.last())) by {
                            let k = choose|k: int|
                                0 <= k < path.len() && current == path[k] && fuel0 == usize::MAX
                                    - k;
                            if k < path.len() - 1 {
                                assert(structural_step(pd, path[k], path[k + 1]));
                            } else {
                                assert(end_event_at(pd, current));
                                assert(token_obligations(pd, current, Ok(ret)));
                            }
                        }
                    }
                    return Ok(ret);
                }
                Err(e) => {
                    proof {
                        if !first {
                            lemma_steps_on_vacuous(pd, token);
                        }
                        assert forall|path: Seq<usize>|
                            structural_path(pd, path) && path[0] == token implies false by {
                            let k = choose|k: int|
                                0 <= k < path.len() && current == path[k] && fuel0 == usize::MAX
                                    - k;
                            if k < path.len() - 1 {
                                assert(structural_step(pd, path[k], path[k + 1]));
                            } else {
                                assert(end_event_at(pd, current));
                                assert(token_obligations(pd, current, Err(e)));
                            }
                        }
                    }
                    return Err(e);
                }
            }
        }
    }

    /// One step of a token: what the node at `current` does with it. A
    /// `Goto` keeps walking, an `Emit` is `flow`'s result. Every outcome on
    /// a node that no handler decides is pinned by `token_obligations`.
    fn flow_step<T, C: Callbacks<T>>(
        &self,
        pidx: usize,
        current: usize,
        data: &mut T,
        callbacks: &C,
    ) -> (r: Result<Step, Error>)
        requires
            diagram_wf(self.diagram),
            diagram_nested_wf(self.diagram),
            pidx < self.diagram.data@.len(),
        ensures
            match r {
                Ok(s) => match s {
                    Step::Goto(x) => token_steps_on(self.diagram.data@[pidx as int], current)
                        && goto_target_ok(self.diagram.data@[pidx as int], current, x),
                    Step::Emit(ret) => token_obligations(
                        self.diagram.data@[pidx as int],
                        current,
                        Ok(ret),
                    ) && (match ret {
                        Return::End(e) => end_event_at(self.diagram.data@[pidx as int], e),
                        Return::Join(g) => is_join_gateway(
                            self.diagram.data@[pidx as int].data@,
                            g,
                        ),
                        Return::Fork(_) => true,
                    }),
                },
                Err(e) => token_obligations(self.diagram.data@[pidx as int], current, Err(e)),
            },
            step_determined(self.diagram.data@[pidx as int], current, r),
        decreases pidx, 1int,
    {
        let process = match self.diagram.get_process(pidx) {
            Some(p) => p,
            None => {
                return Err(Error::MissingProcessData("no such block".to_owned()));
            }
        };
        let node = match process.get(current) {
                Some(b) => b,
                None => {
                    return Err(Error::MissingBpmnData("token left the block".to_owned()));
                }
            };
            match node {
                Bpmn::Event(ev) => {
                    match ev.event_type {
                        EventType::Start | EventType::IntermediateCatch | EventType::Boundary => {
                            take_outputs(&ev.outputs, key_of(&ev.name, &ev.id))
                        }
                        EventType::IntermediateThrow => {
                            match (&ev.name, &ev.symbol) {
                                (Some(name), Some(Symbol::Link)) => {
                                    let x = process.catch_event_link(name.as_str())?;
                                    Ok(Step::Goto(x))
                                }
                                (Some(_), _) => {
                                    take_outputs(&ev.outputs, key_of(&ev.name, &ev.id))
                                }
                                (None, _) => {
                                    return Err(
                                        Error::MissingIntermediateThrowEventName(
                                            ev.id.bpmn_id.clone(),
                                        ),
                                    );
                                }
                            }
                        }
                        EventType::End => {
                            return Ok(Step::Emit(Return::End(current)));
                        }
                    }
                }
                Bpmn::Activity(a) => {
                    match &a.activity_type {
                        ActivityType::SubProcess { data_index } => {
                            let index = match data_index {
                                Some(d) => *d,
                                None => {
                                    return Err(
                                        Error::MissingProcessData(a.id.bpmn_id.clone()),
                                    );
                                }
                            };
                            proof {
                                assert(nested_below(
                                    self.diagram.data@[pidx as int].data@[current as int],
                                    pidx as int,
                                ));
                            }
                            let end_idx = self.execute(index, data, callbacks)?;
                            let sub = match self.diagram.get_process(index) {
                                Some(p) => p,
                                None => {
                                    return Err(
                                        Error::MissingProcessData(a.id.bpmn_id.clone()),
                                    );
                                }
                            };
                            let mut routed: Option<usize> = None;
                            let mut failed = false;
                            match sub.get(end_idx) {
                                Some(Bpmn::Event(ev2)) => {
                                    match &ev2.symbol {
                                        Some(s) => {
                                            if is_interrupting(s) {
                                                let nm: Option<&str> = match &ev2.name {
                                                    Some(x) => Some(x.as_str()),
                                                    None => None,
                                                };
                                                match process.find_boundary(&a.id, nm, *s) {
                                                    Some(b) => {
                                                        routed = Some(b);
                                                    }
                                                    None => {
                                                        failed = true;
                                                    }
                                                }
                                            }
                                        }
                                        None => {}
                                    }
                                }
                                _ => {}
                            }
                            if failed {
                                return Err(
                                    Error::MissingBoundary(
                                        "interrupting end".to_owned(),
                                        key_of(&a.name, &a.id).to_owned(),
                                    ),
                                );
                            }
                            match routed {
                                Some(b) => Ok(Step::Goto(b)),
                                None => take_outputs(&a.outputs, key_of(&a.name, &a.id)),
                            }
                        }
                        _ => {
                            if a.func_idx.is_none() {
                                return Err(
                                    Error::MissingImplementation(
                                        key_of(&a.name, &a.id).to_owned(),
                                    ),
                                );
                            }
                            match callbacks.task(key_of(&a.name, &a.id), data) {
                                Ok(Some(boundary)) => {
                                    let sym = boundary.symbol();
                                    let found = match boundary.name() {
                                        Some(nm) => process.find_boundary(&a.id, Some(nm), sym),
                                        None => process.find_boundary(&a.id, None, sym),
                                    };
                                    match found {
                                        Some(b) => Ok(Step::Goto(b)),
                                        None => Err(
                                            Error::MissingBoundary(
                                                sym.text().to_owned(),
                                                key_of(&a.name, &a.id).to_owned(),
                                            ),
                                        ),
                                    }
                                }
                                Ok(None) => take_outputs(&a.outputs, key_of(&a.name, &a.id)),
                                Err(e) => Err(e),
                            }
                        }
                    }
                }
                Bpmn::Gateway(g) => {
                    let n = g.outputs.len();
                    let m = g.inputs;
                    if n == 0 {
                        return Err(Error::MissingOutput(key_of(&g.name, &g.id).to_owned()));
                    }
                    if n == 1 && m == 1 {
                        Ok(Step::Goto(g.outputs.first().unwrap()))
                    } else {
                        match g.gateway_type {
                            GatewayType::Exclusive => {
                                if n == 1 {
                                    Ok(Step::Goto(g.outputs.first().unwrap()))
                                } else {
                                    if g.func_idx.is_none() {
                                        return Err(
                                            Error::MissingImplementation(
                                                key_of(&g.name, &g.id).to_owned(),
                                            ),
                                        );
                                    }
                                    match callbacks.exclusive(key_of(&g.name, &g.id), data) {
                                        Ok(Some(v)) => {
                                            match process.find_by_name_or_id(
                                                v.as_str(),
                                                &g.outputs,
                                            ) {
                                                Some(x) => Ok(Step::Goto(x)),
                                                None => Err(
                                                    Error::MissingOutput(
                                                        key_of(&g.name, &g.id).to_owned(),
                                                    ),
                                                ),
                                            }
                                        }
                                        Ok(None) => {
                                            let x = g.default_path()?;
                                            Ok(Step::Goto(x))
                                        }
                                        Err(e) => Err(e),
                                    }
                                }
                            }
                            GatewayType::Parallel => {
                                if m > 1 {
                                    return Ok(Step::Emit(Return::Join(current)));
                                }
                                Ok(Step::Emit(Return::Fork(copy_ids(&g.outputs))))
                            }
                            GatewayType::Inclusive => {
                                if m > 1 {
                                    return Ok(Step::Emit(Return::Join(current)));
                                }
                                let targets = self.handle_inclusive_gateway(
                                    pidx,
                                    current,
                                    data,
                                    callbacks,
                                )?;
                                Ok(Step::Emit(Return::Fork(targets)))
                            }
                            GatewayType::EventBased => {
                                if n == 1 {
                                    return Err(
                                        Error::BpmnRequirement(
                                            "Event gateway must have at least two outgoing sequence flows".to_owned(),
                                        ),
                                    );
                                }
                                if g.func_idx.is_none() {
                                    return Err(
                                        Error::MissingImplementation(
                                            key_of(&g.name, &g.id).to_owned(),
                                        ),
                                    );
                                }

                                match callbacks.event_based(key_of(&g.name, &g.id), data) {
                                    Ok(ie) => {
                                        match process.find_by_intermediate_event(&ie, &g.outputs) {
                                            Some(x) => Ok(Step::Goto(x)),
                                            None => Err(
                                                Error::MissingIntermediateEvent(
                                                    key_of(&g.name, &g.id).to_owned(),
                                                    String::from_str("(").concat(
                                                        ie.0.as_str(),
                                                    ).concat(", ").concat(ie.1.text()).concat(
                                                        ")",
                                                    ),
                                                ),
                                            ),
                                        }
                                    }
                                    Err(e) => Err(e),
                                }
                            }
                            GatewayType::Complex => Err(
                                Error::TypeNotImplemented(key_of(&g.name, &g.id).to_owned()),
                            ),
                        }
                    }
                }
                Bpmn::SequenceFlow { target_ref, .. } => Ok(Step::Goto(target_ref.local_id)),
                _ => Err(Error::TypeNotImplemented("unexpected node".to_owned())),
            }
    }



    /// Decide an inclusive gateway by its handler and resolve the selected
    /// flows against its outputs.
    fn handle_inclusive_gateway<T, C: Callbacks<T>>(
        &self,
        pidx: usize,
        gidx: usize,
        data: &mut T,
        callbacks: &C,
    ) -> (r: Result<Vec<usize>, Error>)
        requires
            diagram_wf(self.diagram),
            diagram_nested_wf(self.diagram),
            pidx < self.diagram.data@.len(),
        ensures
            ({
                let pd = self.diagram.data@[pidx as int];
                &&& (!(gidx < pd.data@.len() && pd.data@[gidx as int] matches Bpmn::Gateway(_))
                    ==> r matches Err(Error::MissingBpmnData(_)))
                &&& ((gidx < pd.data@.len() && (pd.data@[gidx as int] matches Bpmn::Gateway(g)
                    && g.func_idx is None)) ==> r matches Err(Error::MissingImplementation(_)))
                &&& (r is Ok ==> exists|w: With| inclusive_selection_ok(pd, gidx, w, r))
            }),
        decreases pidx, 0int,
    {
        let process = match self.diagram.get_process(pidx) {
            Some(p) => p,
            None => {
                return Err(Error::MissingProcessData("no such block".to_owned()));
            }
        };
        let g = match process.get(gidx) {
            Some(Bpmn::Gateway(g)) => g,
            _ => {
                return Err(Error::MissingBpmnData("gateway expected".to_owned()));
            }
        };
        if g.func_idx.is_none() {
            return Err(Error::MissingImplementation(key_of(&g.name, &g.id).to_owned()));
        }
        let with = match callbacks.inclusive(key_of(&g.name, &g.id), data) {
            Ok(w) => w,
            Err(e) => {
                return Err(e);
            }
        };
        let ghost chosen = with;
        let result = inclusive_targets(process, gidx, with);
        proof {
            assert(inclusive_selection_ok(
                self.diagram.data@[pidx as int],
                gidx,
                chosen,
                result,
            ));
        }
        result
    }
}

/// Consuming a token preserves the accounting stack's well-formedness when
/// a recorded gateway is a join gateway of the process.
proof fn lemma_consume_keeps_wf(
    h0: ExecuteHandler,
    h1: ExecuteHandler,
    nodes: Seq<Bpmn>,
    join: Option<usize>,
)
    requires
        eh_wf(h0, nodes),
        join matches Some(g) ==> is_join_gateway(nodes, g),
        h0.token_stack@.len() == 0 ==> h1.token_stack@ == h0.token_stack@,
        h0.token_stack@.len() > 0 ==> {
            &&& h1.token_stack@.len() == h0.token_stack@.len()
            &&& h1.token_stack@.drop_last() == h0.token_stack@.drop_last()
            &&& h1.token_stack@.last().joined@ == (match join {
                Some(g) => h0.token_stack@.last().joined@.push(g),
                None => h0.token_stack@.last().joined@,
            })
        },
    ensures
        eh_wf(h1, nodes),
{
    if h0.token_stack@.len() > 0 {
        assert forall|k: int, j: int|
            0 <= k < h1.token_stack@.len() && 0 <= j < h1.token_stack@[k].joined@.len() implies is_join_gateway(
            nodes,
            #[trigger] h1.token_stack@[k].joined@[j],
        ) by {
            if k < h1.token_stack@.len() - 1 {
                assert(h1.token_stack@[k] == h1.token_stack@.drop_last()[k]);
                assert(h0.token_stack@[k] == h0.token_stack@.drop_last()[k]);
                assert(is_join_gateway(nodes, h0.token_stack@[k].joined@[j]));
            } else {
                let oldj = h0.token_stack@.last().joined@;
                if j < oldj.len() {
                    assert(h1.token_stack@[k].joined@[j] == oldj[j]);
                    assert(is_join_gateway(nodes, h0.token_stack@[k].joined@[j]));
                } else {
                    assert(join matches Some(g) && h1.token_stack@[k].joined@[j] == g);
                }
            }
        }
    }
}

/// Committing new fork records preserves the accounting stack's
/// well-formedness: the fresh records hold no gateways.
proof fn lemma_commit_keeps_wf(h0: ExecuteHandler, h1: ExecuteHandler, nodes: Seq<Bpmn>)
    requires
        eh_wf(h0, nodes),
        h1.token_stack@.len() >= h0.token_stack@.len(),
        forall|m: int|
            0 <= m < h0.token_stack@.len() ==> #[trigger] h1.token_stack@[m]
                == h0.token_stack@[m],
        forall|m: int|
            h0.token_stack@.len() <= m < h1.token_stack@.len()
                ==> (#[trigger] h1.token_stack@[m]).joined@.len() == 0,
    ensures
        eh_wf(h1, nodes),
{
    assert forall|k: int, j: int|
        0 <= k < h1.token_stack@.len() && 0 <= j < h1.token_stack@[k].joined@.len() implies is_join_gateway(
        nodes,
        #[trigger] h1.token_stack@[k].joined@[j],
    ) by {
        if k < h0.token_stack@.len() {
            assert(is_join_gateway(nodes, h0.token_stack@[k].joined@[j]));
        }
    }
}

} // verus!
