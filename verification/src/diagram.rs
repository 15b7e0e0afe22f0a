use vstd::prelude::*;
use vstd::pervasive::VecAdditionalExecFns;

use crate::api::IntermediateEvent;
use crate::error::Error;
use crate::handler::{hm_lookup, str_eq, HandlerMap, HandlerType};
use crate::model::{
    bpmn_id_spec, key_of, name_or_id, set_local_id, Activity, ActivityType, Bpmn, DirectionType,
    Event, EventType, Gateway, GatewayType, Id, Outputs, Symbol,
};
use vstd::string::StringExecFns;

verus! {

/// The resolved index registered for `key`: the last entry with that id
/// wins, mirroring how repeated ids overwrite one another.
pub open spec fn table_lookup(entries: Seq<(String, usize)>, key: Seq<char>) -> Option<usize>
    decreases entries.len(),
{
    if entries.len() == 0 {
        None
    } else if entries.last().0@ == key {
        Some(entries.last().1)
    } else {
        table_lookup(entries.drop_last(), key)
    }
}

/// The id-to-index table a process block resolves references against: one
/// entry per node that has an id, in node order.
pub open spec fn id_entries(nodes: Seq<Bpmn>) -> Seq<(String, usize)>
    decreases nodes.len(),
{
    if nodes.len() == 0 {
        Seq::empty()
    } else {
        id_entries(nodes.drop_last()) + (match bpmn_id_spec(nodes.last()) {
            Some(id) => seq![(id.bpmn_id, (nodes.len() - 1) as usize)],
            None => Seq::empty(),
        })
    }
}

/// The local index `key` resolves to, or `dflt` when the table has no entry.
pub open spec fn resolve_local(key: Seq<char>, dflt: usize, entries: Seq<(String, usize)>) -> usize {
    match table_lookup(entries, key) {
        Some(v) => v,
        None => dflt,
    }
}

/// `id` with its local index resolved against the table; the textual id and,
/// on a failed lookup, the old index are kept.
pub open spec fn resolve_id(id: Id, entries: Seq<(String, usize)>) -> Id {
    Id { local_id: resolve_local(id.bpmn_id@, id.local_id, entries), ..id }
}

/// `o2` is `o1` with every local index resolved against the table.
pub open spec fn outputs_resolved(o1: Outputs, o2: Outputs, entries: Seq<(String, usize)>) -> bool {
    &&& o2.bpmn_ids@ == o1.bpmn_ids@
    &&& o2.local_ids@.len() == o1.local_ids@.len()
    &&& forall|k: int|
        0 <= k < o1.local_ids@.len() ==> o2.local_ids@[k] == resolve_local(
            o1.bpmn_ids@[k]@,
            o1.local_ids@[k],
            entries,
        )
}

/// `b2` is `b1` with every cross-reference it holds (outputs, the attachment
/// of a boundary event, a gateway's default flow, a sequence flow's target)
/// resolved against the table. Everything else is unchanged.
pub open spec fn node_resolved(b1: Bpmn, b2: Bpmn, entries: Seq<(String, usize)>) -> bool {
    match b1 {
        Bpmn::Activity(a1) => b2 matches Bpmn::Activity(a2) && (a2 == Activity {
            outputs: a2.outputs,
            ..a1
        }) && outputs_resolved(a1.outputs, a2.outputs, entries),
        Bpmn::Event(e1) => b2 matches Bpmn::Event(e2) && (e2 == Event {
            outputs: e2.outputs,
            attached_to_ref: e2.attached_to_ref,
            ..e1
        }) && outputs_resolved(e1.outputs, e2.outputs, entries) && (match e1.attached_to_ref {
            Some(r) => e2.attached_to_ref == Some(resolve_id(r, entries)),
            None => e2.attached_to_ref is None,
        }),
        Bpmn::Gateway(g1) => b2 matches Bpmn::Gateway(g2) && (g2 == Gateway {
            outputs: g2.outputs,
            default: g2.default,
            ..g1
        }) && outputs_resolved(g1.outputs, g2.outputs, entries) && (match g1.default {
            Some(d) => g2.default == Some(resolve_id(d, entries)),
            None => g2.default is None,
        }),
        Bpmn::SequenceFlow { id, name, target_ref, source_ref } => b2 == Bpmn::SequenceFlow {
            id,
            name,
            target_ref: resolve_id(target_ref, entries),
            source_ref,
        },
        _ => b2 == b1,
    }
}

/// The attachment pairs of a block: one `(activity index, boundary event
/// index)` pair per event attached to an activity, in node order.
pub open spec fn boundary_pairs(nodes: Seq<Bpmn>) -> Seq<(usize, usize)>
    decreases nodes.len(),
{
    if nodes.len() == 0 {
        Seq::empty()
    } else {
        boundary_pairs(nodes.drop_last()) + (match nodes.last() {
            Bpmn::Event(e) => match e.attached_to_ref {
                Some(r) => seq![(r.local_id, e.id.local_id)],
                None => Seq::empty(),
            },
            _ => Seq::empty(),
        })
    }
}

/// The link-catch pairs of a block: one `(name, event index)` pair per
/// intermediate catch event with a link symbol and a name, in node order.
pub open spec fn link_pairs(nodes: Seq<Bpmn>) -> Seq<(String, usize)>
    decreases nodes.len(),
{
    if nodes.len() == 0 {
        Seq::empty()
    } else {
        link_pairs(nodes.drop_last()) + (match nodes.last() {
            Bpmn::Event(e) => if e.event_type is IntermediateCatch && e.symbol == Some(Symbol::Link)
                && e.name is Some {
                seq![(e.name.unwrap(), e.id.local_id)]
            } else {
                Seq::empty()
            },
            _ => Seq::empty(),
        })
    }
}

/// `after` is `before` with every cross-reference resolved in place and the
/// boundary and link tables gathered from the resolved nodes: what
/// finalizing a block produces.
pub open spec fn finalized_from(before: ProcessData, after: ProcessData) -> bool {
    &&& after.data@.len() == before.data@.len()
    &&& forall|i: int|
        0 <= i < before.data@.len() ==> node_resolved(
            before.data@[i],
            #[trigger] after.data@[i],
            id_entries(before.data@),
        )
    &&& after.start == before.start
    &&& after.boundaries@ == boundary_pairs(after.data@)
    &&& after.catch_event_links@ == link_pairs(after.data@)
}

/// True when `bpmn` is a start event without a symbol; each process block
/// may hold at most one such event.
pub open spec fn is_none_start(bpmn: Bpmn) -> bool {
    bpmn matches Bpmn::Event(e) && e.event_type is Start && e.symbol is None
}

/// Look up `key` in an id-to-index table; the last matching entry wins.
pub fn lookup_entry(entries: &Vec<(String, usize)>, key: &str) -> (r: Option<usize>)
    ensures
        r == table_lookup(entries@, key@),
{
    let mut j: usize = entries.len();
    proof {
        assert(entries@.take(j as int) =~= entries@);
    }
    while j > 0
        invariant
            j <= entries@.len(),
            table_lookup(entries@.take(j as int), key@) == table_lookup(entries@, key@),
        decreases j,
    {
        let entry = &entries[j - 1];
        proof {
            assert(entries@.take(j as int).drop_last() =~= entries@.take(j - 1 as int));
        }
        if str_eq(entry.0.as_str(), key) {
            return Some(entry.1);
        }
        j = j - 1;
    }
    proof {
        assert(entries@.take(0) =~= Seq::<(String, usize)>::empty());
    }
    None
}

impl Id {
    /// Resolve this reference's local index against the table; a reference
    /// that matches nothing keeps its old index.
    pub fn update_local_id(&mut self, entries: &Vec<(String, usize)>)
        ensures
            *final(self) == resolve_id(*old(self), entries@),
    {
        match lookup_entry(entries, self.bpmn_id.as_str()) {
            Some(v) => self.local_id = v,
            None => {}
        }
    }
}

impl Outputs {
    /// Resolve every referenced id to its local index; a reference that
    /// matches nothing keeps its old index.
    pub fn update_local_ids(&mut self, entries: &Vec<(String, usize)>)
        requires
            old(self).wf(),
        ensures
            final(self).wf(),
            outputs_resolved(*old(self), *final(self), entries@),
    {
        let ghost orig = *self;
        let mut k: usize = 0;
        while k < self.bpmn_ids.len()
            invariant
                self.bpmn_ids@ == orig.bpmn_ids@,
                self.local_ids@.len() == orig.local_ids@.len(),
                orig.wf(),
                k <= orig.bpmn_ids@.len(),
                forall|m: int|
                    0 <= m < k ==> self.local_ids@[m] == resolve_local(
                        orig.bpmn_ids@[m]@,
                        orig.local_ids@[m],
                        entries@,
                    ),
                forall|m: int| k <= m < orig.local_ids@.len() ==> self.local_ids@[m]
                    == orig.local_ids@[m],
            decreases self.bpmn_ids@.len() - k,
        {
            match lookup_entry(entries, self.bpmn_ids[k].as_str()) {
                Some(v) => self.local_ids.set(k, v),
                None => {}
            }
            k = k + 1;
        }
    }
}

/// A single BPMN process or sub-process: its nodes addressed by index, the
/// index of its none-symbol start event, the boundary attachments and the
/// link catch events.
#[derive(Debug, PartialEq, Eq)]
pub struct ProcessData {
    /// Index of the none-symbol start event, when the block has one.
    pub start: Option<usize>,
    /// The nodes, addressed by their local index.
    pub data: Vec<Bpmn>,
    /// `(activity index, boundary event index)` attachment pairs.
    pub boundaries: Vec<(usize, usize)>,
    /// `(link name, catch event index)` pairs.
    pub catch_event_links: Vec<(String, usize)>,
}

impl ProcessData {
    /// Every node's parallel output arrays agree in length.
    pub open spec fn wf(&self) -> bool {
        forall|i: int| 0 <= i < self.data@.len() ==> node_wf(#[trigger] self.data@[i])
    }

    pub fn new() -> (r: ProcessData)
        ensures
            r.start is None,
            r.data@ == Seq::<Bpmn>::empty(),
            r.boundaries@ == Seq::<(usize, usize)>::empty(),
            r.catch_event_links@ == Seq::<(String, usize)>::empty(),
            r.wf(),
    {
        ProcessData {
            start: None,
            data: Vec::new(),
            boundaries: Vec::new(),
            catch_event_links: Vec::new(),
        }
    }

    /// Append a node, stamping it with its own index. A second none-symbol
    /// start event is rejected and nothing changes.
    pub fn add(&mut self, bpmn: Bpmn) -> (r: Result<(), Error>)
        requires
            node_wf(bpmn),
            old(self).wf(),
        ensures
            final(self).wf(),
            match r {
                Ok(()) => {
                    &&& !(is_none_start(bpmn) && old(self).start is Some)
                    &&& final(self).data@ == old(self).data@.push(
                        set_local_id(bpmn, old(self).data@.len() as usize),
                    )
                    &&& final(self).start == (if is_none_start(bpmn) {
                        Some(old(self).data@.len() as usize)
                    } else {
                        old(self).start
                    })
                    &&& final(self).boundaries@ == old(self).boundaries@
                    &&& final(self).catch_event_links@ == old(self).catch_event_links@
                },
                Err(e) => {
                    &&& is_none_start(bpmn) && old(self).start is Some
                    &&& (e matches Error::BpmnRequirement(m) && m@
                        == "There can only be one start event of type none"@)
                    &&& *final(self) == *old(self)
                },
            },
    {
        let len = self.data.len();
        let starts = match &bpmn {
            Bpmn::Event(e) => e.event_type == EventType::Start && e.symbol.is_none(),
            _ => false,
        };
        if starts {
            if self.start.is_some() {
                return Err(
                    Error::BpmnRequirement(
                        "There can only be one start event of type none".to_owned(),
                    ),
                );
            }
            self.start = Some(len);
        }
        let mut node = bpmn;
        node.update_local_id(len);
        proof {
            assert(node_wf(node));
        }
        self.data.push(node);
        Ok(())
    }

    /// The index of the none-symbol start event, if the block has one.
    pub fn start(&self) -> (r: Option<usize>)
        ensures
            r == self.start,
    {
        self.start
    }

    /// The node at `index`, when it exists.
    pub fn get(&self, index: usize) -> (r: Option<&Bpmn>)
        ensures
            match r {
                Some(b) => index < self.data@.len() && *b == self.data@[index as int],
                None => index >= self.data@.len(),
            },
    {
        if index < self.data.len() {
            Some(&self.data[index])
        } else {
            None
        }
    }

    /// All nodes of the block, in index order.
    pub fn iter(&self) -> (r: &Vec<Bpmn>)
        ensures
            r@ == self.data@,
    {
        &self.data
    }

    /// Rewrite every textual cross-reference into a local index, then gather
    /// the boundary attachments and link catch events.
    pub fn finalize(&mut self)
        requires
            old(self).wf(),
        ensures
            final(self).wf(),
            finalized_from(*old(self), *final(self)),
    {
        let ghost orig = self.data@;

        // The id-to-index table, one entry per node that has an id.
        let mut entries: Vec<(String, usize)> = Vec::new();
        let mut i: usize = 0;
        proof {
            assert(id_entries(orig.take(0)) =~= Seq::<(String, usize)>::empty());
        }
        while i < self.data.len()
            invariant
                *self == *old(self),
                orig == self.data@,
                i <= orig.len(),
                entries@ == id_entries(orig.take(i as int)),
            decreases orig.len() - i,
        {
            proof {
                assert(orig.take(i + 1).drop_last() =~= orig.take(i as int));
                assert(orig.take(i + 1).last() == orig[i as int]);
            }
            match self.data[i].id() {
                Ok(id) => {
                    let entry = (id.bpmn_id.clone(), i);
                    proof {
                        assert(id_entries(orig.take(i + 1)) =~= id_entries(orig.take(i as int))
                            .push((bpmn_id_spec(orig[i as int]).unwrap().bpmn_id, i)));
                    }
                    entries.push(entry);
                }
                Err(_) => {
                    proof {
                        assert(id_entries(orig.take(i + 1)) =~= id_entries(orig.take(i as int)));
                    }
                }
            }
            i = i + 1;
        }
        proof {
            assert(orig.take(orig.len() as int) =~= orig);
        }

        // Resolve every reference of every node against the table.
        let ghost start0 = self.start;
        let mut i: usize = 0;
        while i < self.data.len()
            invariant
                self.data@.len() == orig.len(),
                entries@ == id_entries(orig),
                i <= orig.len(),
                self.start == start0,
                self.boundaries@ == old(self).boundaries@,
                self.catch_event_links@ == old(self).catch_event_links@,
                forall|j: int| 0 <= j < orig.len() ==> node_wf(#[trigger] orig[j]),
                forall|j: int|
                    0 <= j < i ==> node_resolved(orig[j], #[trigger] self.data@[j], entries@),
                forall|j: int| i <= j < orig.len() ==> self.data@[j] == orig[j],
            decreases orig.len() - i,
        {
            let mut node = Bpmn::Direction { direction_type: DirectionType::Incoming, text: None };
            self.data.set_and_swap(i, &mut node);
            proof {
                assert(node == orig[i as int]);
                assert(node_wf(node));
            }
            let new_node = match node {
                Bpmn::Activity(Activity { id, name, activity_type, mut outputs, func_idx }) => {
                    outputs.update_local_ids(&entries);
                    Bpmn::Activity(Activity { id, name, activity_type, outputs, func_idx })
                }
                Bpmn::Event(Event { id, name, event_type, symbol, mut outputs, attached_to_ref }) => {
                    outputs.update_local_ids(&entries);
                    let att = match attached_to_ref {
                        Some(mut r) => {
                            r.update_local_id(&entries);
                            Some(r)
                        }
                        None => None,
                    };
                    Bpmn::Event(
                        Event { id, name, event_type, symbol, outputs, attached_to_ref: att },
                    )
                }
                Bpmn::Gateway(
                    Gateway { id, name, gateway_type, mut outputs, inputs, default, func_idx },
                ) => {
                    outputs.update_local_ids(&entries);
                    let dflt = match default {
                        Some(mut d) => {
                            d.update_local_id(&entries);
                            Some(d)
                        }
                        None => None,
                    };
                    Bpmn::Gateway(
                        Gateway { id, name, gateway_type, outputs, inputs, default: dflt, func_idx },
                    )
                }
                Bpmn::SequenceFlow { id, name, mut target_ref, source_ref } => {
                    target_ref.update_local_id(&entries);
                    Bpmn::SequenceFlow { id, name, target_ref, source_ref }
                }
                other => other,
            };
            self.data.set(i, new_node);
            i = i + 1;
        }

        // Gather the boundary attachment pairs from the resolved nodes.
        self.boundaries = Vec::new();
        let ghost resolved = self.data@;
        proof {
            assert(boundary_pairs(resolved.take(0)) =~= Seq::<(usize, usize)>::empty());
        }
        let mut i: usize = 0;
        while i < self.data.len()
            invariant
                self.data@ == resolved,
                self.start == start0,
                self.catch_event_links@ == old(self).catch_event_links@,
                i <= resolved.len(),
                self.boundaries@ == boundary_pairs(resolved.take(i as int)),
            decreases resolved.len() - i,
        {
            proof {
                assert(resolved.take(i + 1).drop_last() =~= resolved.take(i as int));
                assert(resolved.take(i + 1).last() == resolved[i as int]);
            }
            let pushed = if let Bpmn::Event(e) = &self.data[i] {
                if let Some(r) = &e.attached_to_ref {
                    self.boundaries.push((r.local_id, e.id.local_id));
                    true
                } else {
                    false
                }
            } else {
                false
            };
            proof {
                if pushed {
                    assert(boundary_pairs(resolved.take(i + 1)) =~= self.boundaries@);
                } else {
                    assert(boundary_pairs(resolved.take(i + 1)) =~= self.boundaries@);
                }
            }
            i = i + 1;
        }
        proof {
            assert(resolved.take(resolved.len() as int) =~= resolved);
        }

        // Gather the link catch events from the resolved nodes.
        self.catch_event_links = Vec::new();
        proof {
            assert(link_pairs(resolved.take(0)) =~= Seq::<(String, usize)>::empty());
        }
        let mut i: usize = 0;
        while i < self.data.len()
            invariant
                self.data@ == resolved,
                self.start == start0,
                self.boundaries@ == boundary_pairs(resolved),
                i <= resolved.len(),
                self.catch_event_links@ == link_pairs(resolved.take(i as int)),
            decreases resolved.len() - i,
        {
            proof {
                assert(resolved.take(i + 1).drop_last() =~= resolved.take(i as int));
                assert(resolved.take(i + 1).last() == resolved[i as int]);
            }
            if let Bpmn::Event(e) = &self.data[i] {
                if e.event_type == EventType::IntermediateCatch && matches!(
                    e.symbol,
                    Some(Symbol::Link),
                ) {
                    if let Some(n) = &e.name {
                        self.catch_event_links.push((n.clone(), e.id.local_id));
                    }
                }
            }
            proof {
                assert(link_pairs(resolved.take(i + 1)) =~= self.catch_event_links@);
            }
            i = i + 1;
        }
        proof {
            assert(resolved.take(resolved.len() as int) =~= resolved);
            assert forall|j: int| 0 <= j < self.data@.len() implies node_wf(
                #[trigger] self.data@[j],
            ) by {
                assert(node_resolved(orig[j], self.data@[j], id_entries(orig)));
                assert(node_wf(orig[j]));
            }
        }
    }
}

/// The view of an optional string slice.
pub open spec fn opt_view(o: Option<&str>) -> Option<Seq<char>> {
    match o {
        Some(s) => Some(s@),
        None => None,
    }
}

/// An optional node name matches an optional searched name: both absent, or
/// both present and equal.
pub open spec fn opt_name_matches(name: Option<String>, search: Option<Seq<char>>) -> bool {
    match (name, search) {
        (Some(n), Some(s)) => n@ == s,
        (None, None) => true,
        _ => false,
    }
}

/// The attachment pair points at a boundary event of `a` that carries the
/// searched symbol and name.
pub open spec fn boundary_match(
    pair: (usize, usize),
    nodes: Seq<Bpmn>,
    a: usize,
    sname: Option<Seq<char>>,
    ssym: Symbol,
) -> bool {
    &&& pair.0 == a
    &&& pair.1 < nodes.len()
    &&& nodes[pair.1 as int] matches Bpmn::Event(e) && (e.symbol matches Some(s) && s == ssym)
        && opt_name_matches(e.name, sname)
}

/// The first matching boundary event at or after position `k` of the
/// attachment pairs, if any.
pub open spec fn find_boundary_from(
    pairs: Seq<(usize, usize)>,
    nodes: Seq<Bpmn>,
    a: usize,
    sname: Option<Seq<char>>,
    ssym: Symbol,
    k: int,
) -> Option<usize>
    decreases pairs.len() - k,
{
    if !(0 <= k < pairs.len()) {
        None
    } else if boundary_match(pairs[k], nodes, a, sname, ssym) {
        Some(pairs[k].1)
    } else {
        find_boundary_from(pairs, nodes, a, sname, ssym, k + 1)
    }
}

/// The node at `idx` is a sequence flow whose name or id equals `search`.
pub open spec fn flow_matches(nodes: Seq<Bpmn>, idx: usize, search: Seq<char>) -> bool {
    &&& idx < nodes.len()
    &&& nodes[idx as int] matches Bpmn::SequenceFlow { id, name, .. } && ((name matches Some(n)
        && n@ == search) || id.bpmn_id@ == search)
}

/// The first output at or after position `k` that is a sequence flow named
/// or identified `search`, if any.
pub open spec fn find_flow_from(
    nodes: Seq<Bpmn>,
    outs: Seq<usize>,
    search: Seq<char>,
    k: int,
) -> Option<usize>
    decreases outs.len() - k,
{
    if !(0 <= k < outs.len()) {
        None
    } else if flow_matches(nodes, outs[k], search) {
        Some(outs[k])
    } else {
        find_flow_from(nodes, outs, search, k + 1)
    }
}

/// The node at `idx` is a sequence flow whose target waits for the searched
/// intermediate event: a receive task with that name when the symbol is
/// `Message`, or an event with that name and that symbol among `Message`,
/// `Signal`, `Timer` and `Conditional`.
pub open spec fn ie_matches(nodes: Seq<Bpmn>, idx: usize, name: Seq<char>, sym: Symbol) -> bool {
    &&& idx < nodes.len()
    &&& nodes[idx as int] matches Bpmn::SequenceFlow { target_ref, .. }
    &&& target_ref.local_id < nodes.len()
    &&& match nodes[target_ref.local_id as int] {
        Bpmn::Activity(a) => a.activity_type is ReceiveTask && (a.name matches Some(n) && n@
            == name) && sym is Message,
        Bpmn::Event(e) => e.symbol matches Some(s) && (s is Message || s is Signal || s is Timer
            || s is Conditional) && s == sym && (e.name matches Some(n) && n@ == name),
        _ => false,
    }
}

/// The first output at or after position `k` whose flow waits for the
/// searched intermediate event, if any.
pub open spec fn find_ie_from(
    nodes: Seq<Bpmn>,
    outs: Seq<usize>,
    name: Seq<char>,
    sym: Symbol,
    k: int,
) -> Option<usize>
    decreases outs.len() - k,
{
    if !(0 <= k < outs.len()) {
        None
    } else if ie_matches(nodes, outs[k], name, sym) {
        Some(outs[k])
    } else {
        find_ie_from(nodes, outs, name, sym, k + 1)
    }
}

impl ProcessData {
    /// All boundary events attached to the activity, in node order.
    pub fn activity_boundaries(&self, id: &Id) -> (r: Vec<usize>)
        ensures
            r@ == attached_list(self.boundaries@, id.local_id),
    {
        let mut out: Vec<usize> = Vec::new();
        let mut k: usize = 0;
        proof {
            assert(attached_list(self.boundaries@.take(0), id.local_id) =~= Seq::<usize>::empty());
        }
        while k < self.boundaries.len()
            invariant
                k <= self.boundaries@.len(),
                out@ == attached_list(self.boundaries@.take(k as int), id.local_id),
            decreases self.boundaries@.len() - k,
        {
            proof {
                assert(self.boundaries@.take(k + 1).drop_last() =~= self.boundaries@.take(
                    k as int,
                ));
                assert(self.boundaries@.take(k + 1).last() == self.boundaries@[k as int]);
            }
            if self.boundaries[k].0 == id.local_id {
                out.push(self.boundaries[k].1);
            }
            proof {
                assert(attached_list(self.boundaries@.take(k + 1), id.local_id) =~= out@);
            }
            k = k + 1;
        }
        proof {
            assert(self.boundaries@.take(self.boundaries@.len() as int) =~= self.boundaries@);
        }
        out
    }

    /// The first boundary event attached to the activity that carries the
    /// searched name and symbol, if any.
    pub fn find_boundary(
        &self,
        activity_id: &Id,
        search_name: Option<&str>,
        search_symbol: Symbol,
    ) -> (r: Option<usize>)
        ensures
            r == find_boundary_from(
                self.boundaries@,
                self.data@,
                activity_id.local_id,
                opt_view(search_name),
                search_symbol,
                0,
            ),
    {
        let mut k: usize = 0;
        while k < self.boundaries.len()
            invariant
                k <= self.boundaries@.len(),
                find_boundary_from(
                    self.boundaries@,
                    self.data@,
                    activity_id.local_id,
                    opt_view(search_name),
                    search_symbol,
                    0,
                ) == find_boundary_from(
                    self.boundaries@,
                    self.data@,
                    activity_id.local_id,
                    opt_view(search_name),
                    search_symbol,
                    k as int,
                ),
            decreases self.boundaries@.len() - k,
        {
            let pair = (self.boundaries[k].0, self.boundaries[k].1);
            if pair.0 == activity_id.local_id {
                match self.get(pair.1) {
                    Some(Bpmn::Event(e)) => {
                        let symbol_ok = match &e.symbol {
                            Some(s) => *s == search_symbol,
                            None => false,
                        };
                        let name_ok = match (search_name, &e.name) {
                            (Some(s), Some(n)) => str_eq(s, n.as_str()),
                            (None, None) => true,
                            _ => false,
                        };
                        if symbol_ok && name_ok {
                            return Some(pair.1);
                        }
                    }
                    _ => {}
                }
            }
            k = k + 1;
        }
        None
    }

    /// The catch event of the link with this name, or
    /// `MissingIntermediateCatchEvent`. A repeated link name keeps the
    /// later catch event.
    pub fn catch_event_link(&self, throw_event_name: &str) -> (r: Result<usize, Error>)
        ensures
            match table_lookup(self.catch_event_links@, throw_event_name@) {
                Some(v) => r == Ok::<usize, Error>(v),
                None => r matches Err(e) && (e matches Error::MissingIntermediateCatchEvent(s, n)
                    && s@ == "Link"@ && n@ == throw_event_name@),
            },
    {
        match lookup_entry(&self.catch_event_links, throw_event_name) {
            Some(v) => Ok(v),
            None => Err(
                Error::MissingIntermediateCatchEvent(
                    Symbol::Link.text().to_owned(),
                    throw_event_name.to_owned(),
                ),
            ),
        }
    }

    /// The first of the given outputs that is a sequence flow whose name or
    /// id equals `search`, if any.
    pub fn find_by_name_or_id(&self, search: &str, outputs: &Outputs) -> (r: Option<usize>)
        ensures
            r == find_flow_from(self.data@, outputs.local_ids@, search@, 0),
    {
        let mut k: usize = 0;
        while k < outputs.local_ids.len()
            invariant
                k <= outputs.local_ids@.len(),
                find_flow_from(self.data@, outputs.local_ids@, search@, 0) == find_flow_from(
                    self.data@,
                    outputs.local_ids@,
                    search@,
                    k as int,
                ),
            decreases outputs.local_ids@.len() - k,
        {
            let idx = outputs.local_ids[k];
            match self.get(idx) {
                Some(Bpmn::SequenceFlow { id, name, .. }) => {
                    let hit = match name {
                        Some(n) => str_eq(n.as_str(), search) || str_eq(id.bpmn_id.as_str(), search),
                        None => str_eq(id.bpmn_id.as_str(), search),
                    };
                    if hit {
                        return Some(idx);
                    }
                }
                _ => {}
            }
            k = k + 1;
        }
        None
    }

    /// The first of the given outputs whose flow waits for the searched
    /// intermediate event, if any.
    pub fn find_by_intermediate_event(
        &self,
        search: &IntermediateEvent,
        outputs: &Outputs,
    ) -> (r: Option<usize>)
        ensures
            r == find_ie_from(self.data@, outputs.local_ids@, search.0@, search.1, 0),
    {
        let mut k: usize = 0;
        while k < outputs.local_ids.len()
            invariant
                k <= outputs.local_ids@.len(),
                find_ie_from(self.data@, outputs.local_ids@, search.0@, search.1, 0) == find_ie_from(
                    self.data@,
                    outputs.local_ids@,
                    search.0@,
                    search.1,
                    k as int,
                ),
            decreases outputs.local_ids@.len() - k,
        {
            let idx = outputs.local_ids[k];
            match self.get(idx) {
                Some(Bpmn::SequenceFlow { target_ref, .. }) => {
                    match self.get(target_ref.local_id) {
                        Some(Bpmn::Activity(a)) => {
                            let hit = matches!(a.activity_type, ActivityType::ReceiveTask)
                                && search.1 == Symbol::Message && (match &a.name {
                                Some(n) => str_eq(n.as_str(), search.0.as_str()),
                                None => false,
                            });
                            if hit {
                                return Some(idx);
                            }
                        }
                        Some(Bpmn::Event(e)) => {
                            let sym_ok = match &e.symbol {
                                Some(s) => (matches!(s, Symbol::Message) || matches!(
                                    s,
                                    Symbol::Signal,
                                ) || matches!(s, Symbol::Timer) || matches!(s, Symbol::Conditional))
                                    && *s == search.1,
                                None => false,
                            };
                            let name_ok = match &e.name {
                                Some(n) => str_eq(n.as_str(), search.0.as_str()),
                                None => false,
                            };
                            if sym_ok && name_ok {
                                return Some(idx);
                            }
                        }
                        _ => {}
                    }
                }
                _ => {}
            }
            k = k + 1;
        }
        None
    }
}

/// The boundary events recorded for activity `a`, in recording order.
pub open spec fn attached_list(pairs: Seq<(usize, usize)>, a: usize) -> Seq<usize>
    decreases pairs.len(),
{
    if pairs.len() == 0 {
        Seq::empty()
    } else {
        attached_list(pairs.drop_last(), a) + (if pairs.last().0 == a {
            seq![pairs.last().1]
        } else {
            Seq::empty()
        })
    }
}

/// A node's own well-formedness: parallel output arrays agree in length.
pub open spec fn node_wf(b: Bpmn) -> bool {
    match b {
        Bpmn::Activity(a) => a.outputs.wf(),
        Bpmn::Event(e) => e.outputs.wf(),
        Bpmn::Gateway(g) => g.outputs.wf(),
        _ => true,
    }
}

/// The handler kind a gateway is decided by, when its kind takes one.
pub open spec fn gw_handler_type(g: GatewayType) -> Option<HandlerType> {
    match g {
        GatewayType::Exclusive => Some(HandlerType::Exclusive),
        GatewayType::Inclusive => Some(HandlerType::Inclusive),
        GatewayType::EventBased => Some(HandlerType::EventBased),
        _ => None,
    }
}

/// True for the nodes that must have a handler bound: every task-kind
/// activity, and every exclusive, inclusive or event-based gateway with more
/// than one output.
pub open spec fn needs_handler(b: Bpmn) -> bool {
    match b {
        Bpmn::Activity(a) => a.activity_type.is_task_kind(),
        Bpmn::Gateway(g) => g.outputs.local_ids@.len() > 1 && gw_handler_type(g.gateway_type)
            is Some,
        _ => false,
    }
}

/// The description a missing handler is reported under: the node's kind
/// and its registration key.
pub open spec fn descriptor_of(b: Bpmn) -> Seq<char> {
    match b {
        Bpmn::Activity(a) => crate::model::activity_type_text(a.activity_type) + ": "@
            + name_or_id(a.name, a.id),
        Bpmn::Gateway(g) => crate::model::gateway_type_text(g.gateway_type) + ": "@ + name_or_id(
            g.name,
            g.id,
        ),
        _ => Seq::empty(),
    }
}

/// The list holds an entry with these contents.
pub open spec fn listed(ms: Seq<String>, d: Seq<char>) -> bool {
    exists|k: int| 0 <= k < ms.len() && (#[trigger] ms[k])@ == d
}

/// Some node that must have a handler has none bound under the
/// registrations, and is reported under this description.
pub open spec fn unbound_descriptor(
    blocks: Seq<ProcessData>,
    hm: Seq<(HandlerType, String, usize)>,
    d: Seq<char>,
) -> bool {
    exists|q: int, i: int|
        #![trigger blocks[q].data@[i]]
        0 <= q < blocks.len() && 0 <= i < blocks[q].data@.len() && needs_handler(
            blocks[q].data@[i],
        ) && binds(blocks[q].data@[i], hm) is None && descriptor_of(blocks[q].data@[i]) == d
}

/// The report of missing handlers is faithful: every entry describes some
/// unbound required node, every unbound required node is described by some
/// entry, and no description is repeated.
pub open spec fn missing_report_ok(
    blocks: Seq<ProcessData>,
    hm: Seq<(HandlerType, String, usize)>,
    ms: Seq<String>,
) -> bool {
    &&& forall|k: int| 0 <= k < ms.len() ==> unbound_descriptor(blocks, hm, (#[trigger] ms[k])@)
    &&& forall|q: int, i: int|
        #![trigger blocks[q].data@[i]]
        0 <= q < blocks.len() && 0 <= i < blocks[q].data@.len() && needs_handler(
            blocks[q].data@[i],
        ) && binds(blocks[q].data@[i], hm) is None ==> listed(ms, descriptor_of(blocks[q].data@[i]))
    &&& forall|k1: int, k2: int|
        0 <= k1 < k2 < ms.len() ==> (#[trigger] ms[k1])@ != (#[trigger] ms[k2])@
}

/// The handler index the registrations bind this node to, if any.
pub open spec fn binds(b: Bpmn, hm: Seq<(HandlerType, String, usize)>) -> Option<usize> {
    match b {
        Bpmn::Activity(a) => hm_lookup(hm, HandlerType::Task, name_or_id(a.name, a.id)),
        Bpmn::Gateway(g) => match gw_handler_type(g.gateway_type) {
            Some(ht) => hm_lookup(hm, ht, name_or_id(g.name, g.id)),
            None => None,
        },
        _ => None,
    }
}

/// `b` with its handler index set to `v`.
pub open spec fn set_func_idx(b: Bpmn, v: usize) -> Bpmn {
    match b {
        Bpmn::Activity(a) => Bpmn::Activity(Activity { func_idx: Some(v), ..a }),
        Bpmn::Gateway(g) => Bpmn::Gateway(Gateway { func_idx: Some(v), ..g }),
        _ => b,
    }
}

/// `b2` is `b1` with a handler bound where the registrations provide one,
/// and unchanged otherwise.
pub open spec fn install_rel(b1: Bpmn, b2: Bpmn, hm: Seq<(HandlerType, String, usize)>) -> bool {
    if needs_handler(b1) {
        match binds(b1, hm) {
            Some(v) => b2 == set_func_idx(b1, v),
            None => b2 == b1,
        }
    } else {
        b2 == b1
    }
}

/// Every node that must run a handler has one bound.
pub open spec fn installed_ok(b: Bpmn) -> bool {
    needs_handler(b) ==> match b {
        Bpmn::Activity(a) => a.func_idx is Some,
        Bpmn::Gateway(g) => g.func_idx is Some,
        _ => true,
    }
}

/// Whether `s` occurs in `v`, compared by contents.
pub fn contains_str(v: &Vec<String>, s: &str) -> (r: bool)
    ensures
        r == exists|i: int| 0 <= i < v@.len() && v@[i]@ == s@,
{
    let mut k: usize = 0;
    while k < v.len()
        invariant
            k <= v@.len(),
            forall|m: int| 0 <= m < k ==> v@[m]@ != s@,
        decreases v@.len() - k,
    {
        if str_eq(v[k].as_str(), s) {
            return true;
        }
        k = k + 1;
    }
    false
}

/// The whole parsed diagram: the process and sub-process blocks in
/// completion order, the definitions block last.
#[derive(Debug, PartialEq, Eq)]
pub struct Diagram {
    pub data: Vec<ProcessData>,
}

/// Every node of every block keeps its parallel output arrays in step.
pub open spec fn diagram_wf(d: Diagram) -> bool {
    forall|p: int| 0 <= p < d.data@.len() ==> (#[trigger] d.data@[p]).wf()
}

/// Every process or sub-process node refers to an earlier block than its
/// own, so recursing into a sub-process always descends.
pub open spec fn nested_below(b: Bpmn, bound: int) -> bool {
    match b {
        Bpmn::Process { data_index, .. } => data_index matches Some(d) ==> d < bound,
        Bpmn::Activity(a) => a.activity_type matches ActivityType::SubProcess {
            data_index,
        } ==> (data_index matches Some(d) ==> d < bound),
        _ => true,
    }
}

/// Every block's process and sub-process nodes point below the block itself.
pub open spec fn diagram_nested_wf(d: Diagram) -> bool {
    forall|p: int, i: int|
        0 <= p < d.data@.len() && 0 <= i < d.data@[p].data@.len() ==> nested_below(
            #[trigger] d.data@[p].data@[i],
            p,
        )
}

impl Diagram {
    pub fn new(data: Vec<ProcessData>) -> (r: Diagram)
        ensures
            r.data@ == data@,
    {
        Diagram { data }
    }

    /// The definitions block, which lists all top level processes; it is
    /// always the last block.
    pub fn get_definition(&self) -> (r: Option<&ProcessData>)
        ensures
            match r {
                Some(pd) => self.data@.len() > 0 && *pd == self.data@.last(),
                None => self.data@.len() == 0,
            },
    {
        if self.data.len() > 0 {
            Some(&self.data[self.data.len() - 1])
        } else {
            None
        }
    }

    /// The block with this index: a process or a sub-process.
    pub fn get_process(&self, process_id: usize) -> (r: Option<&ProcessData>)
        ensures
            match r {
                Some(pd) => process_id < self.data@.len() && *pd == self.data@[process_id as int],
                None => process_id >= self.data@.len(),
            },
    {
        if process_id < self.data.len() {
            Some(&self.data[process_id])
        } else {
            None
        }
    }

    /// All blocks, in completion order.
    pub fn data(&self) -> (r: &[ProcessData])
        ensures
            r@ == self.data@,
    {
        self.data.as_slice()
    }

    /// Bind the registered handlers into the diagram's nodes and collect a
    /// description of every required handler that was never registered. The
    /// build succeeds exactly when the returned list is empty.
    pub fn install_and_check(&mut self, handler_map: HandlerMap) -> (r: Vec<String>)
        ensures
            final(self).data@.len() == old(self).data@.len(),
            forall|p: int|
                0 <= p < old(self).data@.len() ==> {
                    let b1 = old(self).data@[p];
                    let b2 = #[trigger] final(self).data@[p];
                    &&& b2.data@.len() == b1.data@.len()
                    &&& b2.start == b1.start
                    &&& b2.boundaries@ == b1.boundaries@
                    &&& b2.catch_event_links@ == b1.catch_event_links@
                    &&& forall|i: int|
                        0 <= i < b1.data@.len() ==> install_rel(
                            b1.data@[i],
                            #[trigger] b2.data@[i],
                            handler_map.entries@,
                        )
                },
            (r@.len() == 0) <==> (forall|p: int, i: int|
                0 <= p < old(self).data@.len() && 0 <= i < old(self).data@[p].data@.len()
                    && needs_handler(#[trigger] old(self).data@[p].data@[i]) ==> binds(
                    old(self).data@[p].data@[i],
                    handler_map.entries@,
                ) is Some),
            r@.len() == 0 ==> forall|p: int, i: int|
                0 <= p < final(self).data@.len() && 0 <= i < final(self).data@[p].data@.len()
                    ==> installed_ok(#[trigger] final(self).data@[p].data@[i]),
            missing_report_ok(old(self).data@, handler_map.entries@, r@),
    {
        let ghost orig = self.data@;
        let mut missing: Vec<String> = Vec::new();
        let mut p: usize = 0;
        while p < self.data.len()
            invariant
                self.data@.len() == orig.len(),
                p <= orig.len(),
                forall|q: int| p <= q < orig.len() ==> self.data@[q] == orig[q],
                forall|q: int|
                    0 <= q < p ==> {
                        let b1 = orig[q];
                        let b2 = #[trigger] self.data@[q];
                        &&& b2.data@.len() == b1.data@.len()
                        &&& b2.start == b1.start
                        &&& b2.boundaries@ == b1.boundaries@
                        &&& b2.catch_event_links@ == b1.catch_event_links@
                        &&& forall|i: int|
                            0 <= i < b1.data@.len() ==> install_rel(
                                b1.data@[i],
                                #[trigger] b2.data@[i],
                                handler_map.entries@,
                            )
                    },
                (missing@.len() == 0) <==> (forall|q: int, i: int|
                    0 <= q < p && 0 <= i < orig[q].data@.len() && needs_handler(
                        #[trigger] orig[q].data@[i],
                    ) ==> binds(orig[q].data@[i], handler_map.entries@) is Some),
                forall|k: int|
                    0 <= k < missing@.len() ==> unbound_descriptor(
                        orig,
                        handler_map.entries@,
                        (#[trigger] missing@[k])@,
                    ),
                forall|q: int, i: int|
                    #![trigger orig[q].data@[i]]
                    0 <= q < p && 0 <= i < orig[q].data@.len() && needs_handler(
                        orig[q].data@[i],
                    ) && binds(orig[q].data@[i], handler_map.entries@) is None ==> listed(
                        missing@,
                        descriptor_of(orig[q].data@[i]),
                    ),
                forall|k1: int, k2: int|
                    0 <= k1 < k2 < missing@.len() ==> (#[trigger] missing@[k1])@ != (
                    #[trigger] missing@[k2])@,
            decreases orig.len() - p,
        {
            let mut block = ProcessData::new();
            self.data.set_and_swap(p, &mut block);
            let ghost borig = block.data@;
            let mut i: usize = 0;
            while i < block.data.len()
                invariant
                    p < orig.len(),
                    block.data@.len() == borig.len(),
                    i <= borig.len(),
                    block.start == orig[p as int].start,
                    block.boundaries@ == orig[p as int].boundaries@,
                    block.catch_event_links@ == orig[p as int].catch_event_links@,
                    borig == orig[p as int].data@,
                    forall|j: int| i <= j < borig.len() ==> block.data@[j] == borig[j],
                    forall|j: int|
                        0 <= j < i ==> install_rel(
                            borig[j],
                            #[trigger] block.data@[j],
                            handler_map.entries@,
                        ),
                    (missing@.len() == 0) <==> ((forall|q: int, k: int|
                        0 <= q < p && 0 <= k < orig[q].data@.len() && needs_handler(
                            #[trigger] orig[q].data@[k],
                        ) ==> binds(orig[q].data@[k], handler_map.entries@) is Some) && (forall|
                        j: int,
                    |
                        0 <= j < i && needs_handler(#[trigger] borig[j]) ==> binds(
                            borig[j],
                            handler_map.entries@,
                        ) is Some)),
                    forall|k: int|
                        0 <= k < missing@.len() ==> unbound_descriptor(
                            orig,
                            handler_map.entries@,
                            (#[trigger] missing@[k])@,
                        ),
                    forall|q: int, k: int|
                        #![trigger orig[q].data@[k]]
                        0 <= q < p && 0 <= k < orig[q].data@.len() && needs_handler(
                            orig[q].data@[k],
                        ) && binds(orig[q].data@[k], handler_map.entries@) is None ==> listed(
                            missing@,
                            descriptor_of(orig[q].data@[k]),
                        ),
                    forall|j: int|
                        0 <= j < i && needs_handler(#[trigger] borig[j]) && binds(
                            borig[j],
                            handler_map.entries@,
                        ) is None ==> listed(missing@, descriptor_of(borig[j])),
                    forall|k1: int, k2: int|
                        0 <= k1 < k2 < missing@.len() ==> (#[trigger] missing@[k1])@ != (
                        #[trigger] missing@[k2])@,
                decreases borig.len() - i,
            {
                let mut node = Bpmn::Direction {
                    direction_type: DirectionType::Incoming,
                    text: None,
                };
                block.data.set_and_swap(i, &mut node);
                proof {
                    assert(node == borig[i as int]);
                }
                let new_node = match node {
                    Bpmn::Activity(Activity { id, name, activity_type, outputs, func_idx }) => {
                        let is_task = match &activity_type {
                            ActivityType::SubProcess { .. } => false,
                            _ => true,
                        };
                        if is_task {
                            let key = key_of(&name, &id);
                            match handler_map.get(HandlerType::Task, key) {
                                Some(v) => Bpmn::Activity(
                                    Activity { id, name, activity_type, outputs, func_idx: Some(v) },
                                ),
                                None => {
                                    let d = String::from_str(activity_type.text()).concat(
                                        ": ",
                                    ).concat(key);
                                    proof {
                                        assert(d@ =~= descriptor_of(borig[i as int]));
                                        assert(needs_handler(borig[i as int]));
                                        assert(binds(
                                            borig[i as int],
                                            handler_map.entries@,
                                        ) is None);
                                        assert(orig[p as int].data@[i as int] == borig[
                                            i as int
                                        ]);
                                        assert(unbound_descriptor(
                                            orig,
                                            handler_map.entries@,
                                            d@,
                                        ));
                                    }
                                    let ghost ms0 = missing@;
                                    if !contains_str(&missing, d.as_str()) {
                                        missing.push(d);
                                        proof {
                                            assert forall|dd: Seq<char>|
                                                listed(ms0, dd) implies listed(
                                                missing@,
                                                dd,
                                            ) by {
                                                let k = choose|k: int|
                                                    0 <= k < ms0.len() && (#[trigger] ms0[k])@
                                                        == dd;
                                                assert(missing@[k]@ == dd);
                                            }
                                            assert(missing@[ms0.len() as int]@ == descriptor_of(
                                                borig[i as int],
                                            ));
                                            assert(listed(
                                                missing@,
                                                descriptor_of(borig[i as int]),
                                            ));
                                        }
                                    } else {
                                        proof {
                                            assert(listed(
                                                missing@,
                                                descriptor_of(borig[i as int]),
                                            ));
                                        }
                                    }
                                    Bpmn::Activity(
                                        Activity { id, name, activity_type, outputs, func_idx },
                                    )
                                }
                            }
                        } else {
                            Bpmn::Activity(Activity { id, name, activity_type, outputs, func_idx })
                        }
                    }
                    Bpmn::Gateway(
                        Gateway { id, name, gateway_type, outputs, inputs, default, func_idx },
                    ) => {
                        let ht = match gateway_type {
                            GatewayType::Exclusive => Some(HandlerType::Exclusive),
                            GatewayType::Inclusive => Some(HandlerType::Inclusive),
                            GatewayType::EventBased => Some(HandlerType::EventBased),
                            _ => None,
                        };
                        match ht {
                            Some(ht) if outputs.len() > 1 => {
                                let key = key_of(&name, &id);
                                match handler_map.get(ht, key) {
                                    Some(v) => Bpmn::Gateway(
                                        Gateway {
                                            id,
                                            name,
                                            gateway_type,
                                            outputs,
                                            inputs,
                                            default,
                                            func_idx: Some(v),
                                        },
                                    ),
                                    None => {
                                        let d = String::from_str(gateway_type.text()).concat(
                                            ": ",
                                        ).concat(key);
                                        proof {
                                            assert(d@ =~= descriptor_of(borig[i as int]));
                                            assert(needs_handler(borig[i as int]));
                                            assert(binds(
                                                borig[i as int],
                                                handler_map.entries@,
                                            ) is None);
                                            assert(orig[p as int].data@[i as int] == borig[
                                                i as int
                                            ]);
                                            assert(unbound_descriptor(
                                                orig,
                                                handler_map.entries@,
                                                d@,
                                            ));
                                        }
                                        let ghost ms0 = missing@;
                                        if !contains_str(&missing, d.as_str()) {
                                            missing.push(d);
                                            proof {
                                                assert forall|dd: Seq<char>|
                                                    listed(ms0, dd) implies listed(
                                                    missing@,
                                                    dd,
                                                ) by {
                                                    let k = choose|k: int|
                                                        0 <= k < ms0.len() && (#[trigger] ms0[
                                                            k
                                                        ])@ == dd;
                                                    assert(missing@[k]@ == dd);
                                                }
                                                assert(missing@[ms0.len() as int]@
                                                    == descriptor_of(borig[i as int]));
                                                assert(listed(
                                                    missing@,
                                                    descriptor_of(borig[i as int]),
                                                ));
                                            }
                                        } else {
                                            proof {
                                                assert(listed(
                                                    missing@,
                                                    descriptor_of(borig[i as int]),
                                                ));
                                            }
                                        }
                                        Bpmn::Gateway(
                                            Gateway {
                                                id,
                                                name,
                                                gateway_type,
                                                outputs,
                                                inputs,
                                                default,
                                                func_idx,
                                            },
                                        )
                                    }
                                }
                            }
                            _ => Bpmn::Gateway(
                                Gateway {
                                    id,
                                    name,
                                    gateway_type,
                                    outputs,
                                    inputs,
                                    default,
                                    func_idx,
                                },
                            ),
                        }
                    }
                    other => other,
                };
                block.data.set(i, new_node);
                i = i + 1;
            }
            self.data.set(p, block);
            p = p + 1;
        }
        proof {
            if missing@.len() == 0 {
                assert forall|p2: int, i2: int|
                    0 <= p2 < self.data@.len() && 0 <= i2 < self.data@[p2].data@.len() implies installed_ok(
                    #[trigger] self.data@[p2].data@[i2],
                ) by {
                    assert(install_rel(
                        orig[p2].data@[i2],
                        self.data@[p2].data@[i2],
                        handler_map.entries@,
                    ));
                    assert(needs_handler(orig[p2].data@[i2]) ==> binds(
                        orig[p2].data@[i2],
                        handler_map.entries@,
                    ) is Some);
                }
            }
        }
        missing
    }
}

} // verus!
