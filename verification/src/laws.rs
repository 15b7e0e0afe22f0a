use vstd::prelude::*;

use crate::diagram::{
    boundary_pairs, id_entries, link_pairs, node_resolved, outputs_resolved, resolve_local,
    table_lookup, ProcessData,
};
use crate::model::{bpmn_id_spec, Bpmn, Outputs};

verus! {

/// No two nodes of the block share a textual id.
pub open spec fn unique_ids(nodes: Seq<Bpmn>) -> bool {
    forall|j1: int, j2: int|
        0 <= j1 < nodes.len() && 0 <= j2 < nodes.len() && (bpmn_id_spec(#[trigger] nodes[j1])
            matches Some(id1) && (bpmn_id_spec(#[trigger] nodes[j2]) matches Some(id2)
            && id1.bpmn_id@ == id2.bpmn_id@)) ==> j1 == j2
}

/// The node carries outgoing flow references.
pub open spec fn has_outputs(b: Bpmn) -> bool {
    match b {
        Bpmn::Activity(_) => true,
        Bpmn::Event(_) => true,
        Bpmn::Gateway(_) => true,
        _ => false,
    }
}

/// The outgoing flow references of a node that carries them.
pub open spec fn outputs_of(b: Bpmn) -> Outputs
    recommends
        has_outputs(b),
{
    match b {
        Bpmn::Activity(a) => a.outputs,
        Bpmn::Event(e) => e.outputs,
        Bpmn::Gateway(g) => g.outputs,
        _ => arbitrary(),
    }
}

/// The node is a sequence flow whose textual id is `key`.
pub open spec fn flow_with_id(b: Bpmn, key: Seq<char>) -> bool {
    b matches Bpmn::SequenceFlow { id, .. } && id.bpmn_id@ == key
}

/// What the id table gives for a key: the index of a node carrying that id,
/// and nothing when no node carries it.
pub proof fn lemma_lookup_in_entries(nodes: Seq<Bpmn>, key: Seq<char>)
    requires
        nodes.len() <= usize::MAX,
    ensures
        match table_lookup(id_entries(nodes), key) {
            Some(v) => v < nodes.len() && (bpmn_id_spec(nodes[v as int]) matches Some(id)
                && id.bpmn_id@ == key),
            None => forall|j: int|
                0 <= j < nodes.len() ==> !(bpmn_id_spec(#[trigger] nodes[j]) matches Some(id)
                    && id.bpmn_id@ == key),
        },
    decreases nodes.len(),
{
    if nodes.len() == 0 {
        assert(id_entries(nodes) =~= Seq::<(String, usize)>::empty());
    } else {
        let prefix = nodes.drop_last();
        lemma_lookup_in_entries(prefix, key);
        match bpmn_id_spec(nodes.last()) {
            Some(id) => {
                let e = id_entries(nodes);
                assert(e =~= id_entries(prefix).push((id.bpmn_id, (nodes.len() - 1) as usize)));
                if id.bpmn_id@ == key {
                    assert(table_lookup(e, key) == Some((nodes.len() - 1) as usize));
                } else {
                    assert(e.drop_last() =~= id_entries(prefix));
                    assert(table_lookup(e, key) == table_lookup(id_entries(prefix), key));
                    match table_lookup(id_entries(prefix), key) {
                        Some(v) => {
                            assert(nodes[v as int] == prefix[v as int]);
                        }
                        None => {
                            assert forall|j: int|
                                0 <= j < nodes.len() implies !(bpmn_id_spec(#[trigger] nodes[j])
                                matches Some(id2) && id2.bpmn_id@ == key) by {
                                if j < nodes.len() - 1 {
                                    assert(nodes[j] == prefix[j]);
                                }
                            }
                        }
                    }
                }
            }
            None => {
                let e = id_entries(nodes);
                assert(e =~= id_entries(prefix));
                match table_lookup(id_entries(prefix), key) {
                    Some(v) => {
                        assert(nodes[v as int] == prefix[v as int]);
                    }
                    None => {
                        assert forall|j: int|
                            0 <= j < nodes.len() implies !(bpmn_id_spec(#[trigger] nodes[j])
                            matches Some(id2) && id2.bpmn_id@ == key) by {
                            if j < nodes.len() - 1 {
                                assert(nodes[j] == prefix[j]);
                            }
                        }
                    }
                }
            }
        }
    }
}

/// With unique ids, the table resolves a node's own id to that node.
pub proof fn lemma_lookup_unique(nodes: Seq<Bpmn>, key: Seq<char>, f: int)
    requires
        nodes.len() <= usize::MAX,
        unique_ids(nodes),
        0 <= f < nodes.len(),
        bpmn_id_spec(nodes[f]) matches Some(id) && id.bpmn_id@ == key,
    ensures
        table_lookup(id_entries(nodes), key) == Some(f as usize),
{
    lemma_lookup_in_entries(nodes, key);
    match table_lookup(id_entries(nodes), key) {
        Some(v) => {
            assert(v as int == f);
        }
        None => {
            assert(false);
        }
    }
}

/// Law: in a finalized block whose node ids are unique and whose every
/// outgoing reference names a declared sequence flow, every resolved output
/// index points at an existing node that is a sequence flow.
pub proof fn lemma_outputs_index_sequence_flows(before: ProcessData, after: ProcessData)
    requires
        before.wf(),
        before.data@.len() <= usize::MAX,
        after.data@.len() == before.data@.len(),
        forall|i: int|
            0 <= i < before.data@.len() ==> node_resolved(
                before.data@[i],
                #[trigger] after.data@[i],
                id_entries(before.data@),
            ),
        unique_ids(before.data@),
        forall|i: int, k: int|
            #![trigger outputs_of(before.data@[i]).bpmn_ids@[k]]
            0 <= i < before.data@.len() && has_outputs(before.data@[i]) && 0 <= k < outputs_of(
                before.data@[i],
            ).bpmn_ids@.len() ==> exists|f: int|
                0 <= f < before.data@.len() && flow_with_id(
                    #[trigger] before.data@[f],
                    outputs_of(before.data@[i]).bpmn_ids@[k]@,
                ),
    ensures
        forall|i: int, k: int|
            #![trigger outputs_of(after.data@[i]).local_ids@[k]]
            0 <= i < after.data@.len() && has_outputs(after.data@[i]) && 0 <= k < outputs_of(
                after.data@[i],
            ).local_ids@.len() ==> {
                let v = outputs_of(after.data@[i]).local_ids@[k];
                &&& v < after.data@.len()
                &&& after.data@[v as int] matches Bpmn::SequenceFlow { .. }
            },
{
    assert forall|i: int, k: int|
        #![trigger outputs_of(after.data@[i]).local_ids@[k]]
        0 <= i < after.data@.len() && has_outputs(after.data@[i]) && 0 <= k < outputs_of(
            after.data@[i],
        ).local_ids@.len() implies {
        let v = outputs_of(after.data@[i]).local_ids@[k];
        &&& v < after.data@.len()
        &&& after.data@[v as int] matches Bpmn::SequenceFlow { .. }
    } by {
        let entries = id_entries(before.data@);
        assert(node_resolved(before.data@[i], after.data@[i], entries));
        assert(has_outputs(before.data@[i]));
        assert(crate::diagram::node_wf(before.data@[i]));
        let o1 = outputs_of(before.data@[i]);
        let o2 = outputs_of(after.data@[i]);
        assert(o1.wf());
        assert(outputs_resolved(o1, o2, entries));
        assert(0 <= k < o1.bpmn_ids@.len());
        assert(o2.local_ids@[k] == resolve_local(o1.bpmn_ids@[k]@, o1.local_ids@[k], entries));
        let key = o1.bpmn_ids@[k]@;
        let f = choose|f: int|
            0 <= f < before.data@.len() && flow_with_id(#[trigger] before.data@[f], key);
        lemma_lookup_unique(before.data@, key, f);
        assert(o2.local_ids@[k] == f as usize);
        assert(node_resolved(before.data@[f], after.data@[f], entries));
    }
}

/// Law: in a finalized block where every sequence flow's target names a
/// declared node, every resolved target index points at an existing node of
/// the same block.
pub proof fn lemma_flow_targets_exist(before: ProcessData, after: ProcessData)
    requires
        before.data@.len() <= usize::MAX,
        after.data@.len() == before.data@.len(),
        forall|i: int|
            0 <= i < before.data@.len() ==> node_resolved(
                before.data@[i],
                #[trigger] after.data@[i],
                id_entries(before.data@),
            ),
        forall|i: int|
            (0 <= i < before.data@.len() && ((#[trigger] before.data@[i])
                matches Bpmn::SequenceFlow { .. })) ==> exists|f: int|
                0 <= f < before.data@.len() && (bpmn_id_spec(#[trigger] before.data@[f])
                    matches Some(id) && id.bpmn_id@
                    == before.data@[i]->SequenceFlow_target_ref.bpmn_id@),
    ensures
        forall|i: int|
            (0 <= i < after.data@.len() && ((#[trigger] after.data@[i])
                matches Bpmn::SequenceFlow { .. })) ==> after.data@[
                i
            ]->SequenceFlow_target_ref.local_id < after.data@.len(),
{
    assert forall|i: int|
        (0 <= i < after.data@.len() && ((#[trigger] after.data@[i]) matches Bpmn::SequenceFlow {
            ..
        })) implies after.data@[i]->SequenceFlow_target_ref.local_id < after.data@.len() by {
        let entries = id_entries(before.data@);
        assert(node_resolved(before.data@[i], after.data@[i], entries));
        assert(before.data@[i] matches Bpmn::SequenceFlow { .. });
        let key = before.data@[i]->SequenceFlow_target_ref.bpmn_id@;
        lemma_lookup_in_entries(before.data@, key);
        match table_lookup(entries, key) {
            Some(v) => {}
            None => {
                let f = choose|f: int|
                    0 <= f < before.data@.len() && (bpmn_id_spec(#[trigger] before.data@[f])
                        matches Some(id) && id.bpmn_id@ == key);
                assert(false);
            }
        }
    }
}


/// The two parallel output arrays agree element by element.
pub open spec fn outputs_view_eq(a: Outputs, b: Outputs) -> bool {
    a.bpmn_ids@ == b.bpmn_ids@ && a.local_ids@ == b.local_ids@
}

/// The two nodes agree on every field, with their output arrays compared
/// by contents.
pub open spec fn node_view_eq(x: Bpmn, y: Bpmn) -> bool {
    match (x, y) {
        (Bpmn::Activity(a), Bpmn::Activity(b)) => a.id == b.id && a.name == b.name
            && a.activity_type == b.activity_type && a.func_idx == b.func_idx && outputs_view_eq(
            a.outputs,
            b.outputs,
        ),
        (Bpmn::Event(a), Bpmn::Event(b)) => a.id == b.id && a.name == b.name && a.event_type
            == b.event_type && a.symbol == b.symbol && a.attached_to_ref == b.attached_to_ref
            && outputs_view_eq(a.outputs, b.outputs),
        (Bpmn::Gateway(a), Bpmn::Gateway(b)) => a.id == b.id && a.name == b.name && a.gateway_type
            == b.gateway_type && a.inputs == b.inputs && a.default == b.default && a.func_idx
            == b.func_idx && outputs_view_eq(a.outputs, b.outputs),
        _ => x == y,
    }
}

/// Resolving a node's references against a table is deterministic: two
/// outcomes of the same node and table agree on every field.
pub proof fn lemma_resolution_deterministic(
    b: Bpmn,
    x: Bpmn,
    y: Bpmn,
    entries: Seq<(String, usize)>,
)
    requires
        node_resolved(b, x, entries),
        node_resolved(b, y, entries),
    ensures
        node_view_eq(x, y),
{
    match b {
        Bpmn::Activity(a1) => {
            assert(outputs_resolved(a1.outputs, outputs_of(x), entries));
            assert(outputs_resolved(a1.outputs, outputs_of(y), entries));
            assert(outputs_of(x).local_ids@ =~= outputs_of(y).local_ids@);
        }
        Bpmn::Event(e1) => {
            assert(outputs_resolved(e1.outputs, outputs_of(x), entries));
            assert(outputs_resolved(e1.outputs, outputs_of(y), entries));
            assert(outputs_of(x).local_ids@ =~= outputs_of(y).local_ids@);
        }
        Bpmn::Gateway(g1) => {
            assert(outputs_resolved(g1.outputs, outputs_of(x), entries));
            assert(outputs_resolved(g1.outputs, outputs_of(y), entries));
            assert(outputs_of(x).local_ids@ =~= outputs_of(y).local_ids@);
        }
        _ => {}
    }
}

/// Node-by-node agreement carries over to the boundary attachment pairs
/// and the link catch pairs gathered from a block.
pub proof fn lemma_pairs_respect_view_eq(n1: Seq<Bpmn>, n2: Seq<Bpmn>)
    requires
        n1.len() == n2.len(),
        forall|i: int| 0 <= i < n1.len() ==> node_view_eq(#[trigger] n1[i], #[trigger] n2[i]),
    ensures
        boundary_pairs(n1) == boundary_pairs(n2),
        link_pairs(n1) == link_pairs(n2),
    decreases n1.len(),
{
    if n1.len() > 0 {
        lemma_pairs_respect_view_eq(n1.drop_last(), n2.drop_last());
        assert(node_view_eq(n1.last(), n2.last()));
        match (n1.last(), n2.last()) {
            (Bpmn::Event(e1), Bpmn::Event(e2)) => {
                assert(boundary_pairs(n1) =~= boundary_pairs(n2));
                assert(link_pairs(n1) =~= link_pairs(n2));
            }
            _ => {
                assert(boundary_pairs(n1) =~= boundary_pairs(n2));
                assert(link_pairs(n1) =~= link_pairs(n2));
            }
        }
    }
}

/// Law: finalizing the same block twice is deterministic. Two outcomes of
/// the rewrite agree on every node, on the start index, and on the gathered
/// boundary and link tables.
pub proof fn lemma_finalize_deterministic(before: ProcessData, a1: ProcessData, a2: ProcessData)
    requires
        a1.data@.len() == before.data@.len(),
        a2.data@.len() == before.data@.len(),
        forall|i: int|
            0 <= i < before.data@.len() ==> node_resolved(
                before.data@[i],
                #[trigger] a1.data@[i],
                id_entries(before.data@),
            ),
        forall|i: int|
            0 <= i < before.data@.len() ==> node_resolved(
                before.data@[i],
                #[trigger] a2.data@[i],
                id_entries(before.data@),
            ),
        a1.start == before.start,
        a2.start == before.start,
        a1.boundaries@ == boundary_pairs(a1.data@),
        a2.boundaries@ == boundary_pairs(a2.data@),
        a1.catch_event_links@ == link_pairs(a1.data@),
        a2.catch_event_links@ == link_pairs(a2.data@),
    ensures
        forall|i: int|
            0 <= i < before.data@.len() ==> node_view_eq(
                #[trigger] a1.data@[i],
                #[trigger] a2.data@[i],
            ),
        a1.start == a2.start,
        a1.boundaries@ == a2.boundaries@,
        a1.catch_event_links@ == a2.catch_event_links@,
{
    assert forall|i: int|
        0 <= i < before.data@.len() implies node_view_eq(
        #[trigger] a1.data@[i],
        #[trigger] a2.data@[i],
    ) by {
        lemma_resolution_deterministic(
            before.data@[i],
            a1.data@[i],
            a2.data@[i],
            id_entries(before.data@),
        );
    }
    lemma_pairs_respect_view_eq(a1.data@, a2.data@);
}

} // verus!
