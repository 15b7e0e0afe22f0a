use vstd::prelude::*;
use vstd::pervasive::VecAdditionalExecFns;
use vstd::string::StringExecFns;

use crate::diagram::{is_none_start, nested_below, node_wf, Diagram, ProcessData};
use crate::error::Error;
use crate::model::{
    add_output_rel, bump_input, key_of, set_data_index, set_local_id, ActivityType, Bpmn,
    DirectionType, Event,
    Symbol,
};

verus! {

/// A node carries no data block reference yet; only ending a process or
/// sub-process assigns one.
pub open spec fn no_data_index(b: Bpmn) -> bool {
    match b {
        Bpmn::Process { data_index, .. } => data_index is None,
        Bpmn::Activity(a) => match a.activity_type {
            ActivityType::SubProcess { data_index } => data_index is None,
            _ => true,
        },
        _ => true,
    }
}

/// The innermost open block of `ps2` is that of `ps1` with `bpmn` appended,
/// stamped with its index; everything else is unchanged.
pub open spec fn pushed_to_top(ps1: Seq<ProcessData>, ps2: Seq<ProcessData>, bpmn: Bpmn) -> bool {
    &&& ps1.len() > 0
    &&& ps2.len() == ps1.len()
    &&& ps2.drop_last() == ps1.drop_last()
    &&& !(is_none_start(bpmn) && ps1.last().start is Some)
    &&& ps2.last().data@ == ps1.last().data@.push(
        set_local_id(bpmn, ps1.last().data@.len() as usize),
    )
    &&& ps2.last().start == (if is_none_start(bpmn) {
        Some(ps1.last().data@.len() as usize)
    } else {
        ps1.last().start
    })
    &&& ps2.last().boundaries@ == ps1.last().boundaries@
    &&& ps2.last().catch_event_links@ == ps1.last().catch_event_links@
}


/// What opening an ordinary element does: its node goes onto the element
/// stack, nothing else moves.
pub open spec fn pushed_node(b1: DataBuilder, b2: DataBuilder, bpmn: Bpmn) -> bool {
    &&& b2.stack@ == b1.stack@.push(bpmn)
    &&& b2.data@ == b1.data@
    &&& b2.process_stack@ == b1.process_stack@
}

/// What opening a process, sub-process or definitions element does: a
/// fresh empty block is opened and the node goes onto the element stack.
pub open spec fn opened_process(b1: DataBuilder, b2: DataBuilder, bpmn: Bpmn) -> bool {
    &&& b2.stack@ == b1.stack@.push(bpmn)
    &&& b2.data@ == b1.data@
    &&& b2.process_stack@.len() == b1.process_stack@.len() + 1
    &&& b2.process_stack@.drop_last() == b1.process_stack@
    &&& b2.process_stack@.last().data@ == Seq::<Bpmn>::empty()
    &&& b2.process_stack@.last().start is None
}

/// What appending a finished node to the innermost open block does: with no
/// block open nothing happens; otherwise the node joins the top block, or a
/// duplicate none-symbol start is rejected and nothing changes.
pub open spec fn appended_to_process(
    b1: DataBuilder,
    b2: DataBuilder,
    bpmn: Bpmn,
    r: Result<(), Error>,
) -> bool {
    &&& b2.data@ == b1.data@
    &&& b2.stack@ == b1.stack@
    &&& (b1.process_stack@.len() == 0 ==> r is Ok && b2.process_stack@ == b1.process_stack@)
    &&& (b1.process_stack@.len() > 0 ==> match r {
        Ok(()) => pushed_to_top(b1.process_stack@, b2.process_stack@, bpmn),
        Err(e) => {
            &&& is_none_start(bpmn) && b1.process_stack@.last().start is Some
            &&& (e matches Error::BpmnRequirement(m) && m@
                == "There can only be one start event of type none"@)
            &&& b2.process_stack@ == b1.process_stack@
        },
    })
}

/// What recording a symbol does: the innermost open element, when it is an
/// event, gets the symbol.
pub open spec fn symbol_applied(b1: DataBuilder, b2: DataBuilder, symbol: Symbol) -> bool {
    &&& b2.data@ == b1.data@
    &&& b2.process_stack@ == b1.process_stack@
    &&& (b1.stack@.len() == 0 ==> b2.stack@ == b1.stack@)
    &&& (b1.stack@.len() > 0 ==> b2.stack@ == b1.stack@.update(
        b1.stack@.len() - 1,
        match b1.stack@.last() {
            Bpmn::Event(e) => Bpmn::Event(Event { symbol: Some(symbol), ..e }),
            other => other,
        },
    ))
}

/// What storing element text does: the innermost open element, when it is a
/// direction, keeps the text as the referenced flow id.
pub open spec fn text_applied(b1: DataBuilder, b2: DataBuilder, value: String) -> bool {
    &&& b2.data@ == b1.data@
    &&& b2.process_stack@ == b1.process_stack@
    &&& (b1.stack@.len() == 0 ==> b2.stack@ == b1.stack@)
    &&& (b1.stack@.len() > 0 ==> b2.stack@ == b1.stack@.update(
        b1.stack@.len() - 1,
        match b1.stack@.last() {
            Bpmn::Direction { direction_type, .. } => Bpmn::Direction {
                direction_type,
                text: Some(value),
            },
            other => other,
        },
    ))
}

/// What closing a direction element does: the direction is popped and, when
/// it carried text, applied to its parent node as an output or an input.
pub open spec fn direction_applied(b1: DataBuilder, b2: DataBuilder, direction: DirectionType) -> bool {
    &&& b2.data@ == b1.data@
    &&& b2.process_stack@ == b1.process_stack@
    &&& (b1.stack@.len() == 0 ==> b2.stack@ == b1.stack@)
    &&& (b1.stack@.len() == 1 ==> b2.stack@ == b1.stack@.drop_last())
    &&& (b1.stack@.len() > 1 ==> {
        let popped = b1.stack@.last();
        let rest = b1.stack@.drop_last();
        match popped {
            Bpmn::Direction { text: Some(value), .. } => {
                &&& b2.stack@.len() == rest.len()
                &&& b2.stack@.drop_last() == rest.drop_last()
                &&& (match direction {
                    DirectionType::Outgoing => add_output_rel(rest.last(), b2.stack@.last(), value),
                    DirectionType::Incoming => b2.stack@.last() == bump_input(rest.last()),
                })
            },
            _ => b2.stack@ == rest,
        }
    })
}

/// What closing an ordinary element does: its node is popped and appended
/// to the innermost open block; a sequence flow closed this way had child
/// content, which marks an inline condition and is rejected.
pub open spec fn element_ended(b1: DataBuilder, b2: DataBuilder, r: Result<(), Error>) -> bool {
    &&& b2.data@ == b1.data@
    &&& (b1.stack@.len() == 0 ==> r is Ok && b2.stack@ == b1.stack@ && b2.process_stack@
        == b1.process_stack@)
    &&& (b1.stack@.len() > 0 ==> {
        let popped = b1.stack@.last();
        &&& b2.stack@ == b1.stack@.drop_last()
        &&& match r {
            Ok(()) => {
                &&& !(popped matches Bpmn::SequenceFlow { .. })
                &&& (if b1.process_stack@.len() == 0 {
                    b2.process_stack@ == b1.process_stack@
                } else {
                    pushed_to_top(b1.process_stack@, b2.process_stack@, popped)
                })
            },
            Err(e) => {
                &&& b2.process_stack@ == b1.process_stack@
                &&& match e {
                    Error::NotSupported(m) => popped matches Bpmn::SequenceFlow { id, name, .. }
                        && m@ == crate::model::name_or_id(name, id)
                        + ": conditional sequence flow"@,
                    Error::BpmnRequirement(m) => {
                        &&& !(popped matches Bpmn::SequenceFlow { .. })
                        &&& is_none_start(popped)
                        &&& b1.process_stack@.len() > 0
                        &&& b1.process_stack@.last().start is Some
                        &&& m@ == "There can only be one start event of type none"@
                    },
                    _ => false,
                }
            },
        }
    })
}

/// What closing a process, sub-process or definitions element does: node
/// and block are popped, the block is finalized and stored, and the node,
/// stamped with the block's index, joins the enclosing block if one is
/// open.
pub open spec fn process_ended(b1: DataBuilder, b2: DataBuilder, r: Result<(), Error>) -> bool {
    &&& (b1.stack@.len() > 0 && b1.process_stack@.len() > 0 ==> {
        let stamped = set_data_index(b1.stack@.last(), b1.data@.len() as usize);
        &&& b2.stack@ == b1.stack@.drop_last()
        &&& b2.data@.len() == b1.data@.len() + 1
        &&& b2.data@.drop_last() == b1.data@
        &&& crate::diagram::finalized_from(b1.process_stack@.last(), b2.data@.last())
        &&& (b1.process_stack@.len() == 1 ==> r is Ok && b2.process_stack@
            == b1.process_stack@.drop_last())
        &&& (b1.process_stack@.len() > 1 ==> match r {
            Ok(()) => pushed_to_top(b1.process_stack@.drop_last(), b2.process_stack@, stamped),
            Err(e) => {
                &&& e matches Error::BpmnRequirement(_)
                &&& is_none_start(stamped)
                &&& b2.process_stack@ == b1.process_stack@.drop_last()
            },
        })
    })
    &&& ((b1.stack@.len() == 0 || b1.process_stack@.len() == 0) ==> r matches Err(
        Error::Builder(_),
    ))
    &&& (r matches Err(e) ==> ((e matches Error::Builder(_)) || (e
        matches Error::BpmnRequirement(_))))
    &&& (r is Ok ==> b1.stack@.len() > 0 && b1.process_stack@.len() > 0)
}

/// Assembles process blocks from a linear stream of element events: `stack`
/// holds the currently open elements, `process_stack` the currently open
/// blocks, and `data` the finished blocks in completion order.
#[derive(Debug)]
pub struct DataBuilder {
    pub data: Vec<ProcessData>,
    pub process_stack: Vec<ProcessData>,
    pub stack: Vec<Bpmn>,
}

impl DataBuilder {
    /// The builder's standing well-formedness: finished blocks point only at
    /// earlier blocks, open blocks point only at finished blocks, and open
    /// elements carry no block reference at all.
    pub open spec fn wf(&self) -> bool {
        &&& forall|p: int|
            0 <= p < self.data@.len() ==> (#[trigger] self.data@[p]).wf() && (forall|i: int|
                0 <= i < self.data@[p].data@.len() ==> nested_below(
                    #[trigger] self.data@[p].data@[i],
                    p,
                ))
        &&& forall|s: int|
            0 <= s < self.process_stack@.len() ==> (#[trigger] self.process_stack@[s]).wf() && (
            forall|i: int|
                0 <= i < self.process_stack@[s].data@.len() ==> nested_below(
                    #[trigger] self.process_stack@[s].data@[i],
                    self.data@.len() as int,
                ))
        &&& forall|k: int|
            0 <= k < self.stack@.len() ==> node_wf(#[trigger] self.stack@[k]) && no_data_index(
                self.stack@[k],
            )
    }

    pub fn new() -> (r: DataBuilder)
        ensures
            r.data@ == Seq::<ProcessData>::empty(),
            r.process_stack@ == Seq::<ProcessData>::empty(),
            r.stack@ == Seq::<Bpmn>::empty(),
            r.wf(),
    {
        DataBuilder { data: Vec::new(), process_stack: Vec::new(), stack: Vec::new() }
    }

    /// Open an element: push its node onto the element stack.
    pub fn add(&mut self, bpmn: Bpmn)
        requires
            old(self).wf(),
            node_wf(bpmn),
            no_data_index(bpmn),
        ensures
            final(self).wf(),
            pushed_node(*old(self), *final(self), bpmn),
    {
        self.stack.push(bpmn);
    }

    /// Open a process or sub-process: push a fresh block and its node.
    pub fn add_new_process(&mut self, bpmn: Bpmn)
        requires
            old(self).wf(),
            node_wf(bpmn),
            no_data_index(bpmn),
        ensures
            final(self).wf(),
            opened_process(*old(self), *final(self), bpmn),
    {
        self.process_stack.push(ProcessData::new());
        proof {
            assert(self.process_stack@.drop_last() =~= old(self).process_stack@);
        }
        self.add(bpmn);
    }

    /// Append a finished node to the innermost open block, if one is open.
    /// A second none-symbol start event in a block is rejected.
    pub fn add_to_process(&mut self, bpmn: Bpmn) -> (r: Result<(), Error>)
        requires
            old(self).wf(),
            node_wf(bpmn),
            nested_below(bpmn, old(self).data@.len() as int),
        ensures
            final(self).wf(),
            appended_to_process(*old(self), *final(self), bpmn, r),
    {
        let n = self.process_stack.len();
        if n > 0 {
            let mut top = ProcessData::new();
            self.process_stack.set_and_swap(n - 1, &mut top);
            proof {
                assert(top == old(self).process_stack@.last());
            }
            let result = top.add(bpmn);
            self.process_stack.set(n - 1, top);
            proof {
                assert(self.process_stack@.drop_last() =~= old(self).process_stack@.drop_last());
                if result is Err {
                    assert(self.process_stack@ =~= old(self).process_stack@);
                }
            }
            result
        } else {
            Ok(())
        }
    }

    /// Record the symbol of the innermost open element, when it is an event.
    pub fn update_symbol(&mut self, symbol: Symbol)
        requires
            old(self).wf(),
        ensures
            final(self).wf(),
            symbol_applied(*old(self), *final(self), symbol),
    {
        let n = self.stack.len();
        if n > 0 {
            let mut node = Bpmn::Direction { direction_type: DirectionType::Incoming, text: None };
            self.stack.set_and_swap(n - 1, &mut node);
            proof {
                assert(node == old(self).stack@.last());
            }
            let new_node = match node {
                Bpmn::Event(Event { id, name, event_type, symbol: _, outputs, attached_to_ref }) => {
                    Bpmn::Event(
                        Event {
                            id,
                            name,
                            event_type,
                            symbol: Some(symbol),
                            outputs,
                            attached_to_ref,
                        },
                    )
                }
                other => other,
            };
            self.stack.set(n - 1, new_node);
            proof {
                assert(self.stack@ =~= old(self).stack@.update(
                    old(self).stack@.len() - 1,
                    new_node,
                ));
            }
        } else {
            proof {
                assert(self.stack@ =~= old(self).stack@);
            }
        }
    }

    /// Store element text into the innermost open element, when it is a
    /// direction: the text is the referenced sequence flow id.
    pub fn add_text(&mut self, value: String)
        requires
            old(self).wf(),
        ensures
            final(self).wf(),
            text_applied(*old(self), *final(self), value),
    {
        let n = self.stack.len();
        if n > 0 {
            let mut node = Bpmn::Direction { direction_type: DirectionType::Incoming, text: None };
            self.stack.set_and_swap(n - 1, &mut node);
            proof {
                assert(node == old(self).stack@.last());
            }
            let new_node = match node {
                Bpmn::Direction { direction_type, text: _ } => Bpmn::Direction {
                    direction_type,
                    text: Some(value),
                },
                other => other,
            };
            self.stack.set(n - 1, new_node);
            proof {
                assert(self.stack@ =~= old(self).stack@.update(
                    old(self).stack@.len() - 1,
                    new_node,
                ));
            }
        } else {
            proof {
                assert(self.stack@ =~= old(self).stack@);
            }
        }
    }

    /// Close a direction element: pop it and apply it to its parent node.
    /// An outgoing direction appends its text to the parent's outputs; an
    /// incoming one counts one more input on a gateway parent.
    pub fn add_direction(&mut self, direction: DirectionType)
        requires
            old(self).wf(),
        ensures
            final(self).wf(),
            direction_applied(*old(self), *final(self), direction),
    {
        let popped = self.stack.pop();
        let n = self.stack.len();
        match popped {
            Some(Bpmn::Direction { direction_type: _, text: Some(value) }) => {
                if n > 0 {
                    let mut parent = Bpmn::Direction {
                        direction_type: DirectionType::Incoming,
                        text: None,
                    };
                    self.stack.set_and_swap(n - 1, &mut parent);
                    proof {
                        assert(parent == old(self).stack@.drop_last().last());
                    }
                    match direction {
                        DirectionType::Outgoing => parent.add_output(value),
                        DirectionType::Incoming => parent.add_input(),
                    }
                    proof {
                        assert(node_wf(parent));
                        assert(no_data_index(parent));
                    }
                    self.stack.set(n - 1, parent);
                    proof {
                        assert(self.stack@.drop_last() =~= old(
                            self,
                        ).stack@.drop_last().drop_last());
                    }
                } else {
                    proof {
                        assert(self.stack@ =~= old(self).stack@.drop_last());
                    }
                }
            }
            _ => {
                proof {
                    if old(self).stack@.len() > 0 {
                        assert(self.stack@ =~= old(self).stack@.drop_last());
                    } else {
                        assert(self.stack@ =~= old(self).stack@);
                    }
                }
            }
        }
    }

    /// Close an ordinary element: pop its node and append it to the
    /// innermost open block. A sequence flow closed here had child elements,
    /// which marks a conditional sequence flow: it is rejected.
    pub fn end(&mut self) -> (r: Result<(), Error>)
        requires
            old(self).wf(),
        ensures
            final(self).wf(),
            element_ended(*old(self), *final(self), r),
    {
        match self.stack.pop() {
            Some(bpmn) => {
                match check_unsupported(&bpmn) {
                    Ok(()) => {
                        proof {
                            assert(nested_below(bpmn, self.data@.len() as int));
                        }
                        self.add_to_process(bpmn)
                    }
                    Err(e) => Err(e),
                }
            }
            None => Ok(()),
        }
    }

    /// Close a process, sub-process or definitions element: pop its node and
    /// its block, finalize and store the block, record its index in the node
    /// and hand the node to the enclosing block, if any.
    pub fn end_process(&mut self) -> (r: Result<(), Error>)
        requires
            old(self).wf(),
        ensures
            final(self).wf(),
            process_ended(*old(self), *final(self), r),
    {
        let popped_node = self.stack.pop();
        let popped_block = self.process_stack.pop();
        match (popped_node, popped_block) {
            (Some(mut bpmn), Some(mut process_data)) => {
                proof {
                    assert(process_data == old(self).process_stack@.last());
                    assert(bpmn == old(self).stack@.last());
                }
                let block_index = self.data.len();
                bpmn.update_data_index(block_index);
                process_data.finalize();
                proof {
                    assert forall|i: int|
                        0 <= i < process_data.data@.len() implies nested_below(
                        #[trigger] process_data.data@[i],
                        self.data@.len() as int,
                    ) by {
                        let before = old(self).process_stack@.last();
                        assert(crate::diagram::node_resolved(
                            before.data@[i],
                            process_data.data@[i],
                            crate::diagram::id_entries(before.data@),
                        ));
                        assert(nested_below(before.data@[i], self.data@.len() as int));
                    }
                }
                self.data.push(process_data);
                proof {
                    assert(self.data@.drop_last() =~= old(self).data@);
                }
                if self.process_stack.len() > 0 {
                    proof {
                        assert(node_wf(bpmn));
                        assert(nested_below(bpmn, self.data@.len() as int));
                    }
                    match self.add_to_process(bpmn) {
                        Ok(()) => {}
                        Err(e) => {
                            return Err(e);
                        }
                    }
                }
                Ok(())
            }
            _ => Err(Error::Builder("couldn't build process".to_owned())),
        }
    }

    /// Hand out the finished blocks as a diagram.
    pub fn into_diagram(self) -> (r: Diagram)
        requires
            self.wf(),
        ensures
            r.data@ == self.data@,
            crate::diagram::diagram_wf(r),
            crate::diagram::diagram_nested_wf(r),
    {
        Diagram::new(self.data)
    }
}

/// Reject what this engine does not support: a sequence flow that arrives
/// here was a start-plus-end element pair, which marks an inline condition.
pub fn check_unsupported(bpmn: &Bpmn) -> (r: Result<(), Error>)
    ensures
        match r {
            Ok(()) => !(bpmn matches Bpmn::SequenceFlow { .. }),
            Err(e) => (*bpmn) matches Bpmn::SequenceFlow { id, name, .. } && (e
                matches Error::NotSupported(m) && m@ == crate::model::name_or_id(name, id)
                + ": conditional sequence flow"@),
        },
{
    match bpmn {
        Bpmn::SequenceFlow { id, name, .. } => {
            let what = key_of(name, id);
            Err(Error::NotSupported(String::from_str(what).concat(": conditional sequence flow")))
        }
        _ => Ok(()),
    }
}

} // verus!
