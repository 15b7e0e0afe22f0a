use vstd::prelude::*;
use vstd::pervasive::VecAdditionalExecFns;
use vstd::string::StringExecFns;

use crate::diagram::ProcessData;
use crate::error::Error;
use crate::model::{name_or_id, Bpmn, GatewayType};

verus! {

/// The token accounting record of one fork: how many tokens the fork
/// created, how many have been consumed, and at which gateways tokens
/// merged while they ran.
#[derive(Debug, PartialEq, Eq)]
pub struct TokenData {
    pub created: usize,
    pub joined: Vec<usize>,
    pub consumed: usize,
}

impl TokenData {
    pub fn new(created: usize) -> (r: TokenData)
        ensures
            r.created == created,
            r.joined@ == Seq::<usize>::empty(),
            r.consumed == 0,
    {
        TokenData { created, joined: Vec::new(), consumed: 0 }
    }

    /// Consume one token; when it stopped at a join gateway, record the
    /// gateway.
    pub fn consume(&mut self, maybe_gateway: Option<usize>)
        ensures
            final(self).created == old(self).created,
            final(self).joined@ == (match maybe_gateway {
                Some(g) => old(self).joined@.push(g),
                None => old(self).joined@,
            }),
            final(self).consumed == (if old(self).consumed < usize::MAX {
                old(self).consumed + 1
            } else {
                old(self).consumed as int
            }),
    {
        match maybe_gateway {
            Some(gateway) => self.joined.push(gateway),
            None => {}
        }
        if self.consumed < usize::MAX {
            self.consumed = self.consumed + 1;
        }
    }

    /// Whether every token of this fork has been consumed.
    pub fn consumed(&self) -> (r: bool)
        ensures
            r == (self.created <= self.consumed),
    {
        self.created <= self.consumed
    }
}

/// What becomes of a fully consumed fork record, judged from the gateways
/// its tokens merged at.
#[derive(Debug, Clone, Copy, PartialEq, Eq)]
pub enum JoinVerdict {
    /// All tokens ended at end events: nothing to resume.
    Nothing,
    /// Resume the awaited gateway, all arrivals agree on it.
    Fire(usize),
    /// A parallel join saw fewer arrivals than its declared inputs.
    TooFew(usize),
    /// Arrivals merged at more than one distinct gateway.
    Unbalanced,
}

/// The verdict over a record's join list: a parallel gateway must have seen
/// as many arrivals as it has inputs, and all arrivals must agree on one
/// gateway.
pub open spec fn join_verdict(joined: Seq<usize>, nodes: Seq<Bpmn>) -> JoinVerdict {
    if joined.len() == 0 {
        JoinVerdict::Nothing
    } else {
        let g = joined[0];
        if g < nodes.len() && (nodes[g as int] matches Bpmn::Gateway(gw) && gw.gateway_type
            is Parallel && joined.len() < gw.inputs) {
            JoinVerdict::TooFew(g)
        } else if exists|j: int| 0 <= j < joined.len() && joined[j] != g {
            JoinVerdict::Unbalanced
        } else {
            JoinVerdict::Fire(g)
        }
    }
}

/// Tracks the frontiers of one process run: `tokens_ready` holds the
/// frontiers of the current round, `uncommitted` the frontiers produced by
/// it, and `token_stack` one accounting record per live fork.
#[derive(Debug)]
pub struct ExecuteHandler {
    pub tokens_ready: Vec<Vec<usize>>,
    pub uncommitted: Vec<Vec<usize>>,
    pub token_stack: Vec<TokenData>,
}

/// Every gateway recorded on the accounting stack is a parallel or
/// inclusive gateway of the process with more than one input.
pub open spec fn eh_wf(eh: ExecuteHandler, nodes: Seq<Bpmn>) -> bool {
    forall|k: int, j: int|
        0 <= k < eh.token_stack@.len() && 0 <= j < eh.token_stack@[k].joined@.len()
            ==> is_join_gateway(nodes, #[trigger] eh.token_stack@[k].joined@[j])
}

/// The node at `g` is a parallel or inclusive gateway with more than one
/// input: the only nodes a token can wait at.
pub open spec fn is_join_gateway(nodes: Seq<Bpmn>, g: usize) -> bool {
    &&& g < nodes.len()
    &&& nodes[g as int] matches Bpmn::Gateway(gw) && (gw.gateway_type is Parallel
        || gw.gateway_type is Inclusive) && gw.inputs > 1
}

impl ExecuteHandler {
    /// Seed the run with one frontier holding the single start token.
    pub fn new(start: usize) -> (r: ExecuteHandler)
        ensures
            r.tokens_ready@.len() == 1,
            r.tokens_ready@[0]@ == seq![start],
            r.uncommitted@ == Seq::<Vec<usize>>::empty(),
            r.token_stack@ == Seq::<TokenData>::empty(),
    {
        let mut frontier: Vec<usize> = Vec::new();
        frontier.push(start);
        let mut tokens_ready: Vec<Vec<usize>> = Vec::new();
        tokens_ready.push(frontier);
        ExecuteHandler { tokens_ready, uncommitted: Vec::new(), token_stack: Vec::new() }
    }

    /// Take the frontiers to process in this round.
    pub fn active_tokens(&mut self) -> (r: Vec<Vec<usize>>)
        ensures
            r@ == old(self).tokens_ready@,
            final(self).tokens_ready@ == Seq::<Vec<usize>>::empty(),
            final(self).uncommitted@ == old(self).uncommitted@,
            final(self).token_stack@ == old(self).token_stack@,
    {
        let mut out: Vec<Vec<usize>> = Vec::new();
        core::mem::swap(&mut out, &mut self.tokens_ready);
        out
    }

    /// Schedule a frontier directly, without a new accounting record: a
    /// join with a single output resumes the running fork.
    pub fn immediate(&mut self, item: Vec<usize>)
        ensures
            final(self).tokens_ready@ == old(self).tokens_ready@.push(item),
            final(self).uncommitted@ == old(self).uncommitted@,
            final(self).token_stack@ == old(self).token_stack@,
    {
        self.tokens_ready.push(item);
    }

    /// Schedule the frontier of a fork; it is committed, with a fresh
    /// accounting record, after the round.
    pub fn pending_fork(&mut self, item: Vec<usize>)
        ensures
            final(self).uncommitted@ == old(self).uncommitted@.push(item),
            final(self).tokens_ready@ == old(self).tokens_ready@,
            final(self).token_stack@ == old(self).token_stack@,
    {
        self.uncommitted.push(item);
    }

    /// Commit all frontiers produced by this round: each becomes ready and
    /// gets an accounting record counting its tokens.
    pub fn commit(&mut self)
        ensures
            final(self).uncommitted@ == Seq::<Vec<usize>>::empty(),
            final(self).tokens_ready@.len() == old(self).tokens_ready@.len() + old(
                self,
            ).uncommitted@.len(),
            forall|m: int|
                0 <= m < old(self).tokens_ready@.len() ==> final(self).tokens_ready@[m] == old(
                    self,
                ).tokens_ready@[m],
            forall|m: int|
                0 <= m < old(self).uncommitted@.len() ==> (#[trigger] final(self).tokens_ready@[
                    old(self).tokens_ready@.len() + m
                ])@ == old(self).uncommitted@[m]@,
            final(self).token_stack@.len() == old(self).token_stack@.len() + old(
                self,
            ).uncommitted@.len(),
            forall|m: int|
                0 <= m < old(self).token_stack@.len() ==> final(self).token_stack@[m] == old(
                    self,
                ).token_stack@[m],
            forall|m: int|
                0 <= m < old(self).uncommitted@.len() ==> {
                    let td = #[trigger] final(self).token_stack@[old(self).token_stack@.len() + m];
                    &&& td.created == old(self).uncommitted@[m]@.len()
                    &&& td.joined@.len() == 0
                    &&& td.consumed == 0
                },
    {
        let ghost orig = *self;
        let mut i: usize = 0;
        let n = self.uncommitted.len();
        while i < n
            invariant
                n == orig.uncommitted@.len(),
                i <= n,
                self.uncommitted@ == orig.uncommitted@,
                self.tokens_ready@.len() == orig.tokens_ready@.len() + i,
                forall|m: int|
                    0 <= m < orig.tokens_ready@.len() ==> self.tokens_ready@[m]
                        == orig.tokens_ready@[m],
                forall|m: int|
                    0 <= m < i ==> (#[trigger] self.tokens_ready@[orig.tokens_ready@.len() + m])@
                        == orig.uncommitted@[m]@,
                self.token_stack@.len() == orig.token_stack@.len() + i,
                forall|m: int|
                    0 <= m < orig.token_stack@.len() ==> self.token_stack@[m]
                        == orig.token_stack@[m],
                forall|m: int|
                    0 <= m < i ==> {
                        let td = #[trigger] self.token_stack@[orig.token_stack@.len() + m];
                        &&& td.created == orig.uncommitted@[m]@.len()
                        &&& td.joined@.len() == 0
                        &&& td.consumed == 0
                    },
            decreases n - i,
        {
            let item = self.uncommitted[i].clone();
            proof {
                assert(item@ =~= orig.uncommitted@[i as int]@);
            }
            self.token_stack.push(TokenData::new(item.len()));
            self.tokens_ready.push(item);
            i = i + 1;
        }
        self.uncommitted.clear();
    }

    /// Consume one token on the innermost fork record; when it stopped at a
    /// join gateway, record the gateway there.
    pub fn consume_token(&mut self, join: Option<usize>)
        ensures
            final(self).tokens_ready@ == old(self).tokens_ready@,
            final(self).uncommitted@ == old(self).uncommitted@,
            old(self).token_stack@.len() == 0 ==> final(self).token_stack@ == old(
                self,
            ).token_stack@,
            old(self).token_stack@.len() > 0 ==> {
                let top = old(self).token_stack@.last();
                let top2 = final(self).token_stack@.last();
                &&& final(self).token_stack@.len() == old(self).token_stack@.len()
                &&& final(self).token_stack@.drop_last() == old(self).token_stack@.drop_last()
                &&& top2.created == top.created
                &&& top2.joined@ == (match join {
                    Some(g) => top.joined@.push(g),
                    None => top.joined@,
                })
                &&& top2.consumed == (if top.consumed < usize::MAX {
                    top.consumed + 1
                } else {
                    top.consumed as int
                })
            },
    {
        let n = self.token_stack.len();
        if n > 0 {
            let mut td = TokenData::new(0);
            self.token_stack.set_and_swap(n - 1, &mut td);
            proof {
                assert(td == old(self).token_stack@.last());
            }
            td.consume(join);
            self.token_stack.set(n - 1, td);
            proof {
                assert(self.token_stack@.drop_last() =~= old(self).token_stack@.drop_last());
            }
        } else {
            proof {
                assert(self.token_stack@ =~= old(self).token_stack@);
            }
        }
    }

    /// When the innermost fork record is fully consumed, pop it and judge
    /// its join list: the gateway to resume, nothing, or an error. A
    /// parallel join that saw fewer arrivals than its inputs is a
    /// `BpmnRequirement` violation; arrivals at two distinct gateways mark
    /// an unbalanced diagram, which is `NotSupported`.
    pub fn tokens_consumed(&mut self, process: &ProcessData) -> (r: Result<Option<usize>, Error>)
        requires
            eh_wf(*old(self), process.data@),
        ensures
            eh_wf(*final(self), process.data@),
            final(self).tokens_ready@ == old(self).tokens_ready@,
            final(self).uncommitted@ == old(self).uncommitted@,
            (old(self).token_stack@.len() == 0 || !(old(self).token_stack@.last().created <= old(
                self,
            ).token_stack@.last().consumed)) ==> final(self).token_stack@ == old(
                self,
            ).token_stack@ && r == Ok::<Option<usize>, Error>(None),
            (old(self).token_stack@.len() > 0 && old(self).token_stack@.last().created <= old(
                self,
            ).token_stack@.last().consumed) ==> {
                &&& final(self).token_stack@ == old(self).token_stack@.drop_last()
                &&& (match join_verdict(old(self).token_stack@.last().joined@, process.data@) {
                    JoinVerdict::Nothing => r == Ok::<Option<usize>, Error>(None),
                    JoinVerdict::Fire(g) => r == Ok::<Option<usize>, Error>(Some(g)),
                    JoinVerdict::TooFew(g) => r matches Err(e) && (e
                        matches Error::BpmnRequirement(m) && (process.data@[g as int]
                        matches Bpmn::Gateway(gw) && m@
                        == "Execution stopped. Not enough tokens at "@ + name_or_id(
                        gw.name,
                        gw.id,
                    ))),
                    JoinVerdict::Unbalanced => r matches Err(e) && (e
                        matches Error::NotSupported(m) && m@ == "Unbalanced diagram"@),
                })
            },
    {
        let n = self.token_stack.len();
        if n == 0 {
            return Ok(None);
        }
        let all_consumed = {
            let td = &self.token_stack[n - 1];
            td.created <= td.consumed
        };
        if !all_consumed {
            return Ok(None);
        }
        let td = match self.token_stack.pop() {
            Some(td) => td,
            None => {
                return Ok(None);
            }
        };
        if td.joined.len() == 0 {
            return Ok(None);
        }
        let g = td.joined[0];
        proof {
            assert(is_join_gateway(process.data@, g));
        }
        match process.get(g) {
            Some(Bpmn::Gateway(gw)) => {
                if matches!(gw.gateway_type, GatewayType::Parallel) && td.joined.len() < gw.inputs {
                    return Err(
                        Error::BpmnRequirement(
                            String::from_str("Execution stopped. Not enough tokens at ").concat(
                                crate::model::key_of(&gw.name, &gw.id),
                            ),
                        ),
                    );
                }
            }
            _ => {}
        }
        match check_unbalanced_diagram(&td.joined) {
            Ok(()) => Ok(Some(g)),
            Err(e) => Err(e),
        }
    }
}

/// Arrivals at more than one distinct gateway mark an unbalanced diagram:
/// interleaved forks met at mismatched joins. This engine rejects the run.
pub fn check_unbalanced_diagram(joined: &Vec<usize>) -> (r: Result<(), Error>)
    requires
        joined@.len() > 0,
    ensures
        match r {
            Ok(()) => forall|j: int| 0 <= j < joined@.len() ==> #[trigger] joined@[j] == joined@[0],
            Err(e) => (exists|j: int| 0 <= j < joined@.len() && #[trigger] joined@[j] != joined@[0]) && (e
                matches Error::NotSupported(m) && m@ == "Unbalanced diagram"@),
        },
{
    let first = joined[0];
    let mut j: usize = 1;
    while j < joined.len()
        invariant
            1 <= j <= joined@.len(),
            first == joined@[0],
            forall|m: int| 0 <= m < j ==> #[trigger] joined@[m] == joined@[0],
        decreases joined@.len() - j,
    {
        if joined[j] != first {
            return Err(Error::NotSupported("Unbalanced diagram".to_owned()));
        }
        j = j + 1;
    }
    Ok(())
}

/// A parallel join with as many arrivals as inputs, all at one gateway,
/// fires exactly once; with fewer arrivals the run is rejected.
pub proof fn lemma_parallel_join_arity(joined: Seq<usize>, nodes: Seq<Bpmn>, g: usize, k: usize)
    requires
        g < nodes.len(),
        nodes[g as int] matches Bpmn::Gateway(gw) && gw.gateway_type is Parallel && gw.inputs == k,
        joined.len() > 0,
        forall|j: int| 0 <= j < joined.len() ==> joined[j] == g,
    ensures
        joined.len() == k ==> join_verdict(joined, nodes) == JoinVerdict::Fire(g),
        joined.len() < k ==> join_verdict(joined, nodes) == JoinVerdict::TooFew(g),
{
    assert(joined[0] == g);
}

} // verus!
