use vstd::prelude::*;

use crate::error::Error;

verus! {

/// The kind of node a handler is registered for.
#[derive(Debug, Clone, Copy, PartialEq, Eq, Structural)]
pub enum HandlerType {
    Task,
    Exclusive,
    Inclusive,
    EventBased,
}

/// Registered handler keys: each entry maps a kind and a name-or-id to the
/// index the handler was registered under. A later registration under the
/// same kind and name overrides an earlier one.
#[derive(Debug, PartialEq, Eq)]
pub struct HandlerMap {
    pub entries: Vec<(HandlerType, String, usize)>,
}

/// The index registered for `(ht, key)`: the last matching entry wins, so a
/// repeated registration overrides the earlier one.
pub open spec fn hm_lookup(
    entries: Seq<(HandlerType, String, usize)>,
    ht: HandlerType,
    key: Seq<char>,
) -> Option<usize>
    decreases entries.len(),
{
    if entries.len() == 0 {
        None
    } else if entries.last().0 == ht && entries.last().1@ == key {
        Some(entries.last().2)
    } else {
        hm_lookup(entries.drop_last(), ht, key)
    }
}

impl HandlerMap {
    pub fn new() -> (r: HandlerMap)
        ensures
            r.entries@ == Seq::<(HandlerType, String, usize)>::empty(),
    {
        HandlerMap { entries: Vec::new() }
    }

    /// The handler index registered under this kind and name, if any.
    pub fn get(&self, handler_type: HandlerType, key: &str) -> (r: Option<usize>)
        ensures
            r == hm_lookup(self.entries@, handler_type, key@),
    {
        let mut j: usize = self.entries.len();
        proof {
            assert(self.entries@.take(j as int) =~= self.entries@);
        }
        while j > 0
            invariant
                j <= self.entries@.len(),
                hm_lookup(self.entries@.take(j as int), handler_type, key@) == hm_lookup(
                    self.entries@,
                    handler_type,
                    key@,
                ),
            decreases j,
        {
            let entry = &self.entries[j - 1];
            proof {
                assert(self.entries@.take(j as int).drop_last() =~= self.entries@.take(
                    j - 1 as int,
                ));
            }
            if entry.0 == handler_type && str_eq(entry.1.as_str(), key) {
                return Some(entry.2);
            }
            j = j - 1;
        }
        proof {
            assert(self.entries@.take(0) =~= Seq::<(HandlerType, String, usize)>::empty());
        }
        None
    }

    /// Record a registration; a repeated key is kept and simply wins over
    /// the earlier entry when looked up.
    pub fn insert(&mut self, handler_type: HandlerType, name: String, index: usize)
        ensures
            final(self).entries@ == old(self).entries@.push((handler_type, name, index)),
    {
        self.entries.push((handler_type, name, index));
    }
}

/// Compare two string slices by contents.
pub fn str_eq(a: &str, b: &str) -> (r: bool)
    ensures
        r == (a@ == b@),
{
    a.to_owned() == b.to_owned()
}

/// Counts handler registrations and collects their keys while a process is
/// being assembled; consumed once when the process is built.
#[derive(Debug)]
pub struct Handler {
    pub count: usize,
    pub handler_map: Option<HandlerMap>,
}

impl Handler {
    pub fn new() -> (r: Handler)
        ensures
            r.count == 0,
            r.handler_map matches Some(m) && m.entries@ == Seq::<(
                HandlerType,
                String,
                usize,
            )>::empty(),
    {
        Handler { count: 0, handler_map: Some(HandlerMap::new()) }
    }

    /// Register one handler key of the given kind; its index is the number
    /// of registrations made before it.
    pub fn add_callback(&mut self, handler_type: HandlerType, name: String)
        ensures
            match old(self).handler_map {
                Some(m) => final(self).handler_map matches Some(m2) && m2.entries@ == m.entries@
                    .push((handler_type, name, old(self).count)) && final(self).count == (
                if old(self).count < usize::MAX {
                    old(self).count + 1
                } else {
                    old(self).count as int
                }),
                None => *final(self) == *old(self),
            },
    {
        if let Some(hm) = &mut self.handler_map {
            hm.insert(handler_type, name, self.count);
            if self.count < usize::MAX {
                self.count = self.count + 1;
            }
        }
    }

    /// Hand out the collected registrations; only the first call succeeds.
    pub fn build(&mut self) -> (r: Result<HandlerMap, Error>)
        ensures
            final(self).count == old(self).count,
            final(self).handler_map is None,
            match r {
                Ok(m) => old(self).handler_map matches Some(m0) && m == m0,
                Err(e) => old(self).handler_map is None && e matches Error::Builder(_),
            },
    {
        match self.handler_map.take() {
            Some(m) => Ok(m),
            None => Err(Error::Builder("handler map has already been consumed".to_owned())),
        }
    }
}

} // verus!
