//! Ids and outcomes of the stack entries of one batch.

use std::collections::HashMap;
use vstd::prelude::*;

verus! {

broadcast use vstd::std_specs::hash::group_hash_axioms;

/// Mathematical content of an [`OutcomeTracker`].
pub ghost struct OutcomeView {
    /// The id the next stack entry will get.
    pub next_id: usize,
    /// The success flag recorded for each resolved id.
    pub successes: Map<usize, bool>,
}

impl OutcomeView {
    /// The content at the start of a batch.
    pub open spec fn fresh() -> OutcomeView {
        OutcomeView { next_id: 0, successes: Map::empty() }
    }

    /// The outcome recorded for `id`, if any.
    pub open spec fn outcome(self, id: usize) -> Option<bool> {
        if self.successes.contains_key(id) {
            Some(self.successes[id])
        } else {
            None
        }
    }

    /// Whether every id of `ids` has resolved, and successfully.
    pub open spec fn all_succeeded(self, ids: Seq<usize>) -> bool {
        forall|i: int| 0 <= i < ids.len() ==> self.outcome(#[trigger] ids[i]) == Some(true)
    }
}

/// Hands out the ids of the entries of one batch and records which of them
/// resolved successfully.
#[derive(Debug)]
pub struct OutcomeTracker {
    next_id: usize,
    successes: HashMap<usize, bool>,
}

impl View for OutcomeTracker {
    type V = OutcomeView;

    closed spec fn view(&self) -> OutcomeView {
        OutcomeView { next_id: self.next_id, successes: self.successes@ }
    }
}

impl OutcomeTracker {
    pub fn new() -> (tracker: OutcomeTracker)
        ensures
            tracker@ == OutcomeView::fresh(),
    {
        OutcomeTracker { next_id: 0, successes: HashMap::new() }
    }

    /// Hands out the next id of the batch: each call yields one more than
    /// the call before.
    pub fn next_id(&mut self) -> (id: usize)
        requires
            old(self)@.next_id < usize::MAX,
        ensures
            id == old(self)@.next_id,
            final(self)@ == (OutcomeView { next_id: (id + 1) as usize, ..old(self)@ }),
    {
        let id = self.next_id;
        self.next_id += 1;
        id
    }

    /// The id that the next call of `next_id` will hand out.
    pub fn peek_next_id(&self) -> (id: usize)
        ensures
            id == self@.next_id,
    {
        self.next_id
    }

    /// Records whether the entry with the given id resolved successfully.
    pub fn set_outcome(&mut self, id: usize, success: bool)
        ensures
            final(self)@ == (OutcomeView {
                successes: old(self)@.successes.insert(id, success),
                ..old(self)@
            }),
    {
        self.successes.insert(id, success);
    }

    /// The outcome recorded for `id`, if any.
    pub fn get_outcome(&self, id: usize) -> (outcome: Option<bool>)
        ensures
            outcome == self@.outcome(id),
    {
        match self.successes.get(&id) {
            Some(s) => Some(*s),
            None => None,
        }
    }

    /// Whether every id of `ids` has resolved successfully.
    pub fn all_succeeded(&self, ids: &Vec<usize>) -> (ok: bool)
        ensures
            ok == self@.all_succeeded(ids@),
    {
        let mut i: usize = 0;
        while i < ids.len()
            invariant
                i <= ids.len(),
                forall|j: int| 0 <= j < i ==> self@.outcome(#[trigger] ids@[j]) == Some(true),
            decreases ids.len() - i,
        {
            match self.get_outcome(ids[i]) {
                Some(true) => {},
                _ => {
                    return false;
                },
            }
            i += 1;
        }
        true
    }

    /// Starts a new batch: ids begin at zero again and no outcome is recorded.
    pub fn reset(&mut self)
        ensures
            final(self)@ == OutcomeView::fresh(),
    {
        self.next_id = 0;
        self.successes.clear();
    }
}

} // verus!
