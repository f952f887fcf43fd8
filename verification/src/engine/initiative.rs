//! The turn order: entries sorted by descending initiative, and a cursor
//! on the entry whose turn it is.

use crate::actors::actor_template::ActorInstance;
use crate::actors::actor_template::ActorView;
use crate::actors::actor_template::roster_view;
use std::collections::HashMap;
use vstd::prelude::*;

verus! {

broadcast use vstd::std_specs::hash::group_hash_axioms;

/// One actor's place in the turn order.
#[derive(Clone, Copy, Debug, PartialEq, Eq, Structural)]
pub struct InitiativeElement {
    pub actor_id: usize,
    pub initiative: i32,
}

/// Mathematical content of an [`InitiativeTracker`]: the turn order and
/// the position of the actor whose turn it is.
pub ghost struct InitiativeView {
    pub entries: Seq<InitiativeElement>,
    pub cursor: nat,
}

/// Whether the scores never increase along the sequence.
pub open spec fn sorted_descending(entries: Seq<InitiativeElement>) -> bool {
    forall|i: int, j: int|
        0 <= i <= j < entries.len() ==> entries[i].initiative >= entries[j].initiative
}

/// The first position at or after `from` whose score is lower than `score`,
/// or the length of the sequence where there is none.
pub open spec fn first_lower(entries: Seq<InitiativeElement>, score: i32, from: nat) -> nat
    decreases entries.len() - from,
{
    if from >= entries.len() {
        entries.len()
    } else if entries[from as int].initiative < score {
        from
    } else {
        first_lower(entries, score, from + 1)
    }
}

/// Where a new entry with `score` goes: behind every entry whose score is
/// at least `score`, so that among equal scores the earlier entry stays first.
pub open spec fn insertion_point(entries: Seq<InitiativeElement>, score: i32) -> nat {
    first_lower(entries, score, 0)
}

/// What `first_lower` finds: the entries it passes over have scores of at
/// least `score`, and the entry it stops at, if any, has a lower one.
pub proof fn lemma_first_lower(entries: Seq<InitiativeElement>, score: i32, from: nat)
    requires
        from <= entries.len(),
    ensures
        from <= first_lower(entries, score, from) <= entries.len(),
        forall|i: int|
            from <= i < first_lower(entries, score, from) ==> entries[i].initiative >= score,
        first_lower(entries, score, from) < entries.len() ==> entries[first_lower(
            entries,
            score,
            from,
        ) as int].initiative < score,
    decreases entries.len() - from,
{
    if from < entries.len() && entries[from as int].initiative >= score {
        lemma_first_lower(entries, score, from + 1);
    }
}

impl InitiativeView {
    /// The turn order is sorted by descending score and the cursor does not
    /// point beyond the position just behind the last entry.
    pub open spec fn wf(self) -> bool {
        &&& sorted_descending(self.entries)
        &&& self.cursor <= self.entries.len()
    }

    /// The actor whose turn it is, if the cursor points at an entry.
    pub open spec fn current(self) -> Option<usize> {
        if self.cursor < self.entries.len() {
            Some(self.entries[self.cursor as int].actor_id)
        } else {
            None
        }
    }

    /// The cursor moved to the next entry, or to the first one from the last.
    pub open spec fn advanced(self) -> InitiativeView
        recommends
            self.entries.len() > 0,
    {
        InitiativeView {
            cursor: if self.cursor + 1 >= self.entries.len() {
                0
            } else {
                self.cursor + 1
            },
            ..self
        }
    }

    /// `n` advances in a row.
    pub open spec fn advanced_by(self, n: nat) -> InitiativeView
        decreases n,
    {
        if n == 0 {
            self
        } else {
            self.advanced_by((n - 1) as nat).advanced()
        }
    }

    /// The order with a new entry put at its insertion point; the cursor
    /// keeps its position.
    pub open spec fn placed(self, actor_id: usize, initiative: i32) -> InitiativeView {
        InitiativeView {
            entries: self.entries.insert(
                insertion_point(self.entries, initiative) as int,
                InitiativeElement { actor_id: actor_id, initiative: initiative },
            ),
            ..self
        }
    }

    /// The order with a new entry put at its insertion point; the cursor
    /// moves one forward when the entry lands at or before it.
    pub open spec fn added(self, actor_id: usize, initiative: i32) -> InitiativeView {
        InitiativeView {
            entries: self.placed(actor_id, initiative).entries,
            cursor: if insertion_point(self.entries, initiative) <= self.cursor {
                self.cursor + 1
            } else {
                self.cursor
            },
        }
    }

    /// The order after every actor of `actors` with an id below `bound` and
    /// a rolled initiative was placed, by ascending id.
    pub open spec fn placed_all(self, actors: Map<usize, ActorView>, bound: nat) -> InitiativeView
        decreases bound,
    {
        if bound == 0 {
            self
        } else {
            let id = (bound - 1) as usize;
            let before = self.placed_all(actors, (bound - 1) as nat);
            if actors.contains_key(id) && actors[id].initiative.is_some() {
                before.placed(id, actors[id].initiative.unwrap())
            } else {
                before
            }
        }
    }
}

/// Placing an entry keeps the order sorted.
pub proof fn lemma_placed_sorted(v: InitiativeView, actor_id: usize, initiative: i32)
    requires
        sorted_descending(v.entries),
    ensures
        sorted_descending(v.placed(actor_id, initiative).entries),
        v.placed(actor_id, initiative).entries.len() == v.entries.len() + 1,
{
    lemma_first_lower(v.entries, initiative, 0);
    let p = insertion_point(v.entries, initiative) as int;
    let after = v.placed(actor_id, initiative).entries;
    assert forall|i: int, j: int| 0 <= i <= j < after.len() implies after[i].initiative
        >= after[j].initiative by {
        if i < p && j > p {
            assert(after[i] == v.entries[i]);
            assert(after[j] == v.entries[j - 1]);
        } else if i > p {
            assert(after[i] == v.entries[i - 1]);
            assert(after[j] == v.entries[j - 1]);
        } else if i == p && j > p {
            assert(after[j] == v.entries[j - 1]);
            assert(v.entries[p].initiative >= v.entries[j - 1].initiative);
        }
    }
}

/// Insertion is stable under ties: an entry whose score is at least the new
/// score keeps its position, and the new entry lands behind it.
pub proof fn lemma_insertion_stable(v: InitiativeView, actor_id: usize, initiative: i32, i: int)
    requires
        v.wf(),
        0 <= i < v.entries.len(),
        v.entries[i].initiative >= initiative,
    ensures
        i < insertion_point(v.entries, initiative),
        v.added(actor_id, initiative).entries[i] == v.entries[i],
        v.added(actor_id, initiative).entries[insertion_point(v.entries, initiative) as int] == (
        InitiativeElement { actor_id: actor_id, initiative: initiative }),
{
    lemma_first_lower(v.entries, initiative, 0);
    let p = insertion_point(v.entries, initiative);
    if p <= i {
        assert(v.entries[p as int].initiative >= v.entries[i].initiative);
    }
}

/// Adding an entry keeps the tracker well formed and does not change whose
/// turn it is.
pub proof fn lemma_added_keeps_current(v: InitiativeView, actor_id: usize, initiative: i32)
    requires
        v.wf(),
    ensures
        v.added(actor_id, initiative).wf(),
        v.current().is_some() ==> v.added(actor_id, initiative).current() == v.current(),
{
    lemma_placed_sorted(v, actor_id, initiative);
    lemma_first_lower(v.entries, initiative, 0);
}

/// After `n` advances the cursor stands `n` entries further, counted
/// around the order.
proof fn lemma_advanced_by_cursor(v: InitiativeView, n: nat)
    requires
        v.cursor < v.entries.len(),
    ensures
        v.advanced_by(n).cursor as int == (v.cursor as int + n as int) % (v.entries.len() as int),
        v.advanced_by(n).entries == v.entries,
    decreases n,
{
    let len = v.entries.len() as int;
    let start = v.cursor as int;
    let k = n as int;
    if n == 0 {
        assert(start % len == start) by (nonlinear_arith)
            requires
                0 <= start < len,
        ;
    } else {
        lemma_advanced_by_cursor(v, (n - 1) as nat);
        let prev = v.advanced_by((n - 1) as nat);
        let c = prev.cursor as int;
        assert(c == (start + k - 1) % len);
        assert(0 <= c < len) by (nonlinear_arith)
            requires
                c == (start + k - 1) % len,
                len > 0,
        ;
        if c + 1 >= len {
            assert((start + k) % len == 0) by (nonlinear_arith)
                requires
                    len - 1 == (start + k - 1) % len,
                    len > 0,
            ;
        } else {
            assert((start + k) % len == c + 1) by (nonlinear_arith)
                requires
                    c == (start + k - 1) % len,
                    0 <= c,
                    c + 1 < len,
            ;
        }
    }
}

/// Advancing is cyclic: as many advances as the order has entries bring the
/// cursor back to where it was.
pub proof fn lemma_advance_cyclic(v: InitiativeView)
    requires
        v.cursor < v.entries.len(),
    ensures
        v.advanced_by(v.entries.len()) == v,
{
    lemma_advanced_by_cursor(v, v.entries.len());
    let len = v.entries.len() as int;
    let start = v.cursor as int;
    assert((start + len) % len == start) by (nonlinear_arith)
        requires
            0 <= start < len,
    ;
}

/// Placing actors keeps the cursor and the entries that were there, and
/// every entry that was not there belongs to one of the actors.
pub proof fn lemma_placed_all(v: InitiativeView, actors: Map<usize, ActorView>, bound: nat)
    requires
        sorted_descending(v.entries),
    ensures
        v.placed_all(actors, bound).cursor == v.cursor,
        v.placed_all(actors, bound).entries.len() >= v.entries.len(),
        sorted_descending(v.placed_all(actors, bound).entries),
        forall|i: int|
            0 <= i < v.placed_all(actors, bound).entries.len() ==> v.entries.contains(
                #[trigger] v.placed_all(actors, bound).entries[i],
            ) || actors.contains_key(v.placed_all(actors, bound).entries[i].actor_id),
    decreases bound,
{
    if bound > 0 {
        let id = (bound - 1) as usize;
        let before = v.placed_all(actors, (bound - 1) as nat);
        lemma_placed_all(v, actors, (bound - 1) as nat);
        if actors.contains_key(id) && actors[id].initiative.is_some() {
            let score = actors[id].initiative.unwrap();
            lemma_placed_sorted(before, id, score);
            lemma_first_lower(before.entries, score, 0);
            let p = insertion_point(before.entries, score) as int;
            let after = before.placed(id, score);
            assert forall|i: int| 0 <= i < after.entries.len() implies v.entries.contains(
                #[trigger] after.entries[i],
            ) || actors.contains_key(after.entries[i].actor_id) by {
                if i < p {
                    assert(after.entries[i] == before.entries[i]);
                } else if i > p {
                    assert(after.entries[i] == before.entries[i - 1]);
                }
            }
        }
    } else {
        assert forall|i: int| 0 <= i < v.entries.len() implies v.entries.contains(
            #[trigger] v.entries[i],
        ) by {}
    }
}

/// Whether the order has an entry for the actor.
pub open spec fn lists(entries: Seq<InitiativeElement>, actor_id: usize) -> bool {
    exists|i: int| 0 <= i < entries.len() && (#[trigger] entries[i]).actor_id == actor_id
}

/// Placing actors puts every one of them that has rolled its initiative
/// into the order, and keeps those that were in it.
pub proof fn lemma_placed_all_lists(
    v: InitiativeView,
    actors: Map<usize, ActorView>,
    bound: nat,
    actor_id: usize,
)
    requires
        sorted_descending(v.entries),
        lists(v.entries, actor_id) || (actor_id < bound && actors.contains_key(actor_id)
            && actors[actor_id].initiative.is_some()),
    ensures
        lists(v.placed_all(actors, bound).entries, actor_id),
    decreases bound,
{
    if bound > 0 {
        let id = (bound - 1) as usize;
        let before = v.placed_all(actors, (bound - 1) as nat);
        lemma_placed_all(v, actors, (bound - 1) as nat);
        if actors.contains_key(id) && actors[id].initiative.is_some() {
            let score = actors[id].initiative.unwrap();
            lemma_first_lower(before.entries, score, 0);
            let p = insertion_point(before.entries, score) as int;
            let after = before.placed(id, score);
            if actor_id == id {
                assert(after.entries[p].actor_id == actor_id);
            } else {
                lemma_placed_all_lists(v, actors, (bound - 1) as nat, actor_id);
                let i = choose|i: int|
                    0 <= i < before.entries.len() && (#[trigger] before.entries[i]).actor_id
                        == actor_id;
                if i < p {
                    assert(after.entries[i] == before.entries[i]);
                } else {
                    assert(after.entries[i + 1] == before.entries[i]);
                }
            }
        } else {
            lemma_placed_all_lists(v, actors, (bound - 1) as nat, actor_id);
        }
    }
}

/// The order in which the actors of an encounter take their turns.
#[derive(Debug)]
pub struct InitiativeTracker {
    initiatives: Vec<InitiativeElement>,
    curr_index: usize,
}

impl View for InitiativeTracker {
    type V = InitiativeView;

    closed spec fn view(&self) -> InitiativeView {
        InitiativeView { entries: self.initiatives@, cursor: self.curr_index as nat }
    }
}

impl InitiativeTracker {
    pub fn new() -> (tracker: InitiativeTracker)
        ensures
            tracker@ == (InitiativeView { entries: Seq::empty(), cursor: 0 }),
            tracker@.wf(),
    {
        InitiativeTracker { initiatives: Vec::new(), curr_index: 0 }
    }

    pub fn current_player(&self) -> (current: Option<usize>)
        ensures
            current == self@.current(),
    {
        if self.curr_index < self.initiatives.len() {
            Some(self.initiatives[self.curr_index].actor_id)
        } else {
            None
        }
    }

    /// The entries of the turn order, first to act first.
    pub fn entries(&self) -> (entries: &Vec<InitiativeElement>)
        ensures
            entries@ == self@.entries,
    {
        &self.initiatives
    }

    /// The position of the entry whose turn it is.
    pub fn cursor(&self) -> (cursor: usize)
        ensures
            cursor == self@.cursor,
    {
        self.curr_index
    }

    /// Number of entries in the turn order.
    pub fn len(&self) -> (n: usize)
        ensures
            n == self@.entries.len(),
    {
        self.initiatives.len()
    }

    /// Passes the turn to the next entry, wrapping around behind the last.
    pub fn advance(&mut self)
        requires
            old(self)@.entries.len() > 0,
            old(self)@.wf(),
        ensures
            final(self)@ == old(self)@.advanced(),
            final(self)@.wf(),
            final(self)@.cursor < final(self)@.entries.len(),
    {
        if self.curr_index >= self.initiatives.len() - 1 {
            self.curr_index = 0;
        } else {
            self.curr_index += 1;
        }
    }

    fn find_insertion_point(&self, initiative: i32) -> (idx: usize)
        ensures
            idx == insertion_point(self@.entries, initiative),
            idx <= self@.entries.len(),
    {
        let mut idx: usize = 0;
        while idx < self.initiatives.len() && self.initiatives[idx].initiative >= initiative
            invariant
                idx <= self.initiatives.len(),
                first_lower(self.initiatives@, initiative, idx as nat) == insertion_point(
                    self.initiatives@,
                    initiative,
                ),
            decreases self.initiatives.len() - idx,
        {
            idx += 1;
        }
        proof {
            lemma_first_lower(self.initiatives@, initiative, idx as nat);
        }
        idx
    }

    /// Puts an entry into a running order without changing whose turn it is.
    pub fn add_actor(&mut self, actor_id: usize, initiative: i32)
        requires
            old(self)@.wf(),
            old(self)@.entries.len() < usize::MAX,
        ensures
            final(self)@ == old(self)@.added(actor_id, initiative),
            final(self)@.wf(),
            old(self)@.current().is_some() ==> final(self)@.current() == old(self)@.current(),
    {
        let idx = self.find_insertion_point(initiative);
        self.initiatives.insert(
            idx,
            InitiativeElement { actor_id: actor_id, initiative: initiative },
        );
        if idx <= self.curr_index {
            self.curr_index += 1;
        }
        proof {
            lemma_added_keeps_current(old(self)@, actor_id, initiative);
        }
    }

    /// Places every actor of `actors` into the order, by ascending id, so
    /// that equal scores are ordered by id. The cursor keeps its position.
    /// Every actor has an id below `id_bound` and has rolled its
    /// initiative.
    pub fn initialize_actors(&mut self, actors: &HashMap<usize, ActorInstance>, id_bound: usize)
        requires
            sorted_descending(old(self)@.entries),
            forall|id: usize| #[trigger] actors@.contains_key(id) ==> id < id_bound,
            forall|id: usize|
                id < id_bound && actors@.contains_key(id) ==> (#[trigger] actors@[id])@.initiative.is_some(),
        ensures
            final(self)@ == old(self)@.placed_all(roster_view(actors@), id_bound as nat),
            sorted_descending(final(self)@.entries),
    {
        let ghost views = roster_view(actors@);
        let mut id: usize = 0;
        while id < id_bound
            invariant
                id <= id_bound,
                views == roster_view(actors@),
                self@ == old(self)@.placed_all(views, id as nat),
                sorted_descending(self@.entries),
                forall|id: usize|
                    id < id_bound && actors@.contains_key(id) ==> (#[trigger] actors@[id])@.initiative.is_some(),
            decreases id_bound - id,
        {
            let ghost before = self@;
            match actors.get(&id) {
                Some(actor) => {
                    assert(actors@.contains_key(id) && actors@[id] == *actor);
                    assert(views.contains_key(id) && views[id] == actor@);
                    let score = actor.initiative().unwrap();
                    let idx = self.find_insertion_point(score);
                    self.initiatives.insert(
                        idx,
                        InitiativeElement { actor_id: id, initiative: score },
                    );
                    proof {
                        lemma_placed_sorted(before, id, score);
                    }
                },
                None => {
                    assert(!views.contains_key(id));
                },
            }
            id += 1;
        }
    }
}

} // verus!
