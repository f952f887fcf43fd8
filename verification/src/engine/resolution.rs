//! The stack machine that resolves an encounter, as a function on the
//! model: what one step does, what a run to the next prompt does, and the
//! laws that follow.

use crate::actions::action_template::invocation_effects;
use crate::actions::action_template::invocation_valid;
use crate::actions::action_template::Action;
use crate::actions::action_template::ActionHandle;
use crate::actions::action_template::InvocationView;
use crate::actors::actor_template::ActorView;
use crate::engine::grid::covers;
use crate::engine::model::lemma_can_move_implies_can_place;
use crate::engine::util::lemma_tile_center_dist_fits;
use crate::engine::util::spec_tile_center_dist;
use crate::engine::model::lemma_effect_applied_wf;
use crate::engine::model::lemma_turn_skipped_wf;
use crate::engine::model::lemma_wf_ignores_stack;
use crate::engine::model::EncounterView;
use crate::engine::model::EntryView;
use crate::engine::model::StackElementView;
use crate::engine::outcome::OutcomeView;
use crate::engine::prompt::PromptView;
use crate::engine::side_effects::SideEffect;
use vstd::prelude::*;

verus! {

/// How many entries of a stack are action invocations.
pub open spec fn pending_actions(stack: Seq<StackElementView>) -> nat
    decreases stack.len(),
{
    if stack.len() == 0 {
        0
    } else {
        pending_actions(stack.drop_last()) + if stack.last().entry is Action {
            1nat
        } else {
            0nat
        }
    }
}

impl EncounterView {
    /// The encounter with one more entry on top of the stack, under the next
    /// id of the batch.
    pub open spec fn enqueued(self, entry: EntryView, deps: Option<Seq<usize>>) -> EncounterView {
        EncounterView {
            stack: self.stack.push(
                StackElementView {
                    entry: entry,
                    id: self.outcomes.next_id,
                    success_dependencies: deps,
                },
            ),
            outcomes: OutcomeView {
                next_id: (self.outcomes.next_id + 1) as usize,
                ..self.outcomes
            },
            ..self
        }
    }

    /// The encounter after the side effects were put on the stack one by
    /// one, first to last, so that the last one ends up on top.
    pub open spec fn enqueued_effects(self, effects: Seq<SideEffect>) -> EncounterView
        decreases effects.len(),
    {
        if effects.len() == 0 {
            self
        } else {
            self.enqueued_effects(effects.drop_last()).enqueued(
                EntryView::SideEffect(effects.last()),
                None,
            )
        }
    }

    /// Whether the stack has a top and that top is a prompt.
    pub open spec fn top_is_prompt(self) -> bool {
        self.stack.len() > 0 && self.stack.last().entry is Prompt
    }

    /// The encounter without the top of its stack.
    pub open spec fn popped(self) -> EncounterView {
        EncounterView { stack: self.stack.drop_last(), ..self }
    }

    /// Whether a stack entry applies: it names no prerequisites, or every
    /// one of them has resolved successfully.
    pub open spec fn entry_applies(self, element: StackElementView) -> bool {
        match element.success_dependencies {
            Some(deps) => self.outcomes.all_succeeded(deps),
            None => true,
        }
    }

    /// Whether nothing is left to resolve before the next decision: the
    /// stack is empty or a prompt is on top.
    pub open spec fn halted(self) -> bool {
        self.stack.len() == 0 || self.stack.last().entry is Prompt
    }

    /// Whether the top of the stack can be resolved. An entry that does not
    /// apply is just dropped. An action invocation must come from an actor
    /// of the roster and be legal now, and the batch must have ids left for
    /// its side effects. A side effect must be applicable.
    pub open spec fn step_ok(self) -> bool
        recommends
            !self.halted(),
    {
        let element = self.stack.last();
        let rest = self.popped();
        !rest.entry_applies(element) || match element.entry {
            EntryView::Action(invocation) => {
                &&& rest.actors.contains_key(invocation.args.caster_id)
                &&& invocation_valid(rest, invocation)
                &&& rest.outcomes.next_id + invocation_effects(rest, invocation).len()
                    <= usize::MAX
            },
            EntryView::SideEffect(effect) => rest.effect_applicable(effect),
            EntryView::Prompt(_) => false,
        }
    }

    /// The encounter after the top of the stack was resolved: an entry that
    /// does not apply is dropped, an action invocation is replaced by its
    /// side effects, a side effect is applied.
    pub open spec fn step(self) -> EncounterView
        recommends
            !self.halted(),
    {
        let element = self.stack.last();
        let rest = self.popped();
        if !rest.entry_applies(element) {
            rest
        } else {
            match element.entry {
                EntryView::Action(invocation) => rest.enqueued_effects(
                    invocation_effects(rest, invocation),
                ),
                EntryView::SideEffect(effect) => rest.effect_applied(effect),
                EntryView::Prompt(_) => self,
            }
        }
    }

    /// The encounter after its stack was resolved, top first, until it is
    /// empty or shows a prompt.
    pub open spec fn run(self) -> EncounterView
        decreases pending_actions(self.stack), self.stack.len(),
    {
        if self.halted() {
            self
        } else {
            proof {
                lemma_step_decreases(self);
            }
            self.step().run()
        }
    }

    /// Whether every entry that `run` resolves can be resolved when its
    /// turn comes.
    pub open spec fn run_ok(self) -> bool
        decreases pending_actions(self.stack), self.stack.len(),
    {
        if self.halted() {
            true
        } else {
            proof {
                lemma_step_decreases(self);
            }
            self.step_ok() && self.step().run_ok()
        }
    }

    /// The encounter with the staging queue emptied onto the stack, front
    /// first, so that the back of the queue ends up on top.
    pub open spec fn drained(self) -> EncounterView {
        EncounterView { stack: self.stack + self.queue, queue: Seq::empty(), ..self }
    }

    /// The encounter at the start of a new batch: no outcome is recorded,
    /// and the only stack entry is a prompt for the actor whose turn it is,
    /// with all the actions of that actor.
    pub open spec fn prompting(self) -> EncounterView
        recommends
            self.initiative.current().is_some(),
    {
        let current = self.initiative.current().unwrap();
        EncounterView {
            stack: seq![
                StackElementView {
                    entry: EntryView::Prompt(
                        PromptView { actor_id: current, actions: self.actors[current].actions },
                    ),
                    id: 0,
                    success_dependencies: None,
                },
            ],
            outcomes: OutcomeView { next_id: 1, successes: Map::empty() },
            ..self
        }
    }

    /// Whether one tick can be processed: a prompt is on top and nothing
    /// is to be done, or every entry can be resolved when its turn comes
    /// and, should the stack run empty, the turn order shows whose turn it
    /// is.
    pub open spec fn process_ok(self) -> bool {
        self.top_is_prompt() || {
            &&& self.drained().run_ok()
            &&& (self.drained().run().stack.len() == 0
                ==> self.drained().run().initiative.current().is_some())
        }
    }

    /// The encounter after one tick.
    pub open spec fn processed(self) -> EncounterView {
        if self.top_is_prompt() {
            self
        } else if self.drained().run().stack.len() == 0 {
            self.drained().run().prompting()
        } else {
            self.drained().run()
        }
    }
}

/// Putting side effects on the stack changes nothing but the stack and the
/// next id, and adds no action invocation.
pub proof fn lemma_enqueued_effects(v: EncounterView, effects: Seq<SideEffect>)
    requires
        v.outcomes.next_id + effects.len() <= usize::MAX,
    ensures
        v.enqueued_effects(effects) == (EncounterView {
            stack: v.enqueued_effects(effects).stack,
            outcomes: OutcomeView {
                next_id: (v.outcomes.next_id + effects.len()) as usize,
                ..v.outcomes
            },
            ..v
        }),
        v.enqueued_effects(effects).stack.len() == v.stack.len() + effects.len(),
        pending_actions(v.enqueued_effects(effects).stack) == pending_actions(v.stack),
        forall|i: int|
            0 <= i < v.stack.len() ==> v.enqueued_effects(effects).stack[i] == v.stack[i],
        forall|i: int|
            0 <= i < effects.len() ==> #[trigger] v.enqueued_effects(effects).stack[v.stack.len()
                + i] == (StackElementView {
                entry: EntryView::SideEffect(effects[i]),
                id: (v.outcomes.next_id + i) as usize,
                success_dependencies: None,
            }),
    decreases effects.len(),
{
    if effects.len() > 0 {
        lemma_enqueued_effects(v, effects.drop_last());
        let before = v.enqueued_effects(effects.drop_last());
        let after = v.enqueued_effects(effects);
        assert(after.stack.drop_last() == before.stack);
    }
}

/// Putting side effects on the stack does not add an action invocation,
/// whatever the next id.
pub proof fn lemma_enqueued_effects_pending(v: EncounterView, effects: Seq<SideEffect>)
    ensures
        pending_actions(v.enqueued_effects(effects).stack) == pending_actions(v.stack),
        v.enqueued_effects(effects).stack.len() == v.stack.len() + effects.len(),
    decreases effects.len(),
{
    if effects.len() > 0 {
        lemma_enqueued_effects_pending(v, effects.drop_last());
        let before = v.enqueued_effects(effects.drop_last());
        let after = v.enqueued_effects(effects);
        assert(after.stack.drop_last() == before.stack);
    }
}

/// Resolving the top of the stack brings the end nearer: an action
/// invocation is gone, or no invocation came and the stack got shorter.
pub proof fn lemma_step_decreases(v: EncounterView)
    requires
        !v.halted(),
    ensures
        pending_actions(v.step().stack) < pending_actions(v.stack) || (pending_actions(
            v.step().stack,
        ) == pending_actions(v.stack) && v.step().stack.len() < v.stack.len()),
{
    let element = v.stack.last();
    let rest = v.popped();
    if rest.entry_applies(element) {
        match element.entry {
            EntryView::Action(invocation) => {
                lemma_enqueued_effects_pending(rest, invocation_effects(rest, invocation));
            },
            EntryView::SideEffect(effect) => {},
            EntryView::Prompt(_) => {},
        }
    }
}

/// Resolving the top of the stack keeps the invariant.
pub proof fn lemma_step_wf(v: EncounterView)
    requires
        v.wf(),
        !v.halted(),
        v.step_ok(),
    ensures
        v.step().wf(),
        v.step().initialized == v.initialized,
{
    let element = v.stack.last();
    let rest = v.popped();
    assert(rest.wf()) by {
        assert forall|i: int, id: usize| 0 <= i < rest.actor_map.len() implies (rest.actor_map[i]
            == Some(id) <==> #[trigger] rest.covered_by(id, i)) by {
            assert(rest.covered_by(id, i) == v.covered_by(id, i));
        }
    }
    if rest.entry_applies(element) {
        match element.entry {
            EntryView::Action(invocation) => {
                let effects = invocation_effects(rest, invocation);
                lemma_enqueued_effects(rest, effects);
                let after = rest.enqueued_effects(effects);
                assert forall|i: int, id: usize| 0 <= i < after.actor_map.len() implies (
                after.actor_map[i] == Some(id) <==> #[trigger] after.covered_by(id, i)) by {
                    assert(after.covered_by(id, i) == rest.covered_by(id, i));
                }
            },
            EntryView::SideEffect(effect) => {
                lemma_effect_applied_wf(rest, effect);
            },
            EntryView::Prompt(_) => {},
        }
    }
}

/// The encounter after the side effects were applied last to first.
pub open spec fn applied_reversed(v: EncounterView, effects: Seq<SideEffect>) -> EncounterView
    decreases effects.len(),
{
    if effects.len() == 0 {
        v
    } else {
        applied_reversed(v.effect_applied(effects.last()), effects.drop_last())
    }
}

/// Whether each of the side effects is applicable when its turn comes, as
/// they are applied last to first.
pub open spec fn applicable_reversed(v: EncounterView, effects: Seq<SideEffect>) -> bool
    decreases effects.len(),
{
    if effects.len() == 0 {
        true
    } else {
        v.effect_applicable(effects.last()) && applicable_reversed(
            v.effect_applied(effects.last()),
            effects.drop_last(),
        )
    }
}

/// Whether the stack of `v` is `base` with the side effects on top of it,
/// first to last, each without prerequisites.
pub open spec fn effects_on_top(
    v: EncounterView,
    base: Seq<StackElementView>,
    effects: Seq<SideEffect>,
) -> bool {
    &&& v.stack.len() == base.len() + effects.len()
    &&& forall|i: int| 0 <= i < base.len() ==> v.stack[i] == base[i]
    &&& forall|i: int|
        0 <= i < effects.len() ==> (#[trigger] v.stack[base.len() + i]).entry
            == EntryView::SideEffect(effects[i]) && v.stack[base.len()
            + i].success_dependencies.is_none()
}

/// Side effects drain in the reverse of the order they were put on the
/// stack: the one that was put on last applies first. Resolving a stack
/// that holds side effects above entries that halt the engine applies the
/// side effects last to first and leaves those entries.
pub proof fn lemma_effects_drain_reversed(
    v: EncounterView,
    base: Seq<StackElementView>,
    effects: Seq<SideEffect>,
)
    requires
        effects_on_top(v, base, effects),
        base.len() == 0 || base.last().entry is Prompt,
    ensures
        v.run() == applied_reversed(EncounterView { stack: base, ..v }, effects),
        v.run_ok() == applicable_reversed(EncounterView { stack: base, ..v }, effects),
    decreases effects.len(),
{
    let below = EncounterView { stack: base, ..v };
    if effects.len() == 0 {
        assert(v.stack =~= base);
        assert(v.halted());
    } else {
        let top = v.stack.last();
        assert(top == v.stack[base.len() + (effects.len() - 1)]);
        assert(top.entry == EntryView::SideEffect(effects.last()));
        assert(!v.halted());
        let rest = v.popped();
        assert(rest.entry_applies(top));
        let next = v.step();
        assert(next == rest.effect_applied(effects.last()));
        assert(next.stack == rest.stack);
        assert forall|i: int| 0 <= i < effects.drop_last().len() implies (#[trigger] next.stack[base.len()
            + i]).entry == EntryView::SideEffect(effects.drop_last()[i]) && next.stack[base.len()
            + i].success_dependencies.is_none() by {
            assert(next.stack[base.len() + i] == v.stack[base.len() + i]);
        }
        assert(effects_on_top(next, base, effects.drop_last()));
        lemma_step_decreases(v);
        lemma_effects_drain_reversed(next, base, effects.drop_last());
        assert((EncounterView { stack: base, ..next }) == below.effect_applied(effects.last()));
        assert(v.step_ok() == below.effect_applicable(effects.last()));
    }
}

/// Whether the engine holds nothing but one action invocation, as after a
/// prompt was answered: the invocation is the only stack entry, it names
/// no prerequisites, and the staging queue is empty.
pub open spec fn answered_with(v: EncounterView, invocation: InvocationView) -> bool {
    &&& v.stack.len() == 1
    &&& v.stack[0].entry == EntryView::Action(invocation)
    &&& v.stack[0].success_dependencies.is_none()
    &&& v.queue.len() == 0
}

/// The encounter in which the invocation is resolved: nothing on the
/// stack, and the ids of its side effects used up.
pub open spec fn resolving(v: EncounterView, invocation: InvocationView) -> EncounterView {
    EncounterView {
        stack: Seq::empty(),
        outcomes: OutcomeView {
            next_id: (v.outcomes.next_id + invocation_effects(v.popped(), invocation).len()) as usize,
            ..v.outcomes
        },
        ..v
    }
}

/// The side effects of a legal invocation are applicable, last to first.
pub proof fn lemma_legal_effects_applicable(v: EncounterView, invocation: InvocationView)
    requires
        v.wf(),
        v.actors.contains_key(invocation.args.caster_id),
        invocation_valid(v, invocation),
        v.initiative.current().is_some(),
    ensures
        applicable_reversed(v, invocation_effects(v, invocation)),
        applied_reversed(v, invocation_effects(v, invocation)).initiative.current().is_some(),
        invocation_effects(v, invocation).len() <= 2,
{
    let effects = invocation_effects(v, invocation);
    let caster = invocation.args.caster_id;
    match invocation.action {
        ActionHandle::Move => {
            let target = invocation.args.target_locations.unwrap()[0];
            assert(effects.len() == 2);
            assert(effects.drop_last().len() == 1);
            assert(effects.drop_last().drop_last().len() == 0);
            lemma_can_move_implies_can_place(v, caster, target);
            let spent = v.effect_applied(effects.last());
            assert(spent.can_place(caster, target));
            assert(effects.drop_last().last() == effects[0]);
            assert(spent.effect_applicable(effects[0]));
            assert(applicable_reversed(
                spent.effect_applied(effects[0]),
                effects.drop_last().drop_last(),
            ));
            assert(applicable_reversed(spent, effects.drop_last()));
            let done = spent.effect_applied(effects[0]);
            assert(applied_reversed(done, effects.drop_last().drop_last()) == done);
            assert(applied_reversed(spent, effects.drop_last()) == done);
            assert(applied_reversed(v, effects) == done);
            assert(done.initiative == v.initiative);
        },
        ActionHandle::Dash => {
            assert(effects.len() == 2);
            assert(effects.drop_last().len() == 1);
            assert(effects.drop_last().drop_last().len() == 0);
            let spent = v.effect_applied(effects.last());
            assert(effects.drop_last().last() == effects[0]);
            assert(spent.effect_applicable(effects[0]));
            assert(applicable_reversed(
                spent.effect_applied(effects[0]),
                effects.drop_last().drop_last(),
            ));
            assert(applicable_reversed(spent, effects.drop_last()));
            let done = spent.effect_applied(effects[0]);
            assert(applied_reversed(done, effects.drop_last().drop_last()) == done);
            assert(applied_reversed(spent, effects.drop_last()) == done);
            assert(applied_reversed(v, effects) == done);
            assert(done.initiative == v.initiative);
        },
        ActionHandle::Skip => {
            assert(effects.len() == 1);
            assert(effects.drop_last().len() == 0);
            lemma_turn_skipped_wf(v);
            assert(applicable_reversed(v.effect_applied(effects.last()), effects.drop_last()));
            let done = v.effect_applied(effects.last());
            assert(applied_reversed(done, effects.drop_last()) == done);
            assert(applied_reversed(v, effects) == done);
        },
        ActionHandle::Slam => {
            assert(effects.len() == 1);
            assert(effects.drop_last().len() == 0);
            assert(applicable_reversed(v.effect_applied(effects.last()), effects.drop_last()));
            let done = v.effect_applied(effects.last());
            assert(applied_reversed(done, effects.drop_last()) == done);
            assert(applied_reversed(v, effects) == done);
        },
    }
}

/// Whether an invocation is legal, and what it resolves into, does not
/// depend on the stack, the staging queue, the outcomes or the messages.
pub proof fn lemma_validity_ignores_stack(
    v: EncounterView,
    w: EncounterView,
    invocation: InvocationView,
)
    requires
        w == (EncounterView {
            stack: w.stack,
            queue: w.queue,
            outcomes: w.outcomes,
            messages: w.messages,
            tmp_message: w.tmp_message,
            ..v
        }),
    ensures
        invocation_valid(w, invocation) == invocation_valid(v, invocation),
        invocation_effects(w, invocation) == invocation_effects(v, invocation),
{
    match invocation.action {
        ActionHandle::Move => {
            let id = invocation.args.caster_id;
            if invocation.args.target_locations.is_some() {
                let target = invocation.args.target_locations.unwrap()[0];
                assert forall|dx: int, dy: int|
                    #[trigger] w.subtile_free_for(target.x + dx, target.y + dy, id)
                        == v.subtile_free_for(target.x + dx, target.y + dy, id) by {}
                assert forall|dx: int, dy: int|
                    #[trigger] v.subtile_free_for(target.x + dx, target.y + dy, id)
                        == w.subtile_free_for(target.x + dx, target.y + dy, id) by {}
                assert(w.can_move_to(id, target) == v.can_move_to(id, target));
            }
        },
        ActionHandle::Dash => {},
        ActionHandle::Skip => {},
        ActionHandle::Slam => {},
    }
}

/// A legal invocation always resolves. When the engine holds nothing but
/// an invocation that is legal in the encounter as it stands, a tick can
/// be processed; it applies the side effects of the invocation in the
/// reverse of the order they were generated in, and ends with a prompt for
/// the actor whose turn it then is.
pub proof fn lemma_legal_invocation_resolves(v: EncounterView, invocation: InvocationView)
    requires
        v.wf(),
        answered_with(v, invocation),
        v.actors.contains_key(invocation.args.caster_id),
        invocation_valid(v, invocation),
        v.initiative.current().is_some(),
        v.outcomes.next_id + 2 <= usize::MAX,
    ensures
        v.process_ok(),
        v.processed() == applied_reversed(
            resolving(v, invocation),
            invocation_effects(v.popped(), invocation),
        ).prompting(),
{
    let rest = v.popped();
    let effects = invocation_effects(rest, invocation);
    assert(rest.stack =~= Seq::<StackElementView>::empty());
    lemma_wf_ignores_stack(v, rest);
    lemma_validity_ignores_stack(v, rest, invocation);
    lemma_legal_effects_applicable(rest, invocation);
    lemma_enqueued_effects(rest, effects);
    let queued = rest.enqueued_effects(effects);
    let below = EncounterView { stack: Seq::empty(), ..queued };
    assert(below == resolving(v, invocation));
    assert(v.drained() == v) by {
        assert(v.stack + v.queue =~= v.stack);
        assert(v.queue =~= Seq::<StackElementView>::empty());
    }
    assert(!v.top_is_prompt());
    assert(!v.halted());
    assert(rest.entry_applies(v.stack.last()));
    assert(v.step() == queued);
    assert(v.step_ok());
    assert(effects_on_top(queued, Seq::<StackElementView>::empty(), effects)) by {
        assert forall|i: int| 0 <= i < effects.len() implies (#[trigger] queued.stack[0 + i]).entry
            == EntryView::SideEffect(effects[i]) && queued.stack[0
            + i].success_dependencies.is_none() by {
            assert(queued.stack[rest.stack.len() + i].entry == EntryView::SideEffect(effects[i]));
        }
    }
    lemma_effects_drain_reversed(queued, Seq::<StackElementView>::empty(), effects);
    lemma_wf_ignores_stack(rest, below);
    lemma_reversed_ignores_ids(rest, below, effects);
    lemma_step_decreases(v);
    assert(v.run() == queued.run());
    assert(v.run_ok() == (v.step_ok() && queued.run_ok()));
    lemma_reversed_keeps_stack(below, effects);
}

/// A legal move, resolved: when the engine holds nothing but a legal
/// invocation of the move action, one tick takes exactly the distance to
/// the target from the movement of the caster, once, and leaves its other
/// budgets as they are; the caster stands at the target; every cell under
/// its footprint there holds it, no other cell does, and the cells of the
/// other actors are as they were; and the tick ends with a prompt.
pub proof fn lemma_legal_move_resolves(v: EncounterView, invocation: InvocationView)
    requires
        v.wf(),
        answered_with(v, invocation),
        invocation.action == ActionHandle::Move,
        v.actors.contains_key(invocation.args.caster_id),
        invocation_valid(v, invocation),
        v.initiative.current().is_some(),
        v.outcomes.next_id + 2 <= usize::MAX,
    ensures
        v.process_ok(),
        ({
            let caster = invocation.args.caster_id;
            let target = invocation.args.target_locations.unwrap()[0];
            let cost = spec_tile_center_dist(v.actors[caster].location, target);
            let after = v.processed();
            &&& cost <= v.actors[caster].movement
            &&& after.actors == v.actors.insert(
                caster,
                ActorView {
                    movement: (v.actors[caster].movement - cost) as u64,
                    location: target,
                    ..v.actors[caster]
                },
            )
            &&& after.actor_map == v.moved_map(caster, target)
            &&& forall|i: int|
                0 <= i < after.actor_map.len() ==> (#[trigger] after.actor_map[i] == Some(caster)
                    <==> covers(
                    target.x as int,
                    target.y as int,
                    v.side_of(caster),
                    i % (v.width as int),
                    i / (v.width as int),
                ))
            &&& forall|i: int|
                0 <= i < after.actor_map.len() && #[trigger] v.actor_map[i] != Some(caster)
                    && after.actor_map[i] != Some(caster) ==> after.actor_map[i] == v.actor_map[i]
            &&& after.initiative == v.initiative
            &&& after.top_is_prompt()
            &&& after.stack.len() == 1
            &&& after.wf()
        }),
{
    let caster = invocation.args.caster_id;
    let target = invocation.args.target_locations.unwrap()[0];
    let cost = spec_tile_center_dist(v.actors[caster].location, target);
    lemma_tile_center_dist_fits(v.actors[caster].location, target);
    lemma_legal_invocation_resolves(v, invocation);
    let rest = v.popped();
    lemma_validity_ignores_stack(v, rest, invocation);
    let effects = invocation_effects(rest, invocation);
    let pay = effects[1];
    let go = effects[0];
    assert(effects.len() == 2);
    assert(effects.last() == pay);
    assert(effects.drop_last().len() == 1);
    assert(effects.drop_last().last() == go);
    assert(effects.drop_last().drop_last().len() == 0);
    let ready = resolving(v, invocation);
    lemma_wf_ignores_stack(v, ready);
    let paid = ready.effect_applied(pay);
    let gone = paid.effect_applied(go);
    assert(applied_reversed(gone, effects.drop_last().drop_last()) == gone);
    assert(applied_reversed(paid, effects.drop_last()) == gone);
    assert(applied_reversed(ready, effects) == gone);
    lemma_effect_applied_wf(ready, pay);
    assert(paid.actor_map == v.actor_map);
    lemma_can_move_implies_can_place(v, caster, target);
    assert(paid.can_place(caster, target));
    lemma_effect_applied_wf(paid, go);
    assert(gone.actor_map =~= v.moved_map(caster, target));
    assert(gone.actors =~= v.actors.insert(
        caster,
        ActorView {
            movement: (v.actors[caster].movement - cost) as u64,
            location: target,
            ..v.actors[caster]
        },
    ));
    let after = v.processed();
    assert(after == gone.prompting());
    lemma_wf_ignores_stack(gone, after);
    assert forall|i: int| 0 <= i < after.actor_map.len() implies (#[trigger] after.actor_map[i]
        == Some(caster) <==> covers(
        target.x as int,
        target.y as int,
        v.side_of(caster),
        i % (v.width as int),
        i / (v.width as int),
    )) by {
        assert(after.actor_map[i] == Some(caster) <==> after.covered_by(caster, i));
    }
}

/// Applying side effects does not depend on the stack or the next id, and
/// leaves them as they are.
pub proof fn lemma_reversed_ignores_ids(
    v: EncounterView,
    w: EncounterView,
    effects: Seq<SideEffect>,
)
    requires
        w == (EncounterView { stack: w.stack, outcomes: w.outcomes, ..v }),
    ensures
        applicable_reversed(w, effects) == applicable_reversed(v, effects),
        applied_reversed(w, effects) == (EncounterView {
            stack: w.stack,
            outcomes: w.outcomes,
            ..applied_reversed(v, effects)
        }),
    decreases effects.len(),
{
    if effects.len() > 0 {
        let e = effects.last();
        assert(w.effect_applicable(e) == v.effect_applicable(e));
        assert(w.effect_applied(e) == (EncounterView {
            stack: w.stack,
            outcomes: w.outcomes,
            ..v.effect_applied(e)
        }));
        lemma_reversed_ignores_ids(v.effect_applied(e), w.effect_applied(e), effects.drop_last());
    }
}

/// Applying side effects leaves the stack as it is.
pub proof fn lemma_reversed_keeps_stack(v: EncounterView, effects: Seq<SideEffect>)
    ensures
        applied_reversed(v, effects).stack == v.stack,
    decreases effects.len(),
{
    if effects.len() > 0 {
        lemma_reversed_keeps_stack(v.effect_applied(effects.last()), effects.drop_last());
    }
}

} // verus!
