//! Resources and the atomic state changes that actions resolve into.

use crate::engine::encounter::EncounterInstance;
use crate::engine::types::Coordinate;
use vstd::prelude::*;

verus! {

/// A budget an actor can spend or be given.
///
/// `Movement` carries a distance in thousandths of a map unit;
/// `SpellSlot` carries the slot level.
#[derive(Clone, Copy, Debug, PartialEq, Eq, Structural)]
pub enum Resource {
    Movement(u64),
    SpellSlot(u32),
    Action,
    BonusAction,
    Reaction,
    LegendaryAction,
}

/// Takes a resource away from an actor.
#[derive(Clone, Copy, Debug, PartialEq, Eq, Structural)]
pub struct ConsumeResource {
    pub actor_id: usize,
    pub resource: Resource,
}

/// Hands a resource to an actor.
#[derive(Clone, Copy, Debug, PartialEq, Eq, Structural)]
pub struct GiveResource {
    pub actor_id: usize,
    pub resource: Resource,
}

/// Relocates an actor so that its footprint is anchored at `target`.
#[derive(Clone, Copy, Debug, PartialEq, Eq, Hash, Structural)]
pub struct MoveActor {
    pub actor_id: usize,
    pub target: Coordinate,
}

/// Ends the current turn.
#[derive(Clone, Copy, Debug, PartialEq, Eq, Hash, Structural)]
pub struct SkipTurn {}

/// The closed set of atomic state changes an action can resolve into.
#[derive(Clone, Copy, Debug, PartialEq, Eq, Structural)]
pub enum SideEffect {
    ConsumeResource(ConsumeResource),
    GiveResource(GiveResource),
    MoveActor(MoveActor),
    SkipTurn(SkipTurn),
}

/// Something that changes an encounter when it is applied.
pub trait ApplicableSideEffect {
    /// The side effect that the value stands for.
    spec fn as_effect(&self) -> SideEffect;

    /// Applies the side effect, which is applicable to the encounter.
    fn apply(&self, ei: &mut EncounterInstance)
        requires
            old(ei).wf(),
            old(ei)@.effect_applicable(self.as_effect()),
        ensures
            final(ei)@ == old(ei)@.effect_applied(self.as_effect()),
            final(ei).wf(),
    ;
}

impl ApplicableSideEffect for ConsumeResource {
    open spec fn as_effect(&self) -> SideEffect {
        SideEffect::ConsumeResource(*self)
    }

    fn apply(&self, ei: &mut EncounterInstance) {
        ei.consume_resource(self.actor_id, self.resource);
    }
}

impl ApplicableSideEffect for GiveResource {
    open spec fn as_effect(&self) -> SideEffect {
        SideEffect::GiveResource(*self)
    }

    fn apply(&self, ei: &mut EncounterInstance) {
        ei.give_resource(self.actor_id, self.resource);
    }
}

impl ApplicableSideEffect for MoveActor {
    open spec fn as_effect(&self) -> SideEffect {
        SideEffect::MoveActor(*self)
    }

    fn apply(&self, ei: &mut EncounterInstance) {
        ei.relocate_actor(self.actor_id, self.target);
    }
}

impl ApplicableSideEffect for SkipTurn {
    open spec fn as_effect(&self) -> SideEffect {
        SideEffect::SkipTurn(*self)
    }

    fn apply(&self, ei: &mut EncounterInstance) {
        ei.skip_turn();
    }
}

impl ApplicableSideEffect for SideEffect {
    open spec fn as_effect(&self) -> SideEffect {
        *self
    }

    fn apply(&self, ei: &mut EncounterInstance) {
        match self {
            SideEffect::ConsumeResource(c) => c.apply(ei),
            SideEffect::GiveResource(g) => g.apply(ei),
            SideEffect::MoveActor(m) => m.apply(ei),
            SideEffect::SkipTurn(s) => s.apply(ei),
        }
    }
}

} // verus!
