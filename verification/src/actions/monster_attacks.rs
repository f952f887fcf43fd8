//! Attacks of monsters.

use crate::actions::action_template::Action;
use crate::actions::action_template::ActionArgs;
use crate::actions::action_template::ActionOverride;
use crate::actions::action_template::TargetingSchema;
use crate::engine::encounter::EncounterInstance;
use crate::engine::model::EncounterView;
use crate::engine::side_effects::Resource;
use crate::engine::side_effects::SideEffect;
use crate::engine::types::Coordinate;
use vstd::prelude::*;

verus! {

/// A blow against one other actor. It costs the action of the round; what
/// it does to its target is not settled yet, so it has no side effect
/// besides its cost.
#[derive(Clone, Copy, Debug)]
pub struct Slam {}

impl Action for Slam {
    open spec fn spec_name(&self) -> Seq<char> {
        "slam"@
    }

    open spec fn spec_aliases(&self) -> Seq<Seq<char>> {
        seq!["slm"@]
    }

    open spec fn spec_targeting_schema(&self) -> TargetingSchema {
        TargetingSchema::SingleActor
    }

    open spec fn spec_cost(&self, encounter: EncounterView, args: ActionArgs) -> Option<Resource> {
        Some(Resource::Action)
    }

    open spec fn spec_custom_valid(&self, encounter: EncounterView, args: ActionArgs) -> bool {
        true
    }

    open spec fn spec_side_effects(&self, encounter: EncounterView, args: ActionArgs) -> Seq<
        SideEffect,
    > {
        Seq::empty()
    }

    fn name(&self) -> (name: &'static str) {
        "slam"
    }

    fn aliases(&self) -> (aliases: Vec<&'static str>) {
        vec!["slm"]
    }

    fn targeting_schema(&self) -> (schema: TargetingSchema) {
        TargetingSchema::SingleActor
    }

    fn cost(
        &self,
        encounter: &EncounterInstance,
        caster_id: usize,
        target_ids: Option<&Vec<usize>>,
        target_locations: Option<&Vec<Coordinate>>,
        overrides: Option<&Vec<ActionOverride>>,
    ) -> (cost: Option<Resource>) {
        Some(Resource::Action)
    }

    fn custom_validate_input(
        &self,
        encounter: &EncounterInstance,
        caster_id: usize,
        target_ids: Option<&Vec<usize>>,
        target_locations: Option<&Vec<Coordinate>>,
        overrides: Option<&Vec<ActionOverride>>,
    ) -> (ok: bool) {
        true
    }

    fn side_effects(
        &self,
        encounter: &EncounterInstance,
        caster_id: usize,
        target_ids: Option<&Vec<usize>>,
        target_locations: Option<&Vec<Coordinate>>,
        overrides: Option<&Vec<ActionOverride>>,
    ) -> (effects: Vec<SideEffect>) {
        Vec::new()
    }
}

} // verus!
