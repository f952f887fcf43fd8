//! The actions every creature has: move, skip and dash.

use crate::actions::action_template::Action;
use crate::actions::action_template::ActionArgs;
use crate::actions::action_template::ActionOverride;
use crate::actions::action_template::TargetingSchema;
use crate::engine::encounter::EncounterInstance;
use crate::engine::model::EncounterView;
use crate::engine::side_effects::GiveResource;
use crate::engine::side_effects::MoveActor;
use crate::engine::side_effects::Resource;
use crate::engine::side_effects::SideEffect;
use crate::engine::side_effects::SkipTurn;
use crate::engine::types::Coordinate;
use crate::engine::util::spec_tile_center_dist;
use crate::engine::util::tile_center_dist;
use vstd::prelude::*;

verus! {

/// Walk to a tile. It costs the distance between the centres of the two
/// tiles and is legal where the whole footprint may stand at the target.
#[derive(Clone, Copy, Debug)]
pub struct Move {}

impl Action for Move {
    open spec fn spec_name(&self) -> Seq<char> {
        "move"@
    }

    open spec fn spec_aliases(&self) -> Seq<Seq<char>> {
        seq!["mv"@]
    }

    open spec fn spec_targeting_schema(&self) -> TargetingSchema {
        TargetingSchema::SinglePoint
    }

    open spec fn spec_cost(&self, encounter: EncounterView, args: ActionArgs) -> Option<Resource> {
        Some(
            Resource::Movement(
                spec_tile_center_dist(
                    encounter.actors[args.caster_id].location,
                    args.target_locations.unwrap()[0],
                ) as u64,
            ),
        )
    }

    open spec fn spec_custom_valid(&self, encounter: EncounterView, args: ActionArgs) -> bool {
        encounter.can_move_to(args.caster_id, args.target_locations.unwrap()[0])
    }

    open spec fn spec_side_effects(&self, encounter: EncounterView, args: ActionArgs) -> Seq<
        SideEffect,
    > {
        seq![
            SideEffect::MoveActor(
                MoveActor { actor_id: args.caster_id, target: args.target_locations.unwrap()[0] },
            ),
        ]
    }

    fn name(&self) -> (name: &'static str) {
        "move"
    }

    fn aliases(&self) -> (aliases: Vec<&'static str>) {
        vec!["mv"]
    }

    fn targeting_schema(&self) -> (schema: TargetingSchema) {
        TargetingSchema::SinglePoint
    }

    fn cost(
        &self,
        encounter: &EncounterInstance,
        caster_id: usize,
        target_ids: Option<&Vec<usize>>,
        target_locations: Option<&Vec<Coordinate>>,
        overrides: Option<&Vec<ActionOverride>>,
    ) -> (cost: Option<Resource>) {
        let actor = encounter.get_actor(caster_id).unwrap();
        let dest: Coordinate = target_locations.unwrap()[0];
        let dist = tile_center_dist(actor.location(), dest);
        Some(Resource::Movement(dist))
    }

    fn custom_validate_input(
        &self,
        encounter: &EncounterInstance,
        caster_id: usize,
        target_ids: Option<&Vec<usize>>,
        target_locations: Option<&Vec<Coordinate>>,
        overrides: Option<&Vec<ActionOverride>>,
    ) -> (ok: bool) {
        let coord: Coordinate = target_locations.unwrap()[0];
        encounter.can_move_to(caster_id, coord)
    }

    fn side_effects(
        &self,
        encounter: &EncounterInstance,
        caster_id: usize,
        target_ids: Option<&Vec<usize>>,
        target_locations: Option<&Vec<Coordinate>>,
        overrides: Option<&Vec<ActionOverride>>,
    ) -> (effects: Vec<SideEffect>) {
        let target_location: Coordinate = target_locations.unwrap()[0];
        vec![SideEffect::MoveActor(MoveActor { actor_id: caster_id, target: target_location })]
    }
}

/// End the turn. It costs nothing.
#[derive(Clone, Copy, Debug)]
pub struct Skip {}

impl Action for Skip {
    open spec fn spec_name(&self) -> Seq<char> {
        "skip"@
    }

    open spec fn spec_aliases(&self) -> Seq<Seq<char>> {
        seq!["s"@]
    }

    open spec fn spec_targeting_schema(&self) -> TargetingSchema {
        TargetingSchema::NoArgs
    }

    open spec fn spec_cost(&self, encounter: EncounterView, args: ActionArgs) -> Option<Resource> {
        None
    }

    open spec fn spec_custom_valid(&self, encounter: EncounterView, args: ActionArgs) -> bool {
        true
    }

    open spec fn spec_side_effects(&self, encounter: EncounterView, args: ActionArgs) -> Seq<
        SideEffect,
    > {
        seq![SideEffect::SkipTurn(SkipTurn {  })]
    }

    fn name(&self) -> (name: &'static str) {
        "skip"
    }

    fn aliases(&self) -> (aliases: Vec<&'static str>) {
        vec!["s"]
    }

    fn targeting_schema(&self) -> (schema: TargetingSchema) {
        TargetingSchema::NoArgs
    }

    fn cost(
        &self,
        encounter: &EncounterInstance,
        caster_id: usize,
        target_ids: Option<&Vec<usize>>,
        target_locations: Option<&Vec<Coordinate>>,
        overrides: Option<&Vec<ActionOverride>>,
    ) -> (cost: Option<Resource>) {
        None
    }

    fn custom_validate_input(
        &self,
        encounter: &EncounterInstance,
        caster_id: usize,
        target_ids: Option<&Vec<usize>>,
        target_locations: Option<&Vec<Coordinate>>,
        overrides: Option<&Vec<ActionOverride>>,
    ) -> (ok: bool) {
        true
    }

    fn side_effects(
        &self,
        encounter: &EncounterInstance,
        caster_id: usize,
        target_ids: Option<&Vec<usize>>,
        target_locations: Option<&Vec<Coordinate>>,
        overrides: Option<&Vec<ActionOverride>>,
    ) -> (effects: Vec<SideEffect>) {
        vec![SideEffect::SkipTurn(SkipTurn {  })]
    }
}

/// Spend the action of the round on more movement: as much as the actor's
/// speed.
#[derive(Clone, Copy, Debug)]
pub struct Dash {}

impl Action for Dash {
    open spec fn spec_name(&self) -> Seq<char> {
        "dash"@
    }

    open spec fn spec_aliases(&self) -> Seq<Seq<char>> {
        seq!["dsh"@]
    }

    open spec fn spec_targeting_schema(&self) -> TargetingSchema {
        TargetingSchema::NoArgs
    }

    open spec fn spec_cost(&self, encounter: EncounterView, args: ActionArgs) -> Option<Resource> {
        Some(Resource::Action)
    }

    open spec fn spec_custom_valid(&self, encounter: EncounterView, args: ActionArgs) -> bool {
        true
    }

    open spec fn spec_side_effects(&self, encounter: EncounterView, args: ActionArgs) -> Seq<
        SideEffect,
    > {
        seq![
            SideEffect::GiveResource(
                GiveResource {
                    actor_id: args.caster_id,
                    resource: Resource::Movement(encounter.actors[args.caster_id].base_speed),
                },
            ),
        ]
    }

    fn name(&self) -> (name: &'static str) {
        "dash"
    }

    fn aliases(&self) -> (aliases: Vec<&'static str>) {
        vec!["dsh"]
    }

    fn targeting_schema(&self) -> (schema: TargetingSchema) {
        TargetingSchema::NoArgs
    }

    fn cost(
        &self,
        encounter: &EncounterInstance,
        caster_id: usize,
        target_ids: Option<&Vec<usize>>,
        target_locations: Option<&Vec<Coordinate>>,
        overrides: Option<&Vec<ActionOverride>>,
    ) -> (cost: Option<Resource>) {
        Some(Resource::Action)
    }

    fn custom_validate_input(
        &self,
        encounter: &EncounterInstance,
        caster_id: usize,
        target_ids: Option<&Vec<usize>>,
        target_locations: Option<&Vec<Coordinate>>,
        overrides: Option<&Vec<ActionOverride>>,
    ) -> (ok: bool) {
        true
    }

    fn side_effects(
        &self,
        encounter: &EncounterInstance,
        caster_id: usize,
        target_ids: Option<&Vec<usize>>,
        target_locations: Option<&Vec<Coordinate>>,
        overrides: Option<&Vec<ActionOverride>>,
    ) -> (effects: Vec<SideEffect>) {
        let speed = encounter.get_actor(caster_id).unwrap().speed();
        vec![
            SideEffect::GiveResource(
                GiveResource { actor_id: caster_id, resource: Resource::Movement(speed) },
            ),
        ]
    }
}

/// The actions every creature can take, in the order they are offered.
pub fn default_actions() -> (actions: Vec<crate::actions::action_template::ActionHandle>)
    ensures
        actions@ == seq![
            crate::actions::action_template::ActionHandle::Move,
            crate::actions::action_template::ActionHandle::Dash,
            crate::actions::action_template::ActionHandle::Skip,
        ],
{
    vec![
        crate::actions::action_template::ActionHandle::Move,
        crate::actions::action_template::ActionHandle::Dash,
        crate::actions::action_template::ActionHandle::Skip,
    ]
}

} // verus!
