//! The action protocol: how an action is described, validated and
//! resolved into side effects.

use crate::actions::default_actions::Dash;
use crate::actions::default_actions::Move;
use crate::actions::default_actions::Skip;
use crate::actions::monster_attacks::Slam;
use crate::engine::encounter::EncounterInstance;
use crate::engine::model::EncounterView;
use crate::engine::side_effects::ConsumeResource;
use crate::engine::side_effects::Resource;
use crate::engine::side_effects::SideEffect;
use crate::engine::types::Coordinate;
use vstd::prelude::*;

verus! {

/// The shape of the arguments an action accepts.
#[derive(Clone, Copy, Debug, PartialEq, Eq, Structural)]
pub enum TargetingSchema {
    /// No target ids, no target coordinates, no overrides.
    NoArgs,
    /// Exactly one target coordinate and no target ids.
    SinglePoint,
    /// Exactly one target id and no target coordinates.
    SingleActor,
    /// The action validates the shape of its arguments itself.
    Custom,
}

/// Handle of a registered action; actors and stack entries hold handles,
/// never the actions themselves.
#[derive(Clone, Copy, Debug, PartialEq, Eq, Structural)]
pub enum ActionHandle {
    Move,
    Skip,
    Dash,
    Slam,
}

/// A named switch that alters how an action resolves.
#[derive(Clone, Debug)]
pub struct ActionOverride {
    pub name: String,
}

/// The names of a list of overrides, in order.
pub open spec fn override_names(overrides: Seq<ActionOverride>) -> Seq<Seq<char>> {
    overrides.map_values(|o: ActionOverride| o.name@)
}

/// The arguments of an action invocation, as plain mathematical values.
pub ghost struct ActionArgs {
    pub caster_id: usize,
    pub target_ids: Option<Seq<usize>>,
    pub target_locations: Option<Seq<Coordinate>>,
    pub overrides: Option<Seq<Seq<char>>>,
}

impl ActionArgs {
    /// The overrides are a set: no name occurs twice among them.
    pub open spec fn wf(self) -> bool {
        self.overrides matches Some(names) ==> names.no_duplicates()
    }
}

/// The arguments that the parameters of an action method stand for.
pub open spec fn args_of(
    caster_id: usize,
    target_ids: Option<&Vec<usize>>,
    target_locations: Option<&Vec<Coordinate>>,
    overrides: Option<&Vec<ActionOverride>>,
) -> ActionArgs {
    ActionArgs {
        caster_id: caster_id,
        target_ids: match target_ids {
            Some(ids) => Some(ids@),
            None => None,
        },
        target_locations: match target_locations {
            Some(locations) => Some(locations@),
            None => None,
        },
        overrides: match overrides {
            Some(o) => Some(override_names(o@)),
            None => None,
        },
    }
}

/// Whether the arguments have the shape that `schema` asks for. A custom
/// schema has no shape of its own.
pub open spec fn shape_ok(schema: TargetingSchema, args: ActionArgs) -> bool {
    match schema {
        TargetingSchema::NoArgs => {
            &&& args.target_ids.is_none()
            &&& args.target_locations.is_none()
            &&& args.overrides.is_none()
        },
        TargetingSchema::SinglePoint => {
            &&& args.target_ids.is_none()
            &&& args.target_locations matches Some(locations)
            &&& locations.len() == 1
        },
        TargetingSchema::SingleActor => {
            &&& args.target_locations.is_none()
            &&& args.target_ids matches Some(ids)
            &&& ids.len() == 1
        },
        TargetingSchema::Custom => false,
    }
}

/// Mathematical content of an [`ActionExecutionInfo`].
pub ghost struct InvocationView {
    pub action: ActionHandle,
    pub args: ActionArgs,
}

/// One invocation of an action: which action, by whom, on what.
#[derive(Debug)]
pub struct ActionExecutionInfo {
    action: ActionHandle,
    caster_id: usize,
    target_ids: Option<Vec<usize>>,
    target_locations: Option<Vec<Coordinate>>,
    overrides: Option<Vec<ActionOverride>>,
}

impl View for ActionExecutionInfo {
    type V = InvocationView;

    closed spec fn view(&self) -> InvocationView {
        InvocationView {
            action: self.action,
            args: ActionArgs {
                caster_id: self.caster_id,
                target_ids: match self.target_ids {
                    Some(ids) => Some(ids@),
                    None => None,
                },
                target_locations: match self.target_locations {
                    Some(locations) => Some(locations@),
                    None => None,
                },
                overrides: match self.overrides {
                    Some(o) => Some(override_names(o@)),
                    None => None,
                },
            },
        }
    }
}

impl ActionExecutionInfo {
    #[verifier::type_invariant]
    spec fn overrides_unique(self) -> bool {
        self.overrides matches Some(o) ==> override_names(o@).no_duplicates()
    }

    /// An invocation of `action` by `caster_id`. The overrides are a set:
    /// no name occurs twice among them.
    pub fn new(
        action: ActionHandle,
        caster_id: usize,
        target_ids: Option<Vec<usize>>,
        target_locations: Option<Vec<Coordinate>>,
        overrides: Option<Vec<ActionOverride>>,
    ) -> (info: ActionExecutionInfo)
        requires
            overrides matches Some(o) ==> override_names(o@).no_duplicates(),
        ensures
            info@.args.wf(),
            info@ == (InvocationView {
                action: action,
                args: ActionArgs {
                    caster_id: caster_id,
                    target_ids: match target_ids {
                        Some(ids) => Some(ids@),
                        None => None,
                    },
                    target_locations: match target_locations {
                        Some(locations) => Some(locations@),
                        None => None,
                    },
                    overrides: match overrides {
                        Some(o) => Some(override_names(o@)),
                        None => None,
                    },
                },
            }),
    {
        ActionExecutionInfo {
            action: action,
            caster_id: caster_id,
            target_ids: target_ids,
            target_locations: target_locations,
            overrides: overrides,
        }
    }

    pub fn action(&self) -> (action: ActionHandle)
        ensures
            action == self@.action,
    {
        self.action
    }

    pub fn caster_id(&self) -> (caster_id: usize)
        ensures
            caster_id == self@.args.caster_id,
    {
        self.caster_id
    }

    pub fn target_ids(&self) -> (ids: Option<&Vec<usize>>)
        ensures
            ids.is_some() == self@.args.target_ids.is_some(),
            ids matches Some(v) ==> self@.args.target_ids == Some(v@),
    {
        self.target_ids.as_ref()
    }

    pub fn target_locations(&self) -> (locations: Option<&Vec<Coordinate>>)
        ensures
            locations.is_some() == self@.args.target_locations.is_some(),
            locations matches Some(v) ==> self@.args.target_locations == Some(v@),
    {
        self.target_locations.as_ref()
    }

    pub fn overrides(&self) -> (overrides: Option<&Vec<ActionOverride>>)
        ensures
            overrides.is_some() == self@.args.overrides.is_some(),
            overrides matches Some(v) ==> self@.args.overrides == Some(override_names(v@)),
            self@.args.wf(),
    {
        proof {
            use_type_invariant(self);
        }
        self.overrides.as_ref()
    }
}

/// Whether an action can be asked for its cost, its own check and its
/// side effects: the arguments have the shape of its schema, no override
/// is named twice, and the caster is in the roster of an encounter whose
/// tables fit its arena.
pub open spec fn inputs_ready(
    schema: TargetingSchema,
    encounter: EncounterView,
    args: ActionArgs,
) -> bool {
    &&& encounter.grid_ok()
    &&& encounter.actors.contains_key(args.caster_id)
    &&& shape_ok(schema, args)
    &&& args.wf()
}

/// What an actor can do on its turn: a name and aliases to call it by, the
/// shape of its arguments, what it costs, when it is legal, and the side
/// effects it resolves into.
pub trait Action {
    /// The name the action is called by.
    spec fn spec_name(&self) -> Seq<char>;

    /// Short names the action answers to as well.
    spec fn spec_aliases(&self) -> Seq<Seq<char>>;

    /// The shape of the arguments the action accepts.
    spec fn spec_targeting_schema(&self) -> TargetingSchema;

    /// The one resource the invocation costs its caster, if it costs any.
    spec fn spec_cost(&self, encounter: EncounterView, args: ActionArgs) -> Option<Resource>;

    /// What the action asks of an invocation beyond shape and cost.
    spec fn spec_custom_valid(&self, encounter: EncounterView, args: ActionArgs) -> bool;

    /// The side effects of the invocation, in the order they are generated.
    spec fn spec_side_effects(&self, encounter: EncounterView, args: ActionArgs) -> Seq<
        SideEffect,
    >;

    fn name(&self) -> (name: &'static str)
        ensures
            name@ == self.spec_name(),
    ;

    fn aliases(&self) -> (aliases: Vec<&'static str>)
        ensures
            aliases@.len() == self.spec_aliases().len(),
            forall|i: int| 0 <= i < aliases@.len() ==> (#[trigger] aliases@[i])@ == self.spec_aliases()[i],
    ;

    fn targeting_schema(&self) -> (schema: TargetingSchema)
        ensures
            schema == self.spec_targeting_schema(),
    ;

    fn side_effects(
        &self,
        encounter: &EncounterInstance,
        caster_id: usize,
        target_ids: Option<&Vec<usize>>,
        target_locations: Option<&Vec<Coordinate>>,
        overrides: Option<&Vec<ActionOverride>>,
    ) -> (effects: Vec<SideEffect>)
        requires
            inputs_ready(
                self.spec_targeting_schema(),
                encounter@,
                args_of(caster_id, target_ids, target_locations, overrides),
            ),
        ensures
            effects@ == self.spec_side_effects(
                encounter@,
                args_of(caster_id, target_ids, target_locations, overrides),
            ),
    ;

    fn cost(
        &self,
        encounter: &EncounterInstance,
        caster_id: usize,
        target_ids: Option<&Vec<usize>>,
        target_locations: Option<&Vec<Coordinate>>,
        overrides: Option<&Vec<ActionOverride>>,
    ) -> (cost: Option<Resource>)
        requires
            inputs_ready(
                self.spec_targeting_schema(),
                encounter@,
                args_of(caster_id, target_ids, target_locations, overrides),
            ),
        ensures
            cost == self.spec_cost(
                encounter@,
                args_of(caster_id, target_ids, target_locations, overrides),
            ),
    ;

    fn custom_validate_input(
        &self,
        encounter: &EncounterInstance,
        caster_id: usize,
        target_ids: Option<&Vec<usize>>,
        target_locations: Option<&Vec<Coordinate>>,
        overrides: Option<&Vec<ActionOverride>>,
    ) -> (ok: bool)
        requires
            inputs_ready(
                self.spec_targeting_schema(),
                encounter@,
                args_of(caster_id, target_ids, target_locations, overrides),
            ),
        ensures
            ok == self.spec_custom_valid(
                encounter@,
                args_of(caster_id, target_ids, target_locations, overrides),
            ),
    ;

    /// Whether the invocation is legal in the encounter as it stands: its
    /// arguments have the shape of the schema, the caster can pay the cost
    /// if there is one, and the action's own check approves.
    fn validate_input(
        &self,
        encounter: &EncounterInstance,
        caster_id: usize,
        target_ids: Option<&Vec<usize>>,
        target_locations: Option<&Vec<Coordinate>>,
        overrides: Option<&Vec<ActionOverride>>,
    ) -> (ok: bool)
        requires
            encounter@.grid_ok(),
            encounter@.actors.contains_key(caster_id),
            self.spec_targeting_schema() != TargetingSchema::Custom,
            args_of(caster_id, target_ids, target_locations, overrides).wf(),
        ensures
            ok == ({
                let args = args_of(caster_id, target_ids, target_locations, overrides);
                &&& shape_ok(self.spec_targeting_schema(), args)
                &&& (self.spec_cost(encounter@, args) matches Some(cost)
                    ==> encounter@.actors[caster_id].can_consume(cost))
                &&& self.spec_custom_valid(encounter@, args)
            }),
    {
        let schema_validation = match self.targeting_schema() {
            TargetingSchema::NoArgs => {
                target_ids.is_none() && target_locations.is_none() && overrides.is_none()
            },
            TargetingSchema::SinglePoint => {
                target_ids.is_none() && match target_locations {
                    Some(tl) => tl.len() == 1,
                    None => false,
                }
            },
            TargetingSchema::SingleActor => {
                target_locations.is_none() && match target_ids {
                    Some(ids) => ids.len() == 1,
                    None => false,
                }
            },
            TargetingSchema::Custom => false,
        };
        if !schema_validation {
            return false;
        }
        if let Some(cost) = self.cost(
            encounter,
            caster_id,
            target_ids,
            target_locations,
            overrides,
        ) {
            let actor = encounter.get_actor(caster_id).unwrap();
            if !actor.can_consume_resource(cost) {
                return false;
            }
        }
        self.custom_validate_input(encounter, caster_id, target_ids, target_locations, overrides)
    }

    /// Resolves a legal invocation into its side effects: those the action
    /// generates, followed by the consumption of its cost if it has one.
    fn execute(
        &self,
        encounter: &EncounterInstance,
        caster_id: usize,
        target_ids: Option<&Vec<usize>>,
        target_locations: Option<&Vec<Coordinate>>,
        overrides: Option<&Vec<ActionOverride>>,
    ) -> (effects: Vec<SideEffect>)
        requires
            encounter@.grid_ok(),
            encounter@.actors.contains_key(caster_id),
            self.spec_targeting_schema() != TargetingSchema::Custom,
            args_of(caster_id, target_ids, target_locations, overrides).wf(),
            ({
                let args = args_of(caster_id, target_ids, target_locations, overrides);
                &&& shape_ok(self.spec_targeting_schema(), args)
                &&& (self.spec_cost(encounter@, args) matches Some(cost)
                    ==> encounter@.actors[caster_id].can_consume(cost))
                &&& self.spec_custom_valid(encounter@, args)
            }),
        ensures
            effects@ == ({
                let args = args_of(caster_id, target_ids, target_locations, overrides);
                match self.spec_cost(encounter@, args) {
                    Some(cost) => self.spec_side_effects(encounter@, args).push(
                        SideEffect::ConsumeResource(
                            ConsumeResource { actor_id: caster_id, resource: cost },
                        ),
                    ),
                    None => self.spec_side_effects(encounter@, args),
                }
            }),
    {
        let mut side_effects = self.side_effects(
            encounter,
            caster_id,
            target_ids,
            target_locations,
            overrides,
        );
        if let Some(cost) = self.cost(
            encounter,
            caster_id,
            target_ids,
            target_locations,
            overrides,
        ) {
            side_effects.push(
                SideEffect::ConsumeResource(ConsumeResource { actor_id: caster_id, resource: cost }),
            );
        }
        side_effects
    }
}

/// Whether an invocation of `action` with `args` is legal in `encounter`.
pub open spec fn spec_valid<A: Action + ?Sized>(
    action: &A,
    encounter: EncounterView,
    args: ActionArgs,
) -> bool {
    &&& shape_ok(action.spec_targeting_schema(), args)
    &&& (action.spec_cost(encounter, args) matches Some(cost)
        ==> encounter.actors[args.caster_id].can_consume(cost))
    &&& action.spec_custom_valid(encounter, args)
}

/// The side effects an invocation of `action` with `args` resolves into:
/// those the action generates, then the consumption of the cost.
pub open spec fn spec_effects<A: Action + ?Sized>(
    action: &A,
    encounter: EncounterView,
    args: ActionArgs,
) -> Seq<SideEffect> {
    match action.spec_cost(encounter, args) {
        Some(cost) => action.spec_side_effects(encounter, args).push(
            SideEffect::ConsumeResource(
                ConsumeResource { actor_id: args.caster_id, resource: cost },
            ),
        ),
        None => action.spec_side_effects(encounter, args),
    }
}

impl Action for ActionHandle {
    open spec fn spec_name(&self) -> Seq<char> {
        match self {
            ActionHandle::Move => (Move {}).spec_name(),
            ActionHandle::Skip => (Skip {}).spec_name(),
            ActionHandle::Dash => (Dash {}).spec_name(),
            ActionHandle::Slam => (Slam {}).spec_name(),
        }
    }

    open spec fn spec_aliases(&self) -> Seq<Seq<char>> {
        match self {
            ActionHandle::Move => (Move {}).spec_aliases(),
            ActionHandle::Skip => (Skip {}).spec_aliases(),
            ActionHandle::Dash => (Dash {}).spec_aliases(),
            ActionHandle::Slam => (Slam {}).spec_aliases(),
        }
    }

    open spec fn spec_targeting_schema(&self) -> TargetingSchema {
        match self {
            ActionHandle::Move => (Move {}).spec_targeting_schema(),
            ActionHandle::Skip => (Skip {}).spec_targeting_schema(),
            ActionHandle::Dash => (Dash {}).spec_targeting_schema(),
            ActionHandle::Slam => (Slam {}).spec_targeting_schema(),
        }
    }

    open spec fn spec_cost(&self, encounter: EncounterView, args: ActionArgs) -> Option<Resource> {
        match self {
            ActionHandle::Move => (Move {}).spec_cost(encounter, args),
            ActionHandle::Skip => (Skip {}).spec_cost(encounter, args),
            ActionHandle::Dash => (Dash {}).spec_cost(encounter, args),
            ActionHandle::Slam => (Slam {}).spec_cost(encounter, args),
        }
    }

    open spec fn spec_custom_valid(&self, encounter: EncounterView, args: ActionArgs) -> bool {
        match self {
            ActionHandle::Move => (Move {}).spec_custom_valid(encounter, args),
            ActionHandle::Skip => (Skip {}).spec_custom_valid(encounter, args),
            ActionHandle::Dash => (Dash {}).spec_custom_valid(encounter, args),
            ActionHandle::Slam => (Slam {}).spec_custom_valid(encounter, args),
        }
    }

    open spec fn spec_side_effects(&self, encounter: EncounterView, args: ActionArgs) -> Seq<
        SideEffect,
    > {
        match self {
            ActionHandle::Move => (Move {}).spec_side_effects(encounter, args),
            ActionHandle::Skip => (Skip {}).spec_side_effects(encounter, args),
            ActionHandle::Dash => (Dash {}).spec_side_effects(encounter, args),
            ActionHandle::Slam => (Slam {}).spec_side_effects(encounter, args),
        }
    }

    fn name(&self) -> (name: &'static str) {
        match self {
            ActionHandle::Move => (Move {}).name(),
            ActionHandle::Skip => (Skip {}).name(),
            ActionHandle::Dash => (Dash {}).name(),
            ActionHandle::Slam => (Slam {}).name(),
        }
    }

    fn aliases(&self) -> (aliases: Vec<&'static str>) {
        match self {
            ActionHandle::Move => (Move {}).aliases(),
            ActionHandle::Skip => (Skip {}).aliases(),
            ActionHandle::Dash => (Dash {}).aliases(),
            ActionHandle::Slam => (Slam {}).aliases(),
        }
    }

    fn targeting_schema(&self) -> (schema: TargetingSchema) {
        match self {
            ActionHandle::Move => (Move {}).targeting_schema(),
            ActionHandle::Skip => (Skip {}).targeting_schema(),
            ActionHandle::Dash => (Dash {}).targeting_schema(),
            ActionHandle::Slam => (Slam {}).targeting_schema(),
        }
    }

    fn side_effects(
        &self,
        encounter: &EncounterInstance,
        caster_id: usize,
        target_ids: Option<&Vec<usize>>,
        target_locations: Option<&Vec<Coordinate>>,
        overrides: Option<&Vec<ActionOverride>>,
    ) -> (effects: Vec<SideEffect>) {
        match self {
            ActionHandle::Move => (Move {}).side_effects(
                encounter,
                caster_id,
                target_ids,
                target_locations,
                overrides,
            ),
            ActionHandle::Skip => (Skip {}).side_effects(
                encounter,
                caster_id,
                target_ids,
                target_locations,
                overrides,
            ),
            ActionHandle::Dash => (Dash {}).side_effects(
                encounter,
                caster_id,
                target_ids,
                target_locations,
                overrides,
            ),
            ActionHandle::Slam => (Slam {}).side_effects(
                encounter,
                caster_id,
                target_ids,
                target_locations,
                overrides,
            ),
        }
    }

    fn cost(
        &self,
        encounter: &EncounterInstance,
        caster_id: usize,
        target_ids: Option<&Vec<usize>>,
        target_locations: Option<&Vec<Coordinate>>,
        overrides: Option<&Vec<ActionOverride>>,
    ) -> (cost: Option<Resource>) {
        match self {
            ActionHandle::Move => (Move {}).cost(
                encounter,
                caster_id,
                target_ids,
                target_locations,
                overrides,
            ),
            ActionHandle::Skip => (Skip {}).cost(
                encounter,
                caster_id,
                target_ids,
                target_locations,
                overrides,
            ),
            ActionHandle::Dash => (Dash {}).cost(
                encounter,
                caster_id,
                target_ids,
                target_locations,
                overrides,
            ),
            ActionHandle::Slam => (Slam {}).cost(
                encounter,
                caster_id,
                target_ids,
                target_locations,
                overrides,
            ),
        }
    }

    fn custom_validate_input(
        &self,
        encounter: &EncounterInstance,
        caster_id: usize,
        target_ids: Option<&Vec<usize>>,
        target_locations: Option<&Vec<Coordinate>>,
        overrides: Option<&Vec<ActionOverride>>,
    ) -> (ok: bool) {
        match self {
            ActionHandle::Move => (Move {}).custom_validate_input(
                encounter,
                caster_id,
                target_ids,
                target_locations,
                overrides,
            ),
            ActionHandle::Skip => (Skip {}).custom_validate_input(
                encounter,
                caster_id,
                target_ids,
                target_locations,
                overrides,
            ),
            ActionHandle::Dash => (Dash {}).custom_validate_input(
                encounter,
                caster_id,
                target_ids,
                target_locations,
                overrides,
            ),
            ActionHandle::Slam => (Slam {}).custom_validate_input(
                encounter,
                caster_id,
                target_ids,
                target_locations,
                overrides,
            ),
        }
    }
}

/// Whether the invocation is legal in the encounter.
pub open spec fn invocation_valid(encounter: EncounterView, invocation: InvocationView) -> bool {
    spec_valid(&invocation.action, encounter, invocation.args)
}

/// The side effects the invocation resolves into, in generation order.
pub open spec fn invocation_effects(encounter: EncounterView, invocation: InvocationView) -> Seq<
    SideEffect,
> {
    spec_effects(&invocation.action, encounter, invocation.args)
}

/// No registered action leaves the shape of its arguments to itself.
pub proof fn lemma_no_custom_schema(action: ActionHandle)
    ensures
        action.spec_targeting_schema() != TargetingSchema::Custom,
{
}

impl ActionExecutionInfo {
    /// Whether the invocation is legal in the encounter as it stands.
    pub fn validate(&self, encounter: &EncounterInstance) -> (ok: bool)
        requires
            encounter@.grid_ok(),
            encounter@.actors.contains_key(self@.args.caster_id),
        ensures
            ok == invocation_valid(encounter@, self@),
    {
        proof {
            lemma_no_custom_schema(self.action);
            use_type_invariant(self);
        }
        self.action.validate_input(
            encounter,
            self.caster_id,
            self.target_ids.as_ref(),
            self.target_locations.as_ref(),
            self.overrides.as_ref(),
        )
    }

    /// Resolves the invocation, which is legal in the encounter as it
    /// stands, into its side effects.
    pub fn execute(&self, encounter: &EncounterInstance) -> (effects: Vec<SideEffect>)
        requires
            encounter@.grid_ok(),
            encounter@.actors.contains_key(self@.args.caster_id),
            invocation_valid(encounter@, self@),
        ensures
            effects@ == invocation_effects(encounter@, self@),
    {
        proof {
            lemma_no_custom_schema(self.action);
            use_type_invariant(self);
        }
        self.action.execute(
            encounter,
            self.caster_id,
            self.target_ids.as_ref(),
            self.target_locations.as_ref(),
            self.overrides.as_ref(),
        )
    }
}

} // verus!
