//! The encounter itself: the executable state, and the operations that
//! run it, each tied to the model by its contract.

use crate::actions::action_template::ActionExecutionInfo;
use crate::actors::actor_template::copy_vec;
use crate::actors::actor_template::roster_view;
use crate::actors::actor_template::ActorInstance;
use crate::actors::actor_template::ActorView;
use crate::actors::actor_template::CreatureTemplate;
use crate::actors::creatures::zombies::zombie_template;
use crate::engine::actor_gen::generate_actors;
use crate::engine::actor_gen::lemma_team_rating_agrees;
use crate::engine::actor_gen::no_room;
use crate::engine::actor_gen::only_grew;
use crate::engine::actor_gen::team_rating;
use crate::engine::actor_gen::ActorGenParams;
use crate::engine::actor_gen::MAX_TRIES;
use crate::engine::dice::default_roller;
use crate::engine::dice::seeded_roller;
use crate::engine::errors::ActorNotFound;
use crate::engine::errors::GenerateError;
use crate::engine::errors::NegativeAbsCoord;
use crate::engine::errors::NoLegalPosition;
use crate::engine::errors::SpawnError;
use crate::engine::grid::cell_at;
use crate::engine::grid::covers;
use crate::engine::grid::lemma_cell_index;
use crate::engine::grid::lemma_cell_index_bound;
use crate::engine::grid::lemma_index_cell;
use crate::engine::grid::square_filled;
use crate::engine::initiative::lemma_placed_all;
use crate::engine::initiative::lemma_placed_all_lists;
use crate::engine::initiative::lists;
use crate::engine::initiative::InitiativeTracker;
use crate::engine::model::lemma_actor_moved_wf;
use crate::engine::model::lemma_actor_update_wf;
use crate::engine::model::lemma_applicable_ignores_stack;
use crate::engine::model::lemma_joined_wf;
use crate::engine::model::lemma_place_by_cells;
use crate::engine::model::lemma_spawnable_square_is_free;
use crate::engine::model::lemma_turn_skipped_wf;
use crate::engine::model::lemma_wf_after_id;
use crate::engine::model::lemma_wf_ignores_stack;
use crate::engine::model::EncounterView;
use crate::engine::model::EntryView;
use crate::engine::model::StackElementView;
use crate::engine::outcome::OutcomeTracker;
use crate::engine::outcome::OutcomeView;
use crate::engine::prompt::Prompt;
use crate::engine::random::shuffle_coords;
use crate::engine::resolution::lemma_enqueued_effects;
use crate::engine::resolution::lemma_validity_ignores_stack;
use crate::engine::resolution::lemma_step_decreases;
use crate::engine::resolution::lemma_step_wf;
use crate::engine::resolution::pending_actions;
use crate::engine::side_effects::ApplicableSideEffect;
use crate::engine::side_effects::Resource;
use crate::engine::side_effects::SideEffect;
use crate::engine::terrain::TerrainInfo;
use crate::engine::terrain::TerrainType;
use crate::engine::terrain_gen::generate_terrain;
use crate::engine::terrain_gen::floor_block;
use crate::engine::terrain_gen::generated_from;
use crate::engine::terrain_gen::lemma_generated_has_floor;
use crate::engine::terrain_gen::BSPNode;
use crate::engine::terrain_gen::Doors;
use crate::engine::terrain_gen::TerrainGenParams;
use crate::engine::terrain_gen::MIN_ROOM_WIDTH;
use crate::engine::types::Coordinate;
use crate::engine::types::Size;
use crate::engine::util::get_colored_span;
use crate::engine::util::get_tiles_from_size;
use crate::engine::util::spec_modifier_from_score;
use crate::engine::util::spec_tiles_from_size;
use crate::engine::util::terrain_char;
use crate::engine::util::MapCell;
use std::collections::HashMap;
use std::collections::VecDeque;
use tyche::dice::roller::FastRand;
use vstd::prelude::*;

verus! {

broadcast use vstd::std_specs::hash::group_hash_axioms;

/// What an entry of the processing stack holds.
#[derive(Debug)]
pub enum StackElementEntry {
    SideEffect(SideEffect),
    Action(ActionExecutionInfo),
    Prompt(Prompt),
}

impl View for StackElementEntry {
    type V = EntryView;

    open spec fn view(&self) -> EntryView {
        match self {
            StackElementEntry::SideEffect(e) => EntryView::SideEffect(*e),
            StackElementEntry::Action(a) => EntryView::Action(a@),
            StackElementEntry::Prompt(p) => EntryView::Prompt(p@),
        }
    }
}

/// An entry of the processing stack: what to do, the id it has within its
/// batch, and the ids that must have resolved successfully for it to apply.
#[derive(Debug)]
pub struct StackElement {
    pub entry: StackElementEntry,
    pub id: usize,
    pub success_dependencies: Option<Vec<usize>>,
}

impl View for StackElement {
    type V = StackElementView;

    open spec fn view(&self) -> StackElementView {
        StackElementView {
            entry: self.entry@,
            id: self.id,
            success_dependencies: match self.success_dependencies {
                Some(deps) => Some(deps@),
                None => None,
            },
        }
    }
}

/// The views of a sequence of stack elements, in order.
pub open spec fn element_views(elements: Seq<StackElement>) -> Seq<StackElementView> {
    elements.map_values(|e: StackElement| e@)
}

/// Why the trigger hook is notified of a stack entry.
#[derive(Clone, Copy, Debug, PartialEq, Eq, Structural)]
pub enum TriggerEventType {
    /// The entry is being put on the stack.
    Enqueue,
    /// The entry was taken off the stack and is about to resolve.
    Execute,
}

/// One combat session on a fixed arena: the terrain, the actors and where
/// they stand, the turn order, and the stack of what is still to resolve.
pub struct EncounterInstance {
    initialized: bool,
    width: usize,
    height: usize,
    terrain: Vec<TerrainInfo>,
    actor_id_next: usize,
    actor_map: Vec<Option<usize>>,
    actors: HashMap<usize, ActorInstance>,
    initiative_tracker: InitiativeTracker,
    encounter_stack: Vec<StackElement>,
    temp_encounter_queue: VecDeque<StackElement>,
    roller: FastRand,
    messages: Vec<String>,
    tmp_message: String,
    outcome_tracker: OutcomeTracker,
}

impl View for EncounterInstance {
    type V = EncounterView;

    closed spec fn view(&self) -> EncounterView {
        EncounterView {
            initialized: self.initialized,
            width: self.width,
            height: self.height,
            terrain: self.terrain@,
            actor_id_next: self.actor_id_next,
            actor_map: self.actor_map@,
            actors: roster_view(self.actors@),
            initiative: self.initiative_tracker@,
            stack: element_views(self.encounter_stack@),
            queue: element_views(self.temp_encounter_queue@),
            messages: self.messages@.map_values(|m: String| m@),
            tmp_message: self.tmp_message@,
            outcomes: self.outcome_tracker@,
        }
    }
}

/// Goes through the square of side `side` anchored at (`ax`, `ay`) and
/// writes `value` into its cells, into all of them or only into those
/// that hold `actor_id`.
fn fill_square(
    map: &mut Vec<Option<usize>>,
    width: usize,
    height: usize,
    ax: usize,
    ay: usize,
    side: usize,
    actor_id: usize,
    value: Option<usize>,
    only_held: bool,
)
    requires
        old(map).len() == width * height,
        ax + side <= width,
        ay + side <= height,
    ensures
        final(map)@ == square_filled(
            old(map)@,
            width as int,
            ax as int,
            ay as int,
            side as int,
            actor_id,
            value,
            only_held,
        ),
{
    let ghost before = map@;
    let mut dx: usize = 0;
    while dx < side
        invariant
            dx <= side,
            map.len() == width * height,
            before.len() == width * height,
            ax + side <= width,
            ay + side <= height,
            forall|i: int|
                0 <= i < map.len() ==> map[i] == (if covers(
                    ax as int,
                    ay as int,
                    side as int,
                    i % (width as int),
                    i / (width as int),
                ) && i % (width as int) < ax + dx && (!only_held || before[i] == Some(actor_id)) {
                    value
                } else {
                    before[i]
                }),
        decreases side - dx,
    {
        let x: usize = ax + dx;
        let mut dy: usize = 0;
        while dy < side
            invariant
                dy <= side,
                dx < side,
                x == ax + dx,
                map.len() == width * height,
                before.len() == width * height,
                ax + side <= width,
                ay + side <= height,
                forall|i: int|
                    0 <= i < map.len() ==> map[i] == (if covers(
                        ax as int,
                        ay as int,
                        side as int,
                        i % (width as int),
                        i / (width as int),
                    ) && (i % (width as int) < x || (i % (width as int) == x && i / (width as int)
                        < ay + dy)) && (!only_held || before[i] == Some(actor_id)) {
                        value
                    } else {
                        before[i]
                    }),
            decreases side - dy,
        {
            let y: usize = ay + dy;
            proof {
                lemma_cell_index(width as int, x as int, y as int);
                lemma_cell_index_bound(width as int, height as int, x as int, y as int);
            }
            let idx: usize = x + y * width;
            let ghost prev = map@;
            let held: bool = match map[idx] {
                Some(other) => other == actor_id,
                None => false,
            };
            if !only_held || held {
                map.set(idx, value);
            }
            proof {
                assert forall|i: int| 0 <= i < map.len() implies map[i] == (if covers(
                    ax as int,
                    ay as int,
                    side as int,
                    i % (width as int),
                    i / (width as int),
                ) && (i % (width as int) < x || (i % (width as int) == x && i / (width as int) < ay
                    + dy + 1)) && (!only_held || before[i] == Some(actor_id)) {
                    value
                } else {
                    before[i]
                }) by {
                    lemma_index_cell(width as int, height as int, i);
                    if i != idx {
                        assert(map[i] == prev[i]);
                        assert(!(i % (width as int) == x && i / (width as int) == y));
                    } else {
                        assert(prev[i] == before[i]);
                    }
                }
            }
            dy += 1;
        }
        dx += 1;
    }
    assert forall|i: int| 0 <= i < map.len() implies map[i] == square_filled(
        before,
        width as int,
        ax as int,
        ay as int,
        side as int,
        actor_id,
        value,
        only_held,
    )[i] by {
        let c = covers(ax as int, ay as int, side as int, i % (width as int), i / (width as int));
        assert(dx == side);
        assert(before.len() == map.len());
        assert(map[i] == (if c && i % (width as int) < ax + dx && (!only_held || before[i] == Some(
            actor_id,
        )) {
            value
        } else {
            before[i]
        }));
        assert(c ==> i % (width as int) < ax + side);
    }
    assert(map@ =~= square_filled(
        before,
        width as int,
        ax as int,
        ay as int,
        side as int,
        actor_id,
        value,
        only_held,
    ));
}

impl EncounterInstance {
    /// The invariant of an encounter, on its content.
    pub open spec fn wf(&self) -> bool {
        self@.wf()
    }

    /// A fresh encounter on the given arena, with the given roller.
    fn assemble(width: usize, height: usize, terrain: Vec<TerrainInfo>, roller: FastRand) -> (r:
        Option<EncounterInstance>)
        ensures
            r.is_some() == (terrain@.len() == width * height && width <= isize::MAX && height
                <= isize::MAX),
            r matches Some(e) ==> e@ == EncounterView::on_terrain(width, height, terrain@)
                && e.wf(),
    {
        if width > isize::MAX as usize || height > isize::MAX as usize {
            return None;
        }
        let given: usize = terrain.len();
        let cells: usize = match width.checked_mul(height) {
            Some(n) => n,
            None => {
                return None;
            },
        };
        if given != cells {
            return None;
        }
        let mut actor_map: Vec<Option<usize>> = Vec::new();
        let mut i: usize = 0;
        while i < cells
            invariant
                i <= cells,
                actor_map.len() == i,
                forall|j: int| 0 <= j < i ==> (#[trigger] actor_map[j]).is_none(),
            decreases cells - i,
        {
            actor_map.push(None);
            i += 1;
        }
        let e = EncounterInstance {
            initialized: false,
            width: width,
            height: height,
            terrain: terrain,
            actor_id_next: 0,
            actor_map: actor_map,
            actors: HashMap::new(),
            initiative_tracker: InitiativeTracker::new(),
            encounter_stack: Vec::new(),
            temp_encounter_queue: VecDeque::new(),
            roller: roller,
            messages: Vec::new(),
            tmp_message: String::new(),
            outcome_tracker: OutcomeTracker::new(),
        };
        proof {
            let v = EncounterView::on_terrain(width, height, terrain@);
            assert(e@.actor_map =~= v.actor_map);
            assert(e@.actors =~= v.actors);
            assert(e@.stack =~= v.stack);
            assert(e@.queue =~= v.queue);
            assert(e@.messages =~= v.messages);
            assert(e@.tmp_message =~= v.tmp_message);
            assert(e@ == v);
        }
        Some(e)
    }

    /// A fresh encounter on an arena of `width` by `height` cells whose
    /// terrain is given row by row. The terrain must have one entry per
    /// cell, and neither side of the arena may exceed the largest
    /// coordinate. Dice are rolled by a roller that the process seeds.
    pub fn new(width: usize, height: usize, terrain: Vec<TerrainInfo>) -> (r: Option<
        EncounterInstance,
    >)
        ensures
            r.is_some() == (terrain@.len() == width * height && width <= isize::MAX && height
                <= isize::MAX),
            r matches Some(e) ==> e@ == EncounterView::on_terrain(width, height, terrain@)
                && e.wf(),
    {
        EncounterInstance::assemble(width, height, terrain, default_roller())
    }

    /// Like `new`, with a roller that starts from `seed`.
    pub fn with_seed(width: usize, height: usize, terrain: Vec<TerrainInfo>, seed: u64) -> (r:
        Option<EncounterInstance>)
        ensures
            r.is_some() == (terrain@.len() == width * height && width <= isize::MAX && height
                <= isize::MAX),
            r matches Some(e) ==> e@ == EncounterView::on_terrain(width, height, terrain@)
                && e.wf(),
    {
        EncounterInstance::assemble(width, height, terrain, seeded_roller(seed))
    }

    /// Sets up a whole encounter: generates the arena, fills every team
    /// with zombies placed at random on floor, and starts it, so that every
    /// zombie has rolled its initiative and is in the turn order. It fails
    /// only where creatures are asked for and a team cannot be filled in
    /// the attempts it has; one team that asks for no more than one zombie
    /// is always filled, since every generated arena has room for one.
    pub fn from_params(terrain_params: &TerrainGenParams, actor_params: &ActorGenParams) -> (r:
        Result<EncounterInstance, GenerateError>)
        requires
            MIN_ROOM_WIDTH <= terrain_params.width <= isize::MAX,
            MIN_ROOM_WIDTH <= terrain_params.height <= isize::MAX,
            terrain_params.width * terrain_params.height <= usize::MAX,
            actor_params.n_teams * MAX_TRIES <= usize::MAX,
        ensures
            r matches Err(e) ==> e is TooManyTries,
            actor_params.n_teams == 1 && actor_params.cr_target <= 250 ==> r.is_ok(),
            actor_params.cr_target == 0 || actor_params.n_teams == 0 ==> (r matches Ok(e) && e@ == (
            EncounterView {
                initialized: true,
                ..EncounterView::on_terrain(
                    terrain_params.width,
                    terrain_params.height,
                    e@.terrain,
                )
            })),
            r matches Ok(e) ==> {
                &&& e.wf()
                &&& e@.initialized
                &&& exists|root: BSPNode, doors: Seq<Doors>| #[trigger]
                    generated_from(terrain_params, e@.terrain, root, doors)
                &&& only_grew(
                    EncounterView {
                        initialized: true,
                        ..EncounterView::on_terrain(
                            terrain_params.width,
                            terrain_params.height,
                            e@.terrain,
                        )
                    },
                    e@,
                )
                &&& forall|team: usize|
                    team < actor_params.n_teams ==> #[trigger] team_rating(
                        e@.actors,
                        team,
                        0,
                        e@.actor_id_next as nat,
                    ) >= actor_params.cr_target
                &&& forall|id: usize| #[trigger]
                    e@.actors.contains_key(id) ==> {
                        &&& e@.stands_on_floor(id)
                        &&& e@.actors[id].initiative.is_some()
                        &&& lists(e@.initiative.entries, id)
                    }
            },
    {
        let terrain = generate_terrain(terrain_params);
        let mut ei = EncounterInstance::new(
            terrain_params.width,
            terrain_params.height,
            terrain,
        ).unwrap();
        let mut template_pool: Vec<CreatureTemplate> = Vec::new();
        template_pool.push(zombie_template());
        proof {
            let (root, doors) = choose|root: BSPNode, doors: Seq<Doors>| #[trigger]
                generated_from(terrain_params, ei@.terrain, root, doors);
            lemma_generated_has_floor(terrain_params, ei@.terrain, root, doors);
            let (x, y) = choose|x: int, y: int|
                0 <= x && x + 5 <= terrain_params.width && 0 <= y && y + 5 <= terrain_params.height
                    && #[trigger] floor_block(ei@.terrain, terrain_params.width as int, x, y, 5);
            assert forall|dx: int, dy: int| 0 <= dx < 2 && 0 <= dy < 2 implies #[trigger] ei@.spawnable(
                x + dx,
                y + dy,
            ) by {
                lemma_cell_index_bound(
                    terrain_params.width as int,
                    terrain_params.height as int,
                    x + dx,
                    y + dy,
                );
                assert(ei@.terrain[(x + dx) + (y + dy) * terrain_params.width].terrain_type
                    == TerrainType::Floor);
            }
            assert(ei@.square_spawnable(x, y, 2));
            assert(ei@.in_arena(x, y));
            assert(!no_room(ei@, 2));
        }
        match generate_actors(&mut ei, actor_params, &template_pool) {
            Ok(()) => {},
            Err(e) => {
                return Err(e);
            },
        }
        let ghost filled = ei@;
        ei.initialize();
        proof {
            if actor_params.cr_target == 0 || actor_params.n_teams == 0 {
                assert(ei@.actors =~= filled.actors);
            }
            assert forall|id: usize| #[trigger] ei@.actors.contains_key(id) implies ei@.stands_on_floor(
                id,
            ) && ei@.actors[id].initiative.is_some() by {
                assert(filled.actors.dom().contains(id));
                assert(filled.stands_on_floor(id));
                let rolled = choose|rolled: u16|
                    1 <= rolled <= 6 && ei@.actors[id]
                        == #[trigger] filled.actors[id].with_rolled_initiative(rolled);
                assert forall|dx: int, dy: int|
                    0 <= dx < ei@.side_of(id) && 0 <= dy < ei@.side_of(id) implies #[trigger] ei@.is_floor(
                    ei@.actors[id].location.x + dx,
                    ei@.actors[id].location.y + dy,
                ) by {
                    assert(filled.is_floor(
                        filled.actors[id].location.x + dx,
                        filled.actors[id].location.y + dy,
                    ));
                }
            }
            assert forall|team: usize| team < actor_params.n_teams implies #[trigger] team_rating(
                ei@.actors,
                team,
                0,
                ei@.actor_id_next as nat,
            ) >= actor_params.cr_target by {
                assert forall|id: usize| 0 <= id < ei@.actor_id_next implies (
                #[trigger] ei@.actors.contains_key(id)) == filled.actors.contains_key(id) && (
                ei@.actors.contains_key(id) ==> ei@.actors[id].team_id == filled.actors[id].team_id
                    && ei@.actors[id].cr == filled.actors[id].cr) by {
                    assert(ei@.actors.dom().contains(id) == filled.actors.dom().contains(id));
                    if ei@.actors.contains_key(id) {
                        let rolled = choose|rolled: u16|
                            1 <= rolled <= 6 && ei@.actors[id]
                                == #[trigger] filled.actors[id].with_rolled_initiative(rolled);
                    }
                }
                lemma_team_rating_agrees(
                    ei@.actors,
                    filled.actors,
                    team,
                    0,
                    ei@.actor_id_next as nat,
                );
            }
        }
        Ok(ei)
    }

    pub fn width(&self) -> (width: usize)
        ensures
            width == self@.width,
    {
        self.width
    }

    pub fn height(&self) -> (height: usize)
        ensures
            height == self@.height,
    {
        self.height
    }

    pub fn terrain(&self) -> (terrain: &Vec<TerrainInfo>)
        ensures
            terrain@ == self@.terrain,
    {
        &self.terrain
    }

    pub fn actor_map(&self) -> (actor_map: &Vec<Option<usize>>)
        ensures
            actor_map@ == self@.actor_map,
    {
        &self.actor_map
    }

    /// The id that the next actor will get.
    pub fn actor_id_next(&self) -> (id: usize)
        ensures
            id == self@.actor_id_next,
    {
        self.actor_id_next
    }

    pub fn is_initialized(&self) -> (initialized: bool)
        ensures
            initialized == self@.initialized,
    {
        self.initialized
    }

    /// Appends a line to the message log.
    pub fn push_message(&mut self, message: String)
        ensures
            final(self)@ == (EncounterView {
                messages: old(self)@.messages.push(message@),
                ..old(self)@
            }),
            old(self).wf() ==> final(self).wf(),
    {
        let ghost before = self.messages@;
        self.messages.push(message);
        assert(self.messages@.map_values(|m: String| m@) =~= before.map_values(|m: String| m@).push(
            message@,
        ));
        proof {
            if old(self).wf() {
                lemma_wf_ignores_stack(old(self)@, self@);
            }
        }
    }

    /// The processing stack; its last element is the top.
    pub fn encounter_stack(&self) -> (stack: &Vec<StackElement>)
        ensures
            element_views(stack@) == self@.stack,
    {
        &self.encounter_stack
    }

    /// The staging queue; its first element is the front.
    pub fn temp_encounter_queue(&self) -> (queue: &VecDeque<StackElement>)
        ensures
            element_views(queue@) == self@.queue,
    {
        &self.temp_encounter_queue
    }

    /// The actor whose turn it is, if the turn order shows one.
    pub fn current_player(&self) -> (current: Option<usize>)
        ensures
            current == self@.initiative.current(),
    {
        self.initiative_tracker.current_player()
    }

    /// The turn order.
    pub fn initiative_tracker(&self) -> (tracker: &InitiativeTracker)
        ensures
            tracker@ == self@.initiative,
    {
        &self.initiative_tracker
    }

    /// The outcomes recorded in the running batch.
    pub fn outcome_tracker(&self) -> (tracker: &OutcomeTracker)
        ensures
            tracker@ == self@.outcomes,
    {
        &self.outcome_tracker
    }

    /// The actor with the given id, if the roster holds one.
    pub fn get_actor(&self, actor_id: usize) -> (actor: Option<&ActorInstance>)
        ensures
            actor.is_some() == self@.actors.contains_key(actor_id),
            actor matches Some(a) ==> a@ == self@.actors[actor_id],
    {
        let actor = self.actors.get(&actor_id);
        proof {
            if actor.is_some() {
                assert(self.actors@.contains_key(actor_id));
            }
        }
        actor
    }

    /// Hands out the next unused actor id.
    pub fn next_actor_id(&mut self) -> (id: usize)
        requires
            old(self)@.actor_id_next < usize::MAX,
        ensures
            id == old(self)@.actor_id_next,
            final(self)@ == (EncounterView { actor_id_next: (id + 1) as usize, ..old(self)@ }),
            old(self).wf() ==> final(self).wf(),
    {
        let next_actor_id = self.actor_id_next;
        self.actor_id_next += 1;
        proof {
            if old(self).wf() {
                lemma_wf_after_id(old(self)@);
            }
        }
        next_actor_id
    }

    /// Index of an absolute grid address in the terrain and occupancy
    /// tables. An address with a negative component is refused.
    pub fn idx(&self, coord: Coordinate) -> (r: Result<usize, NegativeAbsCoord>)
        requires
            coord.x >= 0 && coord.y >= 0 ==> self@.cell_index(coord.x as int, coord.y as int)
                <= usize::MAX,
        ensures
            r.is_err() <==> (coord.x < 0 || coord.y < 0),
            r matches Ok(i) ==> i == self@.cell_index(coord.x as int, coord.y as int),
            r matches Err(e) ==> e.spec_coord() == coord,
    {
        if coord.x < 0 || coord.y < 0 {
            return Err(NegativeAbsCoord::new(coord));
        }
        assert(0 <= coord.y * self.width <= coord.x + coord.y * self.width) by (nonlinear_arith)
            requires
                coord.x >= 0,
                coord.y >= 0,
                self.width >= 0,
        ;
        Ok(coord.x as usize + coord.y as usize * self.width)
    }

    /// What the tables hold of the cell (`x`, `y`): its occupant and its
    /// terrain, or nothing where the cell lies outside the arena.
    fn cell_state(&self, x: i128, y: i128) -> (state: Option<(Option<usize>, TerrainType)>)
        requires
            self@.grid_ok(),
        ensures
            state.is_some() == self@.in_arena(x as int, y as int),
            state matches Some((occupant, terrain)) ==> occupant == self@.occupant(
                x as int,
                y as int,
            ) && terrain == self@.terrain[self@.cell_index(x as int, y as int)].terrain_type,
    {
        if x < 0 || y < 0 || x >= self.width as i128 || y >= self.height as i128 {
            return None;
        }
        let xu: usize = x as usize;
        let yu: usize = y as usize;
        assert(0 <= yu * self.width <= xu + yu * self.width < self.width * self.height)
            by (nonlinear_arith)
            requires
                0 <= xu < self.width,
                0 <= yu < self.height,
        ;
        assert(self.terrain.len() == self.width * self.height);
        assert(self.actor_map.len() == self.width * self.height);
        let i: usize = xu + yu * self.width;
        Some((self.actor_map[i], self.terrain[i].terrain_type))
    }

    /// The actor that holds the cell `coord`, if the cell lies inside the
    /// arena and holds one.
    pub fn actor_id_at(&self, coord: Coordinate) -> (occupant: Option<usize>)
        requires
            self@.grid_ok(),
        ensures
            occupant == self@.occupant(coord.x as int, coord.y as int),
    {
        match self.cell_state(coord.x as i128, coord.y as i128) {
            Some((holder, _)) => holder,
            None => None,
        }
    }

    /// The terrain of a cell inside the arena.
    pub fn terrain_at(&self, coord: Coordinate) -> (info: &TerrainInfo)
        requires
            self@.grid_ok(),
            self@.in_arena(coord.x as int, coord.y as int),
        ensures
            *info == self@.terrain[self@.cell_index(coord.x as int, coord.y as int)],
    {
        let xu: usize = coord.x as usize;
        let yu: usize = coord.y as usize;
        assert(0 <= yu * self.width <= xu + yu * self.width < self.width * self.height)
            by (nonlinear_arith)
            requires
                0 <= xu < self.width,
                0 <= yu < self.height,
        ;
        assert(self.terrain.len() == self.width * self.height);
        &self.terrain[xu + yu * self.width]
    }

    /// Whether a new actor may take the cell.
    pub fn is_spawnable(&self, coord: Coordinate) -> (ok: bool)
        requires
            self@.grid_ok(),
        ensures
            ok == self@.spawnable(coord.x as int, coord.y as int),
    {
        match self.cell_state(coord.x as i128, coord.y as i128) {
            Some((None, TerrainType::Floor)) => true,
            _ => false,
        }
    }

    /// Whether the actor may stand on the cell (`x`, `y`).
    fn can_move_to_subtile(&self, x: i128, y: i128, actor_id: usize) -> (ok: bool)
        requires
            self@.grid_ok(),
        ensures
            ok == self@.subtile_free_for(x as int, y as int, actor_id),
    {
        match self.cell_state(x, y) {
            Some((None, TerrainType::Floor)) => true,
            Some((Some(other_id), TerrainType::Floor)) => other_id == actor_id,
            _ => false,
        }
    }

    /// Whether the actor may stand with its whole footprint anchored at
    /// `coord`: every cell under it is passable terrain inside the arena
    /// that is unoccupied or held by the actor itself.
    pub fn can_move_to(&self, actor_id: usize, coord: Coordinate) -> (ok: bool)
        requires
            self@.grid_ok(),
        ensures
            ok == self@.can_move_to(actor_id, coord),
    {
        let actor_width: usize = match self.get_actor(actor_id) {
            Some(actor) => get_tiles_from_size(actor.size()),
            None => {
                return false;
            },
        };
        let mut x_off: usize = 0;
        while x_off < actor_width
            invariant
                self@.grid_ok(),
                self@.actors.contains_key(actor_id),
                actor_width == self@.side_of(actor_id),
                actor_width <= 8,
                x_off <= actor_width,
                forall|dx: int, dy: int|
                    0 <= dx < x_off && 0 <= dy < actor_width ==> #[trigger] self@.subtile_free_for(
                        coord.x + dx,
                        coord.y + dy,
                        actor_id,
                    ),
            decreases actor_width - x_off,
        {
            let mut y_off: usize = 0;
            while y_off < actor_width
                invariant
                    self@.grid_ok(),
                    self@.actors.contains_key(actor_id),
                    actor_width == self@.side_of(actor_id),
                    actor_width <= 8,
                    x_off < actor_width,
                    y_off <= actor_width,
                    forall|dx: int, dy: int|
                        0 <= dx < x_off && 0 <= dy < actor_width
                            ==> #[trigger] self@.subtile_free_for(
                            coord.x + dx,
                            coord.y + dy,
                            actor_id,
                        ),
                    forall|dy: int|
                        0 <= dy < y_off ==> #[trigger] self@.subtile_free_for(
                            coord.x + x_off,
                            coord.y + dy,
                            actor_id,
                        ),
                decreases actor_width - y_off,
            {
                if !self.can_move_to_subtile(
                    coord.x as i128 + x_off as i128,
                    coord.y as i128 + y_off as i128,
                    actor_id,
                ) {
                    return false;
                }
                y_off += 1;
            }
            x_off += 1;
        }
        true
    }

    /// Every cell address of the arena, once.
    fn all_coords(&self) -> (coords: Vec<Coordinate>)
        requires
            self@.grid_ok(),
        ensures
            forall|x: int, y: int|
                self@.in_arena(x, y) ==> coords@.contains(
                    #[trigger] cell_at(x as int, y as int),
                ),
            forall|i: int|
                0 <= i < coords@.len() ==> self@.in_arena(
                    (#[trigger] coords@[i]).x as int,
                    coords@[i].y as int,
                ),
    {
        let mut all_coords: Vec<Coordinate> = Vec::new();
        let mut x: usize = 0;
        while x < self.width
            invariant
                self@.grid_ok(),
                x <= self.width,
                forall|cx: int, cy: int|
                    0 <= cx < x && 0 <= cy < self.height ==> all_coords@.contains(
                        #[trigger] cell_at(cx as int, cy as int),
                    ),
                forall|i: int|
                    0 <= i < all_coords@.len() ==> self@.in_arena(
                        (#[trigger] all_coords@[i]).x as int,
                        all_coords@[i].y as int,
                    ),
            decreases self.width - x,
        {
            let mut y: usize = 0;
            while y < self.height
                invariant
                    self@.grid_ok(),
                    x < self.width,
                    y <= self.height,
                    forall|cx: int, cy: int|
                        0 <= cx < x && 0 <= cy < self.height ==> all_coords@.contains(
                            #[trigger] cell_at(cx as int, cy as int),
                        ),
                    forall|cy: int|
                        0 <= cy < y ==> all_coords@.contains(
                            #[trigger] cell_at(x as int, cy as int),
                        ),
                    forall|i: int|
                        0 <= i < all_coords@.len() ==> self@.in_arena(
                            (#[trigger] all_coords@[i]).x as int,
                            all_coords@[i].y as int,
                        ),
                decreases self.height - y,
            {
                let ghost before = all_coords@;
                let c = Coordinate::new(x as isize, y as isize);
                all_coords.push(c);
                proof {
                    assert(all_coords@[before.len() as int] == c);
                    assert(c == cell_at(x as int, y as int));
                    assert forall|e: Coordinate| before.contains(e) implies all_coords@.contains(
                        e,
                    ) by {
                        let i = choose|i: int| 0 <= i < before.len() && before[i] == e;
                        assert(all_coords@[i] == e);
                    }
                }
                y += 1;
            }
            x += 1;
        }
        all_coords
    }

    /// Every cell address of the arena, once, in random order.
    fn get_random_coord_list(&self) -> (coords: Vec<Coordinate>)
        requires
            self@.grid_ok(),
        ensures
            forall|x: int, y: int|
                self@.in_arena(x, y) ==> coords@.contains(
                    #[trigger] cell_at(x as int, y as int),
                ),
    {
        let mut all_coords = self.all_coords();
        let ghost ordered = all_coords@;
        shuffle_coords(&mut all_coords);
        proof {
            assert forall|x: int, y: int| self@.in_arena(x, y) implies all_coords@.contains(
                #[trigger] cell_at(x as int, y as int),
            ) by {
                let c = cell_at(x, y);
                assert(ordered.contains(c));
                vstd::seq_lib::to_multiset_contains(ordered, c);
                vstd::seq_lib::to_multiset_contains(all_coords@, c);
            }
        }
        all_coords
    }

    /// Whether a new actor of the given size can be placed with its anchor
    /// on `coord`: every cell under its footprint is spawnable.
    pub fn can_spawn_at(&self, coord: Coordinate, size: Size) -> (ok: bool)
        requires
            self@.grid_ok(),
        ensures
            ok == self@.can_spawn_at(coord, spec_tiles_from_size(size) as int),
    {
        let actor_width: usize = get_tiles_from_size(size);
        let mut x_off: usize = 0;
        while x_off < actor_width
            invariant
                self@.grid_ok(),
                actor_width == spec_tiles_from_size(size),
                x_off <= actor_width,
                forall|dx: int, dy: int|
                    0 <= dx < x_off && 0 <= dy < actor_width ==> #[trigger] self@.spawnable(
                        coord.x + dx,
                        coord.y + dy,
                    ),
            decreases actor_width - x_off,
        {
            let mut y_off: usize = 0;
            while y_off < actor_width
                invariant
                    self@.grid_ok(),
                    actor_width == spec_tiles_from_size(size),
                    x_off < actor_width,
                    y_off <= actor_width,
                    forall|dx: int, dy: int|
                        0 <= dx < x_off && 0 <= dy < actor_width ==> #[trigger] self@.spawnable(
                            coord.x + dx,
                            coord.y + dy,
                        ),
                    forall|dy: int|
                        0 <= dy < y_off ==> #[trigger] self@.spawnable(
                            coord.x + x_off,
                            coord.y + dy,
                        ),
                decreases actor_width - y_off,
            {
                match self.cell_state(
                    coord.x as i128 + x_off as i128,
                    coord.y as i128 + y_off as i128,
                ) {
                    Some((None, TerrainType::Floor)) => {},
                    _ => {
                        assert(!self@.spawnable(coord.x + x_off, coord.y + y_off));
                        return false;
                    },
                }
                y_off += 1;
            }
            x_off += 1;
        }
        true
    }

    /// The first coordinate of the list on which a new actor of the given
    /// size can be placed, if there is one.
    pub fn first_spawn_among(&self, coords: &Vec<Coordinate>, size: Size) -> (r: Option<
        Coordinate,
    >)
        requires
            self@.grid_ok(),
        ensures
            match r {
                Some(c) => exists|i: int|
                    {
                        &&& 0 <= i < coords@.len()
                        &&& #[trigger] coords@[i] == c
                        &&& self@.can_spawn_at(c, spec_tiles_from_size(size) as int)
                        &&& forall|j: int|
                            0 <= j < i ==> !self@.can_spawn_at(
                                #[trigger] coords@[j],
                                spec_tiles_from_size(size) as int,
                            )
                    },
                None => forall|j: int|
                    0 <= j < coords@.len() ==> !self@.can_spawn_at(
                        #[trigger] coords@[j],
                        spec_tiles_from_size(size) as int,
                    ),
            },
    {
        let mut i: usize = 0;
        while i < coords.len()
            invariant
                self@.grid_ok(),
                i <= coords.len(),
                forall|j: int|
                    0 <= j < i ==> !self@.can_spawn_at(
                        #[trigger] coords@[j],
                        spec_tiles_from_size(size) as int,
                    ),
            decreases coords.len() - i,
        {
            if self.can_spawn_at(coords[i], size) {
                return Some(coords[i]);
            }
            i += 1;
        }
        None
    }

    /// Picks a place for a new actor of the given size: the cells of the
    /// arena are gone through in random order, and the first on which the
    /// whole footprint is spawnable is taken. Fails exactly when no cell of
    /// the arena can take the footprint.
    pub fn get_random_spawn(&self, size: Size) -> (r: Result<Coordinate, NoLegalPosition>)
        requires
            self@.grid_ok(),
        ensures
            r matches Ok(c) ==> self@.in_arena(c.x as int, c.y as int) && self@.can_spawn_at(
                c,
                spec_tiles_from_size(size) as int,
            ) && self@.square_free(c.x as int, c.y as int, spec_tiles_from_size(size) as int),
            r.is_err() <==> forall|x: int, y: int|
                self@.in_arena(x, y) ==> !#[trigger] self@.square_spawnable(
                    x,
                    y,
                    spec_tiles_from_size(size) as int,
                ),
    {
        let coords = self.get_random_coord_list();
        match self.first_spawn_among(&coords, size) {
            Some(c) => {
                proof {
                    let side = spec_tiles_from_size(size) as int;
                    assert(self@.spawnable(c.x + 0, c.y + 0));
                    lemma_spawnable_square_is_free(self@, c.x as int, c.y as int, side);
                }
                Ok(c)
            },
            None => {
                proof {
                    let side = spec_tiles_from_size(size) as int;
                    assert forall|x: int, y: int|
                        self@.in_arena(x, y) implies !#[trigger] self@.square_spawnable(
                        x,
                        y,
                        side,
                    ) by {
                        let c = cell_at(x, y);
                        assert(coords@.contains(c));
                        let j = choose|j: int| 0 <= j < coords@.len() && coords@[j] == c;
                        assert(!self@.can_spawn_at(coords@[j], side));
                    }
                }
                Err(NoLegalPosition)
            },
        }
    }

    /// Takes an actor out of the roster, to be put back after a change.
    fn take_actor(&mut self, actor_id: usize) -> (actor: ActorInstance)
        requires
            old(self)@.actors.contains_key(actor_id),
        ensures
            actor@ == old(self)@.actors[actor_id],
            final(self)@ == (EncounterView {
                actors: old(self)@.actors.remove(actor_id),
                ..old(self)@
            }),
    {
        assert(self.actors@.contains_key(actor_id));
        let actor = self.actors.remove(&actor_id).unwrap();
        assert(self@.actors =~= old(self)@.actors.remove(actor_id));
        actor
    }

    /// Puts an actor into the roster under `actor_id`.
    fn put_actor(&mut self, actor_id: usize, actor: ActorInstance)
        ensures
            final(self)@ == old(self)@.with_actor(actor_id, actor@),
    {
        self.actors.insert(actor_id, actor);
        assert(self@.actors =~= old(self)@.actors.insert(actor_id, actor@));
    }

    /// Lets an actor join under an id that was handed out for it.
    fn join(&mut self, actor_id: usize, actor: ActorInstance)
        requires
            old(self).wf(),
            actor_id < old(self)@.actor_id_next,
            !old(self)@.actors.contains_key(actor_id),
            old(self)@.initiative.entries.len() < usize::MAX,
            old(self)@.square_free(
                actor@.location.x as int,
                actor@.location.y as int,
                spec_tiles_from_size(actor@.size) as int,
            ),
            actor@.can_roll_initiative(),
            actor@.wf(),
            old(self)@.initialized ==> actor@.initiative.is_some(),
        ensures
            final(self)@ == old(self)@.joined(actor_id, actor@),
            final(self).wf(),
    {
        let ghost view = actor@;
        let location = actor.location();
        if self.initialized {
            self.initiative_tracker.add_actor(actor_id, actor.initiative().unwrap());
        }
        self.put_actor(actor_id, actor);
        proof {
            let v = self@;
            assert forall|i: int|
                0 <= i < v.actor_map.len() && #[trigger] v.actor_map[i] == Some(
                    actor_id,
                ) implies v.covered_by(actor_id, i) by {
                assert(old(self)@.actor_map[i] == Some(actor_id) <==> old(self)@.covered_by(
                    actor_id,
                    i,
                ));
            }
        }
        let placed = self.set_actor_map(actor_id, location);
        proof {
            lemma_joined_wf(old(self)@, actor_id, view);
        }
    }

    /// Lets an actor join the encounter under the next unused id. In a
    /// running encounter the actor has rolled its initiative. The cells
    /// under its footprint lie inside the arena and hold nobody.
    pub fn admit_actor(&mut self, actor: ActorInstance) -> (id: usize)
        requires
            old(self).wf(),
            old(self)@.actor_id_next < usize::MAX,
            old(self)@.initiative.entries.len() < usize::MAX,
            old(self)@.square_free(
                actor@.location.x as int,
                actor@.location.y as int,
                spec_tiles_from_size(actor@.size) as int,
            ),
            actor@.can_roll_initiative(),
            actor@.wf(),
            old(self)@.initialized ==> actor@.initiative.is_some(),
        ensures
            id == old(self)@.actor_id_next,
            final(self)@ == old(self)@.spawned(actor@),
            final(self).wf(),
    {
        let actor_id = self.next_actor_id();
        proof {
            lemma_wf_after_id(old(self)@);
        }
        self.join(actor_id, actor);
        actor_id
    }

    /// Instantiates a creature from its template at `location` for team
    /// `team_id` and lets it join the encounter. The cells under its
    /// footprint lie inside the arena and hold nobody.
    ///
    /// Which hit points and which initiative the actor gets is up to the
    /// dice. It fails only where the hit-point dice come to more than the
    /// number type holds, which cannot happen where even their highest roll
    /// fits; the id is used up even then.
    pub fn instantiate_creature(
        &mut self,
        creature_template: &CreatureTemplate,
        location: Coordinate,
        team_id: usize,
        instance_n: usize,
    ) -> (r: Result<usize, SpawnError>)
        requires
            old(self).wf(),
            old(self)@.actor_id_next < usize::MAX,
            old(self)@.initiative.entries.len() < usize::MAX,
            old(self)@.square_free(
                location.x as int,
                location.y as int,
                spec_tiles_from_size(creature_template.size) as int,
            ),
            spec_modifier_from_score(creature_template.dexterity) + 6 <= i32::MAX,
            creature_template.wf(),
        ensures
            final(self).wf(),
            creature_template.hitpoints@.always_fits() ==> r.is_ok(),
            r.is_err() ==> !creature_template.hitpoints@.always_fits(),
            r matches Err(_) ==> final(self)@ == (EncounterView {
                actor_id_next: (old(self)@.actor_id_next + 1) as usize,
                ..old(self)@
            }),
            r matches Ok(id) ==> id == old(self)@.actor_id_next && exists|
                hp_roll: i32,
                rolled: u16,
            |
                creature_template.hitpoints@.can_roll(hp_roll) && 1 <= rolled <= 6 && final(self)@
                    == old(self)@.spawned(
                    #[trigger] old(self)@.newcomer(
                        creature_template,
                        location,
                        team_id,
                        instance_n,
                        hp_roll,
                        rolled,
                    ),
                ),
    {
        let actor_id = self.next_actor_id();
        proof {
            lemma_wf_after_id(old(self)@);
        }
        let mut actor = match ActorInstance::from_creature_template(
            creature_template,
            location,
            team_id,
            &mut self.roller,
            instance_n,
        ) {
            Ok(a) => a,
            Err(e) => {
                return Err(e);
            },
        };
        let ghost hp_roll = choose|hp_roll: i32|
            creature_template.hitpoints@.can_roll(hp_roll) && actor@
                == #[trigger] ActorView::from_template(
                creature_template,
                location,
                team_id,
                hp_roll,
                instance_n,
            );
        actor.reset_for_new_round();
        let ghost fresh = actor@;
        let ghost mut rolled: u16 = 1;
        if self.initialized {
            actor.roll_initiative(&mut self.roller);
            proof {
                rolled = choose|rolled: u16|
                    1 <= rolled <= 6 && actor@ == #[trigger] fresh.with_rolled_initiative(rolled);
            }
        }
        assert(actor@ == old(self)@.newcomer(
            creature_template,
            location,
            team_id,
            instance_n,
            hp_roll,
            rolled,
        ));
        self.join(actor_id, actor);
        Ok(actor_id)
    }

    /// Starts the encounter: every actor rolls its initiative, and the
    /// turn order is built from the rolls, equal scores by ascending id.
    pub fn initialize(&mut self)
        requires
            old(self).wf(),
            !old(self)@.initialized,
        ensures
            final(self).wf(),
            final(self)@ == (EncounterView {
                initialized: true,
                actors: final(self)@.actors,
                initiative: old(self)@.initiative.placed_all(
                    final(self)@.actors,
                    old(self)@.actor_id_next as nat,
                ),
                ..old(self)@
            }),
            final(self)@.actors.dom() == old(self)@.actors.dom(),
            forall|id: usize| #[trigger]
                final(self)@.actors.contains_key(id) ==> exists|rolled: u16|
                    1 <= rolled <= 6 && final(self)@.actors[id] == #[trigger] old(
                        self,
                    )@.actors[id].with_rolled_initiative(rolled),
            forall|id: usize| #[trigger]
                final(self)@.actors.contains_key(id) ==> lists(final(self)@.initiative.entries, id),
            final(self)@.initiative.cursor == old(self)@.initiative.cursor,
    {
        let bound = self.actor_id_next;
        let mut id: usize = 0;
        while id < bound
            invariant
                id <= bound,
                bound == old(self)@.actor_id_next,
                self.wf(),
                self@ == (EncounterView { actors: self@.actors, ..old(self)@ }),
                self@.actors.dom() == old(self)@.actors.dom(),
                forall|other: usize|
                    other < id && #[trigger] self@.actors.contains_key(other) ==> exists|
                        rolled: u16,
                    |
                        1 <= rolled <= 6 && self@.actors[other] == #[trigger] old(
                            self,
                        )@.actors[other].with_rolled_initiative(rolled),
                forall|other: usize|
                    other >= id && #[trigger] self@.actors.contains_key(other)
                        ==> self@.actors[other] == old(self)@.actors[other],
            decreases bound - id,
        {
            if self.actors.contains_key(&id) {
                let ghost before = self@;
                assert(before.actors.contains_key(id));
                let mut actor = self.take_actor(id);
                actor.roll_initiative(&mut self.roller);
                self.put_actor(id, actor);
                proof {
                    assert(self@.actors =~= before.actors.insert(id, actor@));
                    assert(self@ == before.with_actor(id, actor@));
                    lemma_actor_update_wf(before, id, actor@);
                    assert(self@.actors.dom() =~= old(self)@.actors.dom());
                }
            }
            id += 1;
        }
        proof {
            assert forall|other: usize|
                other < bound && self.actors@.contains_key(other) implies (
            #[trigger] self.actors@[other])@.initiative.is_some() by {
                assert(self@.actors.contains_key(other));
                assert(self@.actors[other] == self.actors@[other]@);
            }
            assert forall|other: usize| #[trigger] self.actors@.contains_key(other) implies other
                < bound by {
                assert(self@.actors.contains_key(other));
            }
        }
        let ghost rolled = self@;
        self.initiative_tracker.initialize_actors(&self.actors, bound);
        self.initialized = true;
        proof {
            lemma_placed_all(rolled.initiative, rolled.actors, bound as nat);
            let w = self@;
            assert forall|id: usize| #[trigger] w.actors.contains_key(id) implies lists(
                w.initiative.entries,
                id,
            ) by {
                assert(rolled.actors.contains_key(id));
                lemma_placed_all_lists(rolled.initiative, rolled.actors, bound as nat, id);
            }
            assert forall|i: int, other: usize| 0 <= i < w.actor_map.len() implies (
            w.actor_map[i] == Some(other) <==> #[trigger] w.covered_by(other, i)) by {
                assert(w.covered_by(other, i) == rolled.covered_by(other, i));
            }
            assert forall|i: int| 0 <= i < w.initiative.entries.len() implies w.actors.contains_key(
                #[trigger] w.initiative.entries[i].actor_id,
            ) by {
                let e = w.initiative.entries[i];
                if rolled.initiative.entries.contains(e) {
                    let j = choose|j: int|
                        0 <= j < rolled.initiative.entries.len() && rolled.initiative.entries[j]
                            == e;
                    assert(rolled.actors.contains_key(rolled.initiative.entries[j].actor_id));
                }
            }
        }
    }

    /// Takes `resource` from the actor, which holds it.
    pub fn consume_resource(&mut self, actor_id: usize, resource: Resource)
        requires
            old(self).wf(),
            old(self)@.actors.contains_key(actor_id),
            old(self)@.actors[actor_id].can_consume(resource),
        ensures
            final(self)@ == old(self)@.with_actor(
                actor_id,
                old(self)@.actors[actor_id].consumed(resource),
            ),
            final(self).wf(),
    {
        let mut actor = self.take_actor(actor_id);
        actor.consume_resource(resource);
        self.put_actor(actor_id, actor);
        proof {
            assert(self@.actors =~= old(self)@.actors.insert(actor_id, actor@));
            lemma_actor_update_wf(old(self)@, actor_id, actor@);
        }
    }

    /// Hands `resource` to the actor.
    pub fn give_resource(&mut self, actor_id: usize, resource: Resource)
        requires
            old(self).wf(),
            old(self)@.actors.contains_key(actor_id),
        ensures
            final(self)@ == old(self)@.with_actor(
                actor_id,
                old(self)@.actors[actor_id].given(resource),
            ),
            final(self).wf(),
    {
        let mut actor = self.take_actor(actor_id);
        actor.give_resource(resource);
        self.put_actor(actor_id, actor);
        proof {
            assert(self@.actors =~= old(self)@.actors.insert(actor_id, actor@));
            lemma_actor_update_wf(old(self)@, actor_id, actor@);
        }
    }

    /// Passes the turn to the next actor of the turn order and gives that
    /// actor the resources of a new round.
    pub fn skip_turn(&mut self)
        requires
            old(self).wf(),
            old(self)@.initiative.entries.len() > 0,
        ensures
            final(self)@ == old(self)@.turn_skipped(),
            final(self).wf(),
            final(self)@.initiative.current().is_some(),
    {
        self.initiative_tracker.advance();
        let current: usize = self.initiative_tracker.current_player().unwrap();
        assert(old(self)@.actors.contains_key(
            old(self)@.initiative.entries[self@.initiative.cursor as int].actor_id,
        ));
        let mut curr_actor = self.take_actor(current);
        curr_actor.reset_for_new_round();
        self.put_actor(current, curr_actor);
        proof {
            assert(self@.actors =~= old(self)@.turn_skipped().actors);
            lemma_turn_skipped_wf(old(self)@);
        }
    }

    /// Rewrites the occupancy table for an actor that goes to `coord`: the
    /// cells it holds are cleared, the cells under its footprint anchored at
    /// `coord` are given to it. The actor's own record is left as it is.
    ///
    /// Both footprints, the one at the actor's position and the one at
    /// `coord`, lie inside the arena, and every cell that holds the actor
    /// lies under the former.
    pub fn set_actor_map(&mut self, actor_id: usize, coord: Coordinate) -> (r: Result<
        (),
        ActorNotFound,
    >)
        requires
            old(self)@.grid_ok(),
            old(self)@.actors.contains_key(actor_id) ==> {
                &&& old(self)@.square_in_arena(
                    old(self)@.actors[actor_id].location.x as int,
                    old(self)@.actors[actor_id].location.y as int,
                    old(self)@.side_of(actor_id),
                )
                &&& old(self)@.square_in_arena(
                    coord.x as int,
                    coord.y as int,
                    old(self)@.side_of(actor_id),
                )
                &&& old(self)@.held_cells_under_footprint(actor_id)
            },
        ensures
            r.is_ok() == old(self)@.actors.contains_key(actor_id),
            r.is_ok() ==> final(self)@ == (EncounterView {
                actor_map: old(self)@.moved_map(actor_id, coord),
                ..old(self)@
            }),
            r.is_err() ==> final(self)@ == old(self)@,
    {
        let (actor_width, coord_old) = match self.get_actor(actor_id) {
            Some(actor) => (get_tiles_from_size(actor.size()), actor.location()),
            None => {
                return Err(ActorNotFound);
            },
        };
        fill_square(
            &mut self.actor_map,
            self.width,
            self.height,
            coord_old.x as usize,
            coord_old.y as usize,
            actor_width,
            actor_id,
            None,
            true,
        );
        let ghost cleared = self.actor_map@;
        fill_square(
            &mut self.actor_map,
            self.width,
            self.height,
            coord.x as usize,
            coord.y as usize,
            actor_width,
            actor_id,
            Some(actor_id),
            false,
        );
        proof {
            let before = old(self)@;
            assert forall|i: int| 0 <= i < self.actor_map@.len() implies self.actor_map@[i]
                == before.moved_map(actor_id, coord)[i] by {
                if before.actor_map[i] == Some(actor_id) {
                    assert(before.covered_by(actor_id, i));
                }
                assert(cleared[i] == (if before.actor_map[i] == Some(actor_id) {
                    None
                } else {
                    before.actor_map[i]
                }));
            }
            assert(self.actor_map@ =~= before.moved_map(actor_id, coord));
        }
        Ok(())
    }

    /// Moves an actor: its footprint in the occupancy table and the
    /// position in its record.
    pub fn relocate_actor(&mut self, actor_id: usize, target: Coordinate)
        requires
            old(self).wf(),
            old(self)@.can_place(actor_id, target),
        ensures
            final(self)@ == old(self)@.actor_moved(actor_id, target),
            final(self).wf(),
    {
        proof {
            let v = old(self)@;
            assert forall|i: int|
                0 <= i < v.actor_map.len() && #[trigger] v.actor_map[i] == Some(
                    actor_id,
                ) implies v.covered_by(actor_id, i) by {
                assert(v.actor_map[i] == Some(actor_id) <==> v.covered_by(actor_id, i));
            }
        }
        let placed = self.set_actor_map(actor_id, target);
        let mut actor = self.take_actor(actor_id);
        actor.set_location(target);
        self.put_actor(actor_id, actor);
        proof {
            assert(self@.actors =~= old(self)@.actor_moved(actor_id, target).actors);
            lemma_actor_moved_wf(old(self)@, actor_id, target);
        }
    }

    /// Applies a side effect to the encounter.
    pub fn apply_side_effect(&mut self, effect: SideEffect)
        requires
            old(self).wf(),
            old(self)@.effect_applicable(effect),
        ensures
            final(self)@ == old(self)@.effect_applied(effect),
            final(self).wf(),
    {
        effect.apply(self);
    }

    /// The hook that learns of every entry that is put on the stack or
    /// taken off it. It reacts to nothing yet.
    pub fn check_triggers(&mut self, event: &StackElementEntry, event_type: TriggerEventType)
        ensures
            final(self)@ == old(self)@,
            old(self).wf() ==> final(self).wf(),
    {
        match event {
            StackElementEntry::Prompt(_) => {},
            StackElementEntry::Action(_) => {},
            StackElementEntry::SideEffect(_) => {},
        }
        proof {
            if old(self).wf() {
                lemma_wf_ignores_stack(old(self)@, self@);
            }
        }
    }

    /// Puts an entry on top of the stack, under the next id of the batch.
    pub fn enqueue_event(&mut self, se: StackElementEntry, success_dependencies: Option<Vec<usize>>)
        requires
            old(self)@.outcomes.next_id < usize::MAX,
        ensures
            final(self)@ == old(self)@.enqueued(
                se@,
                match success_dependencies {
                    Some(deps) => Some(deps@),
                    None => None,
                },
            ),
            old(self).wf() ==> final(self).wf(),
    {
        self.check_triggers(&se, TriggerEventType::Enqueue);
        let id = self.outcome_tracker.next_id();
        let element = StackElement {
            entry: se,
            id: id,
            success_dependencies: success_dependencies,
        };
        let ghost before = self.encounter_stack@;
        self.encounter_stack.push(element);
        assert(element_views(self.encounter_stack@) =~= element_views(before).push(element@));
        proof {
            if old(self).wf() {
                lemma_wf_ignores_stack(old(self)@, self@);
            }
        }
    }

    /// Puts an entry at the back of the staging queue, under the next id
    /// of the batch.
    pub fn stage_event(&mut self, se: StackElementEntry, success_dependencies: Option<Vec<usize>>)
        requires
            old(self)@.outcomes.next_id < usize::MAX,
        ensures
            final(self)@ == (EncounterView {
                queue: old(self)@.queue.push(
                    StackElementView {
                        entry: se@,
                        id: old(self)@.outcomes.next_id,
                        success_dependencies: match success_dependencies {
                            Some(deps) => Some(deps@),
                            None => None,
                        },
                    },
                ),
                outcomes: OutcomeView {
                    next_id: (old(self)@.outcomes.next_id + 1) as usize,
                    ..old(self)@.outcomes
                },
                ..old(self)@
            }),
            old(self).wf() ==> final(self).wf(),
    {
        let id = self.outcome_tracker.next_id();
        let element = StackElement {
            entry: se,
            id: id,
            success_dependencies: success_dependencies,
        };
        let ghost before = self.temp_encounter_queue@;
        self.temp_encounter_queue.push_back(element);
        assert(element_views(self.temp_encounter_queue@) =~= element_views(before).push(element@));
        proof {
            if old(self).wf() {
                lemma_wf_ignores_stack(old(self)@, self@);
            }
        }
    }

    /// Puts an action invocation on top of the stack.
    pub fn push_action(&mut self, action_execution_info: ActionExecutionInfo)
        requires
            old(self)@.outcomes.next_id < usize::MAX,
        ensures
            final(self)@ == old(self)@.enqueued(EntryView::Action(action_execution_info@), None),
            old(self).wf() ==> final(self).wf(),
    {
        let id = self.outcome_tracker.next_id();
        let element = StackElement {
            entry: StackElementEntry::Action(action_execution_info),
            id: id,
            success_dependencies: None,
        };
        let ghost before = self.encounter_stack@;
        self.encounter_stack.push(element);
        assert(element_views(self.encounter_stack@) =~= element_views(before).push(element@));
        proof {
            if old(self).wf() {
                lemma_wf_ignores_stack(old(self)@, self@);
            }
        }
    }

    /// The prompt on top of the stack, if the top is one.
    pub fn peek_prompt(&self) -> (prompt: Option<&Prompt>)
        ensures
            prompt.is_some() == self@.top_is_prompt(),
            prompt matches Some(p) ==> self@.stack.last().entry == EntryView::Prompt(p@),
    {
        let n = self.encounter_stack.len();
        if n == 0 {
            return None;
        }
        assert(element_views(self.encounter_stack@).last() == self.encounter_stack@[n - 1]@);
        match &self.encounter_stack[n - 1].entry {
            StackElementEntry::Prompt(p) => Some(p),
            _ => None,
        }
    }

    /// Takes the prompt off the top of the stack, if the top is one.
    pub fn pop_prompt(&mut self) -> (prompt: Option<Prompt>)
        ensures
            prompt.is_some() == old(self)@.top_is_prompt(),
            prompt matches Some(p) ==> old(self)@.stack.last().entry == EntryView::Prompt(p@)
                && final(self)@ == (EncounterView {
                stack: old(self)@.stack.drop_last(),
                ..old(self)@
            }),
            prompt.is_none() ==> final(self)@ == old(self)@,
            old(self).wf() ==> final(self).wf(),
    {
        if self.peek_prompt().is_none() {
            return None;
        }
        let ghost before = self.encounter_stack@;
        let element = self.encounter_stack.pop().unwrap();
        assert(element_views(self.encounter_stack@) =~= element_views(before).drop_last());
        assert(element_views(before).last() == element@);
        proof {
            if old(self).wf() {
                lemma_wf_ignores_stack(old(self)@, self@);
            }
        }
        match element.entry {
            StackElementEntry::Prompt(p) => Some(p),
            _ => None,
        }
    }

    /// Records whether the stack entry with the given id resolved
    /// successfully.
    pub fn set_outcome(&mut self, id: usize, success: bool)
        ensures
            final(self)@ == (EncounterView {
                outcomes: OutcomeView {
                    successes: old(self)@.outcomes.successes.insert(id, success),
                    ..old(self)@.outcomes
                },
                ..old(self)@
            }),
            old(self).wf() ==> final(self).wf(),
    {
        self.outcome_tracker.set_outcome(id, success);
        proof {
            if old(self).wf() {
                lemma_wf_ignores_stack(old(self)@, self@);
            }
        }
    }

    /// Whether the actor is in the roster and can be placed with its
    /// footprint anchored at `target`: every cell under it lies inside the
    /// arena and holds nobody else.
    pub fn can_place(&self, actor_id: usize, target: Coordinate) -> (ok: bool)
        requires
            self@.grid_ok(),
        ensures
            ok == self@.can_place(actor_id, target),
    {
        let actor_width: usize = match self.get_actor(actor_id) {
            Some(actor) => get_tiles_from_size(actor.size()),
            None => {
                return false;
            },
        };
        proof {
            lemma_place_by_cells(self@, actor_id, target);
        }
        let mut x_off: usize = 0;
        while x_off < actor_width
            invariant
                self@.grid_ok(),
                self@.actors.contains_key(actor_id),
                actor_width == self@.side_of(actor_id),
                actor_width <= 8,
                x_off <= actor_width,
                forall|dx: int, dy: int|
                    0 <= dx < x_off && 0 <= dy < actor_width
                        ==> #[trigger] self@.holds_nobody_else(
                        target.x + dx,
                        target.y + dy,
                        actor_id,
                    ),
            decreases actor_width - x_off,
        {
            let mut y_off: usize = 0;
            while y_off < actor_width
                invariant
                    self@.grid_ok(),
                    self@.actors.contains_key(actor_id),
                    actor_width == self@.side_of(actor_id),
                    actor_width <= 8,
                    x_off < actor_width,
                    y_off <= actor_width,
                    forall|dx: int, dy: int|
                        0 <= dx < x_off && 0 <= dy < actor_width
                            ==> #[trigger] self@.holds_nobody_else(
                            target.x + dx,
                            target.y + dy,
                            actor_id,
                        ),
                    forall|dy: int|
                        0 <= dy < y_off ==> #[trigger] self@.holds_nobody_else(
                            target.x + x_off,
                            target.y + dy,
                            actor_id,
                        ),
                decreases actor_width - y_off,
            {
                let free = match self.cell_state(
                    target.x as i128 + x_off as i128,
                    target.y as i128 + y_off as i128,
                ) {
                    Some((None, _)) => true,
                    Some((Some(holder), _)) => holder == actor_id,
                    None => false,
                };
                if !free {
                    proof {
                        lemma_place_by_cells(self@, actor_id, target);
                        assert(!self@.holds_nobody_else(
                            target.x + x_off,
                            target.y + y_off,
                            actor_id,
                        ));
                    }
                    return false;
                }
                y_off += 1;
            }
            x_off += 1;
        }
        true
    }

    /// Whether the side effect can be applied to the encounter as it
    /// stands.
    pub fn can_apply(&self, effect: SideEffect) -> (ok: bool)
        requires
            self@.grid_ok(),
        ensures
            ok == self@.effect_applicable(effect),
    {
        match effect {
            SideEffect::ConsumeResource(c) => match self.get_actor(c.actor_id) {
                Some(actor) => actor.can_consume_resource(c.resource),
                None => false,
            },
            SideEffect::GiveResource(g) => self.get_actor(g.actor_id).is_some(),
            SideEffect::MoveActor(m) => self.can_place(m.actor_id, m.target),
            SideEffect::SkipTurn(_) => self.initiative_tracker.len() > 0,
        }
    }

    /// Whether the entry on top of the stack can be resolved in the
    /// encounter as it stands: it does not apply and is just dropped, or
    /// it is an invocation that is legal now, of an actor of the roster,
    /// with ids left for its side effects, or it is a side effect that can
    /// be applied.
    pub fn can_resolve_top(&self) -> (ok: bool)
        requires
            self.wf(),
            !self@.halted(),
        ensures
            ok == self@.step_ok(),
    {
        let n = self.encounter_stack.len();
        let element = &self.encounter_stack[n - 1];
        let ghost rest = self@.popped();
        assert(self@.stack.last() == element@);
        let applies = match &element.success_dependencies {
            Some(deps) => self.outcome_tracker.all_succeeded(deps),
            None => true,
        };
        if !applies {
            return true;
        }
        match &element.entry {
            StackElementEntry::Prompt(_) => false,
            StackElementEntry::SideEffect(effect) => {
                proof {
                    lemma_applicable_ignores_stack(self@, rest, *effect);
                }
                self.can_apply(*effect)
            },
            StackElementEntry::Action(invocation) => {
                proof {
                    lemma_validity_ignores_stack(self@, rest, invocation@);
                }
                if self.get_actor(invocation.caster_id()).is_none() {
                    return false;
                }
                if !invocation.validate(self) {
                    return false;
                }
                let side_effects = invocation.execute(self);
                side_effects.len() <= usize::MAX - self.outcome_tracker.peek_next_id()
            },
        }
    }

    /// Resolves the entry on top of the stack.
    pub fn resolve_top(&mut self)
        requires
            old(self).wf(),
            !old(self)@.halted(),
            old(self)@.step_ok(),
        ensures
            final(self)@ == old(self)@.step(),
            final(self).wf(),
    {
        proof {
            lemma_step_wf(old(self)@);
        }
        let ghost before = self.encounter_stack@;
        let se = self.encounter_stack.pop().unwrap();
        assert(element_views(self.encounter_stack@) =~= element_views(before).drop_last());
        assert(element_views(before).last() == se@);
        let ghost rest = self@;
        assert(rest == old(self)@.popped());
        proof {
            lemma_wf_ignores_stack(old(self)@, rest);
        }
        self.check_triggers(&se.entry, TriggerEventType::Execute);
        let applies = match &se.success_dependencies {
            Some(deps) => self.outcome_tracker.all_succeeded(deps),
            None => true,
        };
        if !applies {
            return ;
        }
        match se.entry {
            StackElementEntry::Prompt(_) => {},
            StackElementEntry::Action(a) => {
                let side_effects = a.execute(self);
                let mut i: usize = 0;
                proof {
                    lemma_enqueued_effects(rest, side_effects@);
                }
                while i < side_effects.len()
                    invariant
                        i <= side_effects.len(),
                        rest.outcomes.next_id + side_effects@.len() <= usize::MAX,
                        self@ == rest.enqueued_effects(side_effects@.take(i as int)),
                    decreases side_effects.len() - i,
                {
                    proof {
                        lemma_enqueued_effects(rest, side_effects@.take(i as int));
                        assert(side_effects@.take(i + 1).drop_last() == side_effects@.take(
                            i as int,
                        ));
                    }
                    self.enqueue_event(StackElementEntry::SideEffect(side_effects[i]), None);
                    i += 1;
                }
                assert(side_effects@.take(i as int) == side_effects@);
            },
            StackElementEntry::SideEffect(s) => {
                self.apply_side_effect(s);
            },
        }
    }

    /// Processes one tick. With a prompt on top of the stack the engine
    /// waits and nothing happens. Otherwise the staging queue is emptied
    /// onto the stack and the stack is resolved, top first, until it is
    /// empty or shows a prompt; an empty stack starts a new batch with a
    /// prompt for the actor whose turn it is.
    pub fn process_stack(&mut self)
        requires
            old(self).wf(),
            old(self)@.initialized,
            old(self)@.process_ok(),
        ensures
            final(self)@ == old(self)@.processed(),
            final(self).wf(),
    {
        if self.peek_prompt().is_some() {
            return ;
        }
        let ghost start = self@;
        while self.temp_encounter_queue.len() > 0
            invariant
                self@ == (EncounterView { stack: self@.stack, queue: self@.queue, ..start }),
                self@.stack + self@.queue == start.stack + start.queue,
            decreases self.temp_encounter_queue.len(),
        {
            let ghost stack_before = self.encounter_stack@;
            let ghost queue_before = self.temp_encounter_queue@;
            let element = self.temp_encounter_queue.pop_front().unwrap();
            self.encounter_stack.push(element);
            proof {
                assert(element_views(self.encounter_stack@) =~= element_views(stack_before).push(
                    element@,
                ));
                assert(element_views(self.temp_encounter_queue@) =~= element_views(
                    queue_before,
                ).subrange(1, queue_before.len() as int));
                assert(element_views(queue_before)[0] == element@);
                assert(self@.stack + self@.queue =~= element_views(stack_before) + element_views(
                    queue_before,
                ));
            }
        }
        proof {
            assert(self@.queue =~= Seq::<StackElementView>::empty());
            assert(self@.stack =~= start.stack + start.queue);
            assert(self@ == start.drained());
            assert forall|i: int, id: usize| 0 <= i < self@.actor_map.len() implies (
            self@.actor_map[i] == Some(id) <==> #[trigger] self@.covered_by(id, i)) by {
                assert(self@.covered_by(id, i) == start.covered_by(id, i));
            }
        }
        let ghost goal = start.drained().run();
        while !self.encounter_stack.is_empty() && self.peek_prompt().is_none()
            invariant
                self.wf(),
                self@.run_ok(),
                self@.run() == goal,
                self@.stack.len() == self.encounter_stack@.len(),
            decreases pending_actions(self@.stack), self@.stack.len(),
        {
            proof {
                lemma_step_decreases(self@);
            }
            self.resolve_top();
        }
        assert(self@.halted());
        assert(self@ == goal);
        if !self.encounter_stack.is_empty() {
            return ;
        }
        self.outcome_tracker.reset();
        let current_player_id = self.initiative_tracker.current_player().unwrap();
        assert(self@.actors.contains_key(
            self@.initiative.entries[self@.initiative.cursor as int].actor_id,
        ));
        let actions = copy_vec(self.get_actor(current_player_id).unwrap().actions());
        let id = self.outcome_tracker.next_id();
        let element = StackElement {
            entry: StackElementEntry::Prompt(Prompt::new(current_player_id, actions)),
            id: id,
            success_dependencies: None,
        };
        self.encounter_stack.push(element);
        proof {
            assert(element_views(self.encounter_stack@) =~= seq![element@]);
            assert(self@ == goal.prompting());
            assert forall|i: int, id: usize| 0 <= i < self@.actor_map.len() implies (
            self@.actor_map[i] == Some(id) <==> #[trigger] self@.covered_by(id, i)) by {
                assert(self@.covered_by(id, i) == goal.covered_by(id, i));
            }
        }
    }

    pub fn messages(&self) -> (messages: &Vec<String>)
        ensures
            messages@.map_values(|m: String| m@) == self@.messages,
    {
        &self.messages
    }

    pub fn tmp_message(&self) -> (message: &String)
        ensures
            message@ == self@.tmp_message,
    {
        &self.tmp_message
    }

    /// What the map shows of a cell inside the arena.
    pub fn map_cell(&self, coord: Coordinate) -> (cell: MapCell)
        requires
            self.wf(),
            self@.in_arena(coord.x as int, coord.y as int),
        ensures
            cell == self@.map_cell(coord.x as int, coord.y as int),
    {
        match self.actor_id_at(coord) {
            Some(actor_id) => {
                proof {
                    lemma_cell_index_bound(
                        self@.width as int,
                        self@.height as int,
                        coord.x as int,
                        coord.y as int,
                    );
                    assert(self@.covered_by(
                        actor_id,
                        self@.cell_index(coord.x as int, coord.y as int),
                    ));
                }
                let actor = self.get_actor(actor_id).unwrap();
                let (glyph, fg, bg) = get_colored_span(actor_id, actor.team());
                MapCell::Actor(glyph, fg, bg)
            },
            None => MapCell::Terrain(terrain_char(self.terrain_at(coord).terrain_type)),
        }
    }

    /// The map, row by row from the top: row `r` shows the cells with
    /// `y == height - 1 - r`, from left to right.
    pub fn map_rows(&self) -> (rows: Vec<Vec<MapCell>>)
        requires
            self.wf(),
        ensures
            rows@.len() == self@.height,
            forall|r: int|
                0 <= r < rows@.len() ==> (#[trigger] rows@[r])@.len() == self@.width,
            forall|r: int, x: int|
                0 <= r < self@.height && 0 <= x < self@.width ==> rows@[r]@[x]
                    == #[trigger] self@.map_cell(x, self@.height - 1 - r),
    {
        let mut rows: Vec<Vec<MapCell>> = Vec::new();
        let mut r: usize = 0;
        while r < self.height
            invariant
                self.wf(),
                r <= self.height,
                rows@.len() == r,
                forall|k: int| 0 <= k < r ==> (#[trigger] rows@[k])@.len() == self@.width,
                forall|k: int, x: int|
                    0 <= k < r && 0 <= x < self@.width ==> rows@[k]@[x]
                        == #[trigger] self@.map_cell(x, self@.height - 1 - k),
            decreases self.height - r,
        {
            let y: usize = self.height - 1 - r;
            let mut row: Vec<MapCell> = Vec::new();
            let mut x: usize = 0;
            while x < self.width
                invariant
                    self.wf(),
                    y < self.height,
                    x <= self.width,
                    row@.len() == x,
                    forall|k: int| 0 <= k < x ==> row@[k] == #[trigger] self@.map_cell(k, y as int),
                decreases self.width - x,
            {
                row.push(self.map_cell(Coordinate::new(x as isize, y as isize)));
                x += 1;
            }
            rows.push(row);
            r += 1;
        }
        rows
    }
}

} // verus!
