//! The mathematical model of an encounter: its state as plain values, the
//! invariant that ties the occupancy table to the actors, and what each
//! side effect does to the state.

use crate::actions::action_template::InvocationView;
use crate::actors::actor_template::ActorView;
use crate::actors::actor_template::CreatureTemplate;
use crate::engine::grid::covers;
use crate::engine::grid::lemma_cell_index_bound;
use crate::engine::grid::lemma_index_cell;
use crate::engine::initiative::insertion_point;
use crate::engine::initiative::lemma_added_keeps_current;
use crate::engine::initiative::lemma_first_lower;
use crate::engine::initiative::InitiativeView;
use crate::engine::outcome::OutcomeView;
use crate::engine::prompt::PromptView;
use crate::engine::side_effects::SideEffect;
use crate::engine::terrain::TerrainInfo;
use crate::engine::terrain::TerrainType;
use crate::engine::types::Coordinate;
use crate::engine::util::spec_colored_span;
use crate::engine::util::spec_terrain_char;
use crate::engine::util::spec_tiles_from_size;
use crate::engine::util::MapCell;
use vstd::prelude::*;

verus! {

/// Mathematical content of a [`StackElementEntry`].
pub ghost enum EntryView {
    SideEffect(SideEffect),
    Action(InvocationView),
    Prompt(PromptView),
}

/// Mathematical content of a [`StackElement`].
pub ghost struct StackElementView {
    pub entry: EntryView,
    pub id: usize,
    pub success_dependencies: Option<Seq<usize>>,
}

/// Mathematical content of an [`EncounterInstance`].
pub ghost struct EncounterView {
    pub initialized: bool,
    pub width: usize,
    pub height: usize,
    /// The terrain, row by row: cell (`x`, `y`) is at `x + y * width`.
    pub terrain: Seq<TerrainInfo>,
    pub actor_id_next: usize,
    /// The occupancy table, laid out like the terrain.
    pub actor_map: Seq<Option<usize>>,
    pub actors: Map<usize, ActorView>,
    pub initiative: InitiativeView,
    /// The processing stack; its last element is the top.
    pub stack: Seq<StackElementView>,
    /// The staging queue; its first element is the front.
    pub queue: Seq<StackElementView>,
    pub messages: Seq<Seq<char>>,
    pub tmp_message: Seq<char>,
    pub outcomes: OutcomeView,
}

impl EncounterView {
    /// A fresh encounter on the given arena: no actors, an empty turn
    /// order, nothing to resolve.
    pub open spec fn on_terrain(width: usize, height: usize, terrain: Seq<TerrainInfo>) -> EncounterView {
        EncounterView {
            initialized: false,
            width: width,
            height: height,
            terrain: terrain,
            actor_id_next: 0,
            actor_map: Seq::new(terrain.len(), |i: int| None),
            actors: Map::empty(),
            initiative: InitiativeView { entries: Seq::empty(), cursor: 0 },
            stack: Seq::empty(),
            queue: Seq::empty(),
            messages: Seq::empty(),
            tmp_message: Seq::empty(),
            outcomes: OutcomeView::fresh(),
        }
    }

    /// Number of cells of the arena.
    pub open spec fn cell_count(self) -> int {
        self.width * self.height
    }

    /// Terrain and occupancy table have one entry per cell, and every cell
    /// has an address.
    pub open spec fn grid_ok(self) -> bool {
        &&& self.terrain.len() == self.cell_count()
        &&& self.actor_map.len() == self.cell_count()
        &&& self.width <= isize::MAX
        &&& self.height <= isize::MAX
    }

    /// Whether the cell (`x`, `y`) lies inside the arena.
    pub open spec fn in_arena(self, x: int, y: int) -> bool {
        &&& 0 <= x < self.width
        &&& 0 <= y < self.height
    }

    /// Index of the cell (`x`, `y`) in the terrain and occupancy tables.
    pub open spec fn cell_index(self, x: int, y: int) -> int {
        x + y * self.width
    }

    /// Whether the square of side `side` anchored at (`ax`, `ay`) lies
    /// inside the arena.
    pub open spec fn square_in_arena(self, ax: int, ay: int, side: int) -> bool {
        &&& 0 <= ax
        &&& ax + side <= self.width
        &&& 0 <= ay
        &&& ay + side <= self.height
    }

    /// The actor that holds the cell (`x`, `y`), if the cell lies inside
    /// the arena and holds one.
    pub open spec fn occupant(self, x: int, y: int) -> Option<usize> {
        if self.in_arena(x, y) {
            self.actor_map[self.cell_index(x, y)]
        } else {
            None
        }
    }

    /// Side of the footprint of actor `id`, in cells.
    pub open spec fn side_of(self, id: usize) -> int {
        spec_tiles_from_size(self.actors[id].size) as int
    }

    /// Whether actor `id` is in the roster and its footprint, anchored at
    /// its position, covers the cell with index `i`.
    pub open spec fn covered_by(self, id: usize, i: int) -> bool {
        &&& self.actors.contains_key(id)
        &&& covers(
            self.actors[id].location.x as int,
            self.actors[id].location.y as int,
            self.side_of(id),
            i % (self.width as int),
            i / (self.width as int),
        )
    }

    /// The occupancy table agrees with the actors: a cell holds an actor
    /// exactly if that actor's footprint covers it.
    pub open spec fn occupancy_ok(self) -> bool {
        forall|i: int, id: usize|
            0 <= i < self.actor_map.len() ==> (self.actor_map[i] == Some(id)
                <==> #[trigger] self.covered_by(id, i))
    }

    /// Every footprint lies inside the arena.
    pub open spec fn footprints_ok(self) -> bool {
        forall|id: usize| #[trigger]
            self.actors.contains_key(id) ==> self.square_in_arena(
                self.actors[id].location.x as int,
                self.actors[id].location.y as int,
                self.side_of(id),
            )
    }

    /// The invariant of an encounter: the tables fit the arena; the
    /// occupancy table agrees with the actors, whose footprints lie inside
    /// the arena; the turn order is sorted and names only actors of the
    /// roster; every id in use was handed out; every initiative an actor
    /// can roll fits the score type; and no actor has a skill, a sense or
    /// a language twice.
    pub open spec fn wf(self) -> bool {
        &&& self.grid_ok()
        &&& self.occupancy_ok()
        &&& self.footprints_ok()
        &&& self.initiative.wf()
        &&& forall|id: usize| #[trigger] self.actors.contains_key(id) ==> id < self.actor_id_next
        &&& forall|id: usize| #[trigger]
            self.actors.contains_key(id) ==> self.actors[id].can_roll_initiative()
        &&& forall|id: usize| #[trigger] self.actors.contains_key(id) ==> self.actors[id].wf()
        &&& forall|i: int|
            0 <= i < self.initiative.entries.len() ==> self.actors.contains_key(
                #[trigger] self.initiative.entries[i].actor_id,
            )
    }

    /// Whether the cell is inside the arena and is floor.
    pub open spec fn is_floor(self, x: int, y: int) -> bool {
        &&& self.in_arena(x, y)
        &&& self.terrain[self.cell_index(x, y)].terrain_type == TerrainType::Floor
    }

    /// Whether every cell under the footprint of actor `id` is floor.
    pub open spec fn stands_on_floor(self, id: usize) -> bool {
        forall|dx: int, dy: int|
            0 <= dx < self.side_of(id) && 0 <= dy < self.side_of(id) ==> #[trigger] self.is_floor(
                self.actors[id].location.x + dx,
                self.actors[id].location.y + dy,
            )
    }

    /// Whether the cell is inside the arena, unoccupied and passable.
    pub open spec fn spawnable(self, x: int, y: int) -> bool {
        &&& self.in_arena(x, y)
        &&& self.occupant(x, y).is_none()
        &&& self.terrain[self.cell_index(x, y)].terrain_type == TerrainType::Floor
    }

    /// Whether a whole square of side `side` anchored at (`ax`, `ay`) is
    /// spawnable.
    pub open spec fn square_spawnable(self, ax: int, ay: int, side: int) -> bool {
        forall|dx: int, dy: int|
            0 <= dx < side && 0 <= dy < side ==> #[trigger] self.spawnable(ax + dx, ay + dy)
    }

    /// Whether a new actor with a footprint of side `side` can be placed
    /// with its anchor on the cell `c`.
    pub open spec fn can_spawn_at(self, c: Coordinate, side: int) -> bool {
        self.square_spawnable(c.x as int, c.y as int, side)
    }

    /// Whether the square of side `side` anchored at (`ax`, `ay`) lies
    /// inside the arena on cells that hold nobody.
    pub open spec fn square_free(self, ax: int, ay: int, side: int) -> bool {
        &&& self.square_in_arena(ax, ay, side)
        &&& forall|i: int|
            0 <= i < self.actor_map.len() && covers(
                ax,
                ay,
                side,
                i % (self.width as int),
                i / (self.width as int),
            ) ==> (#[trigger] self.actor_map[i]).is_none()
    }

    /// Whether actor `id` may stand on the cell: it is inside the arena,
    /// passable, and holds nobody else.
    pub open spec fn subtile_free_for(self, x: int, y: int, id: usize) -> bool {
        &&& self.in_arena(x, y)
        &&& (self.occupant(x, y).is_none() || self.occupant(x, y) == Some(id))
        &&& self.terrain[self.cell_index(x, y)].terrain_type == TerrainType::Floor
    }

    /// Whether actor `id` is in the roster and may stand with its whole
    /// footprint anchored at `target`.
    pub open spec fn can_move_to(self, id: usize, target: Coordinate) -> bool {
        &&& self.actors.contains_key(id)
        &&& forall|dx: int, dy: int|
            0 <= dx < self.side_of(id) && 0 <= dy < self.side_of(id)
                ==> #[trigger] self.subtile_free_for(target.x + dx, target.y + dy, id)
    }

    /// Whether the cell lies inside the arena and holds nobody but,
    /// perhaps, actor `id`.
    pub open spec fn holds_nobody_else(self, x: int, y: int, id: usize) -> bool {
        &&& self.in_arena(x, y)
        &&& (self.occupant(x, y).is_none() || self.occupant(x, y) == Some(id))
    }

    /// Whether the footprint of actor `id`, anchored at `target`, lies
    /// inside the arena on cells that hold nobody else.
    pub open spec fn can_place(self, id: usize, target: Coordinate) -> bool {
        &&& self.actors.contains_key(id)
        &&& self.square_in_arena(target.x as int, target.y as int, self.side_of(id))
        &&& forall|i: int|
            0 <= i < self.actor_map.len() && covers(
                target.x as int,
                target.y as int,
                self.side_of(id),
                i % (self.width as int),
                i / (self.width as int),
            ) ==> (#[trigger] self.actor_map[i]).is_none() || self.actor_map[i] == Some(id)
    }

    /// The occupancy table after actor `id` left the cells it held and took
    /// the footprint anchored at `target`.
    pub open spec fn moved_map(self, id: usize, target: Coordinate) -> Seq<Option<usize>> {
        Seq::new(
            self.actor_map.len(),
            |i: int|
                if covers(
                    target.x as int,
                    target.y as int,
                    self.side_of(id),
                    i % (self.width as int),
                    i / (self.width as int),
                ) {
                    Some(id)
                } else if self.actor_map[i] == Some(id) {
                    None
                } else {
                    self.actor_map[i]
                },
        )
    }

    /// Every cell that holds actor `id` lies under the footprint anchored
    /// at the actor's position.
    pub open spec fn held_cells_under_footprint(self, id: usize) -> bool {
        forall|i: int|
            0 <= i < self.actor_map.len() && #[trigger] self.actor_map[i] == Some(id)
                ==> self.covered_by(id, i)
    }

    /// What the map shows of the cell (`x`, `y`): the actor that holds it,
    /// or else its terrain.
    pub open spec fn map_cell(self, x: int, y: int) -> MapCell {
        match self.occupant(x, y) {
            Some(id) => spec_colored_span(id, self.actors[id].team_id),
            None => MapCell::Terrain(
                spec_terrain_char(self.terrain[self.cell_index(x, y)].terrain_type),
            ),
        }
    }

    /// The encounter with `actor` in the roster under `id`.
    pub open spec fn with_actor(self, id: usize, actor: ActorView) -> EncounterView {
        EncounterView { actors: self.actors.insert(id, actor), ..self }
    }

    /// The encounter after `actor` joined it under `id`: it is in the
    /// roster, its footprint is in the occupancy table, and in a running
    /// encounter it is in the turn order with its initiative.
    pub open spec fn joined(self, id: usize, actor: ActorView) -> EncounterView {
        let roster = self.with_actor(id, actor);
        EncounterView {
            actor_map: roster.moved_map(id, actor.location),
            initiative: if self.initialized {
                self.initiative.added(id, actor.initiative.unwrap())
            } else {
                self.initiative
            },
            ..roster
        }
    }

    /// The encounter after `actor` joined it under the next unused id.
    pub open spec fn spawned(self, actor: ActorView) -> EncounterView {
        (EncounterView { actor_id_next: (self.actor_id_next + 1) as usize, ..self }).joined(
            self.actor_id_next,
            actor,
        )
    }

    /// The actor that joins the encounter when `ct` is instantiated: with
    /// hit points from the total `hp_roll`, the resources of a new round,
    /// and, in a running encounter, the initiative of the die roll `rolled`.
    pub open spec fn newcomer(
        self,
        ct: &CreatureTemplate,
        location: Coordinate,
        team_id: usize,
        instance_n: usize,
        hp_roll: i32,
        rolled: u16,
    ) -> ActorView {
        let fresh = ActorView::from_template(
            ct,
            location,
            team_id,
            hp_roll,
            instance_n,
        ).round_reset();
        if self.initialized {
            fresh.with_rolled_initiative(rolled)
        } else {
            fresh
        }
    }

    /// The turn passed on: the cursor advanced, and the actor it then points
    /// at got the resources of a new round.
    pub open spec fn turn_skipped(self) -> EncounterView
        recommends
            self.initiative.entries.len() > 0,
    {
        let initiative = self.initiative.advanced();
        let id = initiative.entries[initiative.cursor as int].actor_id;
        EncounterView {
            initiative: initiative,
            actors: self.actors.insert(id, self.actors[id].round_reset()),
            ..self
        }
    }

    /// Actor `id` relocated to `target`, in the occupancy table and in its
    /// own record.
    pub open spec fn actor_moved(self, id: usize, target: Coordinate) -> EncounterView {
        EncounterView {
            actor_map: self.moved_map(id, target),
            actors: self.actors.insert(id, ActorView { location: target, ..self.actors[id] }),
            ..self
        }
    }

    /// Whether the side effect can be applied: the actor it names is in the
    /// roster and holds what is taken from it, a moved footprint lies inside
    /// the arena on cells that hold nobody else, and a turn is passed on
    /// only in a turn order that has entries.
    pub open spec fn effect_applicable(self, effect: SideEffect) -> bool {
        match effect {
            SideEffect::ConsumeResource(c) => {
                &&& self.actors.contains_key(c.actor_id)
                &&& self.actors[c.actor_id].can_consume(c.resource)
            },
            SideEffect::GiveResource(g) => self.actors.contains_key(g.actor_id),
            SideEffect::MoveActor(m) => self.can_place(m.actor_id, m.target),
            SideEffect::SkipTurn(_) => self.initiative.entries.len() > 0,
        }
    }

    /// The encounter after the side effect was applied.
    pub open spec fn effect_applied(self, effect: SideEffect) -> EncounterView
        recommends
            self.effect_applicable(effect),
    {
        match effect {
            SideEffect::ConsumeResource(c) => self.with_actor(
                c.actor_id,
                self.actors[c.actor_id].consumed(c.resource),
            ),
            SideEffect::GiveResource(g) => self.with_actor(
                g.actor_id,
                self.actors[g.actor_id].given(g.resource),
            ),
            SideEffect::MoveActor(m) => self.actor_moved(m.actor_id, m.target),
            SideEffect::SkipTurn(_) => self.turn_skipped(),
        }
    }
}

/// The invariant does not depend on the stack, the staging queue, the
/// outcomes or the messages.
pub proof fn lemma_wf_ignores_stack(v: EncounterView, w: EncounterView)
    requires
        v.wf(),
        w == (EncounterView {
            stack: w.stack,
            queue: w.queue,
            outcomes: w.outcomes,
            messages: w.messages,
            tmp_message: w.tmp_message,
            ..v
        }),
    ensures
        w.wf(),
{
    assert forall|i: int, id: usize| 0 <= i < w.actor_map.len() implies (w.actor_map[i] == Some(id)
        <==> #[trigger] w.covered_by(id, i)) by {
        assert(w.covered_by(id, i) == v.covered_by(id, i));
    }
}

/// Whether a side effect can be applied does not depend on the stack, the
/// staging queue, the outcomes or the messages.
pub proof fn lemma_applicable_ignores_stack(v: EncounterView, w: EncounterView, effect: SideEffect)
    requires
        w == (EncounterView {
            stack: w.stack,
            queue: w.queue,
            outcomes: w.outcomes,
            messages: w.messages,
            tmp_message: w.tmp_message,
            ..v
        }),
    ensures
        w.effect_applicable(effect) == v.effect_applicable(effect),
{
}

/// Using up an actor id keeps the invariant.
pub proof fn lemma_wf_after_id(v: EncounterView)
    requires
        v.wf(),
        v.actor_id_next < usize::MAX,
    ensures
        (EncounterView { actor_id_next: (v.actor_id_next + 1) as usize, ..v }).wf(),
{
    let w = EncounterView { actor_id_next: (v.actor_id_next + 1) as usize, ..v };
    assert forall|i: int, id: usize| 0 <= i < w.actor_map.len() implies (w.actor_map[i] == Some(id)
        <==> #[trigger] w.covered_by(id, i)) by {
        assert(w.covered_by(id, i) == v.covered_by(id, i));
    }
}

/// An actor whose position, size and dexterity stay as they are can be
/// replaced in the roster without harm to the invariant.
pub proof fn lemma_actor_update_wf(v: EncounterView, id: usize, actor: ActorView)
    requires
        v.wf(),
        v.actors.contains_key(id),
        actor.location == v.actors[id].location,
        actor.size == v.actors[id].size,
        actor.dexterity == v.actors[id].dexterity,
        actor.wf(),
    ensures
        v.with_actor(id, actor).wf(),
{
    let w = v.with_actor(id, actor);
    assert forall|i: int, other: usize| 0 <= i < w.actor_map.len() implies (w.actor_map[i] == Some(
        other,
    ) <==> #[trigger] w.covered_by(other, i)) by {
        assert(w.covered_by(other, i) == v.covered_by(other, i));
    }
    assert forall|other: usize| #[trigger] w.actors.contains_key(other) implies w.square_in_arena(
        w.actors[other].location.x as int,
        w.actors[other].location.y as int,
        w.side_of(other),
    ) by {
        assert(v.actors.contains_key(other));
    }
    assert forall|other: usize| #[trigger] w.actors.contains_key(other) implies other
        < w.actor_id_next && w.actors[other].can_roll_initiative() && w.actors[other].wf() by {
        assert(v.actors.contains_key(other));
    }
    assert forall|i: int| 0 <= i < w.initiative.entries.len() implies w.actors.contains_key(
        #[trigger] w.initiative.entries[i].actor_id,
    ) by {
        assert(v.actors.contains_key(v.initiative.entries[i].actor_id));
    }
}

/// Moving an actor onto cells that are inside the arena and hold nobody
/// else keeps the invariant.
pub proof fn lemma_actor_moved_wf(v: EncounterView, id: usize, target: Coordinate)
    requires
        v.wf(),
        v.can_place(id, target),
    ensures
        v.actor_moved(id, target).wf(),
{
    let w = v.actor_moved(id, target);
    assert(w.actor_map.len() == v.actor_map.len());
    assert forall|i: int, other: usize| 0 <= i < w.actor_map.len() implies (w.actor_map[i] == Some(
        other,
    ) <==> #[trigger] w.covered_by(other, i)) by {
        assert(v.actor_map[i] == Some(other) <==> v.covered_by(other, i));
        assert(v.actor_map[i] == Some(id) <==> v.covered_by(id, i));
        if other != id {
            assert(w.covered_by(other, i) == v.covered_by(other, i));
        }
    }
    assert forall|other: usize| #[trigger] w.actors.contains_key(other) implies w.square_in_arena(
        w.actors[other].location.x as int,
        w.actors[other].location.y as int,
        w.side_of(other),
    ) by {
        assert(v.actors.contains_key(other));
    }
    assert forall|other: usize| #[trigger] w.actors.contains_key(other) implies other
        < w.actor_id_next && w.actors[other].can_roll_initiative() && w.actors[other].wf() by {
        assert(v.actors.contains_key(other));
    }
    assert forall|i: int| 0 <= i < w.initiative.entries.len() implies w.actors.contains_key(
        #[trigger] w.initiative.entries[i].actor_id,
    ) by {
        assert(v.actors.contains_key(v.initiative.entries[i].actor_id));
    }
}

/// Passing the turn on keeps the invariant and leaves a cursor that points
/// at an entry.
pub proof fn lemma_turn_skipped_wf(v: EncounterView)
    requires
        v.wf(),
        v.initiative.entries.len() > 0,
    ensures
        v.turn_skipped().wf(),
        v.turn_skipped().initiative.current().is_some(),
{
    let initiative = v.initiative.advanced();
    let id = initiative.entries[initiative.cursor as int].actor_id;
    assert(v.actors.contains_key(v.initiative.entries[initiative.cursor as int].actor_id));
    lemma_actor_update_wf(v, id, v.actors[id].round_reset());
    let mid = v.with_actor(id, v.actors[id].round_reset());
    let w = v.turn_skipped();
    assert(w == (EncounterView { initiative: initiative, ..mid }));
    assert forall|i: int, other: usize| 0 <= i < w.actor_map.len() implies (w.actor_map[i] == Some(
        other,
    ) <==> #[trigger] w.covered_by(other, i)) by {
        assert(w.covered_by(other, i) == mid.covered_by(other, i));
    }
    assert forall|i: int| 0 <= i < w.initiative.entries.len() implies w.actors.contains_key(
        #[trigger] w.initiative.entries[i].actor_id,
    ) by {
        assert(mid.actors.contains_key(mid.initiative.entries[i].actor_id));
    }
}

/// Applying an applicable side effect keeps the invariant.
pub proof fn lemma_effect_applied_wf(v: EncounterView, effect: SideEffect)
    requires
        v.wf(),
        v.effect_applicable(effect),
    ensures
        v.effect_applied(effect).wf(),
{
    match effect {
        SideEffect::ConsumeResource(c) => {
            lemma_actor_update_wf(v, c.actor_id, v.actors[c.actor_id].consumed(c.resource));
        },
        SideEffect::GiveResource(g) => {
            lemma_actor_update_wf(v, g.actor_id, v.actors[g.actor_id].given(g.resource));
        },
        SideEffect::MoveActor(m) => {
            lemma_actor_moved_wf(v, m.actor_id, m.target);
        },
        SideEffect::SkipTurn(_) => {
            lemma_turn_skipped_wf(v);
        },
    }
}

/// An actor that joins on free cells inside the arena, under an id that
/// was handed out and is not in use, keeps the invariant.
pub proof fn lemma_joined_wf(v: EncounterView, id: usize, actor: ActorView)
    requires
        v.wf(),
        id < v.actor_id_next,
        !v.actors.contains_key(id),
        v.square_free(
            actor.location.x as int,
            actor.location.y as int,
            spec_tiles_from_size(actor.size) as int,
        ),
        actor.can_roll_initiative(),
        actor.wf(),
    ensures
        v.joined(id, actor).wf(),
{
    let w = v.joined(id, actor);
    assert forall|i: int, other: usize| 0 <= i < w.actor_map.len() implies (w.actor_map[i] == Some(
        other,
    ) <==> #[trigger] w.covered_by(other, i)) by {
        assert(v.actor_map[i] == Some(other) <==> v.covered_by(other, i));
        assert(v.actor_map[i] == Some(id) <==> v.covered_by(id, i));
        if other != id {
            assert(w.covered_by(other, i) == v.covered_by(other, i));
        }
    }
    assert forall|other: usize| #[trigger] w.actors.contains_key(other) implies w.square_in_arena(
        w.actors[other].location.x as int,
        w.actors[other].location.y as int,
        w.side_of(other),
    ) && other < w.actor_id_next && w.actors[other].can_roll_initiative()
        && w.actors[other].wf() by {
        if other != id {
            assert(v.actors.contains_key(other));
        }
    }
    if v.initialized {
        let score = actor.initiative.unwrap();
        lemma_added_keeps_current(v.initiative, id, score);
        lemma_first_lower(v.initiative.entries, score, 0);
        let p = insertion_point(v.initiative.entries, score) as int;
        assert forall|i: int| 0 <= i < w.initiative.entries.len() implies w.actors.contains_key(
            #[trigger] w.initiative.entries[i].actor_id,
        ) by {
            if i < p {
                assert(w.initiative.entries[i] == v.initiative.entries[i]);
                assert(v.actors.contains_key(v.initiative.entries[i].actor_id));
            } else if i > p {
                assert(w.initiative.entries[i] == v.initiative.entries[i - 1]);
                assert(v.actors.contains_key(v.initiative.entries[i - 1].actor_id));
            }
        }
    } else {
        assert forall|i: int| 0 <= i < w.initiative.entries.len() implies w.actors.contains_key(
            #[trigger] w.initiative.entries[i].actor_id,
        ) by {
            assert(v.actors.contains_key(v.initiative.entries[i].actor_id));
        }
    }
}

/// A square of spawnable cells lies inside the arena on cells that hold
/// nobody.
pub proof fn lemma_spawnable_square_is_free(v: EncounterView, ax: int, ay: int, side: int)
    requires
        v.grid_ok(),
        side > 0,
        v.square_spawnable(ax, ay, side),
    ensures
        v.square_free(ax, ay, side),
{
    assert(v.spawnable(ax + 0, ay + 0));
    assert(v.spawnable(ax + (side - 1), ay + (side - 1)));
    assert forall|i: int|
        0 <= i < v.actor_map.len() && covers(
            ax,
            ay,
            side,
            i % (v.width as int),
            i / (v.width as int),
        ) implies (#[trigger] v.actor_map[i]).is_none() by {
        let x = i % (v.width as int);
        let y = i / (v.width as int);
        lemma_index_cell(v.width as int, v.height as int, i);
        assert(v.spawnable(ax + (x - ax), ay + (y - ay)));
    }
}

/// Where an actor can move to, its footprint lies inside the arena on
/// cells that hold nobody else.
pub proof fn lemma_can_move_implies_can_place(v: EncounterView, id: usize, target: Coordinate)
    requires
        v.grid_ok(),
        v.can_move_to(id, target),
    ensures
        v.can_place(id, target),
{
    let side = v.side_of(id);
    let ax = target.x as int;
    let ay = target.y as int;
    assert(side >= 1);
    assert(v.subtile_free_for(ax + 0, ay + 0, id));
    assert(v.subtile_free_for(ax + (side - 1), ay + (side - 1), id));
    assert forall|i: int|
        0 <= i < v.actor_map.len() && covers(
            ax,
            ay,
            side,
            i % (v.width as int),
            i / (v.width as int),
        ) implies (#[trigger] v.actor_map[i]).is_none() || v.actor_map[i] == Some(id) by {
        let x = i % (v.width as int);
        let y = i / (v.width as int);
        lemma_index_cell(v.width as int, v.height as int, i);
        assert(v.subtile_free_for(ax + (x - ax), ay + (y - ay), id));
    }
}

/// An actor can be placed exactly where every cell under its footprint
/// lies inside the arena and holds nobody else.
pub proof fn lemma_place_by_cells(v: EncounterView, id: usize, target: Coordinate)
    requires
        v.grid_ok(),
        v.actors.contains_key(id),
    ensures
        v.can_place(id, target) <==> forall|dx: int, dy: int|
            0 <= dx < v.side_of(id) && 0 <= dy < v.side_of(id) ==> #[trigger] v.holds_nobody_else(
                target.x + dx,
                target.y + dy,
                id,
            ),
{
    let side = v.side_of(id);
    let ax = target.x as int;
    let ay = target.y as int;
    let w = v.width as int;
    assert(side >= 1);
    if v.can_place(id, target) {
        assert forall|dx: int, dy: int|
            0 <= dx < side && 0 <= dy < side implies #[trigger] v.holds_nobody_else(
            ax + dx,
            ay + dy,
            id,
        ) by {
            lemma_cell_index_bound(w, v.height as int, ax + dx, ay + dy);
            crate::engine::grid::lemma_cell_index(w, ax + dx, ay + dy);
            let i = v.cell_index(ax + dx, ay + dy);
            assert(v.actor_map[i].is_none() || v.actor_map[i] == Some(id));
        }
    }
    if forall|dx: int, dy: int|
        0 <= dx < side && 0 <= dy < side ==> #[trigger] v.holds_nobody_else(ax + dx, ay + dy, id) {
        assert(v.holds_nobody_else(ax + 0, ay + 0, id));
        assert(v.holds_nobody_else(ax + (side - 1), ay + (side - 1), id));
        assert forall|i: int|
            0 <= i < v.actor_map.len() && covers(ax, ay, side, i % w, i / w) implies (
        #[trigger] v.actor_map[i]).is_none() || v.actor_map[i] == Some(id) by {
            lemma_index_cell(w, v.height as int, i);
            assert(v.holds_nobody_else(ax + (i % w - ax), ay + (i / w - ay), id));
        }
    }
}

/// On an arena of nothing but floor, an actor with a footprint of one cell
/// can move to exactly the cells inside the arena that hold no other actor.
pub proof fn lemma_move_legality_on_floor(v: EncounterView, id: usize, target: Coordinate)
    requires
        v.wf(),
        v.actors.contains_key(id),
        v.side_of(id) == 1,
        forall|i: int|
            0 <= i < v.terrain.len() ==> (#[trigger] v.terrain[i]).terrain_type
                == TerrainType::Floor,
    ensures
        v.can_move_to(id, target) <==> {
            &&& v.in_arena(target.x as int, target.y as int)
            &&& (v.occupant(target.x as int, target.y as int).is_none() || v.occupant(
                target.x as int,
                target.y as int,
            ) == Some(id))
        },
{
    let x = target.x as int;
    let y = target.y as int;
    if v.in_arena(x, y) {
        lemma_cell_index_bound(v.width as int, v.height as int, x, y);
        assert(v.terrain[v.cell_index(x, y)].terrain_type == TerrainType::Floor);
    }
    if v.can_move_to(id, target) {
        assert(v.subtile_free_for(x + 0, y + 0, id));
    }
    if v.in_arena(x, y) && (v.occupant(x, y).is_none() || v.occupant(x, y) == Some(id)) {
        assert forall|dx: int, dy: int|
            0 <= dx < v.side_of(id) && 0 <= dy < v.side_of(id) implies #[trigger] v.subtile_free_for(
            x + dx,
            y + dy,
            id,
        ) by {
            assert(dx == 0 && dy == 0);
        }
    }
}

} // verus!
