//! Random generation of the actors of an encounter.

use crate::actors::actor_template::ActorView;
use crate::actors::actor_template::CreatureTemplate;
use crate::engine::encounter::EncounterInstance;
use crate::engine::model::EncounterView;
use crate::engine::errors::GenerateError;
use crate::engine::errors::RngTryError;
use crate::engine::random::random_between;
use crate::engine::util::spec_modifier_from_score;
use crate::engine::util::spec_tiles_from_size;
use vstd::prelude::*;

verus! {

/// How often one team may try to place a creature.
pub const MAX_TRIES: usize = 512;

/// What the actors of an encounter are generated for.
#[derive(Clone, Copy, Debug)]
pub struct ActorGenParams {
    /// The challenge rating each team is filled up to, in thousandths.
    pub cr_target: u32,
    pub n_teams: usize,
}

/// Whether `after` is `before` with more actors: the arena, the stack, the
/// outcomes and the actors that were there are as they were, and no id
/// that was handed out is handed out again.
pub open spec fn only_grew(before: EncounterView, after: EncounterView) -> bool {
    &&& after == (EncounterView {
        actor_id_next: after.actor_id_next,
        actor_map: after.actor_map,
        actors: after.actors,
        initiative: after.initiative,
        ..before
    })
    &&& before.actor_id_next <= after.actor_id_next
    &&& forall|id: usize| #[trigger]
        before.actors.contains_key(id) ==> after.actors.contains_key(id) && after.actors[id]
            == before.actors[id]
    &&& forall|id: usize| #[trigger]
        after.actors.contains_key(id) && !before.actors.contains_key(id) ==> id
            >= before.actor_id_next
}

/// The challenge ratings, added up, of the actors of `team` whose ids run
/// from `from` up to, not including, `to`.
pub open spec fn team_rating(
    actors: Map<usize, ActorView>,
    team: usize,
    from: nat,
    to: nat,
) -> nat
    decreases to,
{
    if to <= from {
        0
    } else {
        let id = (to - 1) as usize;
        team_rating(actors, team, from, (to - 1) as nat) + if actors.contains_key(id)
            && actors[id].team_id == team {
            actors[id].cr as nat
        } else {
            0nat
        }
    }
}

/// Rosters that agree on the teams and challenge ratings of the actors
/// with ids from `from` up to `to` give the same rating to every team.
pub proof fn lemma_team_rating_agrees(
    a: Map<usize, ActorView>,
    b: Map<usize, ActorView>,
    team: usize,
    from: nat,
    to: nat,
)
    requires
        to <= usize::MAX + 1,
        forall|id: usize|
            from <= id < to ==> (#[trigger] a.contains_key(id)) == b.contains_key(id) && (
            a.contains_key(id) ==> a[id].team_id == b[id].team_id && a[id].cr == b[id].cr),
    ensures
        team_rating(a, team, from, to) == team_rating(b, team, from, to),
    decreases to,
{
    if to > from {
        lemma_team_rating_agrees(a, b, team, from, (to - 1) as nat);
        let id = (to - 1) as usize;
        assert(a.contains_key(id) == b.contains_key(id));
    }
}

/// How far the filling of one team has come.
#[derive(Clone, Copy, Debug, PartialEq, Eq, Structural)]
pub enum TeamProgress {
    /// The challenge ratings of the team's creatures reach the target.
    Full,
    /// The team is not full and has no attempt left.
    Exhausted,
    /// The team is not full and may try again.
    Open,
}

/// How far a team has come whose creatures have challenge ratings of
/// `cr_total` together, after `tries` attempts.
pub open spec fn spec_team_progress(cr_total: u64, cr_target: u32, tries: usize) -> TeamProgress {
    if cr_total >= cr_target {
        TeamProgress::Full
    } else if tries >= MAX_TRIES {
        TeamProgress::Exhausted
    } else {
        TeamProgress::Open
    }
}

/// Decides whether a team is full, must give up, or tries again.
pub fn team_progress(cr_total: u64, cr_target: u32, tries: usize) -> (progress: TeamProgress)
    ensures
        progress == spec_team_progress(cr_total, cr_target, tries),
{
    if cr_total >= cr_target as u64 {
        TeamProgress::Full
    } else if tries >= MAX_TRIES {
        TeamProgress::Exhausted
    } else {
        TeamProgress::Open
    }
}

/// Whether no cell of the arena can take a new footprint of side `side`.
pub open spec fn no_room(v: EncounterView, side: int) -> bool {
    forall|x: int, y: int| v.in_arena(x, y) ==> !#[trigger] v.square_spawnable(x, y, side)
}

/// Whether the first draw is bound to fill the one team there is: every
/// creature of the pool has at least the challenge rating asked for, hit
/// points that fit whatever its dice show, and room in the arena.
pub open spec fn first_draw_fills(
    params: &ActorGenParams,
    pool: Seq<CreatureTemplate>,
    v: EncounterView,
) -> bool {
    &&& params.n_teams == 1
    &&& forall|i: int|
        0 <= i < pool.len() ==> {
            &&& (#[trigger] pool[i]).cr >= params.cr_target
            &&& pool[i].hitpoints@.always_fits()
            &&& !no_room(v, spec_tiles_from_size(pool[i].size) as int)
        }
}

/// Room that is gone does not come back: where actors only join, a
/// footprint that finds no place before finds none after.
pub proof fn lemma_no_room_persists(before: EncounterView, after: EncounterView, side: int)
    requires
        before.wf(),
        after.wf(),
        after.width == before.width,
        after.height == before.height,
        after.terrain == before.terrain,
        forall|id: usize| #[trigger]
            before.actors.contains_key(id) ==> after.actors.contains_key(id) && after.actors[id]
                == before.actors[id],
        no_room(before, side),
    ensures
        no_room(after, side),
{
    assert forall|x: int, y: int| after.in_arena(x, y) implies !#[trigger] after.square_spawnable(
        x,
        y,
        side,
    ) by {
        if after.square_spawnable(x, y, side) {
            assert forall|dx: int, dy: int| 0 <= dx < side && 0 <= dy < side implies #[trigger] before.spawnable(
                x + dx,
                y + dy,
            ) by {
                assert(after.spawnable(x + dx, y + dy));
                let i = before.cell_index(x + dx, y + dy);
                crate::engine::grid::lemma_cell_index_bound(
                    before.width as int,
                    before.height as int,
                    x + dx,
                    y + dy,
                );
                if before.actor_map[i].is_some() {
                    let holder = before.actor_map[i].unwrap();
                    assert(before.covered_by(holder, i));
                    assert(after.covered_by(holder, i));
                }
            }
            assert(before.square_spawnable(x, y, side));
        }
    }
}

/// Fills every team with creatures drawn at random from the pool and placed
/// at random, until the challenge ratings of the team's creatures add up
/// to the target. A draw that finds no place counts as an attempt; a team
/// that is not full after [`MAX_TRIES`] attempts makes the generation fail.
/// Where no creature is asked for, nothing changes and nothing fails, and
/// where the first draw is bound to fill the one team there is, nothing
/// fails either. A generation that gives up leaves a team below its
/// target, after as many creatures as it had attempts or with a creature
/// of the pool that finds no room.
pub fn generate_actors(
    ei: &mut EncounterInstance,
    params: &ActorGenParams,
    template_pool: &Vec<CreatureTemplate>,
) -> (r: Result<(), GenerateError>)
    requires
        old(ei).wf(),
        params.cr_target > 0 && params.n_teams > 0 ==> template_pool@.len() > 0,
        forall|i: int| 0 <= i < template_pool@.len() ==> (#[trigger] template_pool@[i]).wf(),
        old(ei)@.actor_id_next + params.n_teams * MAX_TRIES <= usize::MAX,
        old(ei)@.initiative.entries.len() + params.n_teams * MAX_TRIES <= usize::MAX,
        forall|i: int|
            0 <= i < template_pool@.len() ==> spec_modifier_from_score(
                (#[trigger] template_pool@[i]).dexterity,
            ) + 6 <= i32::MAX,
    ensures
        final(ei).wf(),
        only_grew(old(ei)@, final(ei)@),
        final(ei)@.actor_id_next <= old(ei)@.actor_id_next + params.n_teams * MAX_TRIES,
        params.cr_target == 0 || params.n_teams == 0 ==> r.is_ok() && final(ei)@ == old(ei)@,
        first_draw_fills(params, template_pool@, old(ei)@) ==> r.is_ok(),
        r matches Err(GenerateError::TooManyTries(_)) ==> {
            &&& exists|team: usize|
                team < params.n_teams && #[trigger] team_rating(
                    final(ei)@.actors,
                    team,
                    old(ei)@.actor_id_next as nat,
                    final(ei)@.actor_id_next as nat,
                ) < params.cr_target
            &&& (final(ei)@.actor_id_next >= old(ei)@.actor_id_next + MAX_TRIES || exists|i: int|
                0 <= i < template_pool@.len() && no_room(
                    final(ei)@,
                    spec_tiles_from_size((#[trigger] template_pool@[i]).size) as int,
                ))
        },
        r matches Err(GenerateError::Spawn(_)) ==> exists|i: int|
            0 <= i < template_pool@.len() && !(#[trigger] template_pool@[i]).hitpoints@.always_fits(),
        forall|id: usize| #[trigger]
            final(ei)@.actors.contains_key(id) && id >= old(ei)@.actor_id_next
                ==> final(ei)@.stands_on_floor(id),
        r.is_ok() ==> forall|team: usize|
            team < params.n_teams ==> #[trigger] team_rating(
                final(ei)@.actors,
                team,
                old(ei)@.actor_id_next as nat,
                final(ei)@.actor_id_next as nat,
            ) >= params.cr_target,
{
    let mut id_by_template: Vec<usize> = Vec::new();
    let mut k: usize = 0;
    while k < template_pool.len()
        invariant
            k <= template_pool.len(),
            id_by_template@.len() == k,
            forall|i: int| 0 <= i < k ==> id_by_template@[i] == 0,
        decreases template_pool.len() - k,
    {
        id_by_template.push(0);
        k += 1;
    }
    let ghost start = ei@;
    let mut team_id: usize = 0;
    while team_id < params.n_teams
        invariant
            team_id <= params.n_teams,
            start == old(ei)@,
            team_id == 0 ==> ei@ == start,
            ei.wf(),
            only_grew(start, ei@),
            forall|id: usize| #[trigger]
                ei@.actors.contains_key(id) && id >= start.actor_id_next ==> ei@.stands_on_floor(id),
            params.cr_target > 0 && params.n_teams > 0 ==> template_pool@.len() > 0,
            forall|i: int| 0 <= i < template_pool@.len() ==> (#[trigger] template_pool@[i]).wf(),
            id_by_template@.len() == template_pool@.len(),
            forall|i: int| 0 <= i < id_by_template@.len() ==> id_by_template@[i] <= team_id * MAX_TRIES,
            start.actor_id_next + params.n_teams * MAX_TRIES <= usize::MAX,
            start.initiative.entries.len() + params.n_teams * MAX_TRIES <= usize::MAX,
            ei@.actor_id_next <= start.actor_id_next + team_id * MAX_TRIES,
            ei@.initiative.entries.len() <= start.initiative.entries.len() + team_id * MAX_TRIES,
            params.cr_target == 0 ==> ei@ == start,
            forall|id: usize| #[trigger]
                ei@.actors.contains_key(id) && id >= start.actor_id_next
                    ==> ei@.actors[id].team_id < team_id,
            forall|team: usize|
                team < team_id ==> #[trigger] team_rating(
                    ei@.actors,
                    team,
                    start.actor_id_next as nat,
                    ei@.actor_id_next as nat,
                ) >= params.cr_target,
            forall|i: int|
                0 <= i < template_pool@.len() ==> spec_modifier_from_score(
                    (#[trigger] template_pool@[i]).dexterity,
                ) + 6 <= i32::MAX,
        decreases params.n_teams - team_id,
    {
        let mut cr_total: u64 = 0;
        let mut tries: usize = 0;
        let ghost team_first = ei@.actor_id_next;
        proof {
            lemma_team_rating_of_others(
                ei@.actors,
                team_id,
                start.actor_id_next as nat,
                ei@.actor_id_next as nat,
            );
        }
        let mut progress = team_progress(cr_total, params.cr_target, tries);
        while progress != TeamProgress::Full
            invariant
                team_id < params.n_teams,
                start == old(ei)@,
                progress == spec_team_progress(cr_total, params.cr_target, tries),
                start.actor_id_next <= team_first,
                ei@.actor_id_next >= team_first + tries || exists|i: int|
                    0 <= i < template_pool@.len() && no_room(
                        ei@,
                        spec_tiles_from_size((#[trigger] template_pool@[i]).size) as int,
                    ),
                first_draw_fills(params, template_pool@, start) ==> (tries == 0 && ei@ == start)
                    || cr_total >= params.cr_target,
                tries <= MAX_TRIES,
                cr_total <= tries * 0xffff_ffff,
                ei.wf(),
                only_grew(start, ei@),
                forall|id: usize| #[trigger]
                    ei@.actors.contains_key(id) && id >= start.actor_id_next ==> ei@.stands_on_floor(
                        id,
                    ),
                params.cr_target > 0 ==> template_pool@.len() > 0,
                forall|i: int| 0 <= i < template_pool@.len() ==> (#[trigger] template_pool@[i]).wf(),
                id_by_template@.len() == template_pool@.len(),
                forall|i: int|
                    0 <= i < id_by_template@.len() ==> id_by_template@[i] <= team_id * MAX_TRIES
                        + tries,
                start.actor_id_next + params.n_teams * MAX_TRIES <= usize::MAX,
                start.initiative.entries.len() + params.n_teams * MAX_TRIES <= usize::MAX,
                ei@.actor_id_next <= start.actor_id_next + team_id * MAX_TRIES + tries,
                ei@.initiative.entries.len() <= start.initiative.entries.len() + team_id
                    * MAX_TRIES + tries,
                params.cr_target == 0 ==> ei@ == start,
                cr_total == team_rating(
                    ei@.actors,
                    team_id,
                    start.actor_id_next as nat,
                    ei@.actor_id_next as nat,
                ),
                forall|id: usize| #[trigger]
                    ei@.actors.contains_key(id) && id >= start.actor_id_next
                        ==> ei@.actors[id].team_id <= team_id,
                forall|team: usize|
                    team < team_id ==> #[trigger] team_rating(
                        ei@.actors,
                        team,
                        start.actor_id_next as nat,
                        ei@.actor_id_next as nat,
                    ) >= params.cr_target,
                forall|i: int|
                    0 <= i < template_pool@.len() ==> spec_modifier_from_score(
                        (#[trigger] template_pool@[i]).dexterity,
                    ) + 6 <= i32::MAX,
            decreases MAX_TRIES - tries,
        {
            if progress == TeamProgress::Exhausted {
                proof {
                    assert((team_id + 1) * MAX_TRIES <= params.n_teams * MAX_TRIES)
                        by (nonlinear_arith)
                        requires
                            team_id + 1 <= params.n_teams,
                    ;
                }
                return Err(GenerateError::TooManyTries(RngTryError));
            }
            proof {
                assert((team_id + 1) * MAX_TRIES <= params.n_teams * MAX_TRIES)
                    by (nonlinear_arith)
                    requires
                        team_id + 1 <= params.n_teams,
                ;
            }
            tries += 1;
            let idx = random_between(0, template_pool.len());
            let creature_template = &template_pool[idx];
            let location_result = ei.get_random_spawn(creature_template.size);
            let instance_n = id_by_template[idx];
            id_by_template.set(idx, instance_n + 1);
            let ghost drawn = ei@;
            match location_result {
                Ok(location) => {
                    let ghost before = ei@;
                    match ei.instantiate_creature(creature_template, location, team_id, instance_n) {
                        Ok(_) => {},
                        Err(e) => {
                            proof {
                                lemma_id_used_grew(start, before, ei@);
                            }
                            return Err(GenerateError::Spawn(e));
                        },
                    }
                    proof {
                        lemma_spawned_grew(start, before, ei@);
                        lemma_spawned_rating(
                            start,
                            before,
                            ei@,
                            creature_template,
                            location,
                            team_id,
                            params.n_teams,
                        );
                        if !(before.actor_id_next >= team_first + tries - 1) {
                            let i = choose|i: int|
                                0 <= i < template_pool@.len() && no_room(
                                    before,
                                    spec_tiles_from_size((#[trigger] template_pool@[i]).size) as int,
                                );
                            lemma_no_room_persists(
                                before,
                                ei@,
                                spec_tiles_from_size(template_pool@[i].size) as int,
                            );
                        }
                    }
                    cr_total += creature_template.cr as u64;
                },
                Err(_) => {
                    assert(no_room(
                        ei@,
                        spec_tiles_from_size(template_pool@[idx as int].size) as int,
                    ));
                },
            }
            progress = team_progress(cr_total, params.cr_target, tries);
        }
        team_id += 1;
    }
    Ok(())
}

/// An encounter that grew and then took in one more actor has grown.
proof fn lemma_spawned_grew(start: EncounterView, before: EncounterView, after: EncounterView)
    requires
        before.wf(),
        only_grew(start, before),
        before.actor_id_next < usize::MAX,
        exists|actor: crate::actors::actor_template::ActorView|
            after == #[trigger] before.spawned(actor),
    ensures
        only_grew(start, after),
        after.actor_id_next == before.actor_id_next + 1,
        after.initiative.entries.len() <= before.initiative.entries.len() + 1,
{
    let actor = choose|actor: crate::actors::actor_template::ActorView|
        after == #[trigger] before.spawned(actor);
    assert(!before.actors.contains_key(before.actor_id_next));
    if before.initialized {
        crate::engine::initiative::lemma_first_lower(
            before.initiative.entries,
            actor.initiative.unwrap(),
            0,
        );
    }
}

/// An encounter that grew and then used up one id has grown.
proof fn lemma_id_used_grew(start: EncounterView, before: EncounterView, after: EncounterView)
    requires
        only_grew(start, before),
        before.actor_id_next < usize::MAX,
        after == (EncounterView { actor_id_next: (before.actor_id_next + 1) as usize, ..before }),
    ensures
        only_grew(start, after),
        forall|id: usize| #[trigger]
            before.actors.contains_key(id) && before.stands_on_floor(id) ==> after.stands_on_floor(
                id,
            ),
{
    assert forall|id: usize| #[trigger]
        before.actors.contains_key(id) && before.stands_on_floor(id) implies after.stands_on_floor(
        id,
    ) by {
        assert forall|dx: int, dy: int|
            0 <= dx < after.side_of(id) && 0 <= dy < after.side_of(id) implies #[trigger] after.is_floor(
            after.actors[id].location.x + dx,
            after.actors[id].location.y + dy,
        ) by {
            assert(before.is_floor(
                before.actors[id].location.x + dx,
                before.actors[id].location.y + dy,
            ));
        }
    }
}

/// A team none of whose actors has an id from `from` up to `to` has no
/// rating there.
proof fn lemma_team_rating_of_others(
    actors: Map<usize, ActorView>,
    team: usize,
    from: nat,
    to: nat,
)
    requires
        to <= usize::MAX + 1,
        forall|id: usize| #[trigger]
            actors.contains_key(id) && id >= from ==> actors[id].team_id != team,
    ensures
        team_rating(actors, team, from, to) == 0,
    decreases to,
{
    if to > from {
        lemma_team_rating_of_others(actors, team, from, (to - 1) as nat);
        let id = (to - 1) as usize;
        if actors.contains_key(id) {
            assert(actors[id].team_id != team);
        }
    }
}

/// Taking in a creature of a template for a team adds the challenge
/// rating of the template to the rating of that team and leaves the
/// ratings of the other teams as they are.
proof fn lemma_spawned_rating(
    start: EncounterView,
    before: EncounterView,
    after: EncounterView,
    ct: &CreatureTemplate,
    location: crate::engine::types::Coordinate,
    team_id: usize,
    n_teams: usize,
)
    requires
        before.wf(),
        start.actor_id_next <= before.actor_id_next < usize::MAX,
        before.can_spawn_at(location, crate::engine::util::spec_tiles_from_size(ct.size) as int),
        exists|instance_n: usize, hp_roll: i32, rolled: u16|
            after == before.spawned(
                #[trigger] before.newcomer(ct, location, team_id, instance_n, hp_roll, rolled),
            ),
    ensures
        after.stands_on_floor(before.actor_id_next),
        forall|id: usize| #[trigger]
            before.actors.contains_key(id) && before.stands_on_floor(id) ==> after.stands_on_floor(
                id,
            ),
        forall|team: usize| #[trigger]
            team_rating(
                after.actors,
                team,
                start.actor_id_next as nat,
                after.actor_id_next as nat,
            ) == team_rating(
                before.actors,
                team,
                start.actor_id_next as nat,
                before.actor_id_next as nat,
            ) + if team == team_id {
                ct.cr as nat
            } else {
                0nat
            },
        after.actors.contains_key(before.actor_id_next),
        after.actors[before.actor_id_next].team_id == team_id,
        forall|id: usize| #[trigger]
            after.actors.contains_key(id) ==> id == before.actor_id_next
                || before.actors.contains_key(id) && before.actors[id] == after.actors[id],
{
    let id = before.actor_id_next;
    assert(!before.actors.contains_key(id));
    assert forall|dx: int, dy: int|
        0 <= dx < after.side_of(id) && 0 <= dy < after.side_of(id) implies #[trigger] after.is_floor(
        after.actors[id].location.x + dx,
        after.actors[id].location.y + dy,
    ) by {
        assert(before.spawnable(location.x + dx, location.y + dy));
    }
    assert forall|other: usize| #[trigger]
        before.actors.contains_key(other) && before.stands_on_floor(
            other,
        ) implies after.stands_on_floor(other) by {
        assert forall|dx: int, dy: int|
            0 <= dx < after.side_of(other) && 0 <= dy < after.side_of(other) implies #[trigger] after.is_floor(
            after.actors[other].location.x + dx,
            after.actors[other].location.y + dy,
        ) by {
            assert(before.is_floor(
                before.actors[other].location.x + dx,
                before.actors[other].location.y + dy,
            ));
        }
    }
    assert forall|team: usize| #[trigger]
        team_rating(
            after.actors,
            team,
            start.actor_id_next as nat,
            after.actor_id_next as nat,
        ) == team_rating(
            before.actors,
            team,
            start.actor_id_next as nat,
            before.actor_id_next as nat,
        ) + if team == team_id {
            ct.cr as nat
        } else {
            0nat
        } by {
        lemma_team_rating_agrees(
            after.actors,
            before.actors,
            team,
            start.actor_id_next as nat,
            id as nat,
        );
    }
}

} // verus!
