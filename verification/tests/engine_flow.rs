use encounter::actions::action_template::ActionExecutionInfo;
use encounter::actions::action_template::ActionHandle;
use encounter::actors::actor_template::CreatureTemplate;
use encounter::actors::creatures::zombies::zombie_template;
use encounter::engine::encounter::EncounterInstance;
use encounter::engine::encounter::StackElementEntry;
use encounter::engine::encounter::TriggerEventType;
use encounter::engine::side_effects::ApplicableSideEffect;
use encounter::engine::side_effects::ConsumeResource;
use encounter::engine::side_effects::GiveResource;
use encounter::engine::side_effects::MoveActor;
use encounter::engine::side_effects::Resource;
use encounter::engine::side_effects::SideEffect;
use encounter::engine::side_effects::SkipTurn;
use encounter::engine::terrain::TerrainInfo;
use encounter::engine::terrain::TerrainType;
use encounter::engine::types::Coordinate;
use encounter::engine::types::Size;

fn open_arena(width: usize, height: usize) -> EncounterInstance {
    let terrain = vec![TerrainInfo { terrain_type: TerrainType::Floor }; width * height];
    EncounterInstance::with_seed(width, height, terrain, 11).unwrap()
}

fn tiny_zombie() -> CreatureTemplate {
    let mut ct = zombie_template();
    ct.size = Size::Tiny;
    ct
}

/// One tiny zombie at the origin of a ten by ten arena, waiting at its prompt.
fn lone_actor_at_prompt() -> (EncounterInstance, usize) {
    let mut e = open_arena(10, 10);
    let id = e.instantiate_creature(&tiny_zombie(), Coordinate::new(0, 0), 0, 0).unwrap();
    e.initialize();
    e.process_stack();
    (e, id)
}

fn answer(e: &mut EncounterInstance, command: &str) {
    let info = e.peek_prompt().unwrap().process_input(command, e).unwrap();
    assert!(e.pop_prompt().is_some());
    e.push_action(info);
}

fn top_effect(e: &EncounterInstance) -> SideEffect {
    match &e.encounter_stack().last().unwrap().entry {
        StackElementEntry::SideEffect(s) => *s,
        _ => panic!("the top of the stack is no side effect"),
    }
}

#[test]
fn initialize_builds_the_turn_order() {
    let mut e = open_arena(10, 10);
    for n in 0..6 {
        e.instantiate_creature(&tiny_zombie(), Coordinate::new(n, 0), 0, n as usize).unwrap();
    }
    assert_eq!(e.initiative_tracker().len(), 0);
    e.initialize();
    assert!(e.is_initialized());
    let entries = e.initiative_tracker().entries();
    assert_eq!(entries.len(), 6);
    assert_eq!(e.initiative_tracker().cursor(), 0);
    for pair in entries.windows(2) {
        assert!(pair[0].initiative >= pair[1].initiative);
        if pair[0].initiative == pair[1].initiative {
            assert!(pair[0].actor_id < pair[1].actor_id);
        }
    }
    for id in 0..6 {
        let score = e.get_actor(id).unwrap().initiative().unwrap();
        assert!(-1 <= score && score <= 4, "score {}", score);
        assert_eq!(entries.iter().filter(|el| el.actor_id == id).count(), 1);
        assert!(entries.iter().any(|el| el.actor_id == id && el.initiative == score));
    }
    assert_eq!(e.current_player(), Some(entries[0].actor_id));
}

#[test]
fn initiative_rolls_vary() {
    let mut seen = std::collections::HashSet::new();
    let mut e = open_arena(40, 1);
    for n in 0..40 {
        e.instantiate_creature(&tiny_zombie(), Coordinate::new(n, 0), 0, 0).unwrap();
    }
    e.initialize();
    for id in 0..40 {
        seen.insert(e.get_actor(id).unwrap().initiative().unwrap());
    }
    assert!(seen.len() >= 2);
    assert!(seen.iter().all(|s| -1 <= *s && *s <= 4));
}

#[test]
fn creature_joining_a_running_encounter_enters_the_turn_order() {
    let (mut e, first) = lone_actor_at_prompt();
    assert_eq!(e.current_player(), Some(first));
    for n in 1..8 {
        let id = e.instantiate_creature(&tiny_zombie(), Coordinate::new(n, 1), 1, 0).unwrap();
        let score = e.get_actor(id).unwrap().initiative().unwrap();
        assert!(-1 <= score && score <= 4);
        assert_eq!(e.current_player(), Some(first));
        assert_eq!(e.initiative_tracker().len(), n as usize + 1);
    }
    let entries = e.initiative_tracker().entries();
    for pair in entries.windows(2) {
        assert!(pair[0].initiative >= pair[1].initiative);
    }
}

#[test]
fn first_tick_prompts_the_current_actor() {
    let (e, id) = lone_actor_at_prompt();
    assert_eq!(e.encounter_stack().len(), 1);
    let prompt = e.peek_prompt().unwrap();
    assert_eq!(prompt.actor_id(), id);
    assert_eq!(
        prompt.actions(),
        &vec![ActionHandle::Move, ActionHandle::Dash, ActionHandle::Skip]
    );
    assert_eq!(e.encounter_stack()[0].id, 0);
    assert!(e.encounter_stack()[0].success_dependencies.is_none());
    assert_eq!(e.outcome_tracker().peek_next_id(), 1);
}

#[test]
fn tick_with_a_prompt_on_top_does_nothing() {
    let (mut e, id) = lone_actor_at_prompt();
    e.stage_event(
        StackElementEntry::SideEffect(SideEffect::GiveResource(GiveResource {
            actor_id: id,
            resource: Resource::Movement(1),
        })),
        None,
    );
    e.process_stack();
    e.process_stack();
    assert_eq!(e.encounter_stack().len(), 1);
    assert_eq!(e.temp_encounter_queue().len(), 1);
    assert!(e.peek_prompt().is_some());
    assert_eq!(e.get_actor(id).unwrap().remaining_movement(), 20000);
}

#[test]
fn move_spends_the_distance_and_updates_the_map() {
    let (mut e, id) = lone_actor_at_prompt();
    assert_eq!(e.get_actor(id).unwrap().speed(), 20000);
    assert_eq!(e.get_actor(id).unwrap().remaining_movement(), 20000);
    answer(&mut e, "move 4,0");
    e.process_stack();
    let a = e.get_actor(id).unwrap();
    assert_eq!(a.remaining_movement(), 10000);
    assert_eq!(a.location(), Coordinate::new(4, 0));
    assert_eq!(e.actor_map()[4], Some(id));
    assert_eq!(e.actor_map()[0], None);
    assert_eq!(e.actor_map().iter().filter(|c| c.is_some()).count(), 1);
    assert_eq!(e.actor_id_at(Coordinate::new(4, 0)), Some(id));
    assert_eq!(e.actor_id_at(Coordinate::new(0, 0)), None);
    assert_eq!(a.action_slots(), 1);
    assert_eq!(e.peek_prompt().unwrap().actor_id(), id);
    assert_eq!(e.encounter_stack().len(), 1);
}

#[test]
fn moves_add_up_until_the_movement_is_gone() {
    let (mut e, id) = lone_actor_at_prompt();
    answer(&mut e, "mv r1u1");
    e.process_stack();
    assert_eq!(e.get_actor(id).unwrap().remaining_movement(), 20000 - 3535);
    assert_eq!(e.get_actor(id).unwrap().location(), Coordinate::new(1, 1));
    answer(&mut e, "mv r3u4");
    e.process_stack();
    assert_eq!(e.get_actor(id).unwrap().remaining_movement(), 20000 - 3535 - 12500);
    assert_eq!(e.get_actor(id).unwrap().location(), Coordinate::new(4, 5));
    let refused = e.peek_prompt().unwrap().process_input("mv l2d0", &e);
    assert!(refused.is_err());
    answer(&mut e, "mv l1d0");
    e.process_stack();
    assert_eq!(e.get_actor(id).unwrap().remaining_movement(), 1465);
    assert_eq!(e.get_actor(id).unwrap().location(), Coordinate::new(3, 5));
    assert_eq!(e.actor_id_at(Coordinate::new(3, 5)), Some(id));
    assert_eq!(e.actor_map().iter().filter(|c| c.is_some()).count(), 1);
}

#[test]
fn dash_trades_the_action_for_movement() {
    let (mut e, id) = lone_actor_at_prompt();
    answer(&mut e, "dash");
    e.process_stack();
    let a = e.get_actor(id).unwrap();
    assert_eq!(a.remaining_movement(), 40000);
    assert_eq!(a.action_slots(), 0);
    assert_eq!(a.bonus_action_slots(), 1);
    let again = e.peek_prompt().unwrap().process_input("dsh", &e);
    assert_eq!(again.unwrap_err().input(), "argument validation failed for dsh");
}

#[test]
fn skip_passes_the_turn_and_refills_the_next_actor() {
    let mut e = open_arena(10, 10);
    let a = e.instantiate_creature(&tiny_zombie(), Coordinate::new(0, 0), 0, 0).unwrap();
    let b = e.instantiate_creature(&tiny_zombie(), Coordinate::new(5, 5), 1, 1).unwrap();
    e.initialize();
    e.process_stack();
    let first = e.current_player().unwrap();
    let second = if first == a { b } else { a };
    answer(&mut e, "dash");
    e.process_stack();
    answer(&mut e, "mv r1u0");
    e.process_stack();
    assert_eq!(e.get_actor(first).unwrap().remaining_movement(), 37500);
    answer(&mut e, "skip");
    e.process_stack();
    assert_eq!(e.current_player(), Some(second));
    assert_eq!(e.peek_prompt().unwrap().actor_id(), second);
    assert_eq!(e.get_actor(first).unwrap().remaining_movement(), 37500);
    assert_eq!(e.get_actor(first).unwrap().action_slots(), 0);
    answer(&mut e, "s");
    e.process_stack();
    assert_eq!(e.current_player(), Some(first));
    assert_eq!(e.peek_prompt().unwrap().actor_id(), first);
    assert_eq!(e.get_actor(first).unwrap().remaining_movement(), 20000);
    assert_eq!(e.get_actor(first).unwrap().action_slots(), 1);
}

#[test]
fn skip_turn_wraps_around() {
    let mut e = open_arena(10, 10);
    for n in 0..3 {
        e.instantiate_creature(&tiny_zombie(), Coordinate::new(n, 0), 0, 0).unwrap();
    }
    e.initialize();
    let order: Vec<usize> = e.initiative_tracker().entries().iter().map(|el| el.actor_id).collect();
    assert_eq!(e.current_player(), Some(order[0]));
    e.consume_resource(order[1], Resource::Action);
    e.skip_turn();
    assert_eq!(e.current_player(), Some(order[1]));
    assert_eq!(e.get_actor(order[1]).unwrap().action_slots(), 1);
    e.skip_turn();
    assert_eq!(e.current_player(), Some(order[2]));
    e.skip_turn();
    assert_eq!(e.current_player(), Some(order[0]));
}

#[test]
fn effects_of_one_action_apply_in_reverse_of_generation() {
    let (mut e, id) = lone_actor_at_prompt();
    answer(&mut e, "dash");
    assert_eq!(e.encounter_stack().len(), 1);
    e.resolve_top();
    assert_eq!(e.encounter_stack().len(), 2);
    let generated_first = match &e.encounter_stack()[0].entry {
        StackElementEntry::SideEffect(s) => *s,
        _ => panic!("no side effect"),
    };
    let generated_second = top_effect(&e);
    assert_eq!(
        generated_first,
        SideEffect::GiveResource(GiveResource { actor_id: id, resource: Resource::Movement(20000) })
    );
    assert_eq!(
        generated_second,
        SideEffect::ConsumeResource(ConsumeResource { actor_id: id, resource: Resource::Action })
    );
    assert_eq!(e.encounter_stack()[0].id + 1, e.encounter_stack()[1].id);
    e.resolve_top();
    assert_eq!(e.get_actor(id).unwrap().action_slots(), 0);
    assert_eq!(e.get_actor(id).unwrap().remaining_movement(), 20000);
    assert_eq!(e.encounter_stack().len(), 1);
    e.resolve_top();
    assert_eq!(e.get_actor(id).unwrap().remaining_movement(), 40000);
    assert!(e.encounter_stack().is_empty());
}

#[test]
fn enqueued_effects_apply_last_in_first_out() {
    let (mut e, id) = lone_actor_at_prompt();
    e.pop_prompt();
    let e1 = SideEffect::ConsumeResource(ConsumeResource {
        actor_id: id,
        resource: Resource::Movement(20000),
    });
    let e2 = SideEffect::GiveResource(GiveResource {
        actor_id: id,
        resource: Resource::Movement(u64::MAX),
    });
    e.enqueue_event(StackElementEntry::SideEffect(e1), None);
    e.enqueue_event(StackElementEntry::SideEffect(e2), None);
    e.process_stack();
    assert_eq!(e.get_actor(id).unwrap().remaining_movement(), u64::MAX - 20000);
    assert!(e.peek_prompt().is_some());
}

#[test]
fn staging_queue_is_drained_front_first() {
    let (mut e, id) = lone_actor_at_prompt();
    e.pop_prompt();
    let q1 = SideEffect::ConsumeResource(ConsumeResource {
        actor_id: id,
        resource: Resource::Movement(20000),
    });
    let q2 = SideEffect::GiveResource(GiveResource {
        actor_id: id,
        resource: Resource::Movement(u64::MAX),
    });
    e.stage_event(StackElementEntry::SideEffect(q1), None);
    e.stage_event(StackElementEntry::SideEffect(q2), None);
    assert_eq!(e.temp_encounter_queue().len(), 2);
    e.process_stack();
    assert!(e.temp_encounter_queue().is_empty());
    assert_eq!(e.get_actor(id).unwrap().remaining_movement(), u64::MAX - 20000);
}

#[test]
fn entry_with_unmet_prerequisites_is_dropped() {
    let (mut e, id) = lone_actor_at_prompt();
    e.pop_prompt();
    let give = |amount: u64| {
        StackElementEntry::SideEffect(SideEffect::GiveResource(GiveResource {
            actor_id: id,
            resource: Resource::Movement(amount),
        }))
    };
    e.set_outcome(100, true);
    e.set_outcome(101, false);
    e.set_outcome(102, true);
    e.enqueue_event(give(1), Some(vec![100]));
    e.enqueue_event(give(10), Some(vec![101]));
    e.enqueue_event(give(100), Some(vec![100, 102]));
    e.enqueue_event(give(1000), Some(vec![100, 101]));
    e.enqueue_event(give(10000), Some(vec![103]));
    e.enqueue_event(give(100000), Some(vec![]));
    e.enqueue_event(give(1000000), None);
    e.process_stack();
    assert_eq!(e.get_actor(id).unwrap().remaining_movement(), 20000 + 1 + 100 + 100000 + 1000000);
    assert!(e.peek_prompt().is_some());
    assert_eq!(e.outcome_tracker().get_outcome(100), None);
}

#[test]
fn action_with_an_unmet_prerequisite_is_dropped() {
    let (mut e, id) = lone_actor_at_prompt();
    e.pop_prompt();
    e.set_outcome(5, false);
    let dash = ActionExecutionInfo::new(ActionHandle::Dash, id, None, None, None);
    e.enqueue_event(StackElementEntry::Action(dash), Some(vec![5]));
    e.process_stack();
    assert_eq!(e.get_actor(id).unwrap().remaining_movement(), 20000);
    assert_eq!(e.get_actor(id).unwrap().action_slots(), 1);
    assert!(e.peek_prompt().is_some());
}

#[test]
fn new_batch_starts_ids_at_zero_and_forgets_outcomes() {
    let (mut e, _) = lone_actor_at_prompt();
    e.set_outcome(0, true);
    answer(&mut e, "dash");
    assert_eq!(e.encounter_stack()[0].id, 1);
    e.process_stack();
    assert_eq!(e.encounter_stack()[0].id, 0);
    assert_eq!(e.outcome_tracker().peek_next_id(), 1);
    assert_eq!(e.outcome_tracker().get_outcome(0), None);
}

#[test]
fn peek_and_pop_ask_for_a_prompt_on_top() {
    let (mut e, id) = lone_actor_at_prompt();
    assert!(e.peek_prompt().is_some());
    let p = e.pop_prompt().unwrap();
    assert_eq!(p.actor_id(), id);
    assert!(e.encounter_stack().is_empty());
    assert!(e.peek_prompt().is_none());
    assert!(e.pop_prompt().is_none());
    e.enqueue_event(StackElementEntry::SideEffect(SideEffect::SkipTurn(SkipTurn {})), None);
    assert!(e.peek_prompt().is_none());
    assert!(e.pop_prompt().is_none());
    assert_eq!(e.encounter_stack().len(), 1);
    e.enqueue_event(StackElementEntry::Prompt(p), Some(vec![3]));
    assert_eq!(e.peek_prompt().unwrap().actor_id(), id);
    assert_eq!(e.encounter_stack()[1].success_dependencies, Some(vec![3]));
}

#[test]
fn check_triggers_changes_nothing() {
    let (mut e, id) = lone_actor_at_prompt();
    let entry = StackElementEntry::SideEffect(SideEffect::SkipTurn(SkipTurn {}));
    e.check_triggers(&entry, TriggerEventType::Enqueue);
    e.check_triggers(&entry, TriggerEventType::Execute);
    assert_eq!(e.encounter_stack().len(), 1);
    assert_eq!(e.get_actor(id).unwrap().remaining_movement(), 20000);
    assert_eq!(e.current_player(), Some(id));
}

#[test]
fn side_effects_apply_themselves() {
    let (mut e, id) = lone_actor_at_prompt();
    ConsumeResource { actor_id: id, resource: Resource::Movement(5000) }.apply(&mut e);
    assert_eq!(e.get_actor(id).unwrap().remaining_movement(), 15000);
    GiveResource { actor_id: id, resource: Resource::BonusAction }.apply(&mut e);
    assert_eq!(e.get_actor(id).unwrap().bonus_action_slots(), 2);
    MoveActor { actor_id: id, target: Coordinate::new(7, 8) }.apply(&mut e);
    assert_eq!(e.get_actor(id).unwrap().location(), Coordinate::new(7, 8));
    assert_eq!(e.actor_id_at(Coordinate::new(7, 8)), Some(id));
    assert_eq!(e.actor_id_at(Coordinate::new(0, 0)), None);
    SkipTurn {}.apply(&mut e);
    assert_eq!(e.get_actor(id).unwrap().remaining_movement(), 20000);
    assert_eq!(e.get_actor(id).unwrap().bonus_action_slots(), 1);
    SideEffect::ConsumeResource(ConsumeResource { actor_id: id, resource: Resource::Action })
        .apply(&mut e);
    assert_eq!(e.get_actor(id).unwrap().action_slots(), 0);
    e.apply_side_effect(SideEffect::GiveResource(GiveResource {
        actor_id: id,
        resource: Resource::Action,
    }));
    assert_eq!(e.get_actor(id).unwrap().action_slots(), 1);
    e.give_resource(id, Resource::Movement(1));
    assert_eq!(e.get_actor(id).unwrap().remaining_movement(), 20001);
}

#[test]
fn top_entry_is_tested_before_it_is_resolved() {
    let (mut e, id) = lone_actor_at_prompt();
    e.pop_prompt();
    let dash = || ActionExecutionInfo::new(ActionHandle::Dash, id, None, None, None);
    e.push_action(dash());
    assert!(e.can_resolve_top());
    e.resolve_top();
    assert!(e.can_resolve_top());
    e.resolve_top();
    assert!(e.can_resolve_top());
    e.resolve_top();
    assert!(e.encounter_stack().is_empty());
    e.push_action(dash());
    assert!(!e.can_resolve_top());
}

#[test]
fn side_effects_are_tested_before_they_are_applied() {
    let cases: Vec<(SideEffect, bool)> = vec![
        (SideEffect::SkipTurn(SkipTurn {}), true),
        (SideEffect::GiveResource(GiveResource { actor_id: 0, resource: Resource::Action }), true),
        (SideEffect::GiveResource(GiveResource { actor_id: 9, resource: Resource::Action }), false),
        (
            SideEffect::ConsumeResource(ConsumeResource {
                actor_id: 0,
                resource: Resource::Movement(20000),
            }),
            true,
        ),
        (
            SideEffect::ConsumeResource(ConsumeResource {
                actor_id: 0,
                resource: Resource::Movement(20001),
            }),
            false,
        ),
        (
            SideEffect::ConsumeResource(ConsumeResource { actor_id: 9, resource: Resource::Action }),
            false,
        ),
        (SideEffect::MoveActor(MoveActor { actor_id: 0, target: Coordinate::new(9, 9) }), true),
        (SideEffect::MoveActor(MoveActor { actor_id: 0, target: Coordinate::new(0, 0) }), true),
        (SideEffect::MoveActor(MoveActor { actor_id: 0, target: Coordinate::new(10, 0) }), false),
        (SideEffect::MoveActor(MoveActor { actor_id: 0, target: Coordinate::new(0, -1) }), false),
        (SideEffect::MoveActor(MoveActor { actor_id: 9, target: Coordinate::new(1, 1) }), false),
    ];
    for (effect, expected) in cases {
        let (mut e, id) = lone_actor_at_prompt();
        assert_eq!(id, 0);
        e.pop_prompt();
        assert_eq!(e.can_apply(effect), expected, "effect {:?}", effect);
        e.enqueue_event(StackElementEntry::SideEffect(effect), None);
        e.enqueue_event(StackElementEntry::SideEffect(effect), Some(vec![77]));
        assert!(e.can_resolve_top());
        e.resolve_top();
        assert_eq!(e.encounter_stack().len(), 1);
        assert_eq!(e.can_resolve_top(), expected, "effect {:?}", effect);
        if expected {
            e.resolve_top();
            assert!(e.encounter_stack().is_empty());
        }
    }
}

#[test]
fn stale_and_foreign_invocations_cannot_be_resolved() {
    let (mut e, id) = lone_actor_at_prompt();
    e.pop_prompt();
    let far = ActionExecutionInfo::new(
        ActionHandle::Move,
        id,
        None,
        Some(vec![Coordinate::new(9, 9)]),
        None,
    );
    assert!(!far.validate(&e));
    e.give_resource(id, Resource::Movement(u64::MAX));
    assert!(far.validate(&e));
    e.push_action(far);
    assert!(e.can_resolve_top());
    e.consume_resource(id, Resource::Movement(u64::MAX));
    assert!(!e.can_resolve_top());

    let (mut other, _) = lone_actor_at_prompt();
    other.pop_prompt();
    other.push_action(ActionExecutionInfo::new(ActionHandle::Skip, 9, None, None, None));
    assert!(!other.can_resolve_top());
}

#[test]
fn placing_asks_for_free_cells_inside_the_arena() {
    let mut e = open_arena(6, 6);
    let mut big = zombie_template();
    big.size = Size::Large;
    let me = e.instantiate_creature(&big, Coordinate::new(0, 0), 0, 0).unwrap();
    let other = e.instantiate_creature(&tiny_zombie(), Coordinate::new(5, 2), 1, 0).unwrap();
    assert!(e.can_place(me, Coordinate::new(0, 0)));
    assert!(e.can_place(me, Coordinate::new(1, 0)));
    assert!(e.can_place(me, Coordinate::new(1, 2)));
    assert!(!e.can_place(me, Coordinate::new(2, 0)));
    assert!(!e.can_place(me, Coordinate::new(2, 2)));
    assert!(e.can_place(me, Coordinate::new(2, 3) - Coordinate::new(1, 1)));
    assert!(!e.can_place(me, Coordinate::new(0, 3)));
    assert!(!e.can_place(me, Coordinate::new(-1, 0)));
    assert!(!e.can_place(me, Coordinate::new(isize::MAX, 0)));
    assert!(e.can_place(other, Coordinate::new(5, 5)));
    assert!(!e.can_place(other, Coordinate::new(3, 3)));
    assert!(!e.can_place(other, Coordinate::new(6, 5)));
    assert!(!e.can_place(7, Coordinate::new(5, 5)));
}
