use encounter::actors::actor_template::ActorInstance;
use encounter::actors::actor_template::SpellSlotInfo;
use encounter::actors::actor_template::SpellSlotManager;
use encounter::actors::creatures::zombies::zombie_template;
use encounter::engine::side_effects::Resource;
use encounter::engine::types::AbilityScoreType;
use encounter::engine::types::Coordinate;
use encounter::engine::types::Size;
use encounter::engine::util::decimal_text;
use encounter::engine::util::get_tiles_from_size;
use encounter::engine::util::isqrt;
use encounter::engine::util::modifier_from_score;
use encounter::engine::util::signed_decimal_text;
use encounter::engine::util::tile_center_dist;

fn zombie_with_hp(hp: i32) -> ActorInstance {
    let ct = zombie_template();
    ActorInstance::from_rolled_hitpoints(&ct, Coordinate::new(3, 4), 1, hp, 7)
}

#[test]
fn new_actor_copies_its_template() {
    let a = zombie_with_hp(15);
    assert_eq!(a.name(), "Zombie 7");
    assert_eq!(a.team(), 1);
    assert_eq!(a.location(), Coordinate::new(3, 4));
    assert_eq!(a.armor_class(), 8);
    assert_eq!(a.hitpoints(), 15);
    assert_eq!(a.max_hitpoints(), 15);
    assert_eq!(a.speed(), 20000);
    assert_eq!(a.size(), Size::Medium);
    assert_eq!(a.initiative(), None);
    assert_eq!(a.ability_score(AbilityScoreType::Strength), 13);
    assert_eq!(a.ability_score(AbilityScoreType::Intelligence), 3);
    assert_eq!(a.ability_score(AbilityScoreType::Dexterity), 6);
    assert_eq!(a.ability_score(AbilityScoreType::Wisdom), 6);
    assert_eq!(a.ability_score(AbilityScoreType::Constitution), 16);
    assert_eq!(a.ability_score(AbilityScoreType::Charisma), 5);
    assert_eq!(a.remaining_movement(), 0);
    assert_eq!(a.action_slots(), 0);
    assert_eq!(a.bonus_action_slots(), 0);
    assert_eq!(a.actions().len(), 3);
}

#[test]
fn instance_number_is_written_in_decimal() {
    let ct = zombie_template();
    let a = ActorInstance::from_rolled_hitpoints(&ct, Coordinate::new(0, 0), 0, 1, 0);
    assert_eq!(a.name(), "Zombie 0");
    let b = ActorInstance::from_rolled_hitpoints(&ct, Coordinate::new(0, 0), 0, 1, 1203);
    assert_eq!(b.name(), "Zombie 1203");
}

#[test]
fn negative_hit_point_total_gives_no_hit_points() {
    let a = zombie_with_hp(-1);
    assert_eq!(a.hitpoints(), 0);
    assert_eq!(a.max_hitpoints(), 0);
    let b = zombie_with_hp(i32::MIN);
    assert_eq!(b.hitpoints(), 0);
    let c = zombie_with_hp(0);
    assert_eq!(c.hitpoints(), 0);
    let d = zombie_with_hp(i32::MAX);
    assert_eq!(d.hitpoints(), i32::MAX as u32);
}

#[test]
fn reset_for_new_round_restores_round_resources() {
    let mut a = zombie_with_hp(10);
    a.reset_for_new_round();
    assert_eq!(a.remaining_movement(), a.speed());
    assert_eq!(a.remaining_movement(), 20000);
    assert_eq!(a.action_slots(), 1);
    assert_eq!(a.bonus_action_slots(), 1);
    assert!(a.can_consume_resource(Resource::Reaction));
    a.consume_resource(Resource::Movement(12500));
    a.consume_resource(Resource::Action);
    a.consume_resource(Resource::BonusAction);
    a.consume_resource(Resource::Reaction);
    a.reset_for_new_round();
    assert_eq!(a.remaining_movement(), 20000);
    assert_eq!(a.action_slots(), 1);
    assert_eq!(a.bonus_action_slots(), 1);
    assert!(a.can_consume_resource(Resource::Reaction));
}

#[test]
fn consume_after_can_consume_leaves_nothing_negative() {
    let mut a = zombie_with_hp(10);
    a.reset_for_new_round();
    a.increase_max_spell_slot(2, 1);
    let resources = vec![
        Resource::Movement(20000),
        Resource::Action,
        Resource::BonusAction,
        Resource::Reaction,
        Resource::LegendaryAction,
        Resource::SpellSlot(2),
        Resource::SpellSlot(1),
        Resource::SpellSlot(0),
        Resource::Movement(1),
    ];
    for r in resources {
        if a.can_consume_resource(r) {
            a.consume_resource(r);
        }
    }
    assert_eq!(a.remaining_movement(), 0);
    assert_eq!(a.action_slots(), 0);
    assert_eq!(a.bonus_action_slots(), 0);
    assert!(!a.can_consume_resource(Resource::Reaction));
    assert!(!a.can_consume_resource(Resource::LegendaryAction));
    assert!(!a.can_consume_resource(Resource::Movement(1)));
    assert!(a.can_consume_resource(Resource::Movement(0)));
    assert_eq!(
        a.spell_slot_manager().spell_slots(2),
        SpellSlotInfo { max_spell_slots: 1, spell_slots: 0 }
    );
}

#[test]
fn movement_is_spent_exactly() {
    let mut a = zombie_with_hp(10);
    a.reset_for_new_round();
    assert!(a.can_consume_resource(Resource::Movement(20000)));
    assert!(!a.can_consume_resource(Resource::Movement(20001)));
    a.consume_resource(Resource::Movement(3535));
    assert_eq!(a.remaining_movement(), 16465);
}

#[test]
fn give_resource_adds_and_saturates() {
    let mut a = zombie_with_hp(10);
    a.give_resource(Resource::Movement(2500));
    assert_eq!(a.remaining_movement(), 2500);
    a.give_resource(Resource::Movement(u64::MAX));
    assert_eq!(a.remaining_movement(), u64::MAX);
    a.give_resource(Resource::Action);
    a.give_resource(Resource::Action);
    assert_eq!(a.action_slots(), 2);
    a.give_resource(Resource::BonusAction);
    assert_eq!(a.bonus_action_slots(), 1);
    a.give_resource(Resource::Reaction);
    assert!(a.can_consume_resource(Resource::Reaction));
    a.give_resource(Resource::LegendaryAction);
    assert!(a.can_consume_resource(Resource::LegendaryAction));
}

#[test]
fn given_spell_slot_stops_at_the_maximum() {
    let mut a = zombie_with_hp(10);
    a.increase_max_spell_slot(3, 2);
    a.give_resource(Resource::SpellSlot(3));
    assert_eq!(
        a.spell_slot_manager().spell_slots(3),
        SpellSlotInfo { max_spell_slots: 2, spell_slots: 2 }
    );
    a.consume_resource(Resource::SpellSlot(3));
    a.give_resource(Resource::SpellSlot(3));
    assert_eq!(a.spell_slot_manager().spell_slots(3).spell_slots, 2);
    a.give_resource(Resource::SpellSlot(9));
    assert_eq!(
        a.spell_slot_manager().spell_slots(9),
        SpellSlotInfo { max_spell_slots: 0, spell_slots: 0 }
    );
}

#[test]
fn set_location_changes_only_the_location() {
    let mut a = zombie_with_hp(10);
    a.set_location(Coordinate::new(9, 1));
    assert_eq!(a.location(), Coordinate::new(9, 1));
    assert_eq!(a.hitpoints(), 10);
}

#[test]
fn rolled_initiative_is_roll_plus_modifier() {
    let mut a = zombie_with_hp(10);
    assert_eq!(a.initiative_mod(), -2);
    a.set_rolled_initiative(5);
    assert_eq!(a.initiative(), Some(3));
}

#[test]
fn spell_slot_manager_starts_empty() {
    let m = SpellSlotManager::new();
    assert_eq!(m.spell_slots(1), SpellSlotInfo { max_spell_slots: 0, spell_slots: 0 });
    assert_eq!(m.spell_slots(0), SpellSlotInfo { max_spell_slots: 0, spell_slots: 0 });
    assert_eq!(m.warlock_spell_slots(), SpellSlotInfo { max_spell_slots: 0, spell_slots: 0 });
    assert_eq!(m.warlock_spell_slot_lvl(), 0);
}

#[test]
fn spell_slots_by_level() {
    let mut m = SpellSlotManager::new();
    m.increase_max_spell_slot(0, 5);
    assert_eq!(m.spell_slots(0).max_spell_slots, 0);
    m.increase_max_spell_slot(3, 2);
    assert_eq!(m.spell_slots(1), SpellSlotInfo { max_spell_slots: 0, spell_slots: 0 });
    assert_eq!(m.spell_slots(2), SpellSlotInfo { max_spell_slots: 0, spell_slots: 0 });
    assert_eq!(m.spell_slots(3), SpellSlotInfo { max_spell_slots: 2, spell_slots: 2 });
    assert_eq!(m.spell_slots(4), SpellSlotInfo { max_spell_slots: 0, spell_slots: 0 });
    m.increase_max_spell_slot(1, 4);
    m.increase_max_spell_slot(3, 1);
    assert_eq!(m.spell_slots(1), SpellSlotInfo { max_spell_slots: 4, spell_slots: 4 });
    assert_eq!(m.spell_slots(3), SpellSlotInfo { max_spell_slots: 3, spell_slots: 3 });

    assert!(m.consume_spell_slot(3));
    assert!(m.consume_spell_slot(3));
    assert!(m.consume_spell_slot(3));
    assert!(!m.consume_spell_slot(3));
    assert!(!m.consume_spell_slot(2));
    assert!(!m.consume_spell_slot(0));
    assert!(!m.consume_spell_slot(7));
    assert_eq!(m.spell_slots(3), SpellSlotInfo { max_spell_slots: 3, spell_slots: 0 });

    assert!(!m.restore_spell_slot(3, 4));
    assert_eq!(m.spell_slots(3).spell_slots, 0);
    assert!(m.restore_spell_slot(3, 2));
    assert_eq!(m.spell_slots(3).spell_slots, 2);
    assert!(!m.restore_spell_slot(3, 2));
    assert!(m.restore_spell_slot(3, 1));
    assert!(!m.restore_spell_slot(0, 1));
    assert!(!m.restore_spell_slot(8, 1));
    assert!(!m.restore_spell_slot(3, u32::MAX));
    assert!(m.restore_spell_slot(2, 0));

    assert!(m.consume_spell_slot(1));
    assert!(m.consume_spell_slot(3));
    m.restore_spell_slots();
    assert_eq!(m.spell_slots(1), SpellSlotInfo { max_spell_slots: 4, spell_slots: 4 });
    assert_eq!(m.spell_slots(2), SpellSlotInfo { max_spell_slots: 0, spell_slots: 0 });
    assert_eq!(m.spell_slots(3), SpellSlotInfo { max_spell_slots: 3, spell_slots: 3 });
}

#[test]
fn pact_slots() {
    let mut m = SpellSlotManager::new();
    assert!(!m.consume_warlock_spell_slot());
    m.increase_max_warlock_spell_slots();
    m.increase_max_warlock_spell_slots();
    assert_eq!(m.warlock_spell_slots(), SpellSlotInfo { max_spell_slots: 2, spell_slots: 2 });
    assert!(m.consume_warlock_spell_slot());
    assert!(m.consume_warlock_spell_slot());
    assert!(!m.consume_warlock_spell_slot());
    assert_eq!(m.warlock_spell_slots(), SpellSlotInfo { max_spell_slots: 2, spell_slots: 0 });
    m.restore_warlock_spell_slots();
    assert_eq!(m.warlock_spell_slots(), SpellSlotInfo { max_spell_slots: 2, spell_slots: 2 });
    m.upgrade_warlock_spell_slots(3);
    m.upgrade_warlock_spell_slots(2);
    assert_eq!(m.warlock_spell_slot_lvl(), 5);
    let copy = m.clone();
    assert_eq!(copy.warlock_spell_slot_lvl(), 5);
    assert_eq!(copy.warlock_spell_slots(), m.warlock_spell_slots());
}

#[test]
fn modifier_is_half_of_score_above_ten_rounded_down() {
    assert_eq!(modifier_from_score(10), 0);
    assert_eq!(modifier_from_score(11), 0);
    assert_eq!(modifier_from_score(12), 1);
    assert_eq!(modifier_from_score(9), -1);
    assert_eq!(modifier_from_score(8), -1);
    assert_eq!(modifier_from_score(6), -2);
    assert_eq!(modifier_from_score(0), -5);
    assert_eq!(modifier_from_score(1), -5);
    assert_eq!(modifier_from_score(20), 5);
    assert_eq!(modifier_from_score(u32::MAX), 2147483642);
}

#[test]
fn footprint_side_by_size() {
    assert_eq!(get_tiles_from_size(Size::Tiny), 1);
    assert_eq!(get_tiles_from_size(Size::Small), 2);
    assert_eq!(get_tiles_from_size(Size::Medium), 2);
    assert_eq!(get_tiles_from_size(Size::Large), 4);
    assert_eq!(get_tiles_from_size(Size::Huge), 6);
    assert_eq!(get_tiles_from_size(Size::Gargantuan), 8);
}

#[test]
fn integer_square_root_rounds_down() {
    assert_eq!(isqrt(0), 0);
    assert_eq!(isqrt(1), 1);
    assert_eq!(isqrt(3), 1);
    assert_eq!(isqrt(4), 2);
    assert_eq!(isqrt(99), 9);
    assert_eq!(isqrt(100), 10);
    assert_eq!(isqrt(12_500_000), 3535);
    assert_eq!(isqrt((1u128 << 88) - 1), (1u64 << 44) - 1);
}

#[test]
fn distance_between_tile_centres() {
    let o = Coordinate::new(0, 0);
    assert_eq!(tile_center_dist(o, o), 0);
    assert_eq!(tile_center_dist(o, Coordinate::new(1, 0)), 2500);
    assert_eq!(tile_center_dist(o, Coordinate::new(0, -1)), 2500);
    assert_eq!(tile_center_dist(o, Coordinate::new(4, 0)), 10000);
    assert_eq!(tile_center_dist(o, Coordinate::new(1, 1)), 3535);
    assert_eq!(tile_center_dist(o, Coordinate::new(3, 4)), 12500);
    assert_eq!(tile_center_dist(Coordinate::new(3, 4), o), 12500);
    assert_eq!(tile_center_dist(Coordinate::new(-2, 5), Coordinate::new(1, 1)), 12500);
    assert_eq!(tile_center_dist(o, Coordinate::new(2, 1)), 5590);
}

#[test]
fn tiles_too_far_apart_are_infinitely_far() {
    let o = Coordinate::new(0, 0);
    assert_eq!(tile_center_dist(o, Coordinate::new(0xffff_ffff, 0)), 2500 * 0xffff_ffff);
    assert_eq!(tile_center_dist(o, Coordinate::new(0x1_0000_0000, 0)), u64::MAX);
    assert_eq!(tile_center_dist(o, Coordinate::new(0, -0x1_0000_0000)), u64::MAX);
    assert_eq!(
        tile_center_dist(Coordinate::new(isize::MIN, 0), Coordinate::new(isize::MAX, 0)),
        u64::MAX
    );
}

#[test]
fn unspent_slots_never_exceed_the_maximum() {
    let mut m = SpellSlotManager::new();
    let check = |m: &SpellSlotManager| {
        for lvl in 0..6 {
            let info = m.spell_slots(lvl);
            assert!(info.spell_slots <= info.max_spell_slots);
        }
        let pact = m.warlock_spell_slots();
        assert!(pact.spell_slots <= pact.max_spell_slots);
    };
    check(&m);
    m.increase_max_spell_slot(2, 3);
    check(&m);
    m.increase_max_spell_slot(4, u32::MAX);
    check(&m);
    assert_eq!(m.spell_slots(4), SpellSlotInfo { max_spell_slots: u32::MAX, spell_slots: u32::MAX });
    m.consume_spell_slot(2);
    m.consume_spell_slot(4);
    check(&m);
    m.increase_max_spell_slot(2, 5);
    assert_eq!(m.spell_slots(2), SpellSlotInfo { max_spell_slots: 8, spell_slots: 7 });
    m.restore_spell_slot(2, 1);
    m.restore_spell_slot(2, 1);
    check(&m);
    assert_eq!(m.spell_slots(2), SpellSlotInfo { max_spell_slots: 8, spell_slots: 8 });
    m.restore_spell_slots();
    m.increase_max_warlock_spell_slots();
    m.consume_warlock_spell_slot();
    m.increase_max_warlock_spell_slots();
    check(&m);
    assert_eq!(m.warlock_spell_slots(), SpellSlotInfo { max_spell_slots: 2, spell_slots: 1 });
    let copy = m.clone();
    check(&copy);
    assert_eq!(copy.spell_slots(4), m.spell_slots(4));
    assert_eq!(copy.spell_slots(2), m.spell_slots(2));
}

#[test]
fn numbers_in_decimal_notation() {
    assert_eq!(decimal_text(0), "0");
    assert_eq!(decimal_text(7), "7");
    assert_eq!(decimal_text(10), "10");
    assert_eq!(decimal_text(1203), "1203");
    assert_eq!(decimal_text(90_000_010), "90000010");
    assert_eq!(decimal_text(usize::MAX), usize::MAX.to_string());
    assert_eq!(signed_decimal_text(0), "0");
    assert_eq!(signed_decimal_text(-1), "-1");
    assert_eq!(signed_decimal_text(-120), "-120");
    assert_eq!(signed_decimal_text(45), "45");
    assert_eq!(signed_decimal_text(isize::MAX), isize::MAX.to_string());
    assert_eq!(signed_decimal_text(isize::MIN), isize::MIN.to_string());
}
