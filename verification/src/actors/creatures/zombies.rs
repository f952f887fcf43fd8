//! The zombie.

use crate::actions::action_template::ActionHandle;
use crate::actions::default_actions::default_actions;
use crate::actors::actor_template::CreatureTemplate;
use crate::engine::dice::HitDice;
use crate::engine::dice::HitDiceView;
use crate::engine::types::Language;
use crate::engine::types::Size;
use crate::engine::types::Skill;
use crate::engine::types::SpecialSense;
use vstd::prelude::*;

verus! {

/// The hit-point dice of a zombie: `2d8+6`.
pub open spec fn spec_zombie_hitpoints() -> HitDiceView {
    HitDiceView { count: 2, sides: 8, bonus: 6 }
}

/// Whether the template holds the statistics of a zombie, whatever its
/// hit-point dice.
pub open spec fn is_zombie(ct: CreatureTemplate) -> bool {
    &&& ct.name@ == "Zombie"@
    &&& ct.n_instances == 0
    &&& ct.ac == 8
    &&& ct.speed == 20000
    &&& ct.strength == 13
    &&& ct.intelligence == 3
    &&& ct.dexterity == 6
    &&& ct.wisdom == 6
    &&& ct.constitution == 16
    &&& ct.charisma == 5
    &&& ct.skills@ == Seq::<Skill>::empty()
    &&& ct.senses@ == seq![SpecialSense::Darkvision(60)]
    &&& ct.languages@ == seq![Language::Common]
    &&& ct.cr == 250
    &&& ct.size == Size::Medium
    &&& ct.actions@ == seq![ActionHandle::Move, ActionHandle::Dash, ActionHandle::Skip]
}

/// The template of a zombie: a slow, medium-sized creature with `2d8+6`
/// hit points that can move, dash and skip.
pub fn zombie_template() -> (ct: CreatureTemplate)
    ensures
        ct.hitpoints@ == spec_zombie_hitpoints(),
        is_zombie(ct),
        ct.wf(),
{
    zombie_with_hitpoints(HitDice::new(2, 8, 6).unwrap())
}

/// The template of a zombie whose hit points are rolled with the given
/// dice.
pub fn zombie_with_hitpoints(hitpoints: HitDice) -> (ct: CreatureTemplate)
    ensures
        ct.hitpoints == hitpoints,
        is_zombie(ct),
        ct.wf(),
{
    let ct = CreatureTemplate {
        name: "Zombie",
        n_instances: 0,
        ac: 8,
        hitpoints: hitpoints,
        speed: 20000,
        strength: 13,
        intelligence: 3,
        dexterity: 6,
        wisdom: 6,
        constitution: 16,
        charisma: 5,
        skills: Vec::new(),
        senses: vec![SpecialSense::Darkvision(60)],
        languages: vec![Language::Common],
        cr: 250,
        size: Size::Medium,
        actions: default_actions(),
    };
    assert(ct.skills@ =~= Seq::<Skill>::empty());
    assert(ct.senses@ =~= seq![SpecialSense::Darkvision(60)]);
    assert(ct.languages@ =~= seq![Language::Common]);
    assert(ct.actions@ =~= seq![ActionHandle::Move, ActionHandle::Dash, ActionHandle::Skip]);
    ct
}

} // verus!
