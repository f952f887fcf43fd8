//! Die rolls and what hangs on them.

use crate::engine::side_effects::SideEffect;
use crate::engine::types::AbilityScoreType;
use crate::engine::types::Skill;
use vstd::prelude::*;

verus! {

/// What a die is rolled for.
#[derive(Clone, Copy, Debug, PartialEq, Eq, Structural)]
pub enum RollType {
    SavingThrow,
    Attack,
    Damage,
}

/// What a check tests.
#[derive(Clone, Copy, Debug, PartialEq, Eq, Structural)]
pub enum CheckType {
    SkillCheck(Skill),
    AbilityCheck(AbilityScoreType),
}

/// What the resolution of an action can lead to.
pub enum Outcome {
    Noop,
    Roll(DieRoll),
    Chain(Box<Outcome>),
    SideEffects(Vec<SideEffect>),
}

/// A die roll against a threshold, with what follows from either result.
pub struct DieRoll {
    pub actor_id: usize,
    pub threshold: u32,
    pub roll_type: RollType,
    pub check_type: Option<CheckType>,
    pub success_result: Box<Outcome>,
    pub failure_result: Box<Outcome>,
}

} // verus!
