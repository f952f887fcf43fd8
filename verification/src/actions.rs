//! Actions an actor can take on its turn.

pub mod action_template;
pub mod default_actions;
pub mod monster_attacks;
