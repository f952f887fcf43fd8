//! A turn-based tactical encounter engine on a grid arena.
//!
//! Actors take initiative-ordered turns; each turn an actor picks an action,
//! the action is validated against the current state and expanded into side
//! effects, and the side effects are applied one by one from a processing
//! stack. Every executable function carries a contract over a mathematical
//! view of the data it touches.
//!
//! Distances and movement budgets are fixed-point numbers: a `u64` counts
//! thousandths of a map unit. Challenge ratings and likelihoods are counted
//! in thousandths as well.

pub mod actions;
pub mod actors;
pub mod engine;
