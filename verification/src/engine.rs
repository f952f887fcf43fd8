//! The encounter engine and the data it works on.

pub mod actor_gen;
pub mod dice;
pub mod encounter;
pub mod errors;
pub mod grid;
pub mod initiative;
pub mod model;
pub mod outcome;
pub mod prompt;
pub mod random;
pub mod resolution;
pub mod roll_event;
pub mod side_effects;
pub mod terrain;
pub mod terrain_gen;
pub mod types;
pub mod util;
