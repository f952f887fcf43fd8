//! Actors and the templates they are instantiated from.

pub mod actor_template;
pub mod creatures;
