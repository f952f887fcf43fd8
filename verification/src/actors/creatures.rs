//! The creatures that can take part in an encounter.

pub mod zombies;
