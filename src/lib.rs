//! Dice and action resolution for a tabletop character sheet: dice are rolled
//! through an injectable roller, advantage and disadvantage pick between two
//! full rolls, modifiers are summed with their provenance kept, and an
//! action's threshold table turns a total into an outcome description.

pub mod action;
pub mod character;
pub mod dice;
pub mod error;
pub mod modifier;
pub mod roller;
