//! A tabletop rules model: dice, roll sets with modifier chains,
//! proficiency resolution and ability checks, verified with Verus.
//!
//! Dice ([`die`]) produce [`roll::Roll`]s, which a [`rolls::Rolls`] set keeps
//! grouped by the number of sides of the die that made them, together with an
//! ordered chain of [`modifier::Modifier`]s. Evaluating the set runs the chain
//! as [`groups::resolve`] describes. A [`creature::Creature`] builds checks and
//! saves from a d20 roll, its ability modifiers and its [`proficiency`] bonuses.

pub mod ability;
pub mod choice;
pub mod content;
pub mod creature;
pub mod die;
pub mod error;
pub mod groups;
pub mod identity;
pub mod laws;
pub mod modifier;
pub mod proficiency;
pub mod reorder;
pub mod roll;
pub mod rolls;
