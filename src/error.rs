use vstd::prelude::*;

use crate::ability::Ability;

verus! {

/// Errors reported by the rules engine. All of them are returned to the
/// caller; none is retried or defaulted.
#[derive(Clone, Copy, Debug, PartialEq, Eq, Structural)]
pub enum RuleError {
    /// A check or save needs a score the creature does not have.
    MissingAbilityScore(Ability),
    /// A die was declared with no sides.
    InvalidDie,
    /// A division modifier was declared with a zero divisor.
    DivisionByZero,
}

} // verus!
