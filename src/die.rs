use vstd::prelude::*;

use crate::error::RuleError;
use crate::rolls::{fair_rolls, Rolls};

verus! {

/// A die: a source of integers spread evenly over `1..=sides`.
pub trait Die {
    /// How many sides the die has.
    spec fn spec_sides(&self) -> usize;

    /// How many sides the die has; never zero.
    fn sides(&self) -> (r: usize)
        ensures
            r == self.spec_sides(),
            r >= 1,
    ;

    /// Rolls the die `times` times: one group, keyed by the die's sides, of
    /// `times` visible values in `1..=sides`, and no modifiers.
    fn roll(&self, times: usize) -> (r: Rolls)
        requires
            self.spec_sides() <= i32::MAX,
        ensures
            r.wf(),
            r@.chain.len() == 0,
            r@.groups.len() == 1,
            r@.groups[0].0 == self.spec_sides(),
            fair_rolls(r@.groups[0].1, self.spec_sides(), times),
    {
        Rolls::rolled(self.sides(), times)
    }
}

/// A die with any positive number of sides.
#[derive(Clone, Copy, Debug)]
pub struct D {
    sides: usize,
}

impl D {
    #[verifier::type_invariant]
    spec fn has_sides(self) -> bool {
        self.sides >= 1
    }

    /// A die with `sides` sides; a die with none is refused.
    pub fn new(sides: usize) -> (r: Result<D, RuleError>)
        ensures
            sides >= 1 <==> r is Ok,
            r matches Ok(d) ==> d.spec_sides() == sides,
            r matches Err(e) ==> e == RuleError::InvalidDie,
    {
        if sides >= 1 {
            Ok(D { sides })
        } else {
            Err(RuleError::InvalidDie)
        }
    }
}

impl Die for D {
    closed spec fn spec_sides(&self) -> usize {
        self.sides
    }

    fn sides(&self) -> (r: usize) {
        proof {
            use_type_invariant(self);
        }
        self.sides
    }
}

/// A four-sided die.
#[derive(Clone, Copy, Debug)]
pub struct D4;

/// A six-sided die.
#[derive(Clone, Copy, Debug)]
pub struct D6;

/// An eight-sided die.
#[derive(Clone, Copy, Debug)]
pub struct D8;

/// A ten-sided die.
#[derive(Clone, Copy, Debug)]
pub struct D10;

/// A twelve-sided die.
#[derive(Clone, Copy, Debug)]
pub struct D12;

/// A twenty-sided die.
#[derive(Clone, Copy, Debug)]
pub struct D20;

/// A hundred-sided die.
#[derive(Clone, Copy, Debug)]
pub struct D100;

impl Die for D4 {
    open spec fn spec_sides(&self) -> usize {
        4
    }

    fn sides(&self) -> (r: usize) {
        4
    }
}

impl Die for D6 {
    open spec fn spec_sides(&self) -> usize {
        6
    }

    fn sides(&self) -> (r: usize) {
        6
    }
}

impl Die for D8 {
    open spec fn spec_sides(&self) -> usize {
        8
    }

    fn sides(&self) -> (r: usize) {
        8
    }
}

impl Die for D10 {
    open spec fn spec_sides(&self) -> usize {
        10
    }

    fn sides(&self) -> (r: usize) {
        10
    }
}

impl Die for D12 {
    open spec fn spec_sides(&self) -> usize {
        12
    }

    fn sides(&self) -> (r: usize) {
        12
    }
}

impl Die for D20 {
    open spec fn spec_sides(&self) -> usize {
        20
    }

    fn sides(&self) -> (r: usize) {
        20
    }
}

impl Die for D100 {
    open spec fn spec_sides(&self) -> usize {
        100
    }

    fn sides(&self) -> (r: usize) {
        100
    }
}

/// Relies on `rand::Rng::gen_range` over `rand::thread_rng()`: for
/// `low..=high` with `low <= high` it returns a value in that range (it
/// panics only on an empty range).
#[verifier::external_body]
pub(crate) fn sample_between(low: i32, high: i32) -> (r: i32)
    requires
        low <= high,
    ensures
        low <= r <= high,
{
    rand::Rng::gen_range(&mut rand::thread_rng(), low..=high)
}

} // verus!
