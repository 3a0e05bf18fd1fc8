use vstd::prelude::*;

use crate::identity::Identity;

verus! {

/// A condition a creature can suffer from.
pub trait Condition: Identity {

}

/// A language a creature can speak.
pub trait Language: Identity {
    fn description(&self) -> &'static str;
}

} // verus!
