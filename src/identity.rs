use vstd::prelude::*;

verus! {

/// A rule entity with a stable, globally unique identity string.
pub trait Identity {
    fn id(&self) -> &'static str;
}

} // verus!
