use vstd::prelude::*;
use vstd::std_specs::iter::IteratorSpec;

verus! {

/// A fixed list of `N` options to choose one from.
pub struct Choice<I: ?Sized + 'static, const N: usize>(pub [&'static I; N]);

impl<I: ?Sized + 'static, const N: usize> Choice<I, N> {
    /// Option number `option`, counting from 0; `None` past the last one.
    pub fn pick(&self, option: usize) -> (r: Option<&'static I>)
        ensures
            r == (if option < N {
                Some(self.0@[option as int])
            } else {
                None
            }),
    {
        if option < N {
            Some(self.0[option])
        } else {
            None
        }
    }

    /// How many options there are.
    pub fn len(&self) -> (r: usize)
        ensures
            r == N,
    {
        N
    }

    /// The options, in order.
    pub fn iter(&self) -> (r: std::slice::Iter<'_, &'static I>)
        ensures
            r.remaining() == self.0@.as_ref(),
    {
        broadcast use vstd::std_specs::slice::axiom_spec_slice_iter;

        self.0.as_slice().iter()
    }
}

/// Builds choices.
pub struct Choices;

impl Choices {
    /// A choice among the options of `arr`, in that order.
    pub fn of<I: ?Sized + 'static, const N: usize>(arr: [&'static I; N]) -> (r: Choice<I, N>)
        ensures
            r.0 == arr,
    {
        Choice(arr)
    }
}

} // verus!
