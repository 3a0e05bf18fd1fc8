use vstd::prelude::*;

verus! {

/// The result of rolling a single die.
///
/// A hidden roll is kept for the record but never counts towards a total.
#[derive(Clone, Copy, Debug)]
pub struct Roll {
    value: i32,
    hidden: bool,
}

impl Roll {
    /// The value the die showed, whether or not the roll is hidden.
    pub closed spec fn raw(self) -> int {
        self.value as int
    }

    /// Whether the roll is hidden.
    pub closed spec fn is_hidden(self) -> bool {
        self.hidden
    }

    /// This roll with its visibility set to `hidden`.
    pub closed spec fn with_hidden(self, hidden: bool) -> Roll {
        Roll { value: self.value, hidden }
    }

    /// A visible roll of `value`.
    pub closed spec fn shown(value: i32) -> Roll {
        Roll { value, hidden: false }
    }

    /// What the roll adds to a total: its value when visible, else 0.
    pub open spec fn counted(self) -> int {
        if self.is_hidden() {
            0
        } else {
            self.raw()
        }
    }

    /// A visible roll of `value`.
    pub fn from(value: i32) -> (r: Roll)
        ensures
            r == Roll::shown(value),
    {
        Roll { value, hidden: false }
    }

    pub fn conceal(&mut self)
        ensures
            *final(self) == old(self).with_hidden(true),
    {
        self.hidden = true;
    }

    pub fn show(&mut self)
        ensures
            *final(self) == old(self).with_hidden(false),
    {
        self.hidden = false;
    }

    pub fn hidden(&self) -> (r: bool)
        ensures
            r == self.is_hidden(),
    {
        self.hidden
    }

    /// The roll's contribution to a total: 0 when hidden, else its value.
    pub fn value(&self) -> (r: i32)
        ensures
            r == self.counted(),
    {
        if self.hidden {
            0
        } else {
            self.value
        }
    }

    /// The value the die showed, hidden or not.
    pub fn raw_value(&self) -> (r: i32)
        ensures
            r == self.raw(),
    {
        self.value
    }
}

/// Rolls compare by the value the die showed, whatever their visibility.
impl PartialEq for Roll {
    fn eq(&self, other: &Roll) -> (r: bool)
        ensures
            r == (self.raw() == other.raw()),
    {
        self.value == other.value
    }
}

impl vstd::std_specs::cmp::PartialEqSpecImpl for Roll {
    open spec fn obeys_eq_spec() -> bool {
        true
    }

    open spec fn eq_spec(&self, other: &Roll) -> bool {
        self.raw() == other.raw()
    }
}

/// Changing visibility keeps the value.
pub broadcast proof fn lemma_with_hidden(r: Roll, hidden: bool)
    ensures
        (#[trigger] r.with_hidden(hidden)).raw() == r.raw(),
        r.with_hidden(hidden).is_hidden() == hidden,
{
}

/// A new roll is visible and holds its value.
pub broadcast proof fn lemma_shown(value: i32)
    ensures
        (#[trigger] Roll::shown(value)).raw() == value,
        !Roll::shown(value).is_hidden(),
{
}

/// A roll's value is an `i32`.
pub broadcast proof fn lemma_raw_bounds(r: Roll)
    ensures
        i32::MIN <= #[trigger] r.raw() <= i32::MAX,
{
}

pub broadcast group group_roll {
    lemma_with_hidden,
    lemma_shown,
    lemma_raw_bounds,
}

} // verus!
