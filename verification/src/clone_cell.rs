//! Transparent single-value wrapper.
//!
//! `CloneCell` wraps one value, hands out shared access to it and can be
//! unwrapped again; the vector and map wrappers of this crate are built over
//! values of this shape.

use vstd::prelude::*;

verus! {

/// One wrapped value.
#[derive(Clone, Debug)]
pub struct CloneCell<T>(T);

impl<T> CloneCell<T> {
    /// The wrapped value.
    pub closed spec fn value_spec(&self) -> T {
        self.0
    }

    /// The wrapper around `v`; what `From::from` returns.
    pub closed spec fn spec_new(v: T) -> Self {
        CloneCell(v)
    }

    /// A shared view of the wrapped value.
    pub fn get_ref(&self) -> (r: &T)
        ensures
            *r == self.value_spec(),
    {
        &self.0
    }

    /// Unwraps the value.
    pub fn into_inner(self) -> (r: T)
        ensures
            r == self.value_spec(),
    {
        self.0
    }
}

impl<T> From<T> for CloneCell<T> {
    /// Wraps a value.
    fn from(v: T) -> (c: Self) {
        CloneCell(v)
    }
}

impl<T> vstd::std_specs::convert::FromSpecImpl<T> for CloneCell<T> {
    open spec fn obeys_from_spec() -> bool {
        true
    }

    open spec fn from_spec(v: T) -> Self {
        CloneCell::spec_new(v)
    }
}

/// The wrapper built around a value holds exactly that value.
pub proof fn lemma_clone_cell_new_value<T>(v: T)
    ensures
        CloneCell::spec_new(v).value_spec() == v,
{
}

} // verus!
