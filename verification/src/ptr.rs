//! A plainly owned value with pointer-like ergonomics.
//!
//! `Ptr` wraps one value and exposes it through `get`/`set`; it is the
//! owned counterpart of [`PtrCell`](crate::ptr_cell::PtrCell).

use vstd::prelude::*;

verus! {

/// One owned value behind a tiny wrapper.
#[derive(Clone, Copy, Debug)]
pub struct Ptr<T> {
    value: T,
}

impl<T> Ptr<T> {
    /// The current value.
    pub closed spec fn value_spec(&self) -> T {
        self.value
    }

    /// The wrapper around `value`; what `new` and `From::from` return.
    pub closed spec fn spec_new(value: T) -> Self {
        Ptr { value }
    }

    /// Wraps a value.
    pub fn new(value: T) -> (p: Self)
        ensures
            p.value_spec() == value,
    {
        Ptr { value }
    }

    /// Installs a new value.
    pub fn set(&mut self, value: T)
        ensures
            final(self).value_spec() == value,
    {
        self.value = value;
    }
}

impl<T: Copy> Ptr<T> {
    /// A copy of the current value.
    pub fn get(&self) -> (r: T)
        ensures
            r == self.value_spec(),
    {
        self.value
    }
}

impl<T> From<T> for Ptr<T> {
    /// Wraps a value, as `new` does.
    fn from(value: T) -> (p: Self) {
        Ptr { value }
    }
}

impl<T> vstd::std_specs::convert::FromSpecImpl<T> for Ptr<T> {
    open spec fn obeys_from_spec() -> bool {
        true
    }

    open spec fn from_spec(value: T) -> Self {
        Ptr::spec_new(value)
    }
}

/// The wrapper built around a value holds exactly that value.
pub proof fn lemma_ptr_new_value<T>(value: T)
    ensures
        Ptr::spec_new(value).value_spec() == value,
{
}

impl<T> crate::var::Var<T> for Ptr<T> {
    open spec fn var_value(&self) -> T {
        self.value_spec()
    }

    fn get(&self) -> (r: T) where T: Clone {
        self.value.clone()
    }

    fn set(&mut self, v: T) {
        self.value = v;
    }
}

} // verus!
