//! Single-value cell for types with a default.
//!
//! `DefaultCell` holds one value of a type that can stand in a default
//! state; `take` hands the value out and leaves the default behind, which is
//! also how the cell resets itself for the [`Clear`](crate::clear::Clear)
//! capability.

use crate::clear::Clear;
use vstd::prelude::*;

verus! {

/// Whether `v` is a possible output of `T::default()`.
pub open spec fn default_output<T: Default>(v: T) -> bool {
    call_ensures(T::default, (), v)
}

/// A single mutable value whose type has a default state.
#[derive(Debug)]
pub struct DefaultCell<T> {
    cell: T,
}

impl<T> DefaultCell<T> {
    /// The current value.
    pub closed spec fn value_spec(&self) -> T {
        self.cell
    }

    /// Wraps a value.
    pub fn new(value: T) -> (c: Self)
        ensures
            c.value_spec() == value,
    {
        DefaultCell { cell: value }
    }

    /// Installs a new value and hands back the old one.
    pub fn replace(&mut self, value: T) -> (r: T)
        ensures
            r == old(self).value_spec(),
            final(self).value_spec() == value,
    {
        let mut v = value;
        core::mem::swap(&mut self.cell, &mut v);
        v
    }

    /// Installs a new value; the old one is dropped.
    pub fn set(&mut self, value: T)
        ensures
            final(self).value_spec() == value,
    {
        let _old_value = self.replace(value);
    }
}

impl<T: Copy> DefaultCell<T> {
    /// A copy of the current value.
    pub fn get(&self) -> (r: T)
        ensures
            r == self.value_spec(),
    {
        self.cell
    }
}

impl<T: Default> DefaultCell<T> {
    /// Hands back the current value, leaving the type's default in its
    /// place.
    pub fn take(&mut self) -> (r: T)
        ensures
            r == old(self).value_spec(),
            default_output::<T>(final(self).value_spec()),
    {
        self.replace(T::default())
    }
}

impl<T: Default> Default for DefaultCell<T> {
    /// A cell holding the type's default value.
    fn default() -> (c: Self)
        ensures
            default_output::<T>(c.value_spec()),
    {
        DefaultCell { cell: T::default() }
    }
}

impl<T: Default> Clear for DefaultCell<T> {
    /// A cell is logically empty when it holds a default value.
    open spec fn cleared(&self) -> bool {
        default_output::<T>(self.value_spec())
    }

    /// Resets the cell to the type's default value.
    fn clear(&mut self) {
        let _old_value = self.take();
    }
}

} // verus!
