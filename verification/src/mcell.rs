//! Single-value cell with convenience methods.
//!
//! `MCell` holds one value and offers replace/set/take plus, for the
//! unsigned and signed machine integers it is most often used with, in-place
//! arithmetic.

use vstd::prelude::*;

verus! {

/// A single mutable value with convenience methods.
#[derive(Clone, Debug)]
pub struct MCell<T> {
    cell: T,
}

impl<T> MCell<T> {
    /// The current value.
    pub closed spec fn value_spec(&self) -> T {
        self.cell
    }

    /// The cell that holds `value`; what `new` and `From::from` return.
    pub closed spec fn spec_new(value: T) -> Self {
        MCell { cell: value }
    }

    /// Wraps a value.
    pub fn new(value: T) -> (c: Self)
        ensures
            c.value_spec() == value,
    {
        MCell { cell: value }
    }

    /// Installs a new value and hands back the old one.
    pub fn replace(&mut self, val: T) -> (r: T)
        ensures
            r == old(self).value_spec(),
            final(self).value_spec() == val,
    {
        let mut v = val;
        core::mem::swap(&mut self.cell, &mut v);
        v
    }

    /// Installs a new value; the old one is dropped.
    pub fn set(&mut self, val: T)
        ensures
            final(self).value_spec() == val,
    {
        let _old_value = self.replace(val);
    }
}

impl<T: Copy> MCell<T> {
    /// A copy of the current value.
    pub fn get(&self) -> (r: T)
        ensures
            r == self.value_spec(),
    {
        self.cell
    }
}

impl<T: Default> MCell<T> {
    /// Hands back the current value, leaving a default in its place.
    pub fn take(&mut self) -> (r: T)
        ensures
            r == old(self).value_spec(),
            call_ensures(T::default, (), final(self).value_spec()),
    {
        self.replace(T::default())
    }
}

impl MCell<u64> {
    /// Adds to the value in place.
    pub fn add(&mut self, rhs: u64)
        requires
            old(self).value_spec() + rhs <= u64::MAX,
        ensures
            final(self).value_spec() == old(self).value_spec() + rhs,
    {
        self.cell = self.cell + rhs;
    }

    /// Subtracts from the value in place.
    pub fn sub(&mut self, rhs: u64)
        requires
            rhs <= old(self).value_spec(),
        ensures
            final(self).value_spec() == old(self).value_spec() - rhs,
    {
        self.cell = self.cell - rhs;
    }

    /// Multiplies the value in place.
    pub fn mul(&mut self, rhs: u64)
        requires
            old(self).value_spec() * rhs <= u64::MAX,
        ensures
            final(self).value_spec() == old(self).value_spec() * rhs,
    {
        self.cell = self.cell * rhs;
    }

    /// Divides the value in place.
    pub fn div(&mut self, rhs: u64)
        requires
            rhs != 0,
        ensures
            final(self).value_spec() == old(self).value_spec() / rhs,
    {
        self.cell = self.cell / rhs;
    }

    /// Reduces the value to its remainder modulo `rhs` in place.
    pub fn rem(&mut self, rhs: u64)
        requires
            rhs != 0,
        ensures
            final(self).value_spec() == old(self).value_spec() % rhs,
    {
        self.cell = self.cell % rhs;
    }
}

impl MCell<i64> {
    /// Negates the value in place.
    pub fn neg(&mut self)
        requires
            old(self).value_spec() != i64::MIN,
        ensures
            final(self).value_spec() == -old(self).value_spec(),
    {
        self.cell = -self.cell;
    }
}

impl<T> From<T> for MCell<T> {
    /// Wraps a value, as `new` does.
    fn from(value: T) -> (c: Self) {
        MCell { cell: value }
    }
}

impl<T> vstd::std_specs::convert::FromSpecImpl<T> for MCell<T> {
    open spec fn obeys_from_spec() -> bool {
        true
    }

    open spec fn from_spec(value: T) -> Self {
        MCell::spec_new(value)
    }
}

/// The cell built around a value holds exactly that value.
pub proof fn lemma_mcell_new_value<T>(value: T)
    ensures
        MCell::spec_new(value).value_spec() == value,
{
}

impl<T> crate::var::Var<T> for MCell<T> {
    open spec fn var_value(&self) -> T {
        self.value_spec()
    }

    fn get(&self) -> (r: T) where T: Clone {
        self.cell.clone()
    }

    fn set(&mut self, v: T) {
        self.cell = v;
    }
}

} // verus!
