//! Single-value cell for copyable values.
//!
//! `PtrCell` most often holds a shared reference, giving a re-seatable
//! "pointer" whose target can be read back with `get` and redirected with
//! `set`.

use vstd::prelude::*;

verus! {

/// A single re-settable value, typically a reference.
#[derive(Clone, Debug)]
pub struct PtrCell<T> {
    cell: T,
}

impl<T> PtrCell<T> {
    /// The current value.
    pub closed spec fn value_spec(&self) -> T {
        self.cell
    }

    /// The cell around `value`; what `new` and `From::from` return.
    pub closed spec fn spec_new(value: T) -> Self {
        PtrCell { cell: value }
    }

    /// Wraps a value.
    pub fn new(v: T) -> (c: Self)
        ensures
            c.value_spec() == v,
    {
        PtrCell { cell: v }
    }

    /// Installs a new value; the old one is dropped.
    pub fn set(&mut self, v: T)
        ensures
            final(self).value_spec() == v,
    {
        self.cell = v;
    }
}

impl<T: Copy> PtrCell<T> {
    /// A copy of the current value.
    pub fn get(&self) -> (r: T)
        ensures
            r == self.value_spec(),
    {
        self.cell
    }
}

impl<T> From<T> for PtrCell<T> {
    /// Wraps a value, as `new` does.
    fn from(value: T) -> (c: Self) {
        PtrCell { cell: value }
    }
}

impl<T> vstd::std_specs::convert::FromSpecImpl<T> for PtrCell<T> {
    open spec fn obeys_from_spec() -> bool {
        true
    }

    open spec fn from_spec(value: T) -> Self {
        PtrCell::spec_new(value)
    }
}

/// The cell built around a value holds exactly that value.
pub proof fn lemma_ptr_cell_new_value<T>(value: T)
    ensures
        PtrCell::spec_new(value).value_spec() == value,
{
}

impl<T> crate::var::Var<T> for PtrCell<T> {
    open spec fn var_value(&self) -> T {
        self.value_spec()
    }

    fn get(&self) -> (r: T) where T: Clone {
        self.cell.clone()
    }

    fn set(&mut self, v: T) {
        self.cell = v;
    }
}

} // verus!
