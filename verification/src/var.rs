//! A readable, writable place holding one value.

use vstd::prelude::*;

verus! {

/// A place that holds one value of type `T`: it can be read (by clone) and
/// overwritten.  The single-value cells of this crate implement it.
pub trait Var<T> {
    /// The value currently held.
    spec fn var_value(&self) -> T;

    /// A clone of the value currently held.
    fn get(&self) -> (r: T) where T: Clone
        ensures
            cloned::<T>(self.var_value(), r),
    ;

    /// Installs a new value.
    fn set(&mut self, v: T)
        ensures
            final(self).var_value() == v,
    ;
}

} // verus!
