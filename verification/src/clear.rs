//! The in-place reset capability.
//!
//! A payload type may support being reset to a "logically empty" state
//! instead of being destroyed and rebuilt; the arenas lean on this when a
//! slot is released or when a persistent slot is reused.  `Clear` is the
//! capability the container types of this crate offer; `ClearMut` is the
//! umbrella that additionally covers the standard collections, and every
//! `Clear` type is a `ClearMut` type through the blanket implementation.

use std::collections::HashMap;
use vstd::prelude::*;

verus! {

/// In-place reset to a logically empty state.
pub trait Clear {
    /// What it means for a value of the implementing type to be logically
    /// empty.
    spec fn cleared(&self) -> bool;

    /// Resets the value in place to a logically empty state.
    fn clear(&mut self)
        ensures
            final(self).cleared(),
    ;
}

/// In-place reset to a logically empty state, for types whose reset only
/// exists as a plain mutation — the standard collections among them.
pub trait ClearMut {
    /// What it means for a value of the implementing type to be logically
    /// empty.
    spec fn cleared_mut(&self) -> bool;

    /// Resets the value in place to a logically empty state.
    fn clear_mut(&mut self)
        ensures
            final(self).cleared_mut(),
    ;
}

impl<T: Clear> ClearMut for T {
    open spec fn cleared_mut(&self) -> bool {
        self.cleared()
    }

    fn clear_mut(&mut self) {
        self.clear()
    }
}

impl ClearMut for String {
    open spec fn cleared_mut(&self) -> bool {
        self@.len() == 0
    }

    fn clear_mut(&mut self) {
        *self = String::new();
    }
}

impl<T> ClearMut for Vec<T> {
    open spec fn cleared_mut(&self) -> bool {
        self@.len() == 0
    }

    fn clear_mut(&mut self) {
        self.clear();
    }
}

impl<K, V> ClearMut for HashMap<K, V> {
    open spec fn cleared_mut(&self) -> bool {
        self@ == Map::<K, V>::empty()
    }

    fn clear_mut(&mut self) {
        self.clear();
    }
}

} // verus!
