//! Growable vector proxy, the second implementor of the common interface.
//!
//! `VecRefCell` owns a vector and implements
//! [`VecCellTrait`](crate::vec_cell_trait::VecCellTrait): the usual editing
//! operations plus clone-based reads.  It is interchangeable with
//! [`VecCell`](crate::vec_cell::VecCell); callers pick one and can switch
//! through the shared trait.

use crate::vec_cell_trait::{VecCellIter, VecCellTrait};
use vstd::prelude::*;

verus! {

/// A growable vector of values, read by clone.
#[derive(Clone, Debug)]
pub struct VecRefCell<T>(Vec<T>);

impl<T> VecRefCell<T> {
    /// A lazy, restartable cursor over clones of the elements.
    pub fn iter(&self) -> (it: VecCellIter<'_, Self, T>)
        ensures
            it.source() == *self,
            it.position() == 0,
    {
        VecCellIter::new(self)
    }
}

impl<T> VecCellTrait<T> for VecRefCell<T> {
    closed spec fn view_seq(&self) -> Seq<T> {
        self.0@
    }

    fn new() -> (v: Self) {
        VecRefCell(Vec::new())
    }

    fn with_capacity(capacity: usize) -> (v: Self) {
        VecRefCell(Vec::with_capacity(capacity))
    }

    fn len(&self) -> (n: usize) {
        self.0.len()
    }

    fn is_empty(&self) -> (b: bool) {
        self.0.is_empty()
    }

    fn clear(&mut self) {
        self.0.clear();
    }

    fn insert(&mut self, index: usize, element: T) {
        self.0.insert(index, element);
    }

    fn pop(&mut self) -> (r: Option<T>) {
        self.0.pop()
    }

    fn push(&mut self, value: T) {
        self.0.push(value);
    }

    fn remove(&mut self, index: usize) -> (r: T) {
        self.0.remove(index)
    }

    fn swap_remove(&mut self, index: usize) -> (r: T) {
        self.0.swap_remove(index)
    }

    fn truncate(&mut self, len: usize) {
        self.0.truncate(len);
    }

    fn reserve(&mut self, additional: usize) {
        self.0.reserve(additional);
    }

    fn try_reserve(&mut self, additional: usize) -> (r: Result<
        (),
        std::collections::TryReserveError,
    >) {
        self.0.try_reserve(additional)
    }

    fn set(&mut self, index: usize, v: T) {
        let elem = &mut self.0[index];
        *elem = v;
    }

    fn get(&self, index: usize) -> (r: Option<T>) where T: Clone {
        if index < self.0.len() {
            Some(self.0[index].clone())
        } else {
            None
        }
    }

    fn extend_from_slice(&mut self, other: &[T]) where T: Clone {
        self.0.extend_from_slice(other);
    }

    fn resize(&mut self, new_len: usize, value: T) where T: Clone {
        self.0.resize(new_len, value);
    }
}

} // verus!
