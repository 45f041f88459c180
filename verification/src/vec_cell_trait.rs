//! The common interface of the growable-vector proxies.
//!
//! `VecCellTrait` is what the vector wrappers of this crate have in common:
//! a sequence view, the usual editing operations, and clone-based reads.  A
//! generic cursor walks any implementor.

use vstd::prelude::*;

verus! {

/// A growable vector of values, read by clone.
pub trait VecCellTrait<T>: Sized {
    /// The stored elements in order.
    spec fn view_seq(&self) -> Seq<T>;

    /// An empty vector.
    fn new() -> (v: Self)
        ensures
            v.view_seq() == Seq::<T>::empty(),
    ;

    /// An empty vector with room reserved for `capacity` elements.
    fn with_capacity(capacity: usize) -> (v: Self)
        ensures
            v.view_seq() == Seq::<T>::empty(),
    ;

    /// Number of stored elements.
    fn len(&self) -> (n: usize)
        ensures
            n == self.view_seq().len(),
    ;

    /// Whether no element is stored.
    fn is_empty(&self) -> (b: bool)
        ensures
            b <==> self.view_seq().len() == 0,
    ;

    /// Removes every element.
    fn clear(&mut self)
        ensures
            final(self).view_seq() == Seq::<T>::empty(),
    ;

    /// Inserts an element at `index`, shifting what follows.
    fn insert(&mut self, index: usize, element: T)
        requires
            index <= old(self).view_seq().len(),
        ensures
            final(self).view_seq() == old(self).view_seq().insert(index as int, element),
    ;

    /// Removes and returns the last element, if any.
    fn pop(&mut self) -> (r: Option<T>)
        ensures
            old(self).view_seq().len() > 0 ==> r == Some(old(self).view_seq().last())
                && final(self).view_seq() == old(self).view_seq().drop_last(),
            old(self).view_seq().len() == 0 ==> r is None && final(self).view_seq() == old(
                self,
            ).view_seq(),
    ;

    /// Appends an element.
    fn push(&mut self, value: T)
        ensures
            final(self).view_seq() == old(self).view_seq().push(value),
    ;

    /// Removes and returns the element at `index`, shifting what follows.
    fn remove(&mut self, index: usize) -> (r: T)
        requires
            index < old(self).view_seq().len(),
        ensures
            r == old(self).view_seq()[index as int],
            final(self).view_seq() == old(self).view_seq().remove(index as int),
    ;

    /// Removes and returns the element at `index`, moving the last element
    /// into its place instead of shifting.
    fn swap_remove(&mut self, index: usize) -> (r: T)
        requires
            index < old(self).view_seq().len(),
        ensures
            r == old(self).view_seq()[index as int],
            final(self).view_seq() == old(self).view_seq().update(
                index as int,
                old(self).view_seq().last(),
            ).drop_last(),
    ;

    /// Keeps only the first `len` elements; a longer `len` changes nothing.
    fn truncate(&mut self, len: usize)
        ensures
            len <= old(self).view_seq().len() ==> final(self).view_seq() == old(
                self,
            ).view_seq().subrange(0, len as int),
            len > old(self).view_seq().len() ==> final(self).view_seq() == old(self).view_seq(),
    ;

    /// Reserves room for `additional` more elements; the contents are
    /// unchanged.
    fn reserve(&mut self, additional: usize)
        ensures
            final(self).view_seq() == old(self).view_seq(),
    ;

    /// Tries to reserve room for `additional` more elements; the contents
    /// are unchanged either way.
    fn try_reserve(&mut self, additional: usize) -> (r: Result<
        (),
        std::collections::TryReserveError,
    >)
        ensures
            final(self).view_seq() == old(self).view_seq(),
    ;

    /// Overwrites the element at `index`.
    fn set(&mut self, index: usize, v: T)
        requires
            index < old(self).view_seq().len(),
        ensures
            final(self).view_seq() == old(self).view_seq().update(index as int, v),
    ;

    /// A clone of the element at `index`, or `None` past the end.
    fn get(&self, index: usize) -> (r: Option<T>) where T: Clone
        ensures
            index < self.view_seq().len() ==> r is Some && cloned::<T>(
                self.view_seq()[index as int],
                r->0,
            ),
            index >= self.view_seq().len() ==> r is None,
    ;

    /// Appends clones of the elements of a slice.
    fn extend_from_slice(&mut self, other: &[T]) where T: Clone
        ensures
            final(self).view_seq().len() == old(self).view_seq().len() + other@.len(),
            forall|i: int|
                0 <= i < old(self).view_seq().len() ==> #[trigger] final(self).view_seq()[i]
                    == old(self).view_seq()[i],
            forall|i: int|
                old(self).view_seq().len() <= i < final(self).view_seq().len() ==> cloned::<T>(
                    other@[i - old(self).view_seq().len()],
                    #[trigger] final(self).view_seq()[i],
                ),
    ;

    /// Grows or shrinks to exactly `new_len` elements, filling with clones
    /// of `value`.
    fn resize(&mut self, new_len: usize, value: T) where T: Clone
        ensures
            new_len <= old(self).view_seq().len() ==> final(self).view_seq() == old(
                self,
            ).view_seq().subrange(0, new_len as int),
            new_len > old(self).view_seq().len() ==> {
                &&& final(self).view_seq().len() == new_len
                &&& final(self).view_seq().subrange(0, old(self).view_seq().len() as int) == old(
                    self,
                ).view_seq()
                &&& forall|i: int|
                    old(self).view_seq().len() <= i < new_len ==> cloned::<T>(
                        value,
                        #[trigger] final(self).view_seq()[i],
                    )
            },
    ;
}

/// A cursor over any vector proxy, handing out clones in order.
pub struct VecCellIter<'t, V, T> {
    vec: &'t V,
    index: usize,
    _phantom: core::marker::PhantomData<T>,
}

impl<'t, V, T> VecCellIter<'t, V, T> {
    /// The vector being walked.
    pub closed spec fn source(&self) -> V {
        *self.vec
    }

    /// How many elements have been handed out.
    pub closed spec fn position(&self) -> int {
        self.index as int
    }

    /// A cursor at the front of `vec`.
    pub fn new(vec: &'t V) -> (it: Self)
        ensures
            it.source() == *vec,
            it.position() == 0,
    {
        VecCellIter { vec, index: 0, _phantom: core::marker::PhantomData }
    }
}

impl<'t, T: Clone, V: VecCellTrait<T>> VecCellIter<'t, V, T> {
    /// A clone of the next element, or `None` when the end is reached.
    pub fn next(&mut self) -> (r: Option<T>)
        ensures
            final(self).source() == old(self).source(),
            old(self).position() < old(self).source().view_seq().len() ==> {
                &&& final(self).position() == old(self).position() + 1
                &&& r is Some
                &&& cloned::<T>(old(self).source().view_seq()[old(self).position()], r->0)
            },
            old(self).position() >= old(self).source().view_seq().len() ==> r is None,
    {
        if self.index < self.vec.len() {
            let r = self.vec.get(self.index);
            self.index = self.index + 1;
            r
        } else {
            None
        }
    }
}

} // verus!
