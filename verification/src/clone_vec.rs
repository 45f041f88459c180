//! Growable vector wrapper that hands out clones.
//!
//! `CloneVec` owns a vector and exposes the usual editing operations; reads
//! hand out clones of the stored elements rather than references, so the
//! stored values are never borrowed out of the container.

use vstd::prelude::*;

verus! {

/// A growable vector of values, read by clone.
#[derive(Clone, Debug)]
pub struct CloneVec<T>(Vec<T>);

impl<T> CloneVec<T> {
    /// The stored elements in order.
    pub closed spec fn view_seq(&self) -> Seq<T> {
        self.0@
    }

    /// An empty vector.
    pub fn new() -> (v: Self)
        ensures
            v.view_seq() == Seq::<T>::empty(),
    {
        CloneVec(Vec::new())
    }

    /// An empty vector with room reserved for `capacity` elements.
    pub fn with_capacity(capacity: usize) -> (v: Self)
        ensures
            v.view_seq() == Seq::<T>::empty(),
    {
        CloneVec(Vec::with_capacity(capacity))
    }

    /// Number of stored elements.
    pub fn len(&self) -> (n: usize)
        ensures
            n == self.view_seq().len(),
    {
        self.0.len()
    }

    /// Whether no element is stored.
    pub fn is_empty(&self) -> (b: bool)
        ensures
            b <==> self.view_seq().len() == 0,
    {
        self.0.is_empty()
    }

    /// Removes every element.
    pub fn clear(&mut self)
        ensures
            final(self).view_seq() == Seq::<T>::empty(),
    {
        self.0.clear();
    }

    /// Inserts an element at `index`, shifting what follows.
    pub fn insert(&mut self, index: usize, element: T)
        requires
            index <= old(self).view_seq().len(),
        ensures
            final(self).view_seq() == old(self).view_seq().insert(index as int, element),
    {
        self.0.insert(index, element);
    }

    /// Removes and returns the last element, if any.
    pub fn pop(&mut self) -> (r: Option<T>)
        ensures
            old(self).view_seq().len() > 0 ==> r == Some(old(self).view_seq().last())
                && final(self).view_seq() == old(self).view_seq().drop_last(),
            old(self).view_seq().len() == 0 ==> r is None && final(self).view_seq() == old(
                self,
            ).view_seq(),
    {
        self.0.pop()
    }

    /// Appends an element.
    pub fn push(&mut self, value: T)
        ensures
            final(self).view_seq() == old(self).view_seq().push(value),
    {
        self.0.push(value);
    }

    /// Removes and returns the element at `index`, shifting what follows.
    pub fn remove(&mut self, index: usize) -> (r: T)
        requires
            index < old(self).view_seq().len(),
        ensures
            r == old(self).view_seq()[index as int],
            final(self).view_seq() == old(self).view_seq().remove(index as int),
    {
        self.0.remove(index)
    }

    /// Removes and returns the element at `index`, moving the last element
    /// into its place instead of shifting.
    pub fn swap_remove(&mut self, index: usize) -> (r: T)
        requires
            index < old(self).view_seq().len(),
        ensures
            r == old(self).view_seq()[index as int],
            final(self).view_seq() == old(self).view_seq().update(
                index as int,
                old(self).view_seq().last(),
            ).drop_last(),
    {
        self.0.swap_remove(index)
    }

    /// Keeps only the first `len` elements; a longer `len` changes nothing.
    pub fn truncate(&mut self, len: usize)
        ensures
            len <= old(self).view_seq().len() ==> final(self).view_seq() == old(
                self,
            ).view_seq().subrange(0, len as int),
            len > old(self).view_seq().len() ==> final(self).view_seq() == old(self).view_seq(),
    {
        self.0.truncate(len);
    }

    /// Reserves room for `additional` more elements; the contents are
    /// unchanged.
    pub fn reserve(&mut self, additional: usize)
        ensures
            final(self).view_seq() == old(self).view_seq(),
    {
        self.0.reserve(additional);
    }

    /// Tries to reserve room for `additional` more elements; the contents
    /// are unchanged either way.
    pub fn try_reserve(&mut self, additional: usize) -> (r: Result<
        (),
        std::collections::TryReserveError,
    >)
        ensures
            final(self).view_seq() == old(self).view_seq(),
    {
        self.0.try_reserve(additional)
    }

    /// Overwrites the element at `index`.
    pub fn set(&mut self, index: usize, v: T)
        requires
            index < old(self).view_seq().len(),
        ensures
            final(self).view_seq() == old(self).view_seq().update(index as int, v),
    {
        let elem = &mut self.0[index];
        *elem = v;
    }
}

impl<T: Clone> CloneVec<T> {
    /// A clone of the element at `index`, or `None` past the end.
    pub fn get(&self, index: usize) -> (r: Option<T>)
        ensures
            index < self.view_seq().len() ==> r is Some && cloned::<T>(
                self.view_seq()[index as int],
                r->0,
            ),
            index >= self.view_seq().len() ==> r is None,
    {
        if index < self.0.len() {
            Some(self.0[index].clone())
        } else {
            None
        }
    }

    /// Appends clones of the elements of a slice.
    pub fn extend_from_slice(&mut self, other: &[T])
        ensures
            final(self).view_seq().len() == old(self).view_seq().len() + other@.len(),
            forall|i: int|
                0 <= i < old(self).view_seq().len() ==> #[trigger] final(self).view_seq()[i]
                    == old(self).view_seq()[i],
            forall|i: int|
                old(self).view_seq().len() <= i < final(self).view_seq().len() ==> cloned::<T>(
                    other@[i - old(self).view_seq().len()],
                    #[trigger] final(self).view_seq()[i],
                ),
    {
        self.0.extend_from_slice(other);
    }

    /// Grows or shrinks to exactly `new_len` elements, filling with clones
    /// of `value`.
    pub fn resize(&mut self, new_len: usize, value: T)
        ensures
            new_len <= old(self).view_seq().len() ==> final(self).view_seq() == old(
                self,
            ).view_seq().subrange(0, new_len as int),
            new_len > old(self).view_seq().len() ==> {
                &&& final(self).view_seq().len() == new_len
                &&& final(self).view_seq().subrange(0, old(self).view_seq().len() as int) == old(
                    self,
                ).view_seq()
                &&& forall|i: int|
                    old(self).view_seq().len() <= i < new_len ==> cloned::<T>(
                        value,
                        #[trigger] final(self).view_seq()[i],
                    )
            },
    {
        self.0.resize(new_len, value);
    }

    /// A lazy, restartable cursor over clones of the elements.
    pub fn iter(&self) -> (it: ClonedVecIter<'_, T>)
        ensures
            it.source() == *self,
            it.position() == 0,
    {
        ClonedVecIter { vec: self, index: 0 }
    }
}

/// A cursor over a [`CloneVec`], handing out clones in order.
pub struct ClonedVecIter<'t, T> {
    vec: &'t CloneVec<T>,
    index: usize,
}

impl<'t, T: Clone> ClonedVecIter<'t, T> {
    /// The vector being walked.
    pub closed spec fn source(&self) -> CloneVec<T> {
        *self.vec
    }

    /// How many elements have been handed out.
    pub closed spec fn position(&self) -> int {
        self.index as int
    }

    /// A clone of the next element, or `None` when the end is reached.
    pub fn next(&mut self) -> (r: Option<T>)
        ensures
            final(self).source() == old(self).source(),
            old(self).position() < old(self).source().view_seq().len() ==> {
                &&& final(self).position() == old(self).position() + 1
                &&& r is Some
                &&& cloned::<T>(old(self).source().view_seq()[old(self).position()], r->0)
            },
            old(self).position() >= old(self).source().view_seq().len() ==> r is None,
    {
        if self.index < self.vec.0.len() {
            let r = Some(self.vec.0[self.index].clone());
            self.index = self.index + 1;
            r
        } else {
            None
        }
    }
}

} // verus!
