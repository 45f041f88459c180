//! Compact fixed-capacity set stored at the tail of its slot array.
//!
//! `CellSet` keeps its `len` elements in the last `len` positions of a
//! fixed-length array of optional slots, growing downwards: an insertion
//! writes just below the current front, and a removal fills the hole with the
//! front element and advances the front.  Both are constant-time; order of
//! elements is not preserved across removals.

use vstd::prelude::*;

verus! {

/// Fixed-capacity set with tail-compact storage.  `first` is the position of
/// the front element; the elements occupy positions `[first, capacity)`.
pub struct CellSet<T> {
    slots: Vec<Option<T>>,
    first: usize,
}

impl<T> CellSet<T> {
    /// Number of slots, fixed at construction.
    pub closed spec fn spec_capacity(&self) -> int {
        self.slots.len() as int
    }

    /// Number of stored elements.
    pub open spec fn spec_len(&self) -> int {
        self.spec_capacity() - self.spec_first()
    }

    /// The position of the front element.
    pub closed spec fn spec_first(&self) -> int {
        self.first as int
    }

    /// The stored elements: relative position `k` is the element at absolute
    /// slot `first + k`.
    pub closed spec fn view_seq(&self) -> Seq<T> {
        Seq::new((self.spec_capacity() - self.spec_first()) as nat, |k: int| self.slots@[self.spec_first() + k]->0)
    }

    /// Well-formedness: the front within bounds, every slot from the front
    /// on filled, every slot before it empty.
    pub closed spec fn wf(&self) -> bool {
        &&& self.spec_first() <= self.spec_capacity()
        &&& (forall|i: int|
            self.spec_first() <= i < self.spec_capacity() ==> (#[trigger] self.slots@[i]) is Some)
        &&& (forall|i: int| 0 <= i < self.spec_first() ==> (#[trigger] self.slots@[i]) is None)
    }

    /// Builds an empty set over the given storage; whatever the slots held
    /// is discarded.
    pub fn new(slots: Vec<Option<T>>) -> (s: Self)
        ensures
            s.wf(),
            s.spec_capacity() == slots@.len(),
            s.spec_len() == 0,
            s.view_seq() == Seq::<T>::empty(),
    {
        let mut slots = slots;
        let n = slots.len();
        let mut i: usize = 0;
        while i < n
            invariant
                i <= n,
                n == slots@.len(),
                forall|j: int| 0 <= j < i ==> (#[trigger] slots@[j]) is None,
            decreases n - i,
        {
            slots[i] = None;
            i += 1;
        }
        let s = CellSet { slots, first: n };
        proof {
            assert(s.view_seq() =~= Seq::<T>::empty());
        }
        s
    }

    /// Builds an empty set of `cap` slots.
    pub fn new_vec(cap: usize) -> (s: Self)
        ensures
            s.wf(),
            s.spec_capacity() == cap,
            s.spec_len() == 0,
            s.view_seq() == Seq::<T>::empty(),
    {
        let mut v: Vec<Option<T>> = Vec::new();
        while v.len() < cap
            invariant
                v@.len() <= cap,
            decreases cap - v@.len(),
        {
            v.push(None);
        }
        Self::new(v)
    }

    /// The fixed number of slots.
    pub fn capacity(&self) -> (n: usize)
        ensures
            n == self.spec_capacity(),
    {
        self.slots.len()
    }

    /// Number of stored elements.
    pub fn len(&self) -> (n: usize)
        requires
            self.wf(),
        ensures
            n == self.spec_len(),
    {
        self.slots.len() - self.first
    }

    /// Whether the set is empty.
    pub fn is_empty(&self) -> (b: bool)
        requires
            self.wf(),
        ensures
            b <==> self.spec_len() == 0,
    {
        self.first == self.slots.len()
    }

    /// Inserts an element, which becomes the new front (relative position
    /// zero).  Fails with `None` exactly when the set is full, leaving it
    /// untouched; on success the returned position is always zero.
    pub fn insert(&mut self, elem: T) -> (r: Option<usize>)
        requires
            old(self).wf(),
        ensures
            final(self).wf(),
            final(self).spec_capacity() == old(self).spec_capacity(),
            old(self).spec_len() == old(self).spec_capacity() ==> r is None && *final(self)
                == *old(self),
            old(self).spec_len() < old(self).spec_capacity() ==> r == Some(0usize)
                && final(self).view_seq() == seq![elem] + old(self).view_seq(),
    {
        if self.slots.len() - self.first >= self.slots.len() {
            proof {
                assert(old(self).spec_len() == old(self).spec_capacity());
            }
            return None;
        }
        let index = self.first - 1;
        self.first = index;
        self.slots[index] = Some(elem);
        proof {
            assert(final(self).view_seq() =~= seq![elem] + old(self).view_seq());
        }
        Some(0)
    }

    /// Removes and returns the element at relative position `index`.  The
    /// front element moves into the vacated position, so removal is
    /// constant-time and the relative order of the survivors shifts
    /// accordingly.
    pub fn remove(&mut self, index: usize) -> (r: T)
        requires
            old(self).wf(),
            index < old(self).spec_len(),
        ensures
            final(self).wf(),
            final(self).spec_capacity() == old(self).spec_capacity(),
            final(self).spec_len() == old(self).spec_len() - 1,
            r == old(self).view_seq()[index as int],
            final(self).view_seq() == old(self).view_seq().update(
                index as int,
                old(self).view_seq()[0],
            ).subrange(1, old(self).spec_len()),
    {
        let first = self.first;
        let pos = first + index;
        let elem = self.slots[pos].take();
        let head = self.slots[first].take();
        self.slots[pos] = head;
        self.first = first + 1;
        proof {
            assert(final(self).view_seq() =~= old(self).view_seq().update(
                index as int,
                old(self).view_seq()[0],
            ).subrange(1, old(self).spec_len()));
        }
        elem.unwrap()
    }

    /// Empties the set, leaving the capacity unchanged.
    pub fn clear(&mut self)
        requires
            old(self).wf(),
        ensures
            final(self).wf(),
            final(self).spec_capacity() == old(self).spec_capacity(),
            final(self).spec_len() == 0,
            final(self).view_seq() == Seq::<T>::empty(),
    {
        let n = self.slots.len();
        let mut i: usize = self.first;
        while i < n
            invariant
                old(self).wf(),
                i <= n,
                old(self).spec_first() <= i as int,
                n == self.slots@.len(),
                n == old(self).spec_capacity(),
                self.first == old(self).first,
                forall|j: int| 0 <= j < i ==> (#[trigger] self.slots@[j]) is None,
                forall|j: int| i <= j < n ==> #[trigger] self.slots@[j] == old(self).slots@[j],
            decreases n - i,
        {
            self.slots[i] = None;
            i += 1;
        }
        self.first = n;
        proof {
            assert(final(self).view_seq() =~= Seq::<T>::empty());
        }
    }
}

impl<T: Copy> CellSet<T> {
    /// The element at relative position `index`, or `None` past the end.
    pub fn get(&self, index: usize) -> (r: Option<T>)
        requires
            self.wf(),
        ensures
            index < self.spec_len() ==> r == Some(self.view_seq()[index as int]),
            index >= self.spec_len() ==> r is None,
    {
        if index < self.slots.len() - self.first {
            self.slots[self.first + index]
        } else {
            None
        }
    }

    /// All elements in relative order, front first.
    pub fn iter(&self) -> (r: Vec<T>)
        requires
            self.wf(),
        ensures
            r@ == self.view_seq(),
    {
        let mut out: Vec<T> = Vec::new();
        let mut i: usize = self.first;
        let n = self.slots.len();
        while i < n
            invariant
                self.wf(),
                self.spec_first() <= i as int <= n,
                n == self.slots@.len(),
                out@.len() == i - self.spec_first(),
                forall|k: int|
                    0 <= k < out@.len() ==> #[trigger] out@[k] == self.view_seq()[k],
            decreases n - i,
        {
            match self.slots[i] {
                Some(v) => out.push(v),
                None => (),
            }
            i += 1;
        }
        proof {
            assert(out@ =~= self.view_seq());
        }
        out
    }
}

impl<T: Clone> CellSet<T> {
    /// A clone of the element at relative position `index`, or `None` past
    /// the end.
    pub fn get_clone(&self, index: usize) -> (r: Option<T>)
        requires
            self.wf(),
        ensures
            index < self.spec_len() ==> r is Some && cloned::<T>(
                self.view_seq()[index as int],
                r->0,
            ),
            index >= self.spec_len() ==> r is None,
    {
        if index < self.slots.len() - self.first {
            match &self.slots[self.first + index] {
                Some(v) => Some(v.clone()),
                None => None,
            }
        } else {
            None
        }
    }

    /// Clones of all elements in relative order, front first.
    pub fn iter_clone(&self) -> (r: Vec<T>)
        requires
            self.wf(),
        ensures
            r@.len() == self.spec_len(),
            forall|k: int|
                0 <= k < r@.len() ==> cloned::<T>(self.view_seq()[k], #[trigger] r@[k]),
    {
        let mut out: Vec<T> = Vec::new();
        let mut i: usize = self.first;
        let n = self.slots.len();
        while i < n
            invariant
                self.wf(),
                self.spec_first() <= i as int <= n,
                n == self.slots@.len(),
                out@.len() == i - self.spec_first(),
                forall|k: int|
                    0 <= k < out@.len() ==> cloned::<T>(self.view_seq()[k], #[trigger] out@[k]),
            decreases n - i,
        {
            match &self.slots[i] {
                Some(v) => out.push(v.clone()),
                None => (),
            }
            i += 1;
        }
        out
    }
}

} // verus!
