//! Compact fixed-capacity set backed by an inline array.
//!
//! Same tail-compact layout as [`CellSet`](crate::cell_set::CellSet) — the
//! `len` elements occupy the last `len` positions, insertion grows downwards,
//! removal fills the hole with the front element — but the slots live in a
//! `[Option<T>; CAP]` array inside the value instead of a heap vector.

use vstd::prelude::*;

verus! {

/// An unwritten slot; the initializer handed to the array builder.
fn empty_slot<T>(i: usize) -> (r: Option<T>)
    ensures
        r is None,
{
    None
}

/// Relies on `array_init::array_init`: element `i` of the returned array is
/// the initializer's result for index `i` (the initializer is called once per
/// index, in index order).  The initializer used here is [`empty_slot`], so
/// every element of the result is `None`.
#[verifier::external_body]
fn none_array<T, const N: usize>() -> (r: [Option<T>; N])
    ensures
        forall|i: int| 0 <= i < N ==> (#[trigger] r@[i]) is None,
{
    array_init::array_init(|i| empty_slot::<T>(i))
}

/// Fixed-capacity set with tail-compact inline storage.  `first` is the
/// position of the front element; the elements occupy positions
/// `[first, CAP)`.
#[derive(Clone)]
pub struct FixedCellSet<T, const CAP: usize> {
    slots: [Option<T>; CAP],
    first: usize,
}

impl<T, const CAP: usize> FixedCellSet<T, CAP> {
    /// The position of the front element.
    pub closed spec fn spec_first(&self) -> int {
        self.first as int
    }

    /// Number of stored elements.
    pub open spec fn spec_len(&self) -> int {
        CAP - self.spec_first()
    }

    /// The stored elements: relative position `k` is the element at absolute
    /// slot `first + k`.
    pub closed spec fn view_seq(&self) -> Seq<T> {
        Seq::new((CAP - self.spec_first()) as nat, |k: int| self.slots@[self.spec_first() + k]->0)
    }

    /// Well-formedness: the front within bounds, every slot from the front
    /// on filled, every slot before it empty.
    pub closed spec fn wf(&self) -> bool {
        &&& self.spec_first() <= CAP as int
        &&& (forall|i: int|
            self.spec_first() <= i < CAP as int ==> (#[trigger] self.slots@[i]) is Some)
        &&& (forall|i: int| 0 <= i < self.spec_first() ==> (#[trigger] self.slots@[i]) is None)
    }

    /// The fixed number of slots.
    pub fn capacity(&self) -> (n: usize)
        ensures
            n == CAP,
    {
        CAP
    }

    /// Number of stored elements.
    pub fn len(&self) -> (n: usize)
        requires
            self.wf(),
        ensures
            n == self.spec_len(),
    {
        CAP - self.first
    }

    /// Whether the set is empty.
    pub fn is_empty(&self) -> (b: bool)
        requires
            self.wf(),
        ensures
            b <==> self.spec_len() == 0,
    {
        self.first == CAP
    }

    /// Inserts an element, which becomes the new front (relative position
    /// zero).  Fails with `None` exactly when the set is full, leaving it
    /// untouched; on success the returned position is always zero.
    pub fn insert(&mut self, elem: T) -> (r: Option<usize>)
        requires
            old(self).wf(),
        ensures
            final(self).wf(),
            old(self).spec_len() == CAP as int ==> r is None && *final(self) == *old(self),
            old(self).spec_len() < CAP as int ==> r == Some(0usize) && final(self).view_seq()
                == seq![elem] + old(self).view_seq(),
    {
        if CAP - self.first >= CAP {
            proof {
                assert(old(self).spec_len() == CAP as int);
            }
            return None;
        }
        let index = self.first - 1;
        self.slots[index] = Some(elem);
        self.first = index;
        proof {
            assert(final(self).view_seq() =~= seq![elem] + old(self).view_seq());
        }
        Some(0)
    }

    /// Removes and returns the element at relative position `index`.  The
    /// front element moves into the vacated position, so removal is
    /// constant-time and the relative order of the survivors shifts
    /// accordingly.
    pub fn remove(&mut self, index: usize) -> (r: T)
        requires
            old(self).wf(),
            index < old(self).spec_len(),
        ensures
            final(self).wf(),
            final(self).spec_len() == old(self).spec_len() - 1,
            r == old(self).view_seq()[index as int],
            final(self).view_seq() == old(self).view_seq().update(
                index as int,
                old(self).view_seq()[0],
            ).subrange(1, old(self).spec_len()),
    {
        let first = self.first;
        let pos = first + index;
        let elem = self.slots[pos].take();
        let head = self.slots[first].take();
        self.slots[pos] = head;
        self.first = first + 1;
        proof {
            assert(final(self).view_seq() =~= old(self).view_seq().update(
                index as int,
                old(self).view_seq()[0],
            ).subrange(1, old(self).spec_len()));
        }
        elem.unwrap()
    }

    /// Empties the set, leaving the capacity unchanged.
    pub fn clear(&mut self)
        requires
            old(self).wf(),
        ensures
            final(self).wf(),
            final(self).spec_len() == 0,
            final(self).view_seq() == Seq::<T>::empty(),
    {
        let mut i: usize = self.first;
        while i < CAP
            invariant
                old(self).wf(),
                i <= CAP,
                old(self).spec_first() <= i as int,
                self.first == old(self).first,
                forall|j: int| 0 <= j < i ==> (#[trigger] self.slots@[j]) is None,
                forall|j: int| i <= j < CAP as int ==> #[trigger] self.slots@[j] == old(
                    self,
                ).slots@[j],
            decreases CAP - i,
        {
            self.slots[i] = None;
            i += 1;
        }
        self.first = CAP;
        proof {
            assert(final(self).view_seq() =~= Seq::<T>::empty());
        }
    }
}

impl<T, const CAP: usize> Default for FixedCellSet<T, CAP> {
    /// An empty set: every slot unwritten, the front past the end.
    fn default() -> (s: Self)
        ensures
            s.wf(),
            s.spec_len() == 0,
            s.view_seq() == Seq::<T>::empty(),
    {
        let s = FixedCellSet { slots: none_array(), first: CAP };
        proof {
            assert(s.view_seq() =~= Seq::<T>::empty());
        }
        s
    }
}

impl<T: Copy, const CAP: usize> FixedCellSet<T, CAP> {
    /// The element at relative position `index`, or `None` past the end.
    pub fn get(&self, index: usize) -> (r: Option<T>)
        requires
            self.wf(),
        ensures
            index < self.spec_len() ==> r == Some(self.view_seq()[index as int]),
            index >= self.spec_len() ==> r is None,
    {
        if index < CAP - self.first {
            self.slots[self.first + index]
        } else {
            None
        }
    }

    /// All elements in relative order, front first.
    pub fn iter(&self) -> (r: Vec<T>)
        requires
            self.wf(),
        ensures
            r@ == self.view_seq(),
    {
        let mut out: Vec<T> = Vec::new();
        let mut i: usize = self.first;
        while i < CAP
            invariant
                self.wf(),
                self.spec_first() <= i as int <= CAP as int,
                out@.len() == i - self.spec_first(),
                forall|k: int|
                    0 <= k < out@.len() ==> #[trigger] out@[k] == self.view_seq()[k],
            decreases CAP - i,
        {
            match self.slots[i] {
                Some(v) => out.push(v),
                None => (),
            }
            i += 1;
        }
        proof {
            assert(out@ =~= self.view_seq());
        }
        out
    }
}

impl<T: Clone, const CAP: usize> FixedCellSet<T, CAP> {
    /// A clone of the element at relative position `index`, or `None` past
    /// the end.
    pub fn get_clone(&self, index: usize) -> (r: Option<T>)
        requires
            self.wf(),
        ensures
            index < self.spec_len() ==> r is Some && cloned::<T>(
                self.view_seq()[index as int],
                r->0,
            ),
            index >= self.spec_len() ==> r is None,
    {
        if index < CAP - self.first {
            match &self.slots[self.first + index] {
                Some(v) => Some(v.clone()),
                None => None,
            }
        } else {
            None
        }
    }

    /// Clones of all elements in relative order, front first.
    pub fn iter_clone(&self) -> (r: Vec<T>)
        requires
            self.wf(),
        ensures
            r@.len() == self.spec_len(),
            forall|k: int|
                0 <= k < r@.len() ==> cloned::<T>(self.view_seq()[k], #[trigger] r@[k]),
    {
        let mut out: Vec<T> = Vec::new();
        let mut i: usize = self.first;
        while i < CAP
            invariant
                self.wf(),
                self.spec_first() <= i as int <= CAP as int,
                out@.len() == i - self.spec_first(),
                forall|k: int|
                    0 <= k < out@.len() ==> cloned::<T>(self.view_seq()[k], #[trigger] out@[k]),
            decreases CAP - i,
        {
            match &self.slots[i] {
                Some(v) => out.push(v.clone()),
                None => (),
            }
            i += 1;
        }
        out
    }
}

} // verus!
