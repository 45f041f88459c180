//! Persistent-slot generational arena.
//!
//! `SlotPool` is the write-once-per-slot variant of the arena: the payload of
//! a physical slot is stored the first time that slot is ever used and is
//! deliberately left in place across removals and reuses.  A later `insert`
//! that lands on an already-written slot keeps the stored value and only
//! installs a fresh generation; callers that want fresh contents refresh the
//! value themselves through `replace`.  This trades reconstruction cost for reuse of
//! existing storage and is an explicit contract, distinct from the
//! reconstruct-on-insert arena in `rc_pool`.

use vstd::prelude::*;
use vstd::seq_lib::*;
use vstd::set_lib::*;

verus! {

/// One storage cell of the arena: an optional payload plus a single `i32`
/// state field that encodes two disjoint slot states.
///
/// * `state >= 0`: the slot is live and `state` is its current generation.
/// * `state <= -2`: the slot is free and `-(state) - 2` is the index of the
///   next slot on the free list (an index at or past the capacity means the
///   list ends here).
///
/// The sign alone disambiguates live from free; the value `-1` is never used.
pub struct Slot<T> {
    elem: Option<T>,
    version: i32,
}

impl<T> Slot<T> {
    /// The payload storage of the slot: written on the slot's first use and
    /// kept across removals and reuses.
    pub closed spec fn stored(&self) -> Option<T> {
        self.elem
    }

    /// The raw state field.
    pub closed spec fn state(&self) -> int {
        self.version as int
    }

    /// A slot is live when its state is a (non-negative) generation.
    pub open spec fn is_live(&self) -> bool {
        self.state() >= 0
    }

    /// The generation of a live slot.
    pub open spec fn generation(&self) -> int {
        self.state()
    }

    /// A slot is free when its state encodes a free-list link.
    pub open spec fn is_free(&self) -> bool {
        self.state() <= -2
    }

    /// The index of the next free slot encoded in a free slot's state.
    pub open spec fn next_free(&self) -> int {
        -self.state() - 2
    }
}

impl<T> Default for Slot<T> {
    /// An unused slot: no payload written yet, state field zeroed.
    fn default() -> (s: Self)
        ensures
            s.stored() is None,
            s.state() == 0,
    {
        Slot { elem: None, version: 0 }
    }
}

/// A reference issued by a `SlotPool`: the index of the slot it was issued
/// against paired with the generation the slot carried at that moment.  The
/// reference is valid exactly as long as the slot still carries the same
/// generation; reusing the slot installs a fresh generation and thereby
/// invalidates every reference issued earlier.
#[derive(Clone, Copy, PartialEq, Eq, Structural, Hash, Debug)]
pub struct SlotPoolRef {
    index: usize,
    version: i32,
}

impl SlotPoolRef {
    /// The index of the slot this reference was issued against.
    pub closed spec fn index_spec(&self) -> int {
        self.index as int
    }

    /// The generation this reference was issued with.
    pub closed spec fn gen_spec(&self) -> int {
        self.version as int
    }

    /// The slot index, for callers that keep raw positions alongside.
    pub fn index(&self) -> (i: usize)
        ensures
            i == self.index_spec(),
    {
        self.index
    }

    /// Whether the slot this reference was issued against still carries the
    /// same generation.  A reference turns invalid the moment its slot is
    /// removed, and stays invalid when the slot is reused, because reuse
    /// installs a fresh generation.
    pub fn is_valid<T>(&self, pool: &SlotPool<T>) -> (b: bool)
        ensures
            b <==> pool.ref_valid(*self),
    {
        self.index < pool.slots.len() && self.version >= 0 && pool.slots[self.index].version
            == self.version
    }

    /// The value this reference points at, or `None` if the reference is
    /// stale: an invalid reference yields an absent result rather than a
    /// value it was not issued against.
    pub fn get<'a, T>(&self, pool: &'a SlotPool<T>) -> (r: Option<&'a T>)
        requires
            pool.wf(),
        ensures
            pool.ref_valid(*self) ==> r is Some && *r->0 == pool.value_at(self.index_spec()),
            !pool.ref_valid(*self) ==> r is None,
    {
        if self.index < pool.slots.len() && self.version >= 0 && pool.slots[self.index].version
            == self.version {
            proof {
                assert(pool.slots@[self.index as int].is_live());
            }
            pool.slots[self.index].elem.as_ref()
        } else {
            None
        }
    }
}

/// Fixed-capacity arena with persistent slot storage.
///
/// The slot sequence is fixed at construction.  Four scalars complete the
/// state: the head of the intrusive free list (`first_free`), the live count
/// (`len`), the wrapping generation counter (`version`) and the high-water
/// mark (`last`), one past the highest index currently in use, which bounds
/// iteration.  A ghost sequence mirrors the exact order of the free list.
pub struct SlotPool<T> {
    slots: Vec<Slot<T>>,
    first_free: i32,
    len: i32,
    version: i32,
    last: i32,
    free_chain: Ghost<Seq<int>>,
}

impl<T> SlotPool<T> {
    /// Number of slots, fixed at construction.
    pub closed spec fn spec_capacity(&self) -> int {
        self.slots.len() as int
    }

    /// Number of live slots.
    pub closed spec fn spec_len(&self) -> int {
        self.len as int
    }

    /// The generation that the next successful insertion will issue.
    pub closed spec fn gen_counter(&self) -> int {
        self.version as int
    }

    /// One past the highest index currently in use; iteration scans only
    /// below this bound.
    pub closed spec fn high_water(&self) -> int {
        self.last as int
    }

    /// The indices of the free slots, most recently freed first: insertion
    /// always takes the head of this sequence.
    pub closed spec fn free_order(&self) -> Seq<int> {
        self.free_chain@
    }

    /// Whether slot `i` is live.
    pub closed spec fn live_at(&self, i: int) -> bool {
        0 <= i < self.spec_capacity() && self.slots@[i].is_live()
    }

    /// The current generation of slot `i`.
    pub closed spec fn gen_at(&self, i: int) -> int {
        self.slots@[i].generation()
    }

    /// The payload storage of slot `i` (written at most once, kept across
    /// removal and reuse).
    pub closed spec fn stored_at(&self, i: int) -> Option<T> {
        self.slots@[i].stored()
    }

    /// The stored value of slot `i`, for slots whose storage was written.
    pub open spec fn value_at(&self, i: int) -> T {
        self.stored_at(i)->0
    }

    /// A reference is valid exactly when it names a live slot within
    /// capacity whose current generation is the one the reference carries.
    pub open spec fn ref_valid(&self, r: SlotPoolRef) -> bool {
        &&& 0 <= r.index_spec() < self.spec_capacity()
        &&& self.live_at(r.index_spec())
        &&& self.gen_at(r.index_spec()) == r.gen_spec()
    }

    /// Every live generation lies strictly below the counter, so the next
    /// issued generation is distinct from every generation currently visible.
    /// Holds for every pool that has not wrapped the counter.
    pub open spec fn fresh_gens(&self) -> bool {
        forall|i: int| self.live_at(i) ==> self.gen_at(i) < self.gen_counter()
    }

    /// Well-formedness: scalars in range, the ghost free order is an exact,
    /// duplicate-free mirror of the intrusive chain, precisely the chained
    /// slots are free, and live slots sit below the high-water mark with
    /// their storage written.
    pub closed spec fn wf(&self) -> bool {
        let cap = self.spec_capacity();
        let chain = self.free_chain@;
        &&& cap <= crate::max_arena_capacity()
        &&& 0 <= self.version as int
        &&& (self.version as int) < crate::generation_modulus()
        &&& 0 <= self.last as int <= cap
        &&& self.len as int == cap - chain.len()
        &&& chain.len() <= cap
        &&& (forall|k: int| 0 <= k < chain.len() ==> 0 <= #[trigger] chain[k] < cap)
        &&& chain.no_duplicates()
        &&& (forall|k: int| 0 <= k < chain.len() ==> (#[trigger] self.slots@[chain[k]].is_free()))
        &&& (forall|k: int|
            0 <= k < chain.len() ==> (#[trigger] self.slots@[chain[k]].next_free()) == if k + 1
                < chain.len() {
                chain[k + 1]
            } else {
                cap
            })
        &&& self.first_free as int == if chain.len() == 0 {
            cap
        } else {
            chain[0]
        }
        &&& (forall|i: int|
            0 <= i < cap ==> ((#[trigger] self.slots@[i].is_free()) <==> chain.contains(i)))
        &&& (forall|i: int|
            0 <= i < cap && !(#[trigger] self.slots@[i].is_free()) ==> self.slots@[i].is_live())
        &&& (forall|i: int|
            0 <= i < cap && (#[trigger] self.slots@[i].is_live()) ==> i < self.last as int
                && self.slots@[i].stored() is Some)
    }

    /// Builds a pool over the given slots.  Any states the slots carried are
    /// overwritten with the seed free chain `0 -> 1 -> ... -> cap-1`, but any
    /// payload already stored in a slot is kept, consistent with the
    /// persistent-storage contract.
    pub fn new(slots: Vec<Slot<T>>) -> (pool: Self)
        requires
            slots@.len() <= crate::max_arena_capacity(),
        ensures
            pool.wf(),
            pool.fresh_gens(),
            pool.spec_capacity() == slots@.len(),
            pool.spec_len() == 0,
            pool.gen_counter() == 0,
            pool.high_water() == 0,
            pool.free_order() == Seq::new(slots@.len(), |k: int| k),
            forall|i: int|
                0 <= i < slots@.len() ==> #[trigger] pool.stored_at(i) == slots@[i].stored(),
            forall|i: int| !pool.live_at(i),
    {
        let mut slots = slots;
        let ghost orig = slots@;
        let n = slots.len();
        let mut i: usize = 0;
        while i < n
            invariant
                i <= n,
                n == slots@.len(),
                n <= crate::max_arena_capacity(),
                forall|j: int| 0 <= j < i ==> (#[trigger] slots@[j].version) as int == -j - 3,
                forall|j: int| 0 <= j < n ==> #[trigger] slots@[j].elem == orig[j].elem,
            decreases n - i,
        {
            self_seed(&mut slots, i);
            i += 1;
        }
        let pool = SlotPool {
            slots,
            first_free: 0,
            len: 0,
            version: 0,
            last: 0,
            free_chain: Ghost(Seq::new(n as nat, |k: int| k)),
        };
        proof {
            let chain = pool.free_chain@;
            let cap = pool.spec_capacity();
            assert forall|idx: int| 0 <= idx < cap implies ((#[trigger] pool.slots@[idx].is_free())
                <==> chain.contains(idx)) by {
                assert(chain[idx] == idx);
            }
            assert(pool.free_order() == Seq::new(slots@.len(), |k: int| k));
        }
        pool
    }

    /// Builds a pool of `cap` unused slots.
    pub fn new_vec(cap: usize) -> (pool: Self)
        requires
            cap <= crate::max_arena_capacity(),
        ensures
            pool.wf(),
            pool.fresh_gens(),
            pool.spec_capacity() == cap,
            pool.spec_len() == 0,
            pool.gen_counter() == 0,
            pool.high_water() == 0,
            pool.free_order() == Seq::new(cap as nat, |k: int| k),
            forall|i: int| 0 <= i < cap ==> #[trigger] pool.stored_at(i) is None,
            forall|i: int| !pool.live_at(i),
    {
        let mut v: Vec<Slot<T>> = Vec::new();
        while v.len() < cap
            invariant
                v@.len() <= cap,
                forall|j: int| 0 <= j < v@.len() ==> #[trigger] v@[j].elem is None,
            decreases cap - v@.len(),
        {
            v.push(Slot { elem: None, version: 0 });
        }
        Self::new(v)
    }


    /// The live count is the capacity less the length of the free order, and
    /// never exceeds the capacity.
    pub proof fn lemma_live_count_bounded(&self)
        requires
            self.wf(),
        ensures
            0 <= self.spec_len() <= self.spec_capacity(),
            self.spec_len() == self.spec_capacity() - self.free_order().len(),
    {
    }

    /// Number of live slots.
    pub fn len(&self) -> (n: usize)
        requires
            self.wf(),
        ensures
            n == self.spec_len(),
    {
        self.len as usize
    }

    /// Whether no slot is live.
    pub fn is_empty(&self) -> (b: bool)
        requires
            self.wf(),
        ensures
            b <==> self.spec_len() == 0,
    {
        self.len() == 0
    }

    /// The fixed number of slots.
    pub fn capacity(&self) -> (n: usize)
        ensures
            n == self.spec_capacity(),
    {
        self.slots.len()
    }
}

impl<T> SlotPool<T> {
    /// Inserts a value, reusing the most recently freed slot.
    ///
    /// Fails with `None` exactly when the arena is full, leaving it
    /// untouched.  On success the returned reference carries the issued
    /// generation, which equals the old counter; the counter advances by one
    /// modulo `2^31`.  The slot's payload is written only if this is the
    /// first use of that physical slot: a slot whose storage was already
    /// written keeps its old value and only the new generation is installed.
    pub fn insert(&mut self, value: T) -> (r: Option<SlotPoolRef>)
        requires
            old(self).wf(),
        ensures
            final(self).wf(),
            final(self).spec_capacity() == old(self).spec_capacity(),
            old(self).spec_len() == old(self).spec_capacity() ==> r is None && *final(self)
                == *old(self),
            old(self).spec_len() < old(self).spec_capacity() ==> {
                let idx = old(self).free_order()[0];
                &&& r is Some
                &&& r->0.index_spec() == idx
                &&& r->0.gen_spec() == old(self).gen_counter()
                &&& final(self).ref_valid(r->0)
                &&& final(self).live_at(idx)
                &&& final(self).gen_at(idx) == old(self).gen_counter()
                &&& final(self).stored_at(idx) == if old(self).stored_at(idx) is Some {
                    old(self).stored_at(idx)
                } else {
                    Some(value)
                }
                &&& forall|j: int|
                    #![trigger final(self).live_at(j)]
                    #![trigger final(self).stored_at(j)]
                    #![trigger final(self).gen_at(j)]
                    0 <= j < old(self).spec_capacity() && j != idx ==> final(self).live_at(j)
                        == old(self).live_at(j) && final(self).stored_at(j)
                        == old(self).stored_at(j) && final(self).gen_at(j) == old(self).gen_at(j)
                &&& final(self).spec_len() == old(self).spec_len() + 1
                &&& final(self).gen_counter() == if old(self).gen_counter() + 1
                    == crate::generation_modulus() {
                    0
                } else {
                    old(self).gen_counter() + 1
                }
                &&& final(self).free_order() == old(self).free_order().drop_first()
                &&& final(self).high_water() == if idx + 1 > old(self).high_water() {
                    idx + 1
                } else {
                    old(self).high_water()
                }
                &&& forall|p: SlotPoolRef|
                    p.gen_spec() < old(self).gen_counter() ==> ((#[trigger] final(self).ref_valid(
                        p,
                    )) <==> old(self).ref_valid(p) && p.index_spec() != idx)
            },
            old(self).fresh_gens() && old(self).gen_counter() + 1 < crate::generation_modulus()
                ==> final(self).fresh_gens(),
    {
        proof {
            lemma_chain_in_range_bound(self.free_chain@, self.spec_capacity());
        }
        if self.len == self.slots.len() as i32 {
            assert(self.free_chain@.len() == 0);
            return None;
        }
        assert(self.free_chain@.len() > 0);
        let idx = self.first_free as usize;
        let v = self.version;
        proof {
            assert(idx as int == self.free_chain@[0]);
            assert(self.slots@[idx as int].is_free());
            assert(self.slots@[idx as int].next_free() == if 1 < self.free_chain@.len() {
                self.free_chain@[1]
            } else {
                self.spec_capacity()
            });
            assert(0 <= self.slots@[idx as int].next_free() <= self.spec_capacity());
        }
        let next = -self.slots[idx].version - 2;
        self.first_free = next;
        self.version = if v == 0x7fff_ffff {
            0
        } else {
            v + 1
        };
        self.slots[idx].version = v;
        if idx + 1 > self.last as usize {
            self.last = (idx + 1) as i32;
        }
        if self.slots[idx].elem.is_none() {
            self.slots[idx].elem = Some(value);
        }
        self.len = self.len + 1;
        let ghost old_chain = self.free_chain@;
        self.free_chain = Ghost(self.free_chain@.drop_first());
        proof {
            let cap = self.spec_capacity();
            let chain = self.free_chain@;
            assert forall|k: int| 0 <= k < chain.len() implies (#[trigger] self.slots@[chain[k]].is_free())
                && self.slots@[chain[k]].next_free() == (if k + 1 < chain.len() {
                chain[k + 1]
            } else {
                cap
            }) by {
                assert(chain[k] == old_chain[k + 1]);
                assert(old_chain[k + 1] != old_chain[0]);
            }
            assert forall|i: int| 0 <= i < cap implies ((#[trigger] self.slots@[i].is_free())
                <==> chain.contains(i)) by {
                if self.slots@[i].is_free() {
                    assert(i != idx as int);
                    assert(old_chain.contains(i));
                    let k = choose|k: int| 0 <= k < old_chain.len() && old_chain[k] == i;
                    assert(k != 0);
                    assert(chain[k - 1] == i);
                } else {
                    if chain.contains(i) {
                        let k = choose|k: int| 0 <= k < chain.len() && chain[k] == i;
                        assert(old_chain[k + 1] == i);
                        assert(old_chain[k + 1] != old_chain[0]);
                    }
                }
            }
            if old(self).fresh_gens() && old(self).gen_counter() + 1
                < crate::generation_modulus() {
                assert forall|i: int| self.live_at(i) implies self.gen_at(i)
                    < self.gen_counter() by {
                    if i != idx as int {
                        assert(old(self).live_at(i));
                    }
                }
            }
        }
        Some(SlotPoolRef { index: idx, version: v })
    }
}

impl<T> SlotPool<T> {
    /// Removes the value a reference points at; a stale or out-of-range
    /// reference makes this a tolerated no-op.
    ///
    /// The freed slot becomes the new head of the free list, so it is the
    /// first to be reused.  The high-water mark shrinks (by one) exactly when
    /// the freed slot was the highest in use.  The slot's storage is kept in
    /// place: this arena never destroys a payload once written.
    pub fn remove(&mut self, r: &SlotPoolRef)
        requires
            old(self).wf(),
        ensures
            final(self).wf(),
            final(self).spec_capacity() == old(self).spec_capacity(),
            final(self).gen_counter() == old(self).gen_counter(),
            old(self).fresh_gens() ==> final(self).fresh_gens(),
            !old(self).ref_valid(*r) ==> *final(self) == *old(self),
            old(self).ref_valid(*r) ==> {
                let idx = r.index_spec();
                &&& !final(self).live_at(idx)
                &&& final(self).stored_at(idx) == old(self).stored_at(idx)
                &&& forall|j: int|
                    #![trigger final(self).live_at(j)]
                    #![trigger final(self).stored_at(j)]
                    #![trigger final(self).gen_at(j)]
                    0 <= j < old(self).spec_capacity() && j != idx ==> final(self).live_at(j)
                        == old(self).live_at(j) && final(self).stored_at(j)
                        == old(self).stored_at(j) && final(self).gen_at(j) == old(self).gen_at(j)
                &&& final(self).spec_len() == old(self).spec_len() - 1
                &&& final(self).free_order() == seq![idx] + old(self).free_order()
                &&& final(self).high_water() == if idx + 1 == old(self).high_water() {
                    idx
                } else {
                    old(self).high_water()
                }
                &&& forall|p: SlotPoolRef|
                    (#[trigger] final(self).ref_valid(p)) <==> old(self).ref_valid(p)
                        && p.index_spec() != idx
            },
    {
        if r.index < self.slots.len() && r.version >= 0 && self.slots[r.index].version
            == r.version {
            let idx = r.index;
            proof {
                assert(self.slots@[idx as int].is_live());
                assert(!self.slots@[idx as int].is_free());
                assert(!self.free_chain@.contains(idx as int));
                lemma_chain_in_range_bound(
                    self.free_chain@.push(idx as int),
                    self.spec_capacity(),
                );
            }
            let ff = self.first_free;
            self.slots[idx].version = -ff - 2;
            self.first_free = idx as i32;
            self.len = self.len - 1;
            if idx + 1 == self.last as usize {
                self.last = idx as i32;
            }
            let ghost old_chain = self.free_chain@;
            self.free_chain = Ghost(seq![idx as int] + self.free_chain@);
            proof {
                let cap = self.spec_capacity();
                let chain = self.free_chain@;
                assert forall|k: int| 0 <= k < chain.len() implies (
                #[trigger] self.slots@[chain[k]].is_free()) && self.slots@[chain[k]].next_free()
                    == (if k + 1 < chain.len() {
                    chain[k + 1]
                } else {
                    cap
                }) by {
                    if k > 0 {
                        assert(chain[k] == old_chain[k - 1]);
                        assert(chain[k] != idx as int);
                    }
                }
                assert forall|i: int| 0 <= i < cap implies ((#[trigger] self.slots@[i].is_free())
                    <==> chain.contains(i)) by {
                    if self.slots@[i].is_free() {
                        if i == idx as int {
                            assert(chain[0] == i);
                        } else {
                            assert(old_chain.contains(i));
                            let k = choose|k: int|
                                0 <= k < old_chain.len() && old_chain[k] == i;
                            assert(chain[k + 1] == i);
                        }
                    }
                }
                if old(self).fresh_gens() {
                    assert forall|i: int| self.live_at(i) implies self.gen_at(i)
                        < self.gen_counter() by {
                        assert(old(self).live_at(i));
                    }
                }
            }
        }
    }

    /// The value stored at `index`, if that slot is live.
    pub fn get(&self, index: usize) -> (r: Option<&T>)
        requires
            self.wf(),
        ensures
            self.live_at(index as int) ==> r is Some && *r->0 == self.value_at(index as int),
            !self.live_at(index as int) ==> r is None,
    {
        if index < self.slots.len() && self.slots[index].version >= 0 {
            self.slots[index].elem.as_ref()
        } else {
            None
        }
    }

    /// Refreshes the stored value behind a valid reference, handing back the
    /// previous one; a stale reference makes this a no-op that returns
    /// `None`.  This is how the holder of a reused slot replaces the
    /// persistent contents, since insertion deliberately leaves them alone.
    pub fn replace(&mut self, r: &SlotPoolRef, value: T) -> (prev: Option<T>)
        requires
            old(self).wf(),
        ensures
            final(self).wf(),
            !old(self).ref_valid(*r) ==> prev is None && *final(self) == *old(self),
            old(self).ref_valid(*r) ==> {
                let idx = r.index_spec();
                &&& prev == Some(old(self).value_at(idx))
                &&& final(self).stored_at(idx) == Some(value)
                &&& forall|j: int|
                    #![trigger final(self).stored_at(j)]
                    0 <= j < old(self).spec_capacity() && j != idx ==> final(self).stored_at(j)
                        == old(self).stored_at(j)
                &&& forall|j: int|
                    #![trigger final(self).live_at(j)]
                    #![trigger final(self).gen_at(j)]
                    0 <= j < old(self).spec_capacity() ==> final(self).live_at(j) == old(
                        self,
                    ).live_at(j) && final(self).gen_at(j) == old(self).gen_at(j)
                &&& final(self).spec_len() == old(self).spec_len()
                &&& final(self).gen_counter() == old(self).gen_counter()
                &&& final(self).high_water() == old(self).high_water()
                &&& final(self).free_order() == old(self).free_order()
            },
    {
        if r.index < self.slots.len() && r.version >= 0 && self.slots[r.index].version
            == r.version {
            proof {
                assert(self.slots@[r.index as int].is_live());
                assert(self.slots@[r.index as int].stored() is Some);
            }
            let mut v = Some(value);
            core::mem::swap(&mut self.slots[r.index].elem, &mut v);
            proof {
                let other = *old(self);
                let cap = self.spec_capacity();
                let chain = self.free_chain@;
                assert forall|k: int| 0 <= k < chain.len() implies (
                #[trigger] self.slots@[chain[k]].is_free()) by {
                    assert(other.slots@[chain[k]].is_free());
                    assert(chain[k] != r.index as int);
                }
                assert forall|k: int| 0 <= k < chain.len() implies (
                #[trigger] self.slots@[chain[k]].next_free()) == (if k + 1 < chain.len() {
                    chain[k + 1]
                } else {
                    cap
                }) by {
                    assert(other.slots@[chain[k]].next_free() == if k + 1 < chain.len() {
                        chain[k + 1]
                    } else {
                        cap
                    });
                    assert(chain[k] != r.index as int);
                }
                assert forall|i: int| 0 <= i < cap implies ((#[trigger] self.slots@[i].is_free())
                    <==> chain.contains(i)) by {
                    assert(other.slots@[i].is_free() <==> chain.contains(i));
                    assert(self.slots@[i].state() == other.slots@[i].state());
                }
                assert forall|i: int|
                    0 <= i < cap && !(#[trigger] self.slots@[i].is_free()) implies self.slots@[i].is_live() by {
                    assert(!other.slots@[i].is_free());
                }
                assert forall|i: int|
                    0 <= i < cap && (#[trigger] self.slots@[i].is_live()) implies i
                    < self.last as int && self.slots@[i].stored() is Some by {
                    assert(other.slots@[i].is_live());
                }
            }
            v
        } else {
            None
        }
    }
}

impl<T> SlotPool<T> {
    /// The values of the live slots with index below `n`, in index order.
    pub closed spec fn live_seq_up_to(&self, n: int) -> Seq<T>
        decreases n,
    {
        if n <= 0 {
            Seq::empty()
        } else if self.live_at(n - 1) {
            self.live_seq_up_to(n - 1).push(self.value_at(n - 1))
        } else {
            self.live_seq_up_to(n - 1)
        }
    }

    /// The values of all live slots, in index order.
    pub open spec fn live_seq(&self) -> Seq<T> {
        self.live_seq_up_to(self.high_water())
    }

    /// The live values in index order.  The scan is bounded by the high-water
    /// mark: slot indices that were never used are not examined.
    pub fn iter(&self) -> (r: Vec<&T>)
        requires
            self.wf(),
        ensures
            r@.len() == self.live_seq().len(),
            forall|k: int| 0 <= k < r@.len() ==> *(#[trigger] r@[k]) == self.live_seq()[k],
    {
        let mut out: Vec<&T> = Vec::new();
        let mut i: usize = 0;
        let bound = self.last as usize;
        while i < bound
            invariant
                self.wf(),
                bound == self.high_water(),
                i <= bound,
                out@.len() == self.live_seq_up_to(i as int).len(),
                forall|k: int|
                    0 <= k < out@.len() ==> *(#[trigger] out@[k]) == self.live_seq_up_to(
                        i as int,
                    )[k],
            decreases bound - i,
        {
            if self.slots[i].version >= 0 {
                match self.slots[i].elem.as_ref() {
                    Some(v) => out.push(v),
                    None => (),
                }
            }
            i += 1;
        }
        out
    }

    /// Releases every live slot and resets the arena to its freshly built
    /// shape: nothing live, the free list re-seeded to `0 -> 1 -> ...`, the
    /// high-water mark back at zero.  The generation counter is deliberately
    /// not reset, so references issued before the clear stay distinguishable
    /// from everything issued after it.  Slot storage is kept in place, as
    /// everywhere in this arena.
    pub fn clear(&mut self)
        requires
            old(self).wf(),
        ensures
            final(self).wf(),
            final(self).fresh_gens(),
            final(self).spec_capacity() == old(self).spec_capacity(),
            final(self).gen_counter() == old(self).gen_counter(),
            final(self).spec_len() == 0,
            final(self).high_water() == 0,
            final(self).free_order() == Seq::new(old(self).spec_capacity() as nat, |k: int| k),
            forall|i: int| !final(self).live_at(i),
            forall|i: int|
                0 <= i < old(self).spec_capacity() ==> #[trigger] final(self).stored_at(i) == old(
                    self,
                ).stored_at(i),
    {
        let n = self.slots.len();
        let mut i: usize = 0;
        while i < n
            invariant
                i <= n,
                n == self.slots@.len(),
                n <= crate::max_arena_capacity(),
                forall|j: int|
                    0 <= j < i ==> (#[trigger] self.slots@[j].version) as int == -j - 3,
                forall|j: int|
                    0 <= j < n ==> #[trigger] self.slots@[j].elem == old(self).slots@[j].elem,
                self.first_free == old(self).first_free,
                self.len == old(self).len,
                self.version == old(self).version,
                self.last == old(self).last,
            decreases n - i,
        {
            self_seed(&mut self.slots, i);
            i += 1;
        }
        self.first_free = 0;
        self.len = 0;
        self.last = 0;
        self.free_chain = Ghost(Seq::new(n as nat, |k: int| k));
        proof {
            let chain = self.free_chain@;
            let cap = self.spec_capacity();
            assert forall|idx: int| 0 <= idx < cap implies ((#[trigger] self.slots@[idx].is_free())
                <==> chain.contains(idx)) by {
                assert(chain[idx] == idx);
            }
        }
    }
}

/// A duplicate-free sequence of indices drawn from `[0, cap)` cannot be
/// longer than `cap`.
proof fn lemma_chain_in_range_bound(chain: Seq<int>, cap: int)
    requires
        cap >= 0,
        chain.no_duplicates(),
        forall|k: int| 0 <= k < chain.len() ==> 0 <= #[trigger] chain[k] < cap,
    ensures
        chain.len() <= cap,
{
    chain.unique_seq_to_set();
    assert forall|x: int| chain.to_set().contains(x) implies set_int_range(0, cap).contains(x) by {
        assert(chain.contains(x));
    }
    lemma_int_range(0, cap);
    lemma_len_subset(chain.to_set(), set_int_range(0, cap));
}

/// Writes the seed state of slot `i`: free, chaining to slot `i + 1`.
fn self_seed<T>(slots: &mut Vec<Slot<T>>, i: usize)
    requires
        i < old(slots)@.len(),
        old(slots)@.len() <= crate::max_arena_capacity(),
    ensures
        final(slots)@.len() == old(slots)@.len(),
        final(slots)@[i as int].version as int == -(i as int) - 3,
        final(slots)@[i as int].elem == old(slots)@[i as int].elem,
        forall|j: int|
            0 <= j < old(slots)@.len() && j != i ==> #[trigger] final(slots)@[j] == old(slots)@[j],
{
    slots[i].version = -(i as i32) - 3;
}

/// Any two references that are simultaneously valid for the same slot are the
/// same reference: validity pins both the slot index and the generation, so a
/// slot never validates a reference it did not issue its current generation
/// to.
pub proof fn lemma_valid_refs_agree<T>(pool: &SlotPool<T>, a: SlotPoolRef, b: SlotPoolRef)
    requires
        pool.ref_valid(a),
        pool.ref_valid(b),
        a.index_spec() == b.index_spec(),
    ensures
        a == b,
{
}

/// A valid reference always carries a generation strictly below the arena's
/// counter, so the generation issued by the next insertion cannot collide
/// with any reference that is currently valid.
pub proof fn lemma_valid_gen_below_counter<T>(pool: &SlotPool<T>, r: SlotPoolRef)
    requires
        pool.wf(),
        pool.fresh_gens(),
        pool.ref_valid(r),
    ensures
        r.gen_spec() < pool.gen_counter(),
{
    assert(pool.live_at(r.index_spec()));
}

} // verus!
