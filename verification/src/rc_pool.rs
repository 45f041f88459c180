//! Reference-counted generational arena.
//!
//! `RcPool` is the shared-ownership variant of the arena: a live slot may be
//! pointed at by many strong references, and the pool keeps a per-slot strong
//! count.  Creating a strong reference (by insertion, by cloning, or by
//! upgrading a weak reference) increments the count; releasing one decrements
//! it.  A weak reference never touches the count and never keeps a value
//! alive; it can only attempt to re-acquire a strong reference while its slot
//! is still valid.  Removing a slot that still has strong references is a
//! programming error, not a runtime condition: `remove` statically requires
//! the count to be zero, mirroring the fail-fast ownership violation.
//!
//! Unlike the persistent arena in `slot_pool`, insertion here always stores
//! the supplied value and removal always destroys the stored one.

use vstd::prelude::*;
use vstd::seq_lib::*;
use vstd::set_lib::*;

verus! {

/// One storage cell of the arena: an optional payload, the `i32` state field
/// shared with the other arenas (`state >= 0`: live with that generation;
/// `state <= -2`: free, chaining to slot `-(state) - 2`), and the strong
/// reference count of the current occupant.
pub struct Slot<T> {
    elem: Option<T>,
    version: i32,
    ref_count: u32,
}

impl<T> Slot<T> {
    /// The payload storage of the slot.
    pub closed spec fn stored(&self) -> Option<T> {
        self.elem
    }

    /// The raw state field.
    pub closed spec fn state(&self) -> int {
        self.version as int
    }

    /// The strong reference count of the slot's occupant.
    pub closed spec fn count(&self) -> int {
        self.ref_count as int
    }

    /// A slot is live when its state is a (non-negative) generation.
    pub open spec fn is_live(&self) -> bool {
        self.state() >= 0
    }

    /// The generation of a live slot.
    pub open spec fn generation(&self) -> int {
        self.state()
    }

    /// A slot is free when its state encodes a free-list link.
    pub open spec fn is_free(&self) -> bool {
        self.state() <= -2
    }

    /// The index of the next free slot encoded in a free slot's state.
    pub open spec fn next_free(&self) -> int {
        -self.state() - 2
    }
}

impl<T> Default for Slot<T> {
    /// An unused slot: no payload, state field and count zeroed.
    fn default() -> (s: Self)
        ensures
            s.stored() is None,
            s.state() == 0,
            s.count() == 0,
    {
        Slot { elem: None, version: 0, ref_count: 0 }
    }
}

/// A counted handle on a live slot: while it exists, removal of the slot is
/// forbidden.  It is deliberately neither `Clone` nor `Copy`: duplicating it
/// goes through [`RcPool::clone_ref`], which accounts for the copy, and
/// disposing of it goes through [`RcPool::release`], which consumes it.
#[derive(Hash, Debug)]
pub struct StrongRef {
    index: usize,
    version: i32,
}

impl StrongRef {
    /// The index of the slot this reference was issued against.
    pub closed spec fn index_spec(&self) -> int {
        self.index as int
    }

    /// The generation this reference was issued with.
    pub closed spec fn gen_spec(&self) -> int {
        self.version as int
    }

    /// The slot index, for callers that keep raw positions alongside.
    pub fn index(&self) -> (i: usize)
        ensures
            i == self.index_spec(),
    {
        self.index
    }

    /// The uncounted view of this reference: same slot, same generation,
    /// no effect on the strong count.
    pub fn weak(&self) -> (w: WeakRef)
        ensures
            w.index_spec() == self.index_spec(),
            w.gen_spec() == self.gen_spec(),
    {
        WeakRef { index: self.index, version: self.version }
    }

    /// Converts to the uncounted form; a strong reference converts losslessly
    /// at any time without touching the count.
    pub fn downgrade(&self) -> (w: WeakRef)
        ensures
            w.index_spec() == self.index_spec(),
            w.gen_spec() == self.gen_spec(),
    {
        self.weak()
    }
}

/// An uncounted handle: the slot index paired with the generation the slot
/// carried when the handle was made.  It observes without keeping the value
/// alive, and must be upgraded to a strong reference to act on the value.
#[derive(Clone, Copy, PartialEq, Eq, Structural, Hash, Debug)]
pub struct WeakRef {
    index: usize,
    version: i32,
}

impl WeakRef {
    /// The index of the slot this reference was issued against.
    pub closed spec fn index_spec(&self) -> int {
        self.index as int
    }

    /// The generation this reference was issued with.
    pub closed spec fn gen_spec(&self) -> int {
        self.version as int
    }

    /// The slot index, for callers that keep raw positions alongside.
    pub fn index(&self) -> (i: usize)
        ensures
            i == self.index_spec(),
    {
        self.index
    }

    /// Whether the slot this reference was issued against still carries the
    /// same generation.
    pub fn is_valid<T>(&self, pool: &RcPool<T>) -> (b: bool)
        ensures
            b <==> pool.ref_valid(*self),
    {
        self.index < pool.slots.len() && self.version >= 0 && pool.slots[self.index].version
            == self.version
    }

    /// Upgrades to a counted reference: succeeds, and increments the strong
    /// count, exactly when this reference is still valid.
    pub fn get<T>(&self, pool: &mut RcPool<T>) -> (r: Option<StrongRef>)
        requires
            old(pool).wf(),
            old(pool).ref_valid(*self) ==> old(pool).count_at(self.index_spec())
                < u32::MAX as int,
        ensures
            final(pool).wf(),
            !old(pool).ref_valid(*self) ==> r is None && *final(pool) == *old(pool),
            old(pool).ref_valid(*self) ==> {
                &&& r is Some
                &&& r->0.index_spec() == self.index_spec()
                &&& r->0.gen_spec() == self.gen_spec()
                &&& final(pool).count_at(self.index_spec()) == old(pool).count_at(
                    self.index_spec(),
                ) + 1
                &&& final(pool).eq_but_count(*old(pool), self.index_spec())
            },
    {
        if self.index < pool.slots.len() && self.version >= 0 && pool.slots[self.index].version
            == self.version {
            pool.acquire_at(self.index);
            Some(StrongRef { index: self.index, version: self.version })
        } else {
            None
        }
    }

    /// Re-acquires a counted reference: succeeds, and increments the strong
    /// count, exactly when this reference is still valid.
    pub fn upgrade<T>(&self, pool: &mut RcPool<T>) -> (r: Option<StrongRef>)
        requires
            old(pool).wf(),
            old(pool).ref_valid(*self) ==> old(pool).count_at(self.index_spec())
                < u32::MAX as int,
        ensures
            final(pool).wf(),
            !old(pool).ref_valid(*self) ==> r is None && *final(pool) == *old(pool),
            old(pool).ref_valid(*self) ==> {
                &&& r is Some
                &&& r->0.index_spec() == self.index_spec()
                &&& r->0.gen_spec() == self.gen_spec()
                &&& final(pool).count_at(self.index_spec()) == old(pool).count_at(
                    self.index_spec(),
                ) + 1
                &&& final(pool).eq_but_count(*old(pool), self.index_spec())
            },
    {
        self.get(pool)
    }
}

/// Fixed-capacity arena with strong/weak reference counting.
///
/// The slot sequence is fixed at construction.  Four scalars complete the
/// state: the head of the intrusive free list (`first_free`), the live count
/// (`len`), the wrapping generation counter (`version`) and the high-water
/// mark (`last`).  A ghost sequence mirrors the exact order of the free
/// list.
pub struct RcPool<T> {
    slots: Vec<Slot<T>>,
    first_free: i32,
    len: i32,
    version: i32,
    last: i32,
    free_chain: Ghost<Seq<int>>,
}

impl<T> RcPool<T> {
    /// Number of slots, fixed at construction.
    pub closed spec fn spec_capacity(&self) -> int {
        self.slots.len() as int
    }

    /// Number of live slots.
    pub closed spec fn spec_len(&self) -> int {
        self.len as int
    }

    /// The generation that the next successful insertion will issue.
    pub closed spec fn gen_counter(&self) -> int {
        self.version as int
    }

    /// One past the highest index currently in use.
    pub closed spec fn high_water(&self) -> int {
        self.last as int
    }

    /// The indices of the free slots, most recently freed first.
    pub closed spec fn free_order(&self) -> Seq<int> {
        self.free_chain@
    }

    /// Whether slot `i` is live.
    pub closed spec fn live_at(&self, i: int) -> bool {
        0 <= i < self.spec_capacity() && self.slots@[i].is_live()
    }

    /// The current generation of slot `i`.
    pub closed spec fn gen_at(&self, i: int) -> int {
        self.slots@[i].generation()
    }

    /// The payload storage of slot `i`.
    pub closed spec fn stored_at(&self, i: int) -> Option<T> {
        self.slots@[i].stored()
    }

    /// The stored value of live slot `i`.
    pub open spec fn value_at(&self, i: int) -> T {
        self.stored_at(i)->0
    }

    /// The strong count of slot `i`.
    pub closed spec fn count_at(&self, i: int) -> int {
        self.slots@[i].count()
    }

    /// A reference is valid exactly when it names a live slot within
    /// capacity whose current generation is the one the reference carries.
    pub open spec fn ref_valid(&self, r: WeakRef) -> bool {
        &&& 0 <= r.index_spec() < self.spec_capacity()
        &&& self.live_at(r.index_spec())
        &&& self.gen_at(r.index_spec()) == r.gen_spec()
    }

    /// Validity of a strong reference: same criterion as for weak ones.
    pub open spec fn strong_valid(&self, r: StrongRef) -> bool {
        &&& 0 <= r.index_spec() < self.spec_capacity()
        &&& self.live_at(r.index_spec())
        &&& self.gen_at(r.index_spec()) == r.gen_spec()
    }

    /// Every live generation lies strictly below the counter.  Holds for
    /// every pool that has not wrapped the counter.
    pub open spec fn fresh_gens(&self) -> bool {
        forall|i: int| self.live_at(i) ==> self.gen_at(i) < self.gen_counter()
    }

    /// The two pools agree on everything except possibly the strong count of
    /// slot `i`.
    pub open spec fn eq_but_count(&self, other: Self, i: int) -> bool {
        &&& self.spec_capacity() == other.spec_capacity()
        &&& self.spec_len() == other.spec_len()
        &&& self.gen_counter() == other.gen_counter()
        &&& self.high_water() == other.high_water()
        &&& self.free_order() == other.free_order()
        &&& (forall|j: int|
            #![trigger self.live_at(j)]
            #![trigger self.stored_at(j)]
            #![trigger self.gen_at(j)]
            0 <= j < self.spec_capacity() ==> self.live_at(j) == other.live_at(j)
                && self.stored_at(j) == other.stored_at(j) && self.gen_at(j) == other.gen_at(j))
        &&& (forall|j: int|
            0 <= j < self.spec_capacity() && j != i ==> #[trigger] self.count_at(j)
                == other.count_at(j))
    }

    /// Well-formedness: scalars in range, the ghost free order an exact
    /// duplicate-free mirror of the intrusive chain, precisely the chained
    /// slots free, and live slots below the high-water mark with their
    /// storage present.
    pub closed spec fn wf(&self) -> bool {
        let cap = self.spec_capacity();
        let chain = self.free_chain@;
        &&& cap <= crate::max_arena_capacity()
        &&& 0 <= self.version as int
        &&& (self.version as int) < crate::generation_modulus()
        &&& 0 <= self.last as int <= cap
        &&& self.len as int == cap - chain.len()
        &&& chain.len() <= cap
        &&& (forall|k: int| 0 <= k < chain.len() ==> 0 <= #[trigger] chain[k] < cap)
        &&& chain.no_duplicates()
        &&& (forall|k: int| 0 <= k < chain.len() ==> (#[trigger] self.slots@[chain[k]].is_free()))
        &&& (forall|k: int|
            0 <= k < chain.len() ==> (#[trigger] self.slots@[chain[k]].next_free()) == if k + 1
                < chain.len() {
                chain[k + 1]
            } else {
                cap
            })
        &&& self.first_free as int == if chain.len() == 0 {
            cap
        } else {
            chain[0]
        }
        &&& (forall|i: int|
            0 <= i < cap ==> ((#[trigger] self.slots@[i].is_free()) <==> chain.contains(i)))
        &&& (forall|i: int|
            0 <= i < cap && !(#[trigger] self.slots@[i].is_free()) ==> self.slots@[i].is_live())
        &&& (forall|i: int|
            0 <= i < cap && (#[trigger] self.slots@[i].is_live()) ==> i < self.last as int
                && self.slots@[i].stored() is Some)
    }

    /// Builds a pool over the given slots.  Any states the slots carried are
    /// overwritten with the seed free chain `0 -> 1 -> ... -> cap-1`.
    pub fn new(slots: Vec<Slot<T>>) -> (pool: Self)
        requires
            slots@.len() <= crate::max_arena_capacity(),
        ensures
            pool.wf(),
            pool.fresh_gens(),
            pool.spec_capacity() == slots@.len(),
            pool.spec_len() == 0,
            pool.gen_counter() == 0,
            pool.high_water() == 0,
            pool.free_order() == Seq::new(slots@.len(), |k: int| k),
            forall|i: int| !pool.live_at(i),
    {
        let mut slots = slots;
        let n = slots.len();
        let mut i: usize = 0;
        while i < n
            invariant
                i <= n,
                n == slots@.len(),
                n <= crate::max_arena_capacity(),
                forall|j: int| 0 <= j < i ==> (#[trigger] slots@[j].version) as int == -j - 3,
            decreases n - i,
        {
            seed_slot(&mut slots, i);
            i += 1;
        }
        let pool = RcPool {
            slots,
            first_free: 0,
            len: 0,
            version: 0,
            last: 0,
            free_chain: Ghost(Seq::new(n as nat, |k: int| k)),
        };
        proof {
            let chain = pool.free_chain@;
            let cap = pool.spec_capacity();
            assert forall|idx: int| 0 <= idx < cap implies ((#[trigger] pool.slots@[idx].is_free())
                <==> chain.contains(idx)) by {
                assert(chain[idx] == idx);
            }
        }
        pool
    }

    /// Builds a pool of `cap` unused slots.
    pub fn new_vec(cap: usize) -> (pool: Self)
        requires
            cap <= crate::max_arena_capacity(),
        ensures
            pool.wf(),
            pool.fresh_gens(),
            pool.spec_capacity() == cap,
            pool.spec_len() == 0,
            pool.gen_counter() == 0,
            pool.high_water() == 0,
            pool.free_order() == Seq::new(cap as nat, |k: int| k),
            forall|i: int| !pool.live_at(i),
    {
        let mut v: Vec<Slot<T>> = Vec::new();
        while v.len() < cap
            invariant
                v@.len() <= cap,
            decreases cap - v@.len(),
        {
            v.push(Slot { elem: None, version: 0, ref_count: 0 });
        }
        Self::new(v)
    }


    /// The live count is the capacity less the length of the free order, and
    /// never exceeds the capacity.
    pub proof fn lemma_live_count_bounded(&self)
        requires
            self.wf(),
        ensures
            0 <= self.spec_len() <= self.spec_capacity(),
            self.spec_len() == self.spec_capacity() - self.free_order().len(),
    {
    }

    /// Number of live slots.
    pub fn len(&self) -> (n: usize)
        requires
            self.wf(),
        ensures
            n == self.spec_len(),
    {
        self.len as usize
    }

    /// Whether no slot is live.
    pub fn is_empty(&self) -> (b: bool)
        requires
            self.wf(),
        ensures
            b <==> self.spec_len() == 0,
    {
        self.len() == 0
    }

    /// The fixed number of slots.
    pub fn capacity(&self) -> (n: usize)
        ensures
            n == self.spec_capacity(),
    {
        self.slots.len()
    }

    /// The value stored at `index`, if that slot is live.
    pub fn get(&self, index: usize) -> (r: Option<&T>)
        requires
            self.wf(),
        ensures
            self.live_at(index as int) ==> r is Some && *r->0 == self.value_at(index as int),
            !self.live_at(index as int) ==> r is None,
    {
        if index < self.slots.len() && self.slots[index].version >= 0 {
            proof {
                assert(self.slots@[index as int].is_live());
            }
            self.slots[index].elem.as_ref()
        } else {
            None
        }
    }

    /// Increments the strong count of slot `index`.
    fn acquire_at(&mut self, index: usize)
        requires
            old(self).wf(),
            0 <= index < old(self).spec_capacity(),
            old(self).count_at(index as int) < u32::MAX as int,
        ensures
            final(self).wf(),
            final(self).count_at(index as int) == old(self).count_at(index as int) + 1,
            final(self).eq_but_count(*old(self), index as int),
    {
        self.slots[index].ref_count = self.slots[index].ref_count + 1;
        proof {
            self.lemma_wf_from_counts_changed(*old(self));
        }
    }

    /// Well-formedness does not depend on the strong counts: a pool that
    /// differs from a well-formed one only in its `ref_count` fields is
    /// well-formed too.
    proof fn lemma_wf_from_counts_changed(&self, other: Self)
        requires
            other.wf(),
            self.spec_capacity() == other.spec_capacity(),
            self.first_free == other.first_free,
            self.len == other.len,
            self.version == other.version,
            self.last == other.last,
            self.free_order() == other.free_order(),
            forall|i: int|
                0 <= i < self.spec_capacity() ==> (#[trigger] self.slots@[i].state())
                    == other.slots@[i].state() && self.slots@[i].stored()
                    == other.slots@[i].stored(),
        ensures
            self.wf(),
    {
        let cap = self.spec_capacity();
        let chain = self.free_chain@;
        assert forall|k: int| 0 <= k < chain.len() implies (
        #[trigger] self.slots@[chain[k]].is_free()) by {
            assert(other.slots@[chain[k]].is_free());
            assert(self.slots@[chain[k]].state() == other.slots@[chain[k]].state());
        }
        assert forall|k: int| 0 <= k < chain.len() implies (
        #[trigger] self.slots@[chain[k]].next_free()) == (if k + 1 < chain.len() {
            chain[k + 1]
        } else {
            cap
        }) by {
            assert(other.slots@[chain[k]].next_free() == if k + 1 < chain.len() {
                chain[k + 1]
            } else {
                cap
            });
            assert(self.slots@[chain[k]].state() == other.slots@[chain[k]].state());
        }
        assert forall|i: int| 0 <= i < cap implies ((#[trigger] self.slots@[i].is_free())
            <==> chain.contains(i)) by {
            assert(other.slots@[i].is_free() <==> chain.contains(i));
        }
        assert forall|i: int| 0 <= i < cap && !(#[trigger] self.slots@[i].is_free()) implies self
            .slots@[i].is_live() by {
            assert(!other.slots@[i].is_free());
        }
        assert forall|i: int| 0 <= i < cap && (#[trigger] self.slots@[i].is_live()) implies i
            < self.last as int && self.slots@[i].stored() is Some by {
            assert(other.slots@[i].is_live());
        }
    }
}

impl<T> RcPool<T> {
    /// Inserts a value, reusing the most recently freed slot, and returns a
    /// first strong reference to it: the slot starts with a strong count of
    /// one.
    ///
    /// Fails with `None` exactly when the arena is full, leaving it
    /// untouched.  The returned reference carries the issued generation,
    /// which equals the old counter; the counter advances by one modulo
    /// `2^31`.  Unlike the persistent arena, the supplied value is always
    /// stored.
    pub fn insert(&mut self, value: T) -> (r: Option<StrongRef>)
        requires
            old(self).wf(),
        ensures
            final(self).wf(),
            final(self).spec_capacity() == old(self).spec_capacity(),
            old(self).spec_len() == old(self).spec_capacity() ==> r is None && *final(self)
                == *old(self),
            old(self).spec_len() < old(self).spec_capacity() ==> {
                let idx = old(self).free_order()[0];
                &&& r is Some
                &&& r->0.index_spec() == idx
                &&& r->0.gen_spec() == old(self).gen_counter()
                &&& final(self).strong_valid(r->0)
                &&& final(self).live_at(idx)
                &&& final(self).gen_at(idx) == old(self).gen_counter()
                &&& final(self).stored_at(idx) == Some(value)
                &&& final(self).count_at(idx) == 1
                &&& forall|j: int|
                    #![trigger final(self).live_at(j)]
                    #![trigger final(self).stored_at(j)]
                    #![trigger final(self).gen_at(j)]
                    #![trigger final(self).count_at(j)]
                    0 <= j < old(self).spec_capacity() && j != idx ==> final(self).live_at(j)
                        == old(self).live_at(j) && final(self).stored_at(j)
                        == old(self).stored_at(j) && final(self).gen_at(j) == old(self).gen_at(j)
                        && final(self).count_at(j) == old(self).count_at(j)
                &&& final(self).spec_len() == old(self).spec_len() + 1
                &&& final(self).gen_counter() == if old(self).gen_counter() + 1
                    == crate::generation_modulus() {
                    0
                } else {
                    old(self).gen_counter() + 1
                }
                &&& final(self).free_order() == old(self).free_order().drop_first()
                &&& final(self).high_water() == if idx + 1 > old(self).high_water() {
                    idx + 1
                } else {
                    old(self).high_water()
                }
                &&& forall|p: WeakRef|
                    p.gen_spec() < old(self).gen_counter() ==> ((#[trigger] final(self).ref_valid(
                        p,
                    )) <==> old(self).ref_valid(p) && p.index_spec() != idx)
            },
            old(self).fresh_gens() && old(self).gen_counter() + 1 < crate::generation_modulus()
                ==> final(self).fresh_gens(),
    {
        proof {
            lemma_chain_in_range_bound(self.free_chain@, self.spec_capacity());
        }
        if self.len == self.slots.len() as i32 {
            assert(self.free_chain@.len() == 0);
            return None;
        }
        assert(self.free_chain@.len() > 0);
        let idx = self.first_free as usize;
        let v = self.version;
        proof {
            assert(idx as int == self.free_chain@[0]);
            assert(self.slots@[idx as int].is_free());
            assert(self.slots@[idx as int].next_free() == if 1 < self.free_chain@.len() {
                self.free_chain@[1]
            } else {
                self.spec_capacity()
            });
            assert(0 <= self.slots@[idx as int].next_free() <= self.spec_capacity());
        }
        let next = -self.slots[idx].version - 2;
        self.first_free = next;
        self.version = if v == 0x7fff_ffff {
            0
        } else {
            v + 1
        };
        self.slots[idx].version = v;
        self.slots[idx].ref_count = 1;
        self.slots[idx].elem = Some(value);
        if idx + 1 > self.last as usize {
            self.last = (idx + 1) as i32;
        }
        self.len = self.len + 1;
        let ghost old_chain = self.free_chain@;
        self.free_chain = Ghost(self.free_chain@.drop_first());
        proof {
            let cap = self.spec_capacity();
            let chain = self.free_chain@;
            assert forall|k: int| 0 <= k < chain.len() implies (#[trigger] self.slots@[chain[k]].is_free())
                && self.slots@[chain[k]].next_free() == (if k + 1 < chain.len() {
                chain[k + 1]
            } else {
                cap
            }) by {
                assert(chain[k] == old_chain[k + 1]);
                assert(old_chain[k + 1] != old_chain[0]);
            }
            assert forall|i: int| 0 <= i < cap implies ((#[trigger] self.slots@[i].is_free())
                <==> chain.contains(i)) by {
                if self.slots@[i].is_free() {
                    assert(i != idx as int);
                    assert(old_chain.contains(i));
                    let k = choose|k: int| 0 <= k < old_chain.len() && old_chain[k] == i;
                    assert(k != 0);
                    assert(chain[k - 1] == i);
                } else {
                    if chain.contains(i) {
                        let k = choose|k: int| 0 <= k < chain.len() && chain[k] == i;
                        assert(old_chain[k + 1] == i);
                        assert(old_chain[k + 1] != old_chain[0]);
                    }
                }
            }
            if old(self).fresh_gens() && old(self).gen_counter() + 1
                < crate::generation_modulus() {
                assert forall|i: int| self.live_at(i) implies self.gen_at(i)
                    < self.gen_counter() by {
                    if i != idx as int {
                        assert(old(self).live_at(i));
                    }
                }
            }
        }
        Some(StrongRef { index: idx, version: v })
    }

    /// Removes the value a reference points at; a stale or out-of-range
    /// reference makes this a tolerated no-op.
    ///
    /// Removing a slot that still has strong references is an ownership
    /// violation — a programming error that the contract rules out rather
    /// than a runtime condition that could be deferred: the strong count of a
    /// valid target must be zero.  The freed slot becomes the new head of the
    /// free list; the stored value is destroyed; the high-water mark shrinks
    /// (by one) exactly when the freed slot was the highest in use.
    pub fn remove(&mut self, r: &WeakRef)
        requires
            old(self).wf(),
            old(self).ref_valid(*r) ==> old(self).count_at(r.index_spec()) == 0,
        ensures
            final(self).wf(),
            final(self).spec_capacity() == old(self).spec_capacity(),
            final(self).gen_counter() == old(self).gen_counter(),
            old(self).fresh_gens() ==> final(self).fresh_gens(),
            !old(self).ref_valid(*r) ==> *final(self) == *old(self),
            old(self).ref_valid(*r) ==> {
                let idx = r.index_spec();
                &&& !final(self).live_at(idx)
                &&& final(self).stored_at(idx) is None
                &&& forall|j: int|
                    #![trigger final(self).live_at(j)]
                    #![trigger final(self).stored_at(j)]
                    #![trigger final(self).gen_at(j)]
                    #![trigger final(self).count_at(j)]
                    0 <= j < old(self).spec_capacity() && j != idx ==> final(self).live_at(j)
                        == old(self).live_at(j) && final(self).stored_at(j)
                        == old(self).stored_at(j) && final(self).gen_at(j) == old(self).gen_at(j)
                        && final(self).count_at(j) == old(self).count_at(j)
                &&& final(self).spec_len() == old(self).spec_len() - 1
                &&& final(self).free_order() == seq![idx] + old(self).free_order()
                &&& final(self).high_water() == if idx + 1 == old(self).high_water() {
                    idx
                } else {
                    old(self).high_water()
                }
                &&& forall|p: WeakRef|
                    (#[trigger] final(self).ref_valid(p)) <==> old(self).ref_valid(p)
                        && p.index_spec() != idx
            },
    {
        if r.index < self.slots.len() && r.version >= 0 && self.slots[r.index].version
            == r.version {
            let idx = r.index;
            proof {
                assert(self.slots@[idx as int].is_live());
                assert(!self.slots@[idx as int].is_free());
                assert(!self.free_chain@.contains(idx as int));
                lemma_chain_in_range_bound(
                    self.free_chain@.push(idx as int),
                    self.spec_capacity(),
                );
            }
            let ff = self.first_free;
            self.slots[idx].version = -ff - 2;
            self.slots[idx].elem = None;
            self.first_free = idx as i32;
            self.len = self.len - 1;
            if idx + 1 == self.last as usize {
                self.last = idx as i32;
            }
            let ghost old_chain = self.free_chain@;
            self.free_chain = Ghost(seq![idx as int] + self.free_chain@);
            proof {
                let cap = self.spec_capacity();
                let chain = self.free_chain@;
                assert forall|k: int| 0 <= k < chain.len() implies (
                #[trigger] self.slots@[chain[k]].is_free()) && self.slots@[chain[k]].next_free()
                    == (if k + 1 < chain.len() {
                    chain[k + 1]
                } else {
                    cap
                }) by {
                    if k > 0 {
                        assert(chain[k] == old_chain[k - 1]);
                        assert(chain[k] != idx as int);
                    }
                }
                assert forall|i: int| 0 <= i < cap implies ((#[trigger] self.slots@[i].is_free())
                    <==> chain.contains(i)) by {
                    if self.slots@[i].is_free() {
                        if i == idx as int {
                            assert(chain[0] == i);
                        } else {
                            assert(old_chain.contains(i));
                            let k = choose|k: int|
                                0 <= k < old_chain.len() && old_chain[k] == i;
                            assert(chain[k + 1] == i);
                        }
                    }
                }
                if old(self).fresh_gens() {
                    assert forall|i: int| self.live_at(i) implies self.gen_at(i)
                        < self.gen_counter() by {
                        assert(old(self).live_at(i));
                    }
                }
            }
        }
    }

    /// Duplicates a strong reference, incrementing the strong count of its
    /// slot.  Only valid references may be duplicated; the copy is
    /// indistinguishable from the reference it was cloned from.
    pub fn clone_ref(&mut self, r: &StrongRef) -> (c: StrongRef)
        requires
            old(self).wf(),
            old(self).strong_valid(*r),
            old(self).count_at(r.index_spec()) < u32::MAX as int,
        ensures
            final(self).wf(),
            c.index_spec() == r.index_spec(),
            c.gen_spec() == r.gen_spec(),
            final(self).strong_valid(c),
            final(self).count_at(r.index_spec()) == old(self).count_at(r.index_spec()) + 1,
            final(self).eq_but_count(*old(self), r.index_spec()),
    {
        self.acquire_at(r.index);
        proof {
            assert(self.live_at(r.index_spec()) == old(self).live_at(r.index_spec()));
            assert(self.gen_at(r.index_spec()) == old(self).gen_at(r.index_spec()));
        }
        StrongRef { index: r.index, version: r.version }
    }

    /// Releases a strong reference, consuming it and decrementing the strong
    /// count of its slot.  Once the count returns to zero the slot may be
    /// removed.
    pub fn release(&mut self, r: StrongRef)
        requires
            old(self).wf(),
            old(self).strong_valid(r),
            old(self).count_at(r.index_spec()) >= 1,
        ensures
            final(self).wf(),
            final(self).count_at(r.index_spec()) == old(self).count_at(r.index_spec()) - 1,
            final(self).eq_but_count(*old(self), r.index_spec()),
    {
        self.slots[r.index].ref_count = self.slots[r.index].ref_count - 1;
        proof {
            self.lemma_wf_from_counts_changed(*old(self));
        }
    }

    /// The strong count of the slot a reference points at, or zero for a
    /// stale reference.
    pub fn strong_count(&self, r: &WeakRef) -> (n: u32)
        ensures
            self.ref_valid(*r) ==> n == self.count_at(r.index_spec()),
            !self.ref_valid(*r) ==> n == 0,
    {
        if r.index < self.slots.len() && r.version >= 0 && self.slots[r.index].version
            == r.version {
            self.slots[r.index].ref_count
        } else {
            0
        }
    }

    /// The values of the live slots with index below `n`, in index order.
    pub closed spec fn live_seq_up_to(&self, n: int) -> Seq<T>
        decreases n,
    {
        if n <= 0 {
            Seq::empty()
        } else if self.live_at(n - 1) {
            self.live_seq_up_to(n - 1).push(self.value_at(n - 1))
        } else {
            self.live_seq_up_to(n - 1)
        }
    }

    /// The values of all live slots, in index order.
    pub open spec fn live_seq(&self) -> Seq<T> {
        self.live_seq_up_to(self.high_water())
    }

    /// The live values in index order.  The scan is bounded by the high-water
    /// mark: slot indices that were never used are not examined.
    pub fn iter(&self) -> (r: Vec<&T>)
        requires
            self.wf(),
        ensures
            r@.len() == self.live_seq().len(),
            forall|k: int| 0 <= k < r@.len() ==> *(#[trigger] r@[k]) == self.live_seq()[k],
    {
        let mut out: Vec<&T> = Vec::new();
        let mut i: usize = 0;
        let bound = self.last as usize;
        while i < bound
            invariant
                self.wf(),
                bound == self.high_water(),
                i <= bound,
                out@.len() == self.live_seq_up_to(i as int).len(),
                forall|k: int|
                    0 <= k < out@.len() ==> *(#[trigger] out@[k]) == self.live_seq_up_to(
                        i as int,
                    )[k],
            decreases bound - i,
        {
            if self.slots[i].version >= 0 {
                match self.slots[i].elem.as_ref() {
                    Some(v) => out.push(v),
                    None => (),
                }
            }
            i += 1;
        }
        out
    }

    /// Releases every live slot — all strong counts must already be zero,
    /// the same ownership rule as for `remove` — destroys the stored values,
    /// and resets the arena to its freshly built shape.  The generation
    /// counter is deliberately not reset, so references issued before the
    /// clear stay distinguishable from everything issued after it.
    pub fn clear(&mut self)
        requires
            old(self).wf(),
            forall|i: int| old(self).live_at(i) ==> old(self).count_at(i) == 0,
        ensures
            final(self).wf(),
            final(self).fresh_gens(),
            final(self).spec_capacity() == old(self).spec_capacity(),
            final(self).gen_counter() == old(self).gen_counter(),
            final(self).spec_len() == 0,
            final(self).high_water() == 0,
            final(self).free_order() == Seq::new(old(self).spec_capacity() as nat, |k: int| k),
            forall|i: int| !final(self).live_at(i),
            forall|i: int|
                0 <= i < old(self).spec_capacity() ==> #[trigger] final(self).stored_at(i)
                    is None,
    {
        let n = self.slots.len();
        let mut i: usize = 0;
        while i < n
            invariant
                i <= n,
                n == self.slots@.len(),
                n <= crate::max_arena_capacity(),
                forall|j: int|
                    0 <= j < i ==> (#[trigger] self.slots@[j].version) as int == -j - 3
                        && self.slots@[j].elem is None,
                self.first_free == old(self).first_free,
                self.len == old(self).len,
                self.version == old(self).version,
                self.last == old(self).last,
            decreases n - i,
        {
            self.slots.set(i, Slot { elem: None, version: -(i as i32) - 3, ref_count: 0 });
            i += 1;
        }
        self.first_free = 0;
        self.len = 0;
        self.last = 0;
        self.free_chain = Ghost(Seq::new(n as nat, |k: int| k));
        proof {
            let chain = self.free_chain@;
            let cap = self.spec_capacity();
            assert forall|idx: int| 0 <= idx < cap implies ((#[trigger] self.slots@[idx].is_free())
                <==> chain.contains(idx)) by {
                assert(chain[idx] == idx);
            }
            assert forall|i: int| 0 <= i < cap implies (#[trigger] self.stored_at(i)) is None by {
                assert((self.slots@[i].version) as int == -i - 3);
            }
        }
    }
}

/// Writes the seed state of slot `i`: free, chaining to slot `i + 1`, with a
/// zeroed strong count.
fn seed_slot<T>(slots: &mut Vec<Slot<T>>, i: usize)
    requires
        i < old(slots)@.len(),
        old(slots)@.len() <= crate::max_arena_capacity(),
    ensures
        final(slots)@.len() == old(slots)@.len(),
        final(slots)@[i as int].version as int == -(i as int) - 3,
        final(slots)@[i as int].elem == old(slots)@[i as int].elem,
        final(slots)@[i as int].ref_count == old(slots)@[i as int].ref_count,
        forall|j: int|
            0 <= j < old(slots)@.len() && j != i ==> #[trigger] final(slots)@[j] == old(slots)@[j],
{
    slots[i].version = -(i as i32) - 3;
}

/// A duplicate-free sequence of indices drawn from `[0, cap)` cannot be
/// longer than `cap`.
proof fn lemma_chain_in_range_bound(chain: Seq<int>, cap: int)
    requires
        cap >= 0,
        chain.no_duplicates(),
        forall|k: int| 0 <= k < chain.len() ==> 0 <= #[trigger] chain[k] < cap,
    ensures
        chain.len() <= cap,
{
    chain.unique_seq_to_set();
    assert forall|x: int| chain.to_set().contains(x) implies set_int_range(0, cap).contains(x) by {
        assert(chain.contains(x));
    }
    lemma_int_range(0, cap);
    lemma_len_subset(chain.to_set(), set_int_range(0, cap));
}

/// Any two references that are simultaneously valid for the same slot are the
/// same (index, generation) pair: a slot never validates a reference it did
/// not issue its current generation to.
pub proof fn lemma_valid_refs_agree<T>(pool: &RcPool<T>, a: WeakRef, b: WeakRef)
    requires
        pool.ref_valid(a),
        pool.ref_valid(b),
        a.index_spec() == b.index_spec(),
    ensures
        a == b,
{
}

/// A valid reference always carries a generation strictly below the arena's
/// counter, so the generation issued by the next insertion cannot collide
/// with any reference that is currently valid.
pub proof fn lemma_valid_gen_below_counter<T>(pool: &RcPool<T>, r: WeakRef)
    requires
        pool.wf(),
        pool.fresh_gens(),
        pool.ref_valid(r),
    ensures
        r.gen_spec() < pool.gen_counter(),
{
    assert(pool.live_at(r.index_spec()));
}

} // verus!
