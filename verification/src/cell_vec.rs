//! Pre-initialized generational arena.
//!
//! `CellVec` separates storage initialization from allocation: the pool is
//! built empty, a one-time `init` call writes a value into every physical
//! slot, and from then on `allocate` only hands out generational references —
//! it never stores anything.  Releasing a slot resets its value in place via
//! [`Clear`](crate::clear::Clear) instead of destroying it, so the storage
//! written by `init` lives for the whole life of the pool.

use crate::clear::Clear;
use vstd::prelude::*;
use vstd::seq_lib::*;
use vstd::set_lib::*;

verus! {

/// One storage cell: an optional payload plus the state field shared with
/// the other arenas (`state >= 0`: live with that generation; `state <= -2`:
/// free, chaining to slot `-(state) - 2`).
struct Slot<T> {
    elem: Option<T>,
    version: i32,
}

impl<T> Slot<T> {
    /// The payload storage of the slot.
    pub closed spec fn stored(&self) -> Option<T> {
        self.elem
    }

    /// The raw state field.
    pub closed spec fn state(&self) -> int {
        self.version as int
    }

    /// A slot is live when its state is a (non-negative) generation.
    pub open spec fn is_live(&self) -> bool {
        self.state() >= 0
    }

    /// The generation of a live slot.
    pub open spec fn generation(&self) -> int {
        self.state()
    }

    /// A slot is free when its state encodes a free-list link.
    pub open spec fn is_free(&self) -> bool {
        self.state() <= -2
    }

    /// The index of the next free slot encoded in a free slot's state.
    pub open spec fn next_free(&self) -> int {
        -self.state() - 2
    }
}

/// A reference issued by a `CellVec`: slot index plus the generation the
/// slot carried when the reference was issued.
#[derive(Clone, Copy, PartialEq, Eq, Structural, Hash, Debug)]
pub struct CellVecRef {
    index: usize,
    version: i32,
}

impl CellVecRef {
    /// The index of the slot this reference was issued against.
    pub closed spec fn index_spec(&self) -> int {
        self.index as int
    }

    /// The generation this reference was issued with.
    pub closed spec fn gen_spec(&self) -> int {
        self.version as int
    }

    /// The slot index, for callers that keep raw positions alongside.
    pub fn index(&self) -> (i: usize)
        ensures
            i == self.index_spec(),
    {
        self.index
    }

    /// Whether the slot this reference was issued against still carries the
    /// same generation.
    pub fn is_valid<T>(&self, pool: &CellVec<T>) -> (b: bool)
        ensures
            b <==> pool.ref_valid(*self),
    {
        self.index < pool.slots.len() && self.version >= 0 && pool.slots[self.index].version
            == self.version
    }

    /// The value this reference points at, or `None` if the reference is
    /// stale.
    pub fn get<'a, T>(&self, pool: &'a CellVec<T>) -> (r: Option<&'a T>)
        requires
            pool.wf(),
        ensures
            pool.ref_valid(*self) ==> r is Some && *r->0 == pool.value_at(self.index_spec()),
            !pool.ref_valid(*self) ==> r is None,
    {
        if self.index < pool.slots.len() && self.version >= 0 && pool.slots[self.index].version
            == self.version {
            proof {
                assert(pool.slots@[self.index as int].is_live());
                assert(pool.initialized());
                assert(pool.slots@[self.index as int].stored() is Some);
            }
            pool.slots[self.index].elem.as_ref()
        } else {
            None
        }
    }
}

/// Fixed-capacity arena whose storage is written once by `init` and then
/// reused in place forever.  The generation counter doubles as the
/// initialization marker: it stays at `-1` until `init` has run.
pub struct CellVec<T> {
    slots: Vec<Slot<T>>,
    first_free: i32,
    len: i32,
    version: i32,
    last: i32,
    free_chain: Ghost<Seq<int>>,
}

impl<T> CellVec<T> {
    /// Number of slots, fixed at construction.
    pub closed spec fn spec_capacity(&self) -> int {
        self.slots.len() as int
    }

    /// Number of live slots.
    pub closed spec fn spec_len(&self) -> int {
        self.len as int
    }

    /// The generation that the next successful allocation will issue, or
    /// `-1` while the pool is not yet initialized.
    pub closed spec fn gen_counter(&self) -> int {
        self.version as int
    }

    /// Whether `init` has run: allocation is permitted only afterwards.
    pub open spec fn initialized(&self) -> bool {
        self.gen_counter() >= 0
    }

    /// One past the highest index currently in use.
    pub closed spec fn high_water(&self) -> int {
        self.last as int
    }

    /// The indices of the free slots, most recently freed first.
    pub closed spec fn free_order(&self) -> Seq<int> {
        self.free_chain@
    }

    /// Whether slot `i` is live.
    pub closed spec fn live_at(&self, i: int) -> bool {
        0 <= i < self.spec_capacity() && self.slots@[i].is_live()
    }

    /// The current generation of slot `i`.
    pub closed spec fn gen_at(&self, i: int) -> int {
        self.slots@[i].generation()
    }

    /// The payload storage of slot `i`.
    pub closed spec fn stored_at(&self, i: int) -> Option<T> {
        self.slots@[i].stored()
    }

    /// The stored value of slot `i`, present in every slot once `init` has
    /// run.
    pub open spec fn value_at(&self, i: int) -> T {
        self.stored_at(i)->0
    }

    /// A reference is valid exactly when it names a live slot within
    /// capacity whose current generation is the one the reference carries.
    pub open spec fn ref_valid(&self, r: CellVecRef) -> bool {
        &&& 0 <= r.index_spec() < self.spec_capacity()
        &&& self.live_at(r.index_spec())
        &&& self.gen_at(r.index_spec()) == r.gen_spec()
    }

    /// Every live generation lies strictly below the counter.
    pub open spec fn fresh_gens(&self) -> bool {
        forall|i: int| self.live_at(i) ==> self.gen_at(i) < self.gen_counter()
    }

    /// Well-formedness: scalars in range, the ghost free order an exact
    /// duplicate-free mirror of the intrusive chain, precisely the chained
    /// slots free, live slots below the high-water mark, and — once `init`
    /// has run — every slot's storage written.
    pub closed spec fn wf(&self) -> bool {
        let cap = self.spec_capacity();
        let chain = self.free_chain@;
        &&& cap <= crate::max_arena_capacity()
        &&& -1 <= self.version as int
        &&& (self.version as int) < crate::generation_modulus()
        &&& 0 <= self.last as int <= cap
        &&& self.len as int == cap - chain.len()
        &&& chain.len() <= cap
        &&& (forall|k: int| 0 <= k < chain.len() ==> 0 <= #[trigger] chain[k] < cap)
        &&& chain.no_duplicates()
        &&& (forall|k: int| 0 <= k < chain.len() ==> (#[trigger] self.slots@[chain[k]].is_free()))
        &&& (forall|k: int|
            0 <= k < chain.len() ==> (#[trigger] self.slots@[chain[k]].next_free()) == if k + 1
                < chain.len() {
                chain[k + 1]
            } else {
                cap
            })
        &&& self.first_free as int == if chain.len() == 0 {
            cap
        } else {
            chain[0]
        }
        &&& (forall|i: int|
            0 <= i < cap ==> ((#[trigger] self.slots@[i].is_free()) <==> chain.contains(i)))
        &&& (forall|i: int|
            0 <= i < cap && !(#[trigger] self.slots@[i].is_free()) ==> self.slots@[i].is_live())
        &&& (forall|i: int|
            0 <= i < cap && (#[trigger] self.slots@[i].is_live()) ==> i < self.last as int
                && self.initialized())
        &&& (self.initialized() ==> forall|i: int|
            0 <= i < cap ==> (#[trigger] self.slots@[i].stored()) is Some)
    }

    /// Builds an uninitialized pool of `cap` empty slots: the free list is
    /// seeded to `0 -> 1 -> ...` and the counter to the marker `-1`, so
    /// `init` must run before anything can be allocated.
    pub fn with_capacity(cap: usize) -> (pool: Self)
        requires
            cap <= crate::max_arena_capacity(),
        ensures
            pool.wf(),
            !pool.initialized(),
            pool.fresh_gens(),
            pool.spec_capacity() == cap,
            pool.spec_len() == 0,
            pool.high_water() == 0,
            pool.free_order() == Seq::new(cap as nat, |k: int| k),
            forall|i: int| !pool.live_at(i),
    {
        let mut slots: Vec<Slot<T>> = Vec::new();
        let mut i: usize = 0;
        while i < cap
            invariant
                i <= cap,
                i == slots@.len(),
                cap <= crate::max_arena_capacity(),
                forall|j: int| 0 <= j < i ==> (#[trigger] slots@[j].version) as int == -j - 3,
                forall|j: int| 0 <= j < i ==> #[trigger] slots@[j].elem is None,
            decreases cap - i,
        {
            slots.push(Slot { elem: None, version: -(i as i32) - 3 });
            i += 1;
        }
        let pool = CellVec {
            slots,
            first_free: 0,
            len: 0,
            version: -1,
            last: 0,
            free_chain: Ghost(Seq::new(cap as nat, |k: int| k)),
        };
        proof {
            let chain = pool.free_chain@;
            assert forall|idx: int| 0 <= idx < cap implies ((#[trigger] pool.slots@[idx].is_free())
                <==> chain.contains(idx)) by {
                assert(chain[idx] == idx);
            }
        }
        pool
    }

    /// Writes `f(i)` into every slot `i` — the one-time initialization of
    /// the pool's storage — and arms the generation counter.  Afterwards,
    /// every slot holds a value that satisfies `f`'s contract for its index,
    /// and allocation is permitted.
    pub fn init<F: Fn(usize) -> T>(&mut self, f: F)
        requires
            old(self).wf(),
            !old(self).initialized(),
            forall|i: usize| i < old(self).spec_capacity() ==> call_requires(f, (i,)),
        ensures
            final(self).wf(),
            final(self).initialized(),
            final(self).fresh_gens(),
            final(self).gen_counter() == 0,
            final(self).spec_capacity() == old(self).spec_capacity(),
            final(self).spec_len() == old(self).spec_len(),
            final(self).high_water() == old(self).high_water(),
            final(self).free_order() == old(self).free_order(),
            forall|i: int| final(self).live_at(i) == old(self).live_at(i),
            forall|i: int|
                0 <= i < old(self).spec_capacity() ==> (#[trigger] final(self).stored_at(i))
                    is Some && call_ensures(f, (i as usize,), final(self).value_at(i)),
    {
        let n = self.slots.len();
        let mut i: usize = 0;
        while i < n
            invariant
                i <= n,
                n == self.slots@.len(),
                n == old(self).spec_capacity(),
                forall|k: usize| k < n ==> call_requires(f, (k,)),
                forall|j: int|
                    0 <= j < i ==> (#[trigger] self.slots@[j].elem) is Some && call_ensures(
                        f,
                        (j as usize,),
                        self.slots@[j].elem->0,
                    ),
                forall|j: int|
                    0 <= j < n ==> (#[trigger] self.slots@[j].version) == old(
                        self,
                    ).slots@[j].version,
                self.first_free == old(self).first_free,
                self.len == old(self).len,
                self.version == old(self).version,
                self.last == old(self).last,
                self.free_chain@ == old(self).free_chain@,
            decreases n - i,
        {
            let value = f(i);
            self.slots[i].elem = Some(value);
            i += 1;
        }
        self.version = 0;
        proof {
            assert forall|j: int| 0 <= j < self.spec_capacity() implies (
            #[trigger] self.slots@[j].stored()) is Some by {
                assert(self.slots@[j].elem is Some);
            }
            assert forall|j: int| 0 <= j < self.spec_capacity() implies (
            #[trigger] self.slots@[j].state()) == old(self).slots@[j].state() by {
                assert(self.slots@[j].version == old(self).slots@[j].version);
            }
            self.lemma_wf_same_states(*old(self));
            assert forall|i: int| !self.live_at(i) by {
                if self.live_at(i) {
                    assert(old(self).slots@[i].is_live());
                    assert(old(self).initialized());
                }
            }
            assert forall|j: int|
                0 <= j < old(self).spec_capacity() implies (#[trigger] self.stored_at(j)) is Some
                && call_ensures(f, (j as usize,), self.value_at(j)) by {
                assert(self.slots@[j].elem is Some && call_ensures(
                    f,
                    (j as usize,),
                    self.slots@[j].elem->0,
                ));
            }
        }
    }

    /// Well-formedness is insensitive to payload changes while no slot is
    /// live, as long as an initialized pool keeps every storage written.
    proof fn lemma_wf_same_states(&self, other: Self)
        requires
            other.wf(),
            self.spec_capacity() == other.spec_capacity(),
            self.first_free == other.first_free,
            self.len == other.len,
            self.last == other.last,
            self.version as int >= other.version as int,
            -1 <= self.version as int,
            (self.version as int) < crate::generation_modulus(),
            self.free_order() == other.free_order(),
            forall|i: int|
                0 <= i < self.spec_capacity() ==> (#[trigger] self.slots@[i].state())
                    == other.slots@[i].state(),
            self.initialized() ==> forall|i: int|
                0 <= i < self.spec_capacity() ==> (#[trigger] self.slots@[i].stored()) is Some,
        ensures
            self.wf(),
    {
        let cap = self.spec_capacity();
        let chain = self.free_chain@;
        assert forall|k: int| 0 <= k < chain.len() implies (
        #[trigger] self.slots@[chain[k]].is_free()) by {
            assert(other.slots@[chain[k]].is_free());
        }
        assert forall|k: int| 0 <= k < chain.len() implies (
        #[trigger] self.slots@[chain[k]].next_free()) == (if k + 1 < chain.len() {
            chain[k + 1]
        } else {
            cap
        }) by {
            assert(other.slots@[chain[k]].next_free() == if k + 1 < chain.len() {
                chain[k + 1]
            } else {
                cap
            });
        }
        assert forall|i: int| 0 <= i < cap implies ((#[trigger] self.slots@[i].is_free())
            <==> chain.contains(i)) by {
            assert(other.slots@[i].is_free() <==> chain.contains(i));
        }
        assert forall|i: int| 0 <= i < cap && !(#[trigger] self.slots@[i].is_free()) implies self
            .slots@[i].is_live() by {
            assert(!other.slots@[i].is_free());
        }
        assert forall|i: int| 0 <= i < cap && (#[trigger] self.slots@[i].is_live()) implies i
            < self.last as int && self.initialized() by {
            assert(other.slots@[i].is_live());
        }
    }


    /// The live count is the capacity less the length of the free order, and
    /// never exceeds the capacity.
    pub proof fn lemma_live_count_bounded(&self)
        requires
            self.wf(),
        ensures
            0 <= self.spec_len() <= self.spec_capacity(),
            self.spec_len() == self.spec_capacity() - self.free_order().len(),
    {
    }

    /// Number of live slots.
    pub fn len(&self) -> (n: usize)
        requires
            self.wf(),
        ensures
            n == self.spec_len(),
    {
        self.len as usize
    }

    /// Whether no slot is live.
    pub fn is_empty(&self) -> (b: bool)
        requires
            self.wf(),
        ensures
            b <==> self.spec_len() == 0,
    {
        self.len() == 0
    }

    /// The fixed number of slots.
    pub fn capacity(&self) -> (n: usize)
        ensures
            n == self.spec_capacity(),
    {
        self.slots.len()
    }

    /// The value stored at `index`, if that slot is live.
    pub fn get(&self, index: usize) -> (r: Option<&T>)
        requires
            self.wf(),
        ensures
            self.live_at(index as int) ==> r is Some && *r->0 == self.value_at(index as int),
            !self.live_at(index as int) ==> r is None,
    {
        if index < self.slots.len() && self.slots[index].version >= 0 {
            proof {
                assert(self.slots@[index as int].is_live());
                assert(self.initialized());
                assert(self.slots@[index as int].stored() is Some);
            }
            self.slots[index].elem.as_ref()
        } else {
            None
        }
    }

    /// The values of the live slots with index below `n`, in index order.
    pub closed spec fn live_seq_up_to(&self, n: int) -> Seq<T>
        decreases n,
    {
        if n <= 0 {
            Seq::empty()
        } else if self.live_at(n - 1) {
            self.live_seq_up_to(n - 1).push(self.value_at(n - 1))
        } else {
            self.live_seq_up_to(n - 1)
        }
    }

    /// The values of all live slots, in index order.
    pub open spec fn live_seq(&self) -> Seq<T> {
        self.live_seq_up_to(self.high_water())
    }

    /// The live values in index order, the scan bounded by the high-water
    /// mark.
    pub fn iter(&self) -> (r: Vec<&T>)
        requires
            self.wf(),
        ensures
            r@.len() == self.live_seq().len(),
            forall|k: int| 0 <= k < r@.len() ==> *(#[trigger] r@[k]) == self.live_seq()[k],
    {
        let mut out: Vec<&T> = Vec::new();
        let mut i: usize = 0;
        let bound = self.last as usize;
        while i < bound
            invariant
                self.wf(),
                bound == self.high_water(),
                i <= bound,
                out@.len() == self.live_seq_up_to(i as int).len(),
                forall|k: int|
                    0 <= k < out@.len() ==> *(#[trigger] out@[k]) == self.live_seq_up_to(
                        i as int,
                    )[k],
            decreases bound - i,
        {
            if self.slots[i].version >= 0 {
                match self.slots[i].elem.as_ref() {
                    Some(v) => out.push(v),
                    None => (),
                }
            }
            i += 1;
        }
        out
    }

    /// Marks the most recently freed slot live under a fresh generation and
    /// returns a reference to it; the value already stored there (written by
    /// `init`, possibly reset by a later removal) is what the reference
    /// resolves to.  Fails with `None` exactly when the arena is full,
    /// leaving it untouched.  Requires the one-time initialization to have
    /// run.
    pub fn allocate(&mut self) -> (r: Option<CellVecRef>)
        requires
            old(self).wf(),
            old(self).initialized(),
        ensures
            final(self).wf(),
            final(self).initialized(),
            final(self).spec_capacity() == old(self).spec_capacity(),
            old(self).spec_len() == old(self).spec_capacity() ==> r is None && *final(self)
                == *old(self),
            old(self).spec_len() < old(self).spec_capacity() ==> {
                let idx = old(self).free_order()[0];
                &&& r is Some
                &&& r->0.index_spec() == idx
                &&& r->0.gen_spec() == old(self).gen_counter()
                &&& final(self).ref_valid(r->0)
                &&& final(self).live_at(idx)
                &&& final(self).gen_at(idx) == old(self).gen_counter()
                &&& forall|j: int|
                    #![trigger final(self).live_at(j)]
                    #![trigger final(self).gen_at(j)]
                    0 <= j < old(self).spec_capacity() && j != idx ==> final(self).live_at(j)
                        == old(self).live_at(j) && final(self).gen_at(j) == old(self).gen_at(j)
                &&& forall|j: int|
                    0 <= j < old(self).spec_capacity() ==> #[trigger] final(self).stored_at(j)
                        == old(self).stored_at(j)
                &&& final(self).spec_len() == old(self).spec_len() + 1
                &&& final(self).gen_counter() == if old(self).gen_counter() + 1
                    == crate::generation_modulus() {
                    0
                } else {
                    old(self).gen_counter() + 1
                }
                &&& final(self).free_order() == old(self).free_order().drop_first()
                &&& final(self).high_water() == if idx + 1 > old(self).high_water() {
                    idx + 1
                } else {
                    old(self).high_water()
                }
                &&& forall|p: CellVecRef|
                    p.gen_spec() < old(self).gen_counter() ==> ((#[trigger] final(self).ref_valid(
                        p,
                    )) <==> old(self).ref_valid(p) && p.index_spec() != idx)
            },
            old(self).fresh_gens() && old(self).gen_counter() + 1 < crate::generation_modulus()
                ==> final(self).fresh_gens(),
    {
        proof {
            lemma_chain_in_range_bound(self.free_chain@, self.spec_capacity());
        }
        if self.len == self.slots.len() as i32 {
            assert(self.free_chain@.len() == 0);
            return None;
        }
        assert(self.free_chain@.len() > 0);
        let idx = self.first_free as usize;
        let v = self.version;
        proof {
            assert(idx as int == self.free_chain@[0]);
            assert(self.slots@[idx as int].is_free());
            assert(self.slots@[idx as int].next_free() == if 1 < self.free_chain@.len() {
                self.free_chain@[1]
            } else {
                self.spec_capacity()
            });
            assert(0 <= self.slots@[idx as int].next_free() <= self.spec_capacity());
        }
        let next = -self.slots[idx].version - 2;
        self.first_free = next;
        self.version = if v == 0x7fff_ffff {
            0
        } else {
            v + 1
        };
        self.slots[idx].version = v;
        if idx + 1 > self.last as usize {
            self.last = (idx + 1) as i32;
        }
        self.len = self.len + 1;
        let ghost old_chain = self.free_chain@;
        self.free_chain = Ghost(self.free_chain@.drop_first());
        proof {
            let cap = self.spec_capacity();
            let chain = self.free_chain@;
            assert forall|k: int| 0 <= k < chain.len() implies (#[trigger] self.slots@[chain[k]].is_free())
                && self.slots@[chain[k]].next_free() == (if k + 1 < chain.len() {
                chain[k + 1]
            } else {
                cap
            }) by {
                assert(chain[k] == old_chain[k + 1]);
                assert(old_chain[k + 1] != old_chain[0]);
            }
            assert forall|i: int| 0 <= i < cap implies ((#[trigger] self.slots@[i].is_free())
                <==> chain.contains(i)) by {
                if self.slots@[i].is_free() {
                    assert(i != idx as int);
                    assert(old_chain.contains(i));
                    let k = choose|k: int| 0 <= k < old_chain.len() && old_chain[k] == i;
                    assert(k != 0);
                    assert(chain[k - 1] == i);
                } else {
                    if chain.contains(i) {
                        let k = choose|k: int| 0 <= k < chain.len() && chain[k] == i;
                        assert(old_chain[k + 1] == i);
                        assert(old_chain[k + 1] != old_chain[0]);
                    }
                }
            }
            assert forall|j: int| 0 <= j < cap implies (#[trigger] self.slots@[j].stored())
                is Some by {
                assert(old(self).slots@[j].stored() is Some);
            }
            if old(self).fresh_gens() && old(self).gen_counter() + 1
                < crate::generation_modulus() {
                assert forall|i: int| self.live_at(i) implies self.gen_at(i)
                    < self.gen_counter() by {
                    if i != idx as int {
                        assert(old(self).live_at(i));
                    }
                }
            }
        }
        Some(CellVecRef { index: idx, version: v })
    }
}

impl<T: Clear> CellVec<T> {
    /// Removes the value a reference points at, resetting it in place via
    /// its `Clear` capability; a stale or out-of-range reference makes this
    /// a tolerated no-op.  The freed slot becomes the new head of the free
    /// list; its storage stays written (now holding the cleared value).
    pub fn remove(&mut self, r: &CellVecRef)
        requires
            old(self).wf(),
        ensures
            final(self).wf(),
            final(self).spec_capacity() == old(self).spec_capacity(),
            final(self).gen_counter() == old(self).gen_counter(),
            old(self).fresh_gens() ==> final(self).fresh_gens(),
            !old(self).ref_valid(*r) ==> *final(self) == *old(self),
            old(self).ref_valid(*r) ==> {
                let idx = r.index_spec();
                &&& !final(self).live_at(idx)
                &&& final(self).stored_at(idx) is Some
                &&& final(self).value_at(idx).cleared()
                &&& forall|j: int|
                    #![trigger final(self).live_at(j)]
                    #![trigger final(self).stored_at(j)]
                    #![trigger final(self).gen_at(j)]
                    0 <= j < old(self).spec_capacity() && j != idx ==> final(self).live_at(j)
                        == old(self).live_at(j) && final(self).stored_at(j)
                        == old(self).stored_at(j) && final(self).gen_at(j) == old(self).gen_at(j)
                &&& final(self).spec_len() == old(self).spec_len() - 1
                &&& final(self).free_order() == seq![idx] + old(self).free_order()
                &&& final(self).high_water() == if idx + 1 == old(self).high_water() {
                    idx
                } else {
                    old(self).high_water()
                }
                &&& forall|p: CellVecRef|
                    (#[trigger] final(self).ref_valid(p)) <==> old(self).ref_valid(p)
                        && p.index_spec() != idx
            },
    {
        if r.index < self.slots.len() && r.version >= 0 && self.slots[r.index].version
            == r.version {
            let idx = r.index;
            proof {
                assert(self.slots@[idx as int].is_live());
                assert(self.initialized());
                assert(self.slots@[idx as int].stored() is Some);
                assert(!self.slots@[idx as int].is_free());
                assert(!self.free_chain@.contains(idx as int));
                lemma_chain_in_range_bound(
                    self.free_chain@.push(idx as int),
                    self.spec_capacity(),
                );
            }
            let ff = self.first_free;
            self.slots[idx].version = -ff - 2;
            match &mut self.slots[idx].elem {
                Some(v) => v.clear(),
                None => (),
            }
            self.first_free = idx as i32;
            self.len = self.len - 1;
            if idx + 1 == self.last as usize {
                self.last = idx as i32;
            }
            let ghost old_chain = self.free_chain@;
            self.free_chain = Ghost(seq![idx as int] + self.free_chain@);
            proof {
                let cap = self.spec_capacity();
                let chain = self.free_chain@;
                assert forall|k: int| 0 <= k < chain.len() implies (
                #[trigger] self.slots@[chain[k]].is_free()) && self.slots@[chain[k]].next_free()
                    == (if k + 1 < chain.len() {
                    chain[k + 1]
                } else {
                    cap
                }) by {
                    if k > 0 {
                        assert(chain[k] == old_chain[k - 1]);
                        assert(chain[k] != idx as int);
                    }
                }
                assert forall|i: int| 0 <= i < cap implies ((#[trigger] self.slots@[i].is_free())
                    <==> chain.contains(i)) by {
                    if self.slots@[i].is_free() {
                        if i == idx as int {
                            assert(chain[0] == i);
                        } else {
                            assert(old_chain.contains(i));
                            let k = choose|k: int|
                                0 <= k < old_chain.len() && old_chain[k] == i;
                            assert(chain[k + 1] == i);
                        }
                    }
                }
                if self.initialized() {
                    assert forall|i: int| 0 <= i < cap implies (
                    #[trigger] self.slots@[i].stored()) is Some by {
                        assert(old(self).slots@[i].stored() is Some);
                    }
                }
                if old(self).fresh_gens() {
                    assert forall|i: int| self.live_at(i) implies self.gen_at(i)
                        < self.gen_counter() by {
                        assert(old(self).live_at(i));
                    }
                }
            }
        }
    }

    /// Releases every live slot, resetting each of their values in place via
    /// `Clear`, and reseeds the free list to `0 -> 1 -> ...`.  The
    /// generation counter is not reset.
    pub fn clear(&mut self)
        requires
            old(self).wf(),
        ensures
            final(self).wf(),
            final(self).fresh_gens(),
            final(self).spec_capacity() == old(self).spec_capacity(),
            final(self).gen_counter() == old(self).gen_counter(),
            final(self).initialized() == old(self).initialized(),
            final(self).spec_len() == 0,
            final(self).high_water() == 0,
            final(self).free_order() == Seq::new(old(self).spec_capacity() as nat, |k: int| k),
            forall|i: int| !final(self).live_at(i),
            forall|i: int|
                0 <= i < old(self).spec_capacity() ==> ((#[trigger] final(self).stored_at(i))
                    is Some <==> old(self).stored_at(i) is Some),
            forall|i: int|
                0 <= i < old(self).spec_capacity() && old(self).live_at(i) ==> (
                #[trigger] final(self).stored_at(i)) is Some && final(self).value_at(i).cleared(),
            forall|i: int|
                0 <= i < old(self).spec_capacity() && !old(self).live_at(i) ==> (
                #[trigger] final(self).stored_at(i)) == old(self).stored_at(i),
    {
        let n = self.slots.len();
        let mut i: usize = 0;
        while i < n
            invariant
                old(self).wf(),
                i <= n,
                n == self.slots@.len(),
                n == old(self).spec_capacity(),
                n <= crate::max_arena_capacity(),
                forall|j: int|
                    0 <= j < i ==> (#[trigger] self.slots@[j].version) as int == -j - 3,
                forall|j: int|
                    i <= j < n ==> #[trigger] self.slots@[j] == old(self).slots@[j],
                forall|j: int|
                    0 <= j < i ==> ((#[trigger] self.slots@[j].elem) is Some <==> old(
                        self,
                    ).slots@[j].elem is Some),
                forall|j: int|
                    0 <= j < i && old(self).live_at(j) ==> (#[trigger] self.slots@[j].elem)
                        is Some && self.slots@[j].elem->0.cleared(),
                forall|j: int|
                    0 <= j < i && !old(self).live_at(j) ==> #[trigger] self.slots@[j].elem == old(
                        self,
                    ).slots@[j].elem,
                self.first_free == old(self).first_free,
                self.len == old(self).len,
                self.version == old(self).version,
                self.last == old(self).last,
            decreases n - i,
        {
            if self.slots[i].version >= 0 {
                proof {
                    assert((i as int) < old(self).spec_capacity());
                    assert(old(self).slots@[i as int].is_live());
                    assert(old(self).initialized());
                    assert(old(self).slots@[i as int].stored() is Some);
                }
                match &mut self.slots[i].elem {
                    Some(v) => v.clear(),
                    None => (),
                }
            }
            self.slots[i].version = -(i as i32) - 3;
            i += 1;
        }
        self.first_free = 0;
        self.len = 0;
        self.last = 0;
        self.free_chain = Ghost(Seq::new(n as nat, |k: int| k));
        proof {
            let chain = self.free_chain@;
            let cap = self.spec_capacity();
            assert forall|idx: int| 0 <= idx < cap implies ((#[trigger] self.slots@[idx].is_free())
                <==> chain.contains(idx)) by {
                assert(chain[idx] == idx);
            }
            if self.initialized() {
                assert forall|j: int| 0 <= j < cap implies (#[trigger] self.slots@[j].stored())
                    is Some by {
                    assert(old(self).slots@[j].stored() is Some);
                    assert(self.slots@[j].elem is Some <==> old(self).slots@[j].elem is Some);
                }
            }
        }
    }
}

/// Any two references that are simultaneously valid for the same slot are the
/// same reference: validity pins both the slot index and the generation, so a
/// slot never validates a reference it did not issue its current generation
/// to.
pub proof fn lemma_valid_refs_agree<T>(pool: &CellVec<T>, a: CellVecRef, b: CellVecRef)
    requires
        pool.ref_valid(a),
        pool.ref_valid(b),
        a.index_spec() == b.index_spec(),
    ensures
        a == b,
{
}

/// A valid reference always carries a generation strictly below the arena's
/// counter, so the generation issued by the next allocation cannot collide
/// with any reference that is currently valid.
pub proof fn lemma_valid_gen_below_counter<T>(pool: &CellVec<T>, r: CellVecRef)
    requires
        pool.wf(),
        pool.fresh_gens(),
        pool.ref_valid(r),
    ensures
        r.gen_spec() < pool.gen_counter(),
{
    assert(pool.live_at(r.index_spec()));
}

/// A duplicate-free sequence of indices drawn from `[0, cap)` cannot be
/// longer than `cap`.
proof fn lemma_chain_in_range_bound(chain: Seq<int>, cap: int)
    requires
        cap >= 0,
        chain.no_duplicates(),
        forall|k: int| 0 <= k < chain.len() ==> 0 <= #[trigger] chain[k] < cap,
    ensures
        chain.len() <= cap,
{
    chain.unique_seq_to_set();
    assert forall|x: int| chain.to_set().contains(x) implies set_int_range(0, cap).contains(x) by {
        assert(chain.contains(x));
    }
    lemma_int_range(0, cap);
    lemma_len_subset(chain.to_set(), set_int_range(0, cap));
}

} // verus!
