//! Fixed-capacity generational slot arenas and single-value cell types.
//!
//! The arenas hand out stable, validity-checked references instead of raw
//! positions: every slot carries a generation number, every reference keeps a
//! copy of the generation it was issued with, and the two are compared on each
//! use, so the holder of a reference can always tell whether the slot still
//! contains the value it was given — even after the slot has been reused.
//!
//! Around the arenas stands a family of small single-value containers (plain
//! cells, a string cell, vector and map wrappers, compact tail sets) that the
//! arenas' payloads and callers use.

use vstd::prelude::*;

pub mod cell_set;
pub mod cell_vec;
pub mod clear;
pub mod clone_cell;
pub mod clone_map;
pub mod clone_vec;
pub mod default_cell;
pub mod fixed_cell_set;
pub mod index;
pub mod mcell;
pub mod ptr;
pub mod ptr_cell;
pub mod rc_pool;
pub mod slot_pool;
pub mod string_cell;
pub mod var;
pub mod vec_cell;
pub mod vec_cell_trait;
pub mod vec_ref_cell;

verus! {

/// Largest capacity an arena may have.
///
/// Every slot state must be representable in an `i32`: a live slot stores a
/// non-negative generation, and a free slot at any index encodes a successor
/// index of at most the capacity itself as `-(successor) - 2`.
pub open spec fn max_arena_capacity() -> int {
    0x7fff_fffd
}

/// Exclusive upper bound of the generation counter: generations are kept
/// non-negative by wrapping the counter modulo `2^31`.
pub open spec fn generation_modulus() -> int {
    0x8000_0000
}

} // verus!

