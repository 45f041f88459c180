//! Conversion between slot indices and the unsigned types that store them.
//!
//! An arena index is a `usize` inside the arena; callers that pack indices
//! into smaller integers (to save space in back-references) convert through
//! this trait.

use vstd::prelude::*;

verus! {

/// An integer type that can carry a slot index.
pub trait Index: Sized {
    /// The largest index the type can carry.
    spec fn max_index() -> int;

    /// The carried index as a mathematical integer.
    spec fn as_index(&self) -> int;

    /// Widens the carried index to a `usize`.
    fn to_usize(self) -> (r: usize)
        ensures
            r as int == self.as_index(),
    ;

    /// Narrows a `usize` index into the type; the index must fit.
    fn from_usize(size: usize) -> (r: Self)
        requires
            size as int <= Self::max_index(),
        ensures
            r.as_index() == size as int,
    ;
}

impl Index for usize {
    open spec fn max_index() -> int {
        usize::MAX as int
    }

    open spec fn as_index(&self) -> int {
        *self as int
    }

    fn to_usize(self) -> usize {
        self
    }

    fn from_usize(size: usize) -> Self {
        size
    }
}

impl Index for u8 {
    open spec fn max_index() -> int {
        u8::MAX as int
    }

    open spec fn as_index(&self) -> int {
        *self as int
    }

    fn to_usize(self) -> usize {
        self as usize
    }

    fn from_usize(size: usize) -> Self {
        size as u8
    }
}

impl Index for u16 {
    open spec fn max_index() -> int {
        u16::MAX as int
    }

    open spec fn as_index(&self) -> int {
        *self as int
    }

    fn to_usize(self) -> usize {
        self as usize
    }

    fn from_usize(size: usize) -> Self {
        size as u16
    }
}

impl Index for u32 {
    open spec fn max_index() -> int {
        u32::MAX as int
    }

    open spec fn as_index(&self) -> int {
        *self as int
    }

    fn to_usize(self) -> usize {
        self as usize
    }

    fn from_usize(size: usize) -> Self {
        size as u32
    }
}

} // verus!
