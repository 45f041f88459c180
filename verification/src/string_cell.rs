//! Single-value cell holding a string.
//!
//! `StringCell` owns one `String`; emptying it is its
//! [`Clear`](crate::clear::Clear) capability, which the arenas invoke when a
//! slot holding a string is released.

use crate::clear::Clear;
use vstd::prelude::*;

verus! {

/// A single mutable string.
#[derive(Clone, Debug)]
pub struct StringCell {
    cell: String,
}

impl StringCell {
    /// The characters currently held.
    pub closed spec fn view_spec(&self) -> Seq<char> {
        self.cell@
    }

    /// Wraps a copy of a string slice.
    pub fn new(value: &str) -> (c: Self)
        ensures
            c.view_spec() == value@,
    {
        StringCell { cell: value.to_owned() }
    }

    /// Wraps an owned string.
    pub fn from_string(value: String) -> (c: Self)
        ensures
            c.view_spec() == value@,
    {
        StringCell { cell: value }
    }

    /// Installs a copy of a string slice and hands back the old string.
    pub fn replace(&mut self, value: &str) -> (r: String)
        ensures
            r@ == old(self).view_spec(),
            final(self).view_spec() == value@,
    {
        let mut v = value.to_owned();
        core::mem::swap(&mut self.cell, &mut v);
        v
    }

    /// Installs a copy of a string slice; the old string is dropped.
    pub fn set(&mut self, value: &str)
        ensures
            final(self).view_spec() == value@,
    {
        let _old_value = self.replace(value);
    }

    /// A copy of the current string.
    pub fn get(&self) -> (r: String)
        ensures
            r@ == self.view_spec(),
    {
        self.cell.clone()
    }

    /// Hands back the current string, leaving an empty one in its place.
    pub fn take(&mut self) -> (r: String)
        ensures
            r@ == old(self).view_spec(),
            final(self).view_spec() == Seq::<char>::empty(),
    {
        let mut v = String::new();
        core::mem::swap(&mut self.cell, &mut v);
        v
    }
}

impl Default for StringCell {
    /// A cell holding the empty string.
    fn default() -> (c: Self)
        ensures
            c.view_spec() == Seq::<char>::empty(),
    {
        StringCell { cell: String::new() }
    }
}

impl Clear for StringCell {
    /// A string cell is logically empty when it holds no characters.
    open spec fn cleared(&self) -> bool {
        self.view_spec().len() == 0
    }

    /// Empties the string.
    fn clear(&mut self) {
        let _old_value = self.take();
    }
}

} // verus!
