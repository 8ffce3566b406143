//! A wrapper that carries the absolute offset of its span from the start of
//! the original input, kept correct in constant time across arbitrarily many
//! narrowing steps.

use vstd::prelude::*;

use crate::input::{Duplicable, Location, LocatedInput, ParseInput};
use crate::signal::Needed;

verus! {

/// A span together with the absolute element offset of its first element
/// from the start of the original input.
///
/// A `Located` is created from a raw span with location zero (via `From`);
/// every other value is derived by narrowing an existing one, which keeps
/// the invariant that a sub-span's location equals its parent's location
/// plus the index at which the sub-span begins within the parent.
#[derive(Clone, Copy, Debug, Hash, PartialEq, Eq)]
pub struct Located<I> {
    /// The current sub-span.
    pub fragment: I,
    /// Absolute offset, in elements, of `fragment`'s first element.
    pub location: usize,
}

impl<I> Located<I> {
    /// Consumes the wrapper and returns the bare fragment.
    pub fn into_fragment(self) -> (r: I)
        ensures
            r == self.fragment,
    {
        self.fragment
    }
}

impl<I> From<I> for Located<I> {
    /// Wraps a raw span; the whole input starts at offset zero.
    fn from(fragment: I) -> (r: Self) {
        Located { fragment, location: 0 }
    }
}

impl<I> vstd::std_specs::convert::FromSpecImpl<I> for Located<I> {
    open spec fn obeys_from_spec() -> bool {
        true
    }

    open spec fn from_spec(fragment: I) -> Self {
        Located { fragment, location: 0 }
    }
}

impl<I: Duplicable> Duplicable for Located<I> {
    fn duplicate(&self) -> (r: Self) {
        Located { fragment: self.fragment.duplicate(), location: self.location }
    }
}

impl<I: ParseInput> ParseInput for Located<I> {
    open spec fn wf(&self) -> bool {
        self.fragment.wf() && self.location + self.fragment.content().len() <= usize::MAX
    }

    open spec fn content(&self) -> Seq<u8> {
        self.fragment.content()
    }

    open spec fn spec_take(&self, count: int) -> Self {
        Located { fragment: self.fragment.spec_take(count), location: self.location }
    }

    open spec fn spec_take_from(&self, index: int) -> Self {
        Located {
            fragment: self.fragment.spec_take_from(index),
            location: (self.location + index) as usize,
        }
    }

    proof fn lemma_take(&self, count: int) {
        self.fragment.lemma_take(count);
    }

    proof fn lemma_take_from(&self, index: int) {
        self.fragment.lemma_take_from(index);
    }

    fn input_len(&self) -> (n: usize) {
        self.fragment.input_len()
    }

    fn as_bytes(&self) -> (r: &[u8]) {
        self.fragment.as_bytes()
    }

    fn take(&self, count: usize) -> (r: Self) {
        Located { fragment: self.fragment.take(count), location: self.location }
    }

    fn take_from(&self, index: usize) -> (r: Self) {
        Located { fragment: self.fragment.take_from(index), location: self.location + index }
    }

    fn take_split(&self, index: usize) -> (r: (Self, Self)) {
        (self.take_from(index), self.take(index))
    }

    fn slice_index(&self, count: usize) -> (r: Result<usize, Needed>) {
        self.fragment.slice_index(count)
    }
}

impl<I> Location for Located<I> {
    open spec fn spec_location(&self) -> int {
        self.location as int
    }

    fn location(&self) -> (n: usize) {
        self.location
    }

    fn offset(&self, other: &Self) -> (n: usize) {
        if other.location >= self.location {
            other.location - self.location
        } else {
            0
        }
    }
}

impl<I: ParseInput> LocatedInput for Located<I> {
    proof fn lemma_take_location(&self, count: int) {
    }

    proof fn lemma_take_from_location(&self, index: int) {
    }
}

} // verus!
