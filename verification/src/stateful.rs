//! A wrapper that threads an opaque, duplicable piece of caller state
//! through a parse. Positional behaviour is a pure pass-through to the
//! wrapped input; every derived value carries a copy of the state that is
//! equal to the one present before the operation.

use vstd::prelude::*;

use crate::input::{Duplicable, Location, LocatedInput, ParseInput};
use crate::signal::Needed;

verus! {

/// Any input together with caller-defined state, carried unchanged across
/// every narrowing operation. This layer never inspects the state.
#[derive(Clone, Copy, Debug, Hash, PartialEq, Eq)]
pub struct Stateful<I, T> {
    /// The wrapped input value.
    pub fragment: I,
    /// The carried state.
    pub state: T,
}

impl<I, T: Duplicable> Stateful<I, T> {
    /// Wraps an input and an initial state.
    pub fn new(fragment: I, state: T) -> (r: Self)
        ensures
            r.fragment == fragment,
            r.state == state,
    {
        Stateful { fragment, state }
    }

    /// Derives a sibling input: the fragment is produced by `f`, the state
    /// is an equal copy of the current one.
    pub fn mapped<F: Fn(&I) -> I>(&self, f: F) -> (r: Self)
        requires
            call_requires(f, (&self.fragment,)),
        ensures
            r.state == self.state,
            call_ensures(f, (&self.fragment,), r.fragment),
    {
        Stateful { fragment: f(&self.fragment), state: self.state.duplicate() }
    }
}

impl<I: Duplicable, T: Duplicable> Duplicable for Stateful<I, T> {
    fn duplicate(&self) -> (r: Self) {
        Stateful { fragment: self.fragment.duplicate(), state: self.state.duplicate() }
    }
}

impl<I: ParseInput, T: Duplicable> ParseInput for Stateful<I, T> {
    open spec fn wf(&self) -> bool {
        self.fragment.wf()
    }

    open spec fn content(&self) -> Seq<u8> {
        self.fragment.content()
    }

    open spec fn spec_take(&self, count: int) -> Self {
        Stateful { fragment: self.fragment.spec_take(count), state: self.state }
    }

    open spec fn spec_take_from(&self, index: int) -> Self {
        Stateful { fragment: self.fragment.spec_take_from(index), state: self.state }
    }

    proof fn lemma_take(&self, count: int) {
        self.fragment.lemma_take(count);
    }

    proof fn lemma_take_from(&self, index: int) {
        self.fragment.lemma_take_from(index);
    }

    fn input_len(&self) -> (n: usize) {
        self.fragment.input_len()
    }

    fn as_bytes(&self) -> (r: &[u8]) {
        self.fragment.as_bytes()
    }

    fn take(&self, count: usize) -> (r: Self) {
        Stateful { fragment: self.fragment.take(count), state: self.state.duplicate() }
    }

    fn take_from(&self, index: usize) -> (r: Self) {
        Stateful { fragment: self.fragment.take_from(index), state: self.state.duplicate() }
    }

    fn take_split(&self, index: usize) -> (r: (Self, Self)) {
        let (rest, prefix) = self.fragment.take_split(index);
        (
            Stateful { fragment: rest, state: self.state.duplicate() },
            Stateful { fragment: prefix, state: self.state.duplicate() },
        )
    }

    fn slice_index(&self, count: usize) -> (r: Result<usize, Needed>) {
        self.fragment.slice_index(count)
    }
}

impl<I: Location, T> Location for Stateful<I, T> {
    open spec fn spec_location(&self) -> int {
        self.fragment.spec_location()
    }

    fn location(&self) -> (n: usize) {
        self.fragment.location()
    }

    fn offset(&self, other: &Self) -> (n: usize) {
        self.fragment.offset(&other.fragment)
    }
}

impl<I: LocatedInput, T: Duplicable> LocatedInput for Stateful<I, T> {
    proof fn lemma_take_location(&self, count: int) {
        self.fragment.lemma_take_location(count);
    }

    proof fn lemma_take_from_location(&self, index: int) {
        self.fragment.lemma_take_from_location(index);
    }
}

} // verus!
