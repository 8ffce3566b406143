//! The capability contracts a span must satisfy: duplication, slicing by
//! count/index ([`ParseInput`]), and absolute-position queries ([`Location`]).
//! [`LocatedInput`] ties the two together with the laws that slicing obeys
//! with respect to locations, so the laws hold for any stack of wrappers.

use vstd::prelude::*;

use crate::signal::Needed;

verus! {

/// A value that can produce an exact copy of itself.
///
/// Carried state must satisfy this contract: it is how both halves of a
/// split receive a copy of the state that is observably equal to the one
/// present before the split.
pub trait Duplicable: Sized {
    /// Returns a copy equal to `self`.
    fn duplicate(&self) -> (r: Self)
        ensures
            r == *self,
    ;
}

impl Duplicable for bool {
    fn duplicate(&self) -> (r: Self) {
        *self
    }
}

impl Duplicable for u8 {
    fn duplicate(&self) -> (r: Self) {
        *self
    }
}

impl Duplicable for u16 {
    fn duplicate(&self) -> (r: Self) {
        *self
    }
}

impl Duplicable for u32 {
    fn duplicate(&self) -> (r: Self) {
        *self
    }
}

impl Duplicable for u64 {
    fn duplicate(&self) -> (r: Self) {
        *self
    }
}

impl Duplicable for usize {
    fn duplicate(&self) -> (r: Self) {
        *self
    }
}

impl Duplicable for i32 {
    fn duplicate(&self) -> (r: Self) {
        *self
    }
}

impl Duplicable for i64 {
    fn duplicate(&self) -> (r: Self) {
        *self
    }
}

impl<A: Duplicable, B: Duplicable> Duplicable for (A, B) {
    fn duplicate(&self) -> (r: Self) {
        (self.0.duplicate(), self.1.duplicate())
    }
}

/// A contiguous, sliceable view over input bytes, narrowed by count or index
/// without copying.
///
/// `content()` is the mathematical model: the sequence of bytes currently in
/// view. `spec_take` / `spec_take_from` are the models of the two narrowing
/// operations; the lemma members oblige every implementor to prove how they
/// act on the content.
pub trait ParseInput: Duplicable {
    /// Well-formedness of the value; every operation preserves it.
    spec fn wf(&self) -> bool;

    /// The bytes currently in view.
    spec fn content(&self) -> Seq<u8>;

    /// Model of `take`: the span narrowed to its first `count` elements.
    spec fn spec_take(&self, count: int) -> Self;

    /// Model of `take_from`: the span narrowed to the elements from `index` on.
    spec fn spec_take_from(&self, index: int) -> Self;

    /// `take` keeps exactly the first `count` elements of the content.
    proof fn lemma_take(&self, count: int)
        requires
            self.wf(),
            0 <= count <= self.content().len(),
        ensures
            self.spec_take(count).wf(),
            self.spec_take(count).content() == self.content().take(count),
    ;

    /// `take_from` keeps exactly the elements from `index` on.
    proof fn lemma_take_from(&self, index: int)
        requires
            self.wf(),
            0 <= index <= self.content().len(),
        ensures
            self.spec_take_from(index).wf(),
            self.spec_take_from(index).content() == self.content().skip(index),
    ;

    /// Number of elements in view.
    fn input_len(&self) -> (n: usize)
        requires
            self.wf(),
        ensures
            n == self.content().len(),
    ;

    /// The bytes in view, as a raw byte slice.
    fn as_bytes(&self) -> (r: &[u8])
        requires
            self.wf(),
        ensures
            r@ == self.content(),
    ;

    /// The span narrowed to its first `count` elements.
    fn take(&self, count: usize) -> (r: Self)
        requires
            self.wf(),
            count <= self.content().len(),
        ensures
            r == self.spec_take(count as int),
    ;

    /// The span narrowed to the elements from `index` on.
    fn take_from(&self, index: usize) -> (r: Self)
        requires
            self.wf(),
            index <= self.content().len(),
        ensures
            r == self.spec_take_from(index as int),
    ;

    /// Splits at `index`, returning the remainder first and the consumed
    /// prefix second — the ordering the combinator engine expects.
    fn take_split(&self, index: usize) -> (r: (Self, Self))
        requires
            self.wf(),
            index <= self.content().len(),
        ensures
            r.0 == self.spec_take_from(index as int),
            r.1 == self.spec_take(index as int),
    ;

    /// Maps an element count to an index, signalling how many more elements
    /// would be needed when the count is out of range.
    fn slice_index(&self, count: usize) -> (r: Result<usize, Needed>)
        requires
            self.wf(),
        ensures
            match r {
                Ok(i) => count <= self.content().len() && i == count,
                Err(needed) => count > self.content().len() && needed == (Needed::Size(
                    (count - self.content().len()) as usize,
                )),
            },
    ;
}

/// A value whose absolute element offset from the start of the original
/// input can be recovered in constant time.
pub trait Location {
    /// The absolute offset of the first element in view.
    spec fn spec_location(&self) -> int;

    /// Returns the absolute offset.
    fn location(&self) -> (n: usize)
        ensures
            n == self.spec_location(),
    ;

    /// Elements between two spans of the same lineage: how far `other`
    /// starts after `self`, saturating at zero.
    fn offset(&self, other: &Self) -> (n: usize)
        ensures
            n == if other.spec_location() >= self.spec_location() {
                other.spec_location() - self.spec_location()
            } else {
                0
            },
    ;
}

/// A fresh, empty buffer into which spans can be accumulated.
pub fn new_builder() -> (r: Vec<u8>)
    ensures
        r@ == Seq::<u8>::empty(),
{
    Vec::new()
}

/// Grows `extender` by appending a copy of the span's content, leaving the
/// span itself untouched.
pub fn extend_into<I: ParseInput>(input: &I, extender: &mut Vec<u8>)
    requires
        input.wf(),
    ensures
        final(extender)@ == old(extender)@ + input.content(),
{
    let bytes = input.as_bytes();
    let mut i: usize = 0;
    while i < bytes.len()
        invariant
            bytes@ == input.content(),
            i <= bytes@.len(),
            extender@ == old(extender)@ + input.content().take(i as int),
        decreases bytes@.len() - i,
    {
        extender.push(*vstd::slice::slice_index_get(bytes, i));
        i = i + 1;
    }
    proof {
        assert(extender@ =~= old(extender)@ + input.content());
    }
}

/// A sliceable span that also tracks its absolute location, together with
/// the laws that relate the two capabilities. Both wrapper types implement
/// it, so the laws hold for a location wrapper, a state wrapper around one,
/// or any deeper stack.
pub trait LocatedInput: ParseInput + Location {
    /// Narrowing to a prefix does not move the span's start.
    proof fn lemma_take_location(&self, count: int)
        requires
            self.wf(),
            0 <= count <= self.content().len(),
        ensures
            self.spec_take(count).spec_location() == self.spec_location(),
    ;

    /// Narrowing to a suffix advances the location by exactly the start index.
    proof fn lemma_take_from_location(&self, index: int)
        requires
            self.wf(),
            0 <= index <= self.content().len(),
        ensures
            self.spec_take_from(index).spec_location() == self.spec_location() + index,
    ;
}

} // verus!
