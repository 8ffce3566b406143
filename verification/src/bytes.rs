//! The base span: a borrowed view over a region of the original byte
//! buffer. Narrowing moves the region's bounds; the underlying data is
//! never copied.

use vstd::prelude::*;

use crate::input::{Duplicable, ParseInput};
use crate::signal::Needed;

verus! {

/// A contiguous view over `buf[start..end]`.
#[derive(Clone, Copy, Debug, Hash, PartialEq, Eq)]
pub struct Bytes<'a> {
    /// The original, unsliced input buffer.
    pub buf: &'a [u8],
    /// Index in `buf` at which this span begins.
    pub start: usize,
    /// Index in `buf` at which this span ends (exclusive).
    pub end: usize,
}

impl<'a> Bytes<'a> {
    /// Wraps a whole raw slice as a span over all of it.
    pub fn new(buf: &'a [u8]) -> (r: Self)
        ensures
            r.wf(),
            r.content() == buf@,
            r.start == 0,
            r.end == buf@.len(),
    {
        let n = buf.len();
        let r = Bytes { buf, start: 0, end: n };
        proof {
            assert(r.content() =~= buf@);
        }
        r
    }
}

impl<'a> Duplicable for Bytes<'a> {
    fn duplicate(&self) -> (r: Self) {
        *self
    }
}

impl<'a> ParseInput for Bytes<'a> {
    open spec fn wf(&self) -> bool {
        self.start <= self.end <= self.buf@.len() <= usize::MAX
    }

    open spec fn content(&self) -> Seq<u8> {
        self.buf@.subrange(self.start as int, self.end as int)
    }

    open spec fn spec_take(&self, count: int) -> Self {
        Bytes { buf: self.buf, start: self.start, end: (self.start + count) as usize }
    }

    open spec fn spec_take_from(&self, index: int) -> Self {
        Bytes { buf: self.buf, start: (self.start + index) as usize, end: self.end }
    }

    proof fn lemma_take(&self, count: int) {
        assert(self.spec_take(count).content() =~= self.content().take(count));
    }

    proof fn lemma_take_from(&self, index: int) {
        assert(self.spec_take_from(index).content() =~= self.content().skip(index));
    }

    fn input_len(&self) -> (n: usize) {
        self.end - self.start
    }

    fn as_bytes(&self) -> (r: &[u8]) {
        vstd::slice::slice_subrange(self.buf, self.start, self.end)
    }

    fn take(&self, count: usize) -> (r: Self) {
        Bytes { buf: self.buf, start: self.start, end: self.start + count }
    }

    fn take_from(&self, index: usize) -> (r: Self) {
        Bytes { buf: self.buf, start: self.start + index, end: self.end }
    }

    fn take_split(&self, index: usize) -> (r: (Self, Self)) {
        (self.take_from(index), self.take(index))
    }

    fn slice_index(&self, count: usize) -> (r: Result<usize, Needed>) {
        let len = self.end - self.start;
        if count <= len {
            Ok(count)
        } else {
            Err(Needed::Size(count - len))
        }
    }
}

} // verus!
