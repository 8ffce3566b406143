//! The comparison contract: matching a span against another span or a
//! literal, case-sensitively or ASCII-case-insensitively, reporting match,
//! mismatch, or that the span ended before the comparison could finish.

use vstd::prelude::*;

use crate::input::ParseInput;

verus! {

/// Outcome of comparing a span against an expected byte sequence.
#[derive(Clone, Copy, Debug, Hash, PartialEq, Eq)]
pub enum CompareOutcome {
    /// The span begins with the expected bytes.
    Agreed,
    /// The span ended while still agreeing with the expected bytes.
    Incomplete,
    /// The span disagrees with the expected bytes before either ends.
    Mismatch,
}

/// The first `n` bytes of `a` and `t` agree.
pub open spec fn bytes_agree(a: Seq<u8>, t: Seq<u8>, n: int) -> bool {
    forall|j: int| 0 <= j < n ==> a[j] == t[j]
}

/// What comparing content `a` against expected bytes `t` yields: a match
/// when all of `t` is present at the start of `a`, incomplete when `a` is a
/// proper prefix of `t`, and a mismatch otherwise.
pub open spec fn spec_compare(a: Seq<u8>, t: Seq<u8>) -> CompareOutcome {
    if t.len() <= a.len() && bytes_agree(a, t, t.len() as int) {
        CompareOutcome::Agreed
    } else if a.len() < t.len() && bytes_agree(a, t, a.len() as int) {
        CompareOutcome::Incomplete
    } else {
        CompareOutcome::Mismatch
    }
}

/// The ASCII-lowercase image of a byte.
pub open spec fn ascii_lower(b: u8) -> u8 {
    if 65 <= b <= 90 {
        (b + 32) as u8
    } else {
        b
    }
}

/// A byte sequence mapped to ASCII lowercase.
pub open spec fn lower_seq(a: Seq<u8>) -> Seq<u8> {
    a.map(|j: int, b: u8| ascii_lower(b))
}

/// Lowers a byte to its ASCII-lowercase image.
fn lower_byte(b: u8) -> (r: u8)
    ensures
        r == ascii_lower(b),
{
    if b >= 65 && b <= 90 {
        b + 32
    } else {
        b
    }
}

/// Compares the span's content against `tag`, case-sensitively.
pub fn compare<I: ParseInput>(input: &I, tag: &[u8]) -> (r: CompareOutcome)
    requires
        input.wf(),
    ensures
        r == spec_compare(input.content(), tag@),
{
    let bytes = input.as_bytes();
    let shorter = if bytes.len() < tag.len() {
        bytes.len()
    } else {
        tag.len()
    };
    let mut i: usize = 0;
    while i < shorter
        invariant
            bytes@ == input.content(),
            shorter <= bytes@.len(),
            shorter <= tag@.len(),
            shorter == if bytes@.len() < tag@.len() {
                bytes@.len() as int
            } else {
                tag@.len() as int
            },
            i <= shorter,
            bytes_agree(bytes@, tag@, i as int),
        decreases shorter - i,
    {
        let a = *vstd::slice::slice_index_get(bytes, i);
        let t = *vstd::slice::slice_index_get(tag, i);
        if a != t {
            return CompareOutcome::Mismatch;
        }
        i = i + 1;
    }
    if bytes.len() >= tag.len() {
        CompareOutcome::Agreed
    } else {
        CompareOutcome::Incomplete
    }
}

/// Compares the span's content against `tag`, ignoring ASCII case.
pub fn compare_no_case<I: ParseInput>(input: &I, tag: &[u8]) -> (r: CompareOutcome)
    requires
        input.wf(),
    ensures
        r == spec_compare(lower_seq(input.content()), lower_seq(tag@)),
{
    let bytes = input.as_bytes();
    let shorter = if bytes.len() < tag.len() {
        bytes.len()
    } else {
        tag.len()
    };
    let mut i: usize = 0;
    while i < shorter
        invariant
            bytes@ == input.content(),
            shorter <= bytes@.len(),
            shorter <= tag@.len(),
            shorter == if bytes@.len() < tag@.len() {
                bytes@.len() as int
            } else {
                tag@.len() as int
            },
            i <= shorter,
            bytes_agree(lower_seq(bytes@), lower_seq(tag@), i as int),
        decreases shorter - i,
    {
        let a = lower_byte(*vstd::slice::slice_index_get(bytes, i));
        let t = lower_byte(*vstd::slice::slice_index_get(tag, i));
        if a != t {
            proof {
                assert(lower_seq(bytes@)[i as int] != lower_seq(tag@)[i as int]);
            }
            return CompareOutcome::Mismatch;
        }
        i = i + 1;
    }
    if bytes.len() >= tag.len() {
        CompareOutcome::Agreed
    } else {
        CompareOutcome::Incomplete
    }
}

} // verus!
