//! The laws this layer guarantees across arbitrary chains of narrowing
//! operations: where a derived span begins within its ancestor, how the two
//! halves of a split recombine, and that carried state survives every step.

use vstd::prelude::*;

use crate::input::{Duplicable, LocatedInput, ParseInput};
use crate::stateful::Stateful;

verus! {

/// One narrowing step: the models of `take`, `take_from`, and the two
/// halves of `take_split` (the remainder half behaves as `take_from`, the
/// consumed-prefix half as `take`).
#[derive(Clone, Copy, Debug, PartialEq, Eq)]
pub enum SliceOp {
    /// Keep the first `n` elements.
    Take(usize),
    /// Keep the elements from index `n` on.
    TakeFrom(usize),
    /// The remainder half of a split at `n`.
    SplitRemainder(usize),
    /// The consumed-prefix half of a split at `n`.
    SplitPrefix(usize),
}

/// The span produced by one narrowing step.
pub open spec fn apply_op<I: ParseInput>(s: I, op: SliceOp) -> I {
    match op {
        SliceOp::Take(n) => s.spec_take(n as int),
        SliceOp::TakeFrom(n) => s.spec_take_from(n as int),
        SliceOp::SplitRemainder(n) => s.spec_take_from(n as int),
        SliceOp::SplitPrefix(n) => s.spec_take(n as int),
    }
}

/// Whether one narrowing step stays within the span's bounds.
pub open spec fn op_valid<I: ParseInput>(s: I, op: SliceOp) -> bool {
    match op {
        SliceOp::Take(n) => n <= s.content().len(),
        SliceOp::TakeFrom(n) => n <= s.content().len(),
        SliceOp::SplitRemainder(n) => n <= s.content().len(),
        SliceOp::SplitPrefix(n) => n <= s.content().len(),
    }
}

/// The element index, within the span a step is applied to, at which the
/// step's result begins.
pub open spec fn op_start(op: SliceOp) -> int {
    match op {
        SliceOp::Take(n) => 0,
        SliceOp::TakeFrom(n) => n as int,
        SliceOp::SplitRemainder(n) => n as int,
        SliceOp::SplitPrefix(n) => 0,
    }
}

/// The span produced by a chain of narrowing steps, applied left to right.
pub open spec fn apply_chain<I: ParseInput>(s: I, ops: Seq<SliceOp>) -> I
    decreases ops.len(),
{
    if ops.len() == 0 {
        s
    } else {
        apply_chain(apply_op(s, ops[0]), ops.skip(1))
    }
}

/// Whether every step of a chain stays within bounds.
pub open spec fn chain_valid<I: ParseInput>(s: I, ops: Seq<SliceOp>) -> bool
    decreases ops.len(),
{
    if ops.len() == 0 {
        true
    } else {
        op_valid(s, ops[0]) && chain_valid(apply_op(s, ops[0]), ops.skip(1))
    }
}

/// The element index, within the original span, at which the chain's final
/// result begins: the starts of the individual steps add up.
pub open spec fn chain_start(ops: Seq<SliceOp>) -> int
    decreases ops.len(),
{
    if ops.len() == 0 {
        0
    } else {
        op_start(ops[0]) + chain_start(ops.skip(1))
    }
}

/// Offset correctness, content half: a span derived by any valid chain of
/// narrowing steps views exactly the slice of its ancestor's content that
/// begins at the summed start index.
pub proof fn lemma_chain_content<I: ParseInput>(s: I, ops: Seq<SliceOp>)
    requires
        s.wf(),
        chain_valid(s, ops),
    ensures
        apply_chain(s, ops).wf(),
        0 <= chain_start(ops),
        chain_start(ops) + apply_chain(s, ops).content().len() <= s.content().len(),
        apply_chain(s, ops).content() == s.content().subrange(
            chain_start(ops),
            chain_start(ops) + apply_chain(s, ops).content().len(),
        ),
    decreases ops.len(),
{
    if ops.len() == 0 {
        assert(apply_chain(s, ops).content() =~= s.content().subrange(
            0,
            apply_chain(s, ops).content().len() as int,
        ));
    } else {
        let s1 = apply_op(s, ops[0]);
        let n = op_start(ops[0]);
        match ops[0] {
            SliceOp::Take(c) => s.lemma_take(c as int),
            SliceOp::SplitPrefix(c) => s.lemma_take(c as int),
            SliceOp::TakeFrom(c) => s.lemma_take_from(c as int),
            SliceOp::SplitRemainder(c) => s.lemma_take_from(c as int),
        }
        lemma_chain_content(s1, ops.skip(1));
        let rest = ops.skip(1);
        let d = chain_start(rest);
        let l = apply_chain(s, ops).content().len() as int;
        assert(apply_chain(s1, rest).content() =~= s1.content().subrange(d, d + l));
        assert(apply_chain(s, ops).content() =~= s.content().subrange(n + d, n + d + l));
    }
}

/// Offset correctness, location half: a span derived by any valid chain of
/// narrowing steps has its location advanced by exactly the index at which
/// it begins within its ancestor. Holds for any stack of wrappers that
/// track a location.
pub proof fn lemma_chain_location<J: LocatedInput>(s: J, ops: Seq<SliceOp>)
    requires
        s.wf(),
        chain_valid(s, ops),
    ensures
        apply_chain(s, ops).spec_location() == s.spec_location() + chain_start(ops),
    decreases ops.len(),
{
    if ops.len() > 0 {
        let s1 = apply_op(s, ops[0]);
        match ops[0] {
            SliceOp::Take(c) => {
                s.lemma_take(c as int);
                s.lemma_take_location(c as int);
            },
            SliceOp::SplitPrefix(c) => {
                s.lemma_take(c as int);
                s.lemma_take_location(c as int);
            },
            SliceOp::TakeFrom(c) => {
                s.lemma_take_from(c as int);
                s.lemma_take_from_location(c as int);
            },
            SliceOp::SplitRemainder(c) => {
                s.lemma_take_from(c as int);
                s.lemma_take_from_location(c as int);
            },
        }
        lemma_chain_location(s1, ops.skip(1));
    }
}

/// Offset correctness: however a sub-span was derived — by any valid
/// chain of `take`, `take_from` and `take_split` halves — the difference
/// between its location and its ancestor's location is exactly the element
/// index at which the sub-span's content begins within the ancestor's.
pub proof fn lemma_offset_correctness<J: LocatedInput>(s: J, ops: Seq<SliceOp>)
    requires
        s.wf(),
        chain_valid(s, ops),
    ensures
        apply_chain(s, ops).spec_location() - s.spec_location() == chain_start(ops),
        apply_chain(s, ops).content() == s.content().subrange(
            chain_start(ops),
            chain_start(ops) + apply_chain(s, ops).content().len(),
        ),
{
    lemma_chain_content(s, ops);
    lemma_chain_location(s, ops);
}

/// State invariance: a span derived by any valid chain of narrowing steps
/// carries a state equal to the state present before the chain; this layer
/// never mutates it.
pub proof fn lemma_chain_state<I: ParseInput, T: Duplicable>(
    s: Stateful<I, T>,
    ops: Seq<SliceOp>,
)
    requires
        s.wf(),
        chain_valid(s, ops),
    ensures
        apply_chain(s, ops).state == s.state,
    decreases ops.len(),
{
    if ops.len() > 0 {
        let s1 = apply_op(s, ops[0]);
        match ops[0] {
            SliceOp::Take(c) => s.lemma_take(c as int),
            SliceOp::SplitPrefix(c) => s.lemma_take(c as int),
            SliceOp::TakeFrom(c) => s.lemma_take_from(c as int),
            SliceOp::SplitRemainder(c) => s.lemma_take_from(c as int),
        }
        lemma_chain_state(s1, ops.skip(1));
    }
}

/// Split complementarity: splitting at any valid index yields a consumed
/// prefix and a remainder whose contents concatenate back to the whole,
/// with the prefix keeping the span's location and the remainder starting
/// exactly `i` elements later. Holds for any stack of wrappers that track
/// a location.
pub proof fn lemma_split_complementarity<J: LocatedInput>(s: J, i: int)
    requires
        s.wf(),
        0 <= i <= s.content().len(),
    ensures
        s.spec_take(i).content() + s.spec_take_from(i).content() == s.content(),
        s.spec_take(i).spec_location() == s.spec_location(),
        s.spec_take_from(i).spec_location() == s.spec_location() + i,
{
    s.lemma_take(i);
    s.lemma_take_from(i);
    s.lemma_take_location(i);
    s.lemma_take_from_location(i);
    assert(s.spec_take(i).content() + s.spec_take_from(i).content() =~= s.content());
}

/// Round trip: taking the first `n` elements and then the remaining
/// `len - n` reproduces the original content when the two pieces are
/// recombined, and the first piece keeps the original location. The second
/// take consumes exactly what the first left over.
pub proof fn lemma_round_trip<J: LocatedInput>(s: J, n: int)
    requires
        s.wf(),
        0 <= n <= s.content().len(),
    ensures
        s.spec_take(n).content() + s.spec_take_from(n).spec_take(
            s.content().len() - n,
        ).content() == s.content(),
        s.spec_take(n).spec_location() == s.spec_location(),
{
    s.lemma_take(n);
    s.lemma_take_from(n);
    s.lemma_take_location(n);
    let rest = s.spec_take_from(n);
    rest.lemma_take(s.content().len() - n);
    assert(s.spec_take(n).content() + rest.spec_take(s.content().len() - n).content()
        =~= s.content());
}

/// A chain that begins other than at the start of its ancestor moves the
/// location away from zero: on any span whose location was zero, a chain
/// with a positive summed start index yields a span on which `bof` signals
/// an error rather than succeeding.
pub proof fn lemma_chain_moves_bof<J: LocatedInput>(s: J, ops: Seq<SliceOp>)
    requires
        s.wf(),
        chain_valid(s, ops),
        s.spec_location() == 0,
        chain_start(ops) > 0,
    ensures
        apply_chain(s, ops).spec_location() != 0,
{
    lemma_chain_location(s, ops);
}

} // verus!
