//! Predicate search and the four `split_at_position` policies: whether a
//! zero-length prefix is an error (the `1` variants) and whether running
//! out of input means "need more" or "take everything" (the `complete`
//! variants).

use vstd::prelude::*;

use crate::input::ParseInput;
use crate::signal::{ErrorCause, Needed, ParseSignal, SpanError};

verus! {

/// The first index at which `predicate` holds, or `None` when it holds
/// nowhere in the span.
pub fn position<I: ParseInput, P: Fn(u8) -> bool>(input: &I, predicate: P) -> (r: Option<
    usize,
>)
    requires
        input.wf(),
        forall|b: u8| call_requires(predicate, (b,)),
    ensures
        match r {
            Some(n) => {
                &&& n < input.content().len()
                &&& call_ensures(predicate, (input.content()[n as int],), true)
                &&& forall|j: int|
                    0 <= j < n ==> call_ensures(predicate, (input.content()[j],), false)
            },
            None => forall|j: int|
                0 <= j < input.content().len() ==> call_ensures(
                    predicate,
                    (input.content()[j],),
                    false,
                ),
        },
{
    let bytes = input.as_bytes();
    let mut i: usize = 0;
    while i < bytes.len()
        invariant
            input.wf(),
            bytes@ == input.content(),
            i <= bytes@.len(),
            forall|b: u8| call_requires(predicate, (b,)),
            forall|j: int| 0 <= j < i ==> call_ensures(predicate, (input.content()[j],), false),
        decreases bytes@.len() - i,
    {
        let b = *vstd::slice::slice_index_get(bytes, i);
        if predicate(b) {
            return Some(i);
        }
        i = i + 1;
    }
    None
}

/// Splits at the first predicate match; when the predicate never matches,
/// signals that at least one more element is needed. A match at index zero
/// yields an empty consumed prefix.
pub fn split_at_position<I: ParseInput, P: Fn(u8) -> bool>(input: &I, predicate: P) -> (r:
    Result<(I, I), ParseSignal<I>>)
    requires
        input.wf(),
        forall|b: u8| call_requires(predicate, (b,)),
    ensures
        match r {
            Ok(pair) => {
                let n = pair.1.content().len() as int;
                &&& n < input.content().len()
                &&& pair.0 == input.spec_take_from(n)
                &&& pair.1 == input.spec_take(n)
                &&& call_ensures(predicate, (input.content()[n],), true)
                &&& forall|j: int|
                    0 <= j < n ==> call_ensures(predicate, (input.content()[j],), false)
            },
            Err(sig) => {
                &&& sig == ParseSignal::<I>::Incomplete(Needed::Size(1))
                &&& forall|j: int|
                    0 <= j < input.content().len() ==> call_ensures(
                        predicate,
                        (input.content()[j],),
                        false,
                    )
            },
        },
{
    match position(input, predicate) {
        Some(n) => {
            proof {
                input.lemma_take(n as int);
            }
            Ok(input.take_split(n))
        },
        None => Err(ParseSignal::Incomplete(Needed::Size(1))),
    }
}

/// As `split_at_position`, but a match at index zero is a parse error at
/// the current input, tagged with `cause`.
pub fn split_at_position1<I: ParseInput, P: Fn(u8) -> bool>(
    input: &I,
    predicate: P,
    cause: ErrorCause,
) -> (r: Result<(I, I), ParseSignal<I>>)
    requires
        input.wf(),
        forall|b: u8| call_requires(predicate, (b,)),
    ensures
        match r {
            Ok(pair) => {
                let n = pair.1.content().len() as int;
                &&& 1 <= n < input.content().len()
                &&& pair.0 == input.spec_take_from(n)
                &&& pair.1 == input.spec_take(n)
                &&& call_ensures(predicate, (input.content()[n],), true)
                &&& forall|j: int|
                    0 <= j < n ==> call_ensures(predicate, (input.content()[j],), false)
            },
            Err(sig) => match sig {
                ParseSignal::Incomplete(needed) => {
                    &&& needed == Needed::Size(1)
                    &&& forall|j: int|
                        0 <= j < input.content().len() ==> call_ensures(
                            predicate,
                            (input.content()[j],),
                            false,
                        )
                },
                ParseSignal::Error(e) => {
                    &&& e.input == *input
                    &&& e.cause == cause
                    &&& input.content().len() > 0
                    &&& call_ensures(predicate, (input.content()[0],), true)
                },
                ParseSignal::Failure(_) => false,
            },
        },
{
    match position(input, predicate) {
        Some(n) => {
            if n == 0 {
                Err(ParseSignal::Error(SpanError { input: input.duplicate(), cause }))
            } else {
                proof {
                    input.lemma_take(n as int);
                }
                Ok(input.take_split(n))
            }
        },
        None => Err(ParseSignal::Incomplete(Needed::Size(1))),
    }
}

/// Splits at the first predicate match; when the predicate never matches,
/// the whole remaining span counts as consumed — the end of input is a
/// valid split point.
pub fn split_at_position_complete<I: ParseInput, P: Fn(u8) -> bool>(input: &I, predicate: P) -> (r:
    Result<(I, I), ParseSignal<I>>)
    requires
        input.wf(),
        forall|b: u8| call_requires(predicate, (b,)),
    ensures
        match r {
            Ok(pair) => {
                let n = pair.1.content().len() as int;
                &&& n <= input.content().len()
                &&& pair.0 == input.spec_take_from(n)
                &&& pair.1 == input.spec_take(n)
                &&& n < input.content().len() ==> call_ensures(
                    predicate,
                    (input.content()[n],),
                    true,
                )
                &&& forall|j: int|
                    0 <= j < n ==> call_ensures(predicate, (input.content()[j],), false)
            },
            Err(_) => false,
        },
{
    match position(input, predicate) {
        Some(n) => {
            proof {
                input.lemma_take(n as int);
            }
            Ok(input.take_split(n))
        },
        None => {
            let len = input.input_len();
            proof {
                input.lemma_take(len as int);
            }
            Ok(input.take_split(len))
        },
    }
}

/// Combines both rules: a match at index zero is an error tagged with
/// `cause`, and so is an empty input that never matches; a non-empty input
/// that never matches is consumed whole.
pub fn split_at_position1_complete<I: ParseInput, P: Fn(u8) -> bool>(
    input: &I,
    predicate: P,
    cause: ErrorCause,
) -> (r: Result<(I, I), ParseSignal<I>>)
    requires
        input.wf(),
        forall|b: u8| call_requires(predicate, (b,)),
    ensures
        match r {
            Ok(pair) => {
                let n = pair.1.content().len() as int;
                &&& 1 <= n <= input.content().len()
                &&& pair.0 == input.spec_take_from(n)
                &&& pair.1 == input.spec_take(n)
                &&& n < input.content().len() ==> call_ensures(
                    predicate,
                    (input.content()[n],),
                    true,
                )
                &&& forall|j: int|
                    0 <= j < n ==> call_ensures(predicate, (input.content()[j],), false)
            },
            Err(sig) => match sig {
                ParseSignal::Error(e) => {
                    &&& e.input == *input
                    &&& e.cause == cause
                    &&& (input.content().len() == 0 || call_ensures(
                        predicate,
                        (input.content()[0],),
                        true,
                    ))
                },
                _ => false,
            },
        },
{
    match position(input, predicate) {
        Some(n) => {
            if n == 0 {
                Err(ParseSignal::Error(SpanError { input: input.duplicate(), cause }))
            } else {
                proof {
                    input.lemma_take(n as int);
                }
                Ok(input.take_split(n))
            }
        },
        None => {
            let len = input.input_len();
            if len == 0 {
                Err(ParseSignal::Error(SpanError { input: input.duplicate(), cause }))
            } else {
                proof {
                    input.lemma_take(len as int);
                }
                Ok(input.take_split(len))
            }
        },
    }
}

} // verus!
