//! The three-level severity taxonomy for conditions reported while slicing
//! input: `Incomplete` (need more data), `Error` (recoverable mismatch) and
//! `Failure` (unrecoverable). This layer only ever raises `Incomplete` and
//! `Error`; `Failure` exists so that a relayed condition keeps its kind.

use vstd::prelude::*;

verus! {

/// How much more input is needed before a decision can be made.
#[derive(Clone, Copy, Debug, Hash, PartialEq, Eq)]
pub enum Needed {
    /// The needed amount is not known.
    Unknown,
    /// At least this many more elements are needed.
    Size(usize),
}

/// The reason attached to an error raised by this layer: either the
/// "beginning of input" anchor failed, or an opaque caller-supplied code.
#[derive(Clone, Copy, Debug, Hash, PartialEq, Eq)]
pub enum ErrorCause {
    /// Raised when an anchor that must match at offset zero does not.
    Eof,
    /// An opaque reason code chosen by the caller.
    Code(u32),
}

/// An error payload: the input at the point of failure, fully wrapped, so
/// that the absolute location and any carried state stay visible on the
/// error path, together with the reason.
#[derive(Clone, Copy, Debug, Hash, PartialEq, Eq)]
pub struct SpanError<I> {
    /// The input value at the point of failure.
    pub input: I,
    /// Why the failure was raised.
    pub cause: ErrorCause,
}

/// A condition reported by a slicing or anchoring operation.
#[derive(Clone, Copy, Debug, Hash, PartialEq, Eq)]
pub enum ParseSignal<I> {
    /// Not enough input to decide; not a hard error.
    Incomplete(Needed),
    /// A local, recoverable mismatch; a combinator may backtrack.
    Error(SpanError<I>),
    /// An unrecoverable failure; aborts the enclosing parse attempt.
    Failure(SpanError<I>),
}

} // verus!
