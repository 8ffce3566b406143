//! Combinator helpers built on the location capability alone. They are
//! generic over any input that is duplicable and location-queryable, so
//! they behave the same whether the wrappers are stacked state-over-location
//! or location-over-state.

use core::ops::Range;

use vstd::prelude::*;

use crate::input::{Duplicable, Location};
use crate::signal::{ErrorCause, ParseSignal, SpanError};

verus! {

/// Succeeds, returning the input unchanged, exactly when the input is at
/// the beginning of the original data; otherwise signals a recoverable
/// error tagged at the current input.
pub fn bof<I: Location + Duplicable>(input: I) -> (r: Result<(I, I), ParseSignal<I>>)
    ensures
        match r {
            Ok(pair) => input.spec_location() == 0 && pair.0 == input && pair.1 == input,
            Err(sig) => input.spec_location() != 0 && sig == (ParseSignal::Error(
                SpanError { input: input, cause: ErrorCause::Eof },
            )),
        },
{
    if input.location() == 0 {
        let rest = input.duplicate();
        Ok((rest, input))
    } else {
        Err(ParseSignal::Error(SpanError { input, cause: ErrorCause::Eof }))
    }
}

/// Runs a sub-parser and, on success, reports alongside its output the
/// absolute source range it consumed: from the location where the parse
/// started to the location of the remaining input.
pub fn span<I: Location, O, E, F: FnOnce(I) -> Result<(I, O), E>>(parser: F, input: I) -> (r:
    Result<(I, (Range<usize>, O)), E>)
    requires
        call_requires(parser, (input,)),
    ensures
        match r {
            Ok(pair) => {
                &&& call_ensures(parser, (input,), Ok((pair.0, pair.1.1)))
                &&& pair.1.0.start == input.spec_location()
                &&& pair.1.0.end == pair.0.spec_location()
            },
            Err(e) => call_ensures(parser, (input,), Err(e)),
        },
{
    let start = input.location();
    match parser(input) {
        Ok((remaining, output)) => {
            let end = remaining.location();
            Ok((remaining, (start..end, output)))
        },
        Err(e) => Err(e),
    }
}

} // verus!
