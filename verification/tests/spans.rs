//! Behaviour of the location-tracking and state-carrying wrappers and of
//! the split/compare/combinator surface, on concrete inputs.

use parse_span::bytes::Bytes;
use parse_span::combinators::{bof, span};
use parse_span::compare::{compare, compare_no_case, CompareOutcome};
use parse_span::input::{extend_into, new_builder, Duplicable, Location, ParseInput};
use parse_span::located::Located;
use parse_span::signal::{ErrorCause, Needed, ParseSignal, SpanError};
use parse_span::split::{
    position, split_at_position, split_at_position1, split_at_position1_complete,
    split_at_position_complete,
};
use parse_span::stateful::Stateful;

fn located(data: &[u8]) -> Located<Bytes<'_>> {
    Located::from(Bytes::new(data))
}

fn is_digit(b: u8) -> bool {
    (48..=57).contains(&b)
}

#[test]
fn wrapping_starts_at_location_zero() {
    let s = located(b"abc123");
    assert_eq!(s.location(), 0);
    assert_eq!(s.input_len(), 6);
    assert_eq!(s.as_bytes(), b"abc123");
}

#[test]
fn take_keeps_location_take_from_advances_it() {
    let s = located(b"abcdef");
    let prefix = s.take(2);
    assert_eq!(prefix.location(), 0);
    assert_eq!(prefix.as_bytes(), b"ab");
    let rest = s.take_from(2);
    assert_eq!(rest.location(), 2);
    assert_eq!(rest.as_bytes(), b"cdef");
}

#[test]
fn offsets_accumulate_over_a_chain() {
    let s = located(b"abcdefgh");
    let s1 = s.take_from(3);
    let s2 = s1.take(4);
    let s3 = s2.take_from(2);
    assert_eq!(s3.location() - s.location(), 5);
    assert_eq!(s3.as_bytes(), b"fg");
    let (rest, _) = s3.take_split(1);
    assert_eq!(rest.location(), 6);
}

#[test]
fn split_complementarity() {
    let s = located(b"abcdef");
    for i in 0..=6usize {
        let (right, left) = s.take_split(i);
        let mut joined = left.as_bytes().to_vec();
        joined.extend_from_slice(right.as_bytes());
        assert_eq!(joined, b"abcdef");
        assert_eq!(left.location(), s.location());
        assert_eq!(right.location(), s.location() + i);
    }
}

#[test]
fn round_trip_reproduces_the_original() {
    let data = b"abcdef";
    let len = data.len();
    for n in 0..=len {
        let s = located(data);
        let first = s.take(n);
        let rest = s.take_from(n);
        let second = rest.take(len - n);
        let mut joined = first.as_bytes().to_vec();
        joined.extend_from_slice(second.as_bytes());
        assert_eq!(joined, data);
        assert_eq!(first.location(), 0);
    }
}

#[test]
fn offset_measures_consumed_input_and_saturates() {
    let s = located(b"abcdef");
    let rest = s.take_from(4);
    assert_eq!(s.offset(&rest), 4);
    assert_eq!(rest.offset(&s), 0);
}

#[test]
fn into_fragment_returns_the_bare_span() {
    let s = located(b"abc");
    let fragment = s.into_fragment();
    assert_eq!(fragment.as_bytes(), b"abc");
}

#[test]
fn position_finds_the_first_match() {
    let s = located(b"abc123");
    assert_eq!(position(&s, is_digit), Some(3));
    assert_eq!(position(&s, |b: u8| b == b'z'), None);
}

#[test]
fn split_at_position_splits_at_the_first_digit() {
    let s = located(b"abc123");
    let (rest, prefix) = split_at_position(&s, is_digit).unwrap();
    assert_eq!(rest.as_bytes(), b"123");
    assert_eq!(prefix.as_bytes(), b"abc");
    assert_eq!(prefix.location(), 0);
    assert_eq!(rest.location(), 3);
}

#[test]
fn split_at_position_needs_more_when_nothing_matches() {
    let s = located(b"abcdef");
    let err = split_at_position(&s, is_digit).unwrap_err();
    assert_eq!(err, ParseSignal::Incomplete(Needed::Size(1)));
}

#[test]
fn split_at_position1_rejects_a_match_at_index_zero() {
    let s = located(b"123abc");
    let err = split_at_position1(&s, is_digit, ErrorCause::Code(13)).unwrap_err();
    match err {
        ParseSignal::Error(SpanError { input, cause }) => {
            assert_eq!(input.as_bytes(), b"123abc");
            assert_eq!(input.location(), 0);
            assert_eq!(cause, ErrorCause::Code(13));
        }
        other => panic!("expected an error signal, got {:?}", other),
    }
}

#[test]
fn split_at_position1_accepts_a_nonempty_prefix() {
    let s = located(b"abc123");
    let (rest, prefix) = split_at_position1(&s, is_digit, ErrorCause::Code(13)).unwrap();
    assert_eq!(rest.as_bytes(), b"123");
    assert_eq!(prefix.as_bytes(), b"abc");
}

#[test]
fn split_at_position_complete_consumes_everything_without_a_match() {
    let s = located(b"abcdef");
    let (rest, prefix) = split_at_position_complete(&s, is_digit).unwrap();
    assert_eq!(rest.as_bytes(), b"");
    assert_eq!(prefix.as_bytes(), b"abcdef");
    assert_eq!(rest.location(), 6);
    assert_eq!(prefix.location(), 0);
}

#[test]
fn split_at_position1_complete_rejects_empty_input() {
    let s = located(b"");
    let err = split_at_position1_complete(&s, is_digit, ErrorCause::Code(9)).unwrap_err();
    match err {
        ParseSignal::Error(SpanError { input, cause }) => {
            assert_eq!(input.as_bytes(), b"");
            assert_eq!(cause, ErrorCause::Code(9));
        }
        other => panic!("expected an error signal, got {:?}", other),
    }
}

#[test]
fn split_at_position1_complete_consumes_nonempty_input_without_a_match() {
    let s = located(b"abc");
    let (rest, prefix) = split_at_position1_complete(&s, is_digit, ErrorCause::Code(9)).unwrap();
    assert_eq!(rest.as_bytes(), b"");
    assert_eq!(prefix.as_bytes(), b"abc");
}

#[test]
fn slice_index_signals_how_much_is_missing() {
    let s = located(b"abc");
    assert_eq!(s.slice_index(2), Ok(2));
    assert_eq!(s.slice_index(3), Ok(3));
    assert_eq!(s.slice_index(5), Err(Needed::Size(2)));
}

#[test]
fn bof_succeeds_only_at_the_beginning() {
    let s = located(b"abc");
    let (rest, out) = bof(s).unwrap();
    assert_eq!(rest.location(), 0);
    assert_eq!(out.as_bytes(), b"abc");

    let moved = located(b"abc").take_from(1);
    let err = bof(moved).unwrap_err();
    match err {
        ParseSignal::Error(SpanError { input, cause }) => {
            assert_eq!(input.location(), 1);
            assert_eq!(cause, ErrorCause::Eof);
        }
        other => panic!("expected an error signal, got {:?}", other),
    }
}

fn take_two(
    input: Located<Bytes<'_>>,
) -> Result<(Located<Bytes<'_>>, usize), ParseSignal<Located<Bytes<'_>>>> {
    Ok((input.take_from(2), 99))
}

#[test]
fn span_reports_the_consumed_range() {
    let s = located(b"abc123").take_from(1);
    assert_eq!(s.location(), 1);
    let (rest, (range, output)) = span(take_two, s).unwrap();
    assert_eq!(range, 1..3);
    assert_eq!(output, 99);
    assert_eq!(rest.location(), 3);
}

type StackedSpan<'a> = Stateful<Located<Bytes<'a>>, u32>;

fn take_three(input: StackedSpan<'_>) -> Result<(StackedSpan<'_>, ()), ParseSignal<StackedSpan<'_>>> {
    Ok((input.take_from(3), ()))
}

#[test]
fn span_sees_through_a_state_wrapper() {
    let s = Stateful::new(located(b"abc123"), 5u32);
    let (rest, (range, ())) = span(take_three, s).unwrap();
    assert_eq!(range, 0..3);
    assert_eq!(rest.state, 5);
    assert_eq!(rest.location(), 3);
}

#[test]
fn state_rides_along_every_operation() {
    let s = Stateful::new(located(b"abc123"), 42u64);
    assert_eq!(s.take(2).state, 42);
    assert_eq!(s.take_from(2).state, 42);
    let (rest, prefix) = s.take_split(3);
    assert_eq!(rest.state, 42);
    assert_eq!(prefix.state, 42);
    let (rest2, prefix2) = split_at_position(&s, is_digit).unwrap();
    assert_eq!(rest2.state, 42);
    assert_eq!(prefix2.state, 42);
    assert_eq!(rest2.as_bytes(), b"123");
    assert_eq!(prefix2.location(), 0);
    assert_eq!(rest2.location(), 3);
}

#[test]
fn stateful_location_forwards_to_the_inner_input() {
    let s = Stateful::new(located(b"abcdef"), (1u32, 2u32));
    let rest = s.take_from(4);
    assert_eq!(rest.location(), 4);
    assert_eq!(rest.state, (1, 2));
    assert_eq!(s.offset(&rest), 4);
}

#[test]
fn mapped_derives_a_sibling_with_equal_state() {
    let s = Stateful::new(located(b"abcdef"), 7u8);
    let sibling = s.mapped(|fragment| fragment.take(3));
    assert_eq!(sibling.state, 7);
    assert_eq!(sibling.as_bytes(), b"abc");
    assert_eq!(sibling.location(), 0);
}

#[test]
fn duplicate_copies_exactly() {
    let s = Stateful::new(located(b"xyz").take_from(1), 3u16);
    let copy = s.duplicate();
    assert_eq!(copy, s);
}

#[test]
fn compare_matches_prefixes_only() {
    let s = located(b"abc123");
    assert_eq!(compare(&s, b"abc"), CompareOutcome::Agreed);
    assert_eq!(compare(&s, b"abc123"), CompareOutcome::Agreed);
    assert_eq!(compare(&s, b"abd"), CompareOutcome::Mismatch);
    assert_eq!(compare(&s, b"abc1234"), CompareOutcome::Incomplete);
    assert_eq!(compare(&s, b""), CompareOutcome::Agreed);
}

#[test]
fn compare_no_case_ignores_ascii_case() {
    let s = located(b"AbC123");
    assert_eq!(compare_no_case(&s, b"aBc"), CompareOutcome::Agreed);
    assert_eq!(compare_no_case(&s, b"abd"), CompareOutcome::Mismatch);
    assert_eq!(compare_no_case(&s, b"abc123x"), CompareOutcome::Incomplete);
}

#[test]
fn extend_into_appends_the_content() {
    let s = located(b"abcdef").take_from(2).take(3);
    let mut builder = new_builder();
    extend_into(&s, &mut builder);
    assert_eq!(builder, b"cde");
    extend_into(&s.take(1), &mut builder);
    assert_eq!(builder, b"cdec");
}

fn fail_eof(
    input: Located<Bytes<'_>>,
) -> Result<(Located<Bytes<'_>>, u8), ParseSignal<Located<Bytes<'_>>>> {
    Err(ParseSignal::Error(SpanError { input, cause: ErrorCause::Eof }))
}

#[test]
fn span_relays_the_sub_parsers_failure_unchanged() {
    let s = located(b"abc");
    let err = span(fail_eof, s).unwrap_err();
    match err {
        ParseSignal::Error(SpanError { input, cause }) => {
            assert_eq!(input.as_bytes(), b"abc");
            assert_eq!(cause, ErrorCause::Eof);
        }
        other => panic!("expected an error signal, got {:?}", other),
    }
}

#[test]
fn wrappers_stack_in_either_order() {
    let inner = Stateful::new(Bytes::new(b"abc123"), 11u32);
    let outer: Located<Stateful<Bytes<'_>, u32>> = Located::from(inner);
    let rest = outer.take_from(3);
    assert_eq!(rest.location(), 3);
    assert_eq!(rest.fragment.state, 11);
    assert_eq!(rest.as_bytes(), b"123");
}
