//! The verified span satisfies the combinator engine's input capability
//! contract: an adapter that forwards every positional operation to the
//! library lets stock nom combinators run over it unchanged.

use parse_span::bytes::Bytes;
use parse_span::input::{Location, ParseInput};
use parse_span::located::Located;
use parse_span::signal::Needed;

#[derive(Clone, Debug, PartialEq)]
struct TestSpan<'a>(Located<Bytes<'a>>);

impl<'a> TestSpan<'a> {
    fn new(data: &'a [u8]) -> Self {
        TestSpan(Located::from(Bytes::new(data)))
    }
}

impl<'a> nom::Input for TestSpan<'a> {
    type Item = u8;
    type Iter = std::iter::Copied<std::slice::Iter<'a, u8>>;
    type IterIndices = std::iter::Enumerate<Self::Iter>;

    fn input_len(&self) -> usize {
        self.0.input_len()
    }

    fn take(&self, count: usize) -> Self {
        assert!(count <= self.0.input_len());
        TestSpan(self.0.take(count))
    }

    fn take_from(&self, index: usize) -> Self {
        assert!(index <= self.0.input_len());
        TestSpan(self.0.take_from(index))
    }

    fn take_split(&self, index: usize) -> (Self, Self) {
        assert!(index <= self.0.input_len());
        let (rest, prefix) = self.0.take_split(index);
        (TestSpan(rest), TestSpan(prefix))
    }

    fn position<P>(&self, predicate: P) -> Option<usize>
    where
        P: Fn(Self::Item) -> bool,
    {
        parse_span::split::position(&self.0, predicate)
    }

    fn iter_elements(&self) -> Self::Iter {
        let fragment = &self.0.fragment;
        fragment.buf[fragment.start..fragment.end].iter().copied()
    }

    fn iter_indices(&self) -> Self::IterIndices {
        self.iter_elements().enumerate()
    }

    fn slice_index(&self, count: usize) -> Result<usize, nom::Needed> {
        match self.0.slice_index(count) {
            Ok(i) => Ok(i),
            Err(Needed::Size(n)) => Err(nom::Needed::new(n)),
            Err(Needed::Unknown) => Err(nom::Needed::Unknown),
        }
    }
}

#[test]
fn nom_take_while1_runs_over_the_verified_span() {
    let s = TestSpan::new(b"abc123;");
    let mut parser = nom::bytes::complete::take_while1::<_, _, nom::error::Error<TestSpan<'_>>>(
        |b: u8| b.is_ascii_alphabetic(),
    );
    let (rest, taken) = parser(s).unwrap();
    assert_eq!(taken.0.as_bytes(), b"abc");
    assert_eq!(taken.0.location(), 0);
    assert_eq!(rest.0.as_bytes(), b"123;");
    assert_eq!(rest.0.location(), 3);
}

#[test]
fn nom_streaming_digit_reports_incomplete_over_the_verified_span() {
    let s = TestSpan::new(b"123");
    let result: nom::IResult<TestSpan<'_>, TestSpan<'_>> =
        nom::character::streaming::digit1(s);
    match result {
        Err(nom::Err::Incomplete(_)) => {}
        other => panic!("expected incomplete, got {:?}", other),
    }
}
