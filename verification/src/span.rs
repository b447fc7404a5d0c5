//! Spans of holding registers: a start address and a number of registers.

use vstd::prelude::*;

use crate::register::{ParseError, Timestamp};

verus! {

/// Something that covers `quantity` registers starting at `address`.
pub trait Span {
    spec fn span_address(&self) -> u16;

    spec fn span_quantity(&self) -> u16;

    fn address(&self) -> (r: u16)
        ensures
            r == self.span_address(),
    ;

    fn quantity(&self) -> (r: u16)
        ensures
            r == self.span_quantity(),
    ;
}

/// A span that turns the registers it covers into a parsed value.
pub trait SpanParser: Span {
    type Parsed;

    /// Whether parsing succeeds on the registers, and with which error it fails.
    spec fn parse_result(&self, data: Seq<u16>, timestamp: Timestamp) -> Result<(), ParseError>;

    /// True when `parsed` is what parsing the registers gives.
    spec fn parsed_from(&self, data: Seq<u16>, timestamp: Timestamp, parsed: Self::Parsed) -> bool;

    /// The parser's own validity.
    spec fn parser_wf(&self) -> bool;

    fn parse_with_timestamp(&self, data: &[u16], timestamp: Timestamp) -> (r: Result<
        Self::Parsed,
        ParseError,
    >)
        requires
            self.parser_wf(),
            2 * data@.len() <= usize::MAX,
        ensures
            match r {
                Ok(p) => self.parse_result(data@, timestamp) is Ok && self.parsed_from(
                    data@,
                    timestamp,
                    p,
                ),
                Err(e) => self.parse_result(data@, timestamp) == Err::<(), ParseError>(e),
            },
    ;
}

/// A bare span.
#[derive(Clone, Copy, Debug, PartialEq, Eq, Structural)]
pub struct SimpleSpan {
    pub address: u16,
    pub quantity: u16,
}

impl Span for SimpleSpan {
    open spec fn span_address(&self) -> u16 {
        self.address
    }

    open spec fn span_quantity(&self) -> u16 {
        self.quantity
    }

    fn address(&self) -> (r: u16) {
        self.address
    }

    fn quantity(&self) -> (r: u16) {
        self.quantity
    }
}

} // verus!
