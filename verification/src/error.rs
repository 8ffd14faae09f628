//! The errors of this crate.

use vstd::prelude::*;

verus! {

/// What was wrong with a binary file or packet.
#[derive(Debug, Clone, Copy, PartialEq, Eq)]
pub enum ParseError {
    /// A read went past the end of the data.
    ReadPastEnd,
    /// A magic marker was missing.
    MissingMagic,
    /// A section declared a length shorter than its own header.
    BadSectionLength,
    /// The page size of a database is zero.
    ZeroPageSize,
    /// A text could not be cut where the format says, as the cut would
    /// fall inside a character.
    CharBoundary,
}

/// What a parse error says.
pub open spec fn parse_error_text(e: ParseError) -> Seq<char> {
    match e {
        ParseError::ReadPastEnd => "read past the end of the data"@,
        ParseError::MissingMagic => "missing magic marker"@,
        ParseError::BadSectionLength => "section length shorter than its header"@,
        ParseError::ZeroPageSize => "page size is zero"@,
        ParseError::CharBoundary => "cut inside a character"@,
    }
}

impl ParseError {
    /// A description of the error.
    pub fn message(self) -> (r: &'static str)
        ensures
            r@ == parse_error_text(self),
    {
        match self {
            ParseError::ReadPastEnd => "read past the end of the data",
            ParseError::MissingMagic => "missing magic marker",
            ParseError::BadSectionLength => "section length shorter than its header",
            ParseError::ZeroPageSize => "page size is zero",
            ParseError::CharBoundary => "cut inside a character",
        }
    }
}

/// Errors reported by this crate.
#[derive(Debug, Clone, PartialEq, Eq)]
pub enum Error {
    /// Malformed data.
    Parse(ParseError),
    /// A packet that does not follow the protocol.
    Protocol(String),
    /// A database could not be opened or read.
    Database(String),
    /// An operation that is not allowed in the current state.
    State(String),
}

} // verus!
