//! What lexing and parsing report when the source text is not GraphQL.

use vstd::prelude::*;
use crate::token::Location;

verus! {

/// A lexical failure, with the place it was found at.
#[derive(Debug, Clone, Copy, PartialEq, Eq, Structural)]
pub enum LexErrorKind {
    /// A character that begins no token.
    UnexpectedCharacter(Location),
    /// A string that its line or the text ends before its closing quote; the
    /// place is that of the opening quote.
    UnterminatedString(Location),
    /// A block string that the text ends before its closing quotes; the
    /// place is that of the opening quotes.
    UnterminatedBlockString(Location),
    /// A backslash in a string that begins no escape; the place is that of
    /// the backslash.
    InvalidEscape(Location),
    /// A number that breaks the grammar of numbers, or an integer beyond
    /// 64 bits; the place is that of its first character.
    MalformedNumber(Location),
}

impl LexErrorKind {
    /// The place that the failure was found at.
    pub open spec fn place(self) -> Location {
        match self {
            LexErrorKind::UnexpectedCharacter(location) => location,
            LexErrorKind::UnterminatedString(location) => location,
            LexErrorKind::UnterminatedBlockString(location) => location,
            LexErrorKind::InvalidEscape(location) => location,
            LexErrorKind::MalformedNumber(location) => location,
        }
    }

    /// The place that the failure was found at.
    pub fn location(&self) -> (location: Location)
        ensures
            location == self.place(),
    {
        match self {
            LexErrorKind::UnexpectedCharacter(location) => *location,
            LexErrorKind::UnterminatedString(location) => *location,
            LexErrorKind::UnterminatedBlockString(location) => *location,
            LexErrorKind::InvalidEscape(location) => *location,
            LexErrorKind::MalformedNumber(location) => *location,
        }
    }
}

/// A failure to parse.
#[derive(Debug, PartialEq)]
pub enum ParseError {
    /// A name or a value that the grammar does not know at that place.
    BadValue,
    /// The text holds no definition.
    DocumentEmpty,
    /// Parentheses with nothing between them.
    ArgumentEmpty,
    /// The tokens ran dry. With the lexer they never do: behind the text it
    /// gives `End`, pull after pull.
    EOF,
    /// The lexer failed on the token that was asked for.
    LexError(LexErrorKind),
    /// A token of another category than the grammar asks for.
    UnexpectedToken { expected: String, received: String },
}

/// The mathematical model of a [`ParseError`].
pub ghost enum SpecParseError {
    BadValue,
    DocumentEmpty,
    ArgumentEmpty,
    EOF,
    LexError(LexErrorKind),
    UnexpectedToken { expected: Seq<char>, received: Seq<char> },
}

impl View for ParseError {
    type V = SpecParseError;

    open spec fn view(&self) -> SpecParseError {
        match self {
            ParseError::BadValue => SpecParseError::BadValue,
            ParseError::DocumentEmpty => SpecParseError::DocumentEmpty,
            ParseError::ArgumentEmpty => SpecParseError::ArgumentEmpty,
            ParseError::EOF => SpecParseError::EOF,
            ParseError::LexError(kind) => SpecParseError::LexError(*kind),
            ParseError::UnexpectedToken { expected, received } => SpecParseError::UnexpectedToken {
                expected: expected@,
                received: received@,
            },
        }
    }
}

pub type ParseResult<T> = Result<T, ParseError>;

} // verus!
