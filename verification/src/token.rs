//! Tokens of GraphQL source text and the places they come from.

use vstd::prelude::*;

verus! {

/// Where a token begins: line and column count from one, the offset counts
/// characters from zero.
#[derive(Debug, Clone, Copy, PartialEq, Eq, Structural)]
pub struct Location {
    pub line: usize,
    pub column: usize,
    pub offset: usize,
}

impl Location {
    /// The place with the given parts.
    pub fn new(line: usize, column: usize, offset: usize) -> (location: Location)
        ensures
            location == (Location { line, column, offset }),
    {
        Location { line, column, offset }
    }

    /// The place to give a token written by hand, where the place plays no part.
    pub fn ignored() -> (location: Location)
        ensures
            location == (Location { line: 0, column: 0, offset: 0 }),
    {
        Location { line: 0, column: 0, offset: 0 }
    }
}

/// The lexical category of a token: what is left of it once its place and its
/// payload are set aside.
#[derive(Debug, Clone, Copy, PartialEq, Eq, Structural)]
pub enum TokenKind {
    Start,
    End,
    Name,
    Int,
    Float,
    Str,
    BlockStr,
    OpenBrace,
    CloseBrace,
    OpenParen,
    CloseParen,
    OpenSquare,
    CloseSquare,
    Colon,
    Equals,
    Bang,
    Dollar,
    At,
    Pipe,
    Amp,
    Ellipsis,
}

impl TokenKind {
    /// The text by which diagnostics name a category.
    pub open spec fn text(self) -> Seq<char> {
        match self {
            TokenKind::Start => "Token<Start>"@,
            TokenKind::End => "Token<End>"@,
            TokenKind::Name => "Token<Name>"@,
            TokenKind::Int => "Token<Int>"@,
            TokenKind::Float => "Token<Float>"@,
            TokenKind::Str => "Token<Str>"@,
            TokenKind::BlockStr => "Token<BlockStr>"@,
            TokenKind::OpenBrace => "Token<{>"@,
            TokenKind::CloseBrace => "Token<}>"@,
            TokenKind::OpenParen => "Token<(>"@,
            TokenKind::CloseParen => "Token<)>"@,
            TokenKind::OpenSquare => "Token<[>"@,
            TokenKind::CloseSquare => "Token<]>"@,
            TokenKind::Colon => "Token<:>"@,
            TokenKind::Equals => "Token<=>"@,
            TokenKind::Bang => "Token<!>"@,
            TokenKind::Dollar => "Token<$>"@,
            TokenKind::At => "Token<@>"@,
            TokenKind::Pipe => "Token<|>"@,
            TokenKind::Amp => "Token<&>"@,
            TokenKind::Ellipsis => "Token<...>"@,
        }
    }

    /// The text by which diagnostics name the category.
    pub fn to_string(&self) -> (text: String)
        ensures
            text@ == self.text(),
    {
        let text: &str = match self {
            TokenKind::Start => "Token<Start>",
            TokenKind::End => "Token<End>",
            TokenKind::Name => "Token<Name>",
            TokenKind::Int => "Token<Int>",
            TokenKind::Float => "Token<Float>",
            TokenKind::Str => "Token<Str>",
            TokenKind::BlockStr => "Token<BlockStr>",
            TokenKind::OpenBrace => "Token<{>",
            TokenKind::CloseBrace => "Token<}>",
            TokenKind::OpenParen => "Token<(>",
            TokenKind::CloseParen => "Token<)>",
            TokenKind::OpenSquare => "Token<[>",
            TokenKind::CloseSquare => "Token<]>",
            TokenKind::Colon => "Token<:>",
            TokenKind::Equals => "Token<=>",
            TokenKind::Bang => "Token<!>",
            TokenKind::Dollar => "Token<$>",
            TokenKind::At => "Token<@>",
            TokenKind::Pipe => "Token<|>",
            TokenKind::Amp => "Token<&>",
            TokenKind::Ellipsis => "Token<...>",
        };
        text.to_owned()
    }
}

/// A token as the lexer hands it out. Names and literals carry their decoded
/// payload; a float carries the text of its literal.
#[derive(Debug, PartialEq)]
pub enum Token {
    Start,
    End,
    Name(Location, String),
    Int(Location, i64),
    Float(Location, String),
    Str(Location, String),
    BlockStr(Location, String),
    OpenBrace(Location),
    CloseBrace(Location),
    OpenParen(Location),
    CloseParen(Location),
    OpenSquare(Location),
    CloseSquare(Location),
    Colon(Location),
    Equals(Location),
    Bang(Location),
    Dollar(Location),
    At(Location),
    Pipe(Location),
    Amp(Location),
    Ellipsis(Location),
}

/// The mathematical model of a [`Token`]: text is a sequence of characters.
pub ghost enum SpecToken {
    Start,
    End,
    Name(Location, Seq<char>),
    Int(Location, i64),
    Float(Location, Seq<char>),
    Str(Location, Seq<char>),
    BlockStr(Location, Seq<char>),
    OpenBrace(Location),
    CloseBrace(Location),
    OpenParen(Location),
    CloseParen(Location),
    OpenSquare(Location),
    CloseSquare(Location),
    Colon(Location),
    Equals(Location),
    Bang(Location),
    Dollar(Location),
    At(Location),
    Pipe(Location),
    Amp(Location),
    Ellipsis(Location),
}

impl SpecToken {
    /// The category of the token.
    pub open spec fn kind(self) -> TokenKind {
        match self {
            SpecToken::Start => TokenKind::Start,
            SpecToken::End => TokenKind::End,
            SpecToken::Name(..) => TokenKind::Name,
            SpecToken::Int(..) => TokenKind::Int,
            SpecToken::Float(..) => TokenKind::Float,
            SpecToken::Str(..) => TokenKind::Str,
            SpecToken::BlockStr(..) => TokenKind::BlockStr,
            SpecToken::OpenBrace(..) => TokenKind::OpenBrace,
            SpecToken::CloseBrace(..) => TokenKind::CloseBrace,
            SpecToken::OpenParen(..) => TokenKind::OpenParen,
            SpecToken::CloseParen(..) => TokenKind::CloseParen,
            SpecToken::OpenSquare(..) => TokenKind::OpenSquare,
            SpecToken::CloseSquare(..) => TokenKind::CloseSquare,
            SpecToken::Colon(..) => TokenKind::Colon,
            SpecToken::Equals(..) => TokenKind::Equals,
            SpecToken::Bang(..) => TokenKind::Bang,
            SpecToken::Dollar(..) => TokenKind::Dollar,
            SpecToken::At(..) => TokenKind::At,
            SpecToken::Pipe(..) => TokenKind::Pipe,
            SpecToken::Amp(..) => TokenKind::Amp,
            SpecToken::Ellipsis(..) => TokenKind::Ellipsis,
        }
    }

    /// The place of the token; `Start` and `End` have none.
    pub open spec fn location(self) -> Option<Location> {
        match self {
            SpecToken::Start => None,
            SpecToken::End => None,
            SpecToken::Name(location, _) => Some(location),
            SpecToken::Int(location, _) => Some(location),
            SpecToken::Float(location, _) => Some(location),
            SpecToken::Str(location, _) => Some(location),
            SpecToken::BlockStr(location, _) => Some(location),
            SpecToken::OpenBrace(location) => Some(location),
            SpecToken::CloseBrace(location) => Some(location),
            SpecToken::OpenParen(location) => Some(location),
            SpecToken::CloseParen(location) => Some(location),
            SpecToken::OpenSquare(location) => Some(location),
            SpecToken::CloseSquare(location) => Some(location),
            SpecToken::Colon(location) => Some(location),
            SpecToken::Equals(location) => Some(location),
            SpecToken::Bang(location) => Some(location),
            SpecToken::Dollar(location) => Some(location),
            SpecToken::At(location) => Some(location),
            SpecToken::Pipe(location) => Some(location),
            SpecToken::Amp(location) => Some(location),
            SpecToken::Ellipsis(location) => Some(location),
        }
    }

    /// The text a token carries: that of a name, a string or a float literal;
    /// empty for every other token.
    pub open spec fn payload(self) -> Seq<char> {
        match self {
            SpecToken::Name(_, text) => text,
            SpecToken::Float(_, text) => text,
            SpecToken::Str(_, text) => text,
            SpecToken::BlockStr(_, text) => text,
            _ => Seq::empty(),
        }
    }

    /// Whether the token is the name `word`.
    pub open spec fn is_word(self, word: Seq<char>) -> bool {
        self is Name && self.payload() == word
    }
}

impl View for Token {
    type V = SpecToken;

    open spec fn view(&self) -> SpecToken {
        match self {
            Token::Start => SpecToken::Start,
            Token::End => SpecToken::End,
            Token::Name(location, text) => SpecToken::Name(*location, text@),
            Token::Int(location, value) => SpecToken::Int(*location, *value),
            Token::Float(location, text) => SpecToken::Float(*location, text@),
            Token::Str(location, text) => SpecToken::Str(*location, text@),
            Token::BlockStr(location, text) => SpecToken::BlockStr(*location, text@),
            Token::OpenBrace(location) => SpecToken::OpenBrace(*location),
            Token::CloseBrace(location) => SpecToken::CloseBrace(*location),
            Token::OpenParen(location) => SpecToken::OpenParen(*location),
            Token::CloseParen(location) => SpecToken::CloseParen(*location),
            Token::OpenSquare(location) => SpecToken::OpenSquare(*location),
            Token::CloseSquare(location) => SpecToken::CloseSquare(*location),
            Token::Colon(location) => SpecToken::Colon(*location),
            Token::Equals(location) => SpecToken::Equals(*location),
            Token::Bang(location) => SpecToken::Bang(*location),
            Token::Dollar(location) => SpecToken::Dollar(*location),
            Token::At(location) => SpecToken::At(*location),
            Token::Pipe(location) => SpecToken::Pipe(*location),
            Token::Amp(location) => SpecToken::Amp(*location),
            Token::Ellipsis(location) => SpecToken::Ellipsis(*location),
        }
    }
}

impl Token {
    /// The category of the token.
    pub fn kind(&self) -> (kind: TokenKind)
        ensures
            kind == self@.kind(),
    {
        match self {
            Token::Start => TokenKind::Start,
            Token::End => TokenKind::End,
            Token::Name(..) => TokenKind::Name,
            Token::Int(..) => TokenKind::Int,
            Token::Float(..) => TokenKind::Float,
            Token::Str(..) => TokenKind::Str,
            Token::BlockStr(..) => TokenKind::BlockStr,
            Token::OpenBrace(..) => TokenKind::OpenBrace,
            Token::CloseBrace(..) => TokenKind::CloseBrace,
            Token::OpenParen(..) => TokenKind::OpenParen,
            Token::CloseParen(..) => TokenKind::CloseParen,
            Token::OpenSquare(..) => TokenKind::OpenSquare,
            Token::CloseSquare(..) => TokenKind::CloseSquare,
            Token::Colon(..) => TokenKind::Colon,
            Token::Equals(..) => TokenKind::Equals,
            Token::Bang(..) => TokenKind::Bang,
            Token::Dollar(..) => TokenKind::Dollar,
            Token::At(..) => TokenKind::At,
            Token::Pipe(..) => TokenKind::Pipe,
            Token::Amp(..) => TokenKind::Amp,
            Token::Ellipsis(..) => TokenKind::Ellipsis,
        }
    }

    /// The place of the token; `Start` and `End` have none.
    pub fn location(&self) -> (location: Option<Location>)
        ensures
            location == self@.location(),
    {
        match self {
            Token::Start => None,
            Token::End => None,
            Token::Name(location, _) => Some(*location),
            Token::Int(location, _) => Some(*location),
            Token::Float(location, _) => Some(*location),
            Token::Str(location, _) => Some(*location),
            Token::BlockStr(location, _) => Some(*location),
            Token::OpenBrace(location) => Some(*location),
            Token::CloseBrace(location) => Some(*location),
            Token::OpenParen(location) => Some(*location),
            Token::CloseParen(location) => Some(*location),
            Token::OpenSquare(location) => Some(*location),
            Token::CloseSquare(location) => Some(*location),
            Token::Colon(location) => Some(*location),
            Token::Equals(location) => Some(*location),
            Token::Bang(location) => Some(*location),
            Token::Dollar(location) => Some(*location),
            Token::At(location) => Some(*location),
            Token::Pipe(location) => Some(*location),
            Token::Amp(location) => Some(*location),
            Token::Ellipsis(location) => Some(*location),
        }
    }

    /// Whether two tokens belong to one category, whatever they carry and
    /// wherever they stand.
    pub fn is_same_type(&self, other: &Token) -> (same: bool)
        ensures
            same == (self@.kind() == other@.kind()),
    {
        self.kind() == other.kind()
    }

    /// The token as diagnostics show it: by its category.
    pub fn to_string(&self) -> (text: String)
        ensures
            text@ == self@.kind().text(),
    {
        self.kind().to_string()
    }
}

} // verus!
