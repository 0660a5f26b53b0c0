//! The lexer: it walks the source text once, front to back, and hands out one
//! token for each pull.

use vstd::prelude::*;
use crate::block_string::block_value;
use crate::error::LexErrorKind;
use crate::lexical::{
    lemma_line_column_bounds, block_tail, column_of, decimal_value, digits_end, escape_at,
    hex4_value, hex_value, is_digit, is_hex_digit, is_name_start, item_at,
    lemma_digits_end_bounds, lemma_name_end_bounds, lemma_scan_bounds, lemma_tokens_from_shape,
    line_of, location_at, name_end, punctuator, scan, scan_number, scan_string, scan_token,
    skip_ignored, string_tail, token_stream, tokens_from, triple_quote_at, SpecItem,
};
use crate::text::{scalar_from, text_of, to_chars};
use crate::token::{Location, SpecToken, Token};

verus! {

/// One pull as its model.
pub open spec fn item_view(item: Result<Token, LexErrorKind>) -> SpecItem {
    match item {
        Ok(token) => Ok(token@),
        Err(kind) => Err(kind),
    }
}

/// The lexer of one text. A new lexer stands at the start of its text; it
/// goes forward only.
pub struct Lexer {
    source: Vec<char>,
    pos: usize,
    line: usize,
    column: usize,
    started: bool,
    pulled: Ghost<nat>,
}

proof fn lemma_decimal_value_grows(digits: Seq<char>, k: int)
    requires
        0 <= k <= digits.len(),
        forall|j: int| 0 <= j < digits.len() ==> is_digit(#[trigger] digits[j]),
    ensures
        decimal_value(digits.take(k)) <= decimal_value(digits),
    decreases digits.len() - k,
{
    if k < digits.len() {
        lemma_decimal_value_grows(digits, k + 1);
        assert(digits.take(k + 1).drop_last() == digits.take(k));
        assert(digits.take(k + 1).last() == digits[k]);
    } else {
        assert(digits.take(k) == digits);
    }
}

proof fn lemma_digits_run(s: Seq<char>, from: int, to: int)
    requires
        0 <= from <= to <= s.len(),
        to <= digits_end(s, from),
    ensures
        forall|j: int| from <= j < to ==> is_digit(#[trigger] s[j]),
        digits_end(s, from) == digits_end(s, to),
    decreases to - from,
{
    if from < to {
        if is_digit(s[from]) {
            lemma_digits_run(s, from + 1, to);
        }
    }
}

fn punctuator_token(c: char, location: Location) -> (token: Option<Token>)
    ensures
        match token {
            Some(found) => punctuator(c, location) == Some(found@),
            None => punctuator(c, location) is None,
        },
{
    match c {
        '{' => Some(Token::OpenBrace(location)),
        '}' => Some(Token::CloseBrace(location)),
        '(' => Some(Token::OpenParen(location)),
        ')' => Some(Token::CloseParen(location)),
        '[' => Some(Token::OpenSquare(location)),
        ']' => Some(Token::CloseSquare(location)),
        ':' => Some(Token::Colon(location)),
        '=' => Some(Token::Equals(location)),
        '!' => Some(Token::Bang(location)),
        '$' => Some(Token::Dollar(location)),
        '@' => Some(Token::At(location)),
        '|' => Some(Token::Pipe(location)),
        '&' => Some(Token::Amp(location)),
        _ => None,
    }
}

fn digit_of(c: char) -> (b: bool)
    ensures
        b == is_digit(c),
{
    '0' <= c && c <= '9'
}

fn name_start_of(c: char) -> (b: bool)
    ensures
        b == is_name_start(c),
{
    c == '_' || ('a' <= c && c <= 'z') || ('A' <= c && c <= 'Z')
}

fn hex_of(c: char) -> (value: Option<u32>)
    ensures
        match value {
            Some(v) => is_hex_digit(c) && v == hex_value(c) && v < 16,
            None => !is_hex_digit(c),
        },
{
    if '0' <= c && c <= '9' {
        Some(c as u32 - '0' as u32)
    } else if 'a' <= c && c <= 'f' {
        Some(c as u32 - 'a' as u32 + 10)
    } else if 'A' <= c && c <= 'F' {
        Some(c as u32 - 'A' as u32 + 10)
    } else {
        None
    }
}

impl Lexer {
    /// The text that is being lexed.
    pub closed spec fn source(&self) -> Seq<char> {
        self.source@
    }

    /// The number of pulls made so far.
    pub closed spec fn index(&self) -> nat {
        self.pulled@
    }

    /// Everything the lexer gives from its first pull on.
    pub open spec fn tokens(&self) -> Seq<SpecItem> {
        token_stream(self.source())
    }

    spec fn placed(&self) -> bool {
        &&& self.pos <= self.source.len()
        &&& self.line == line_of(self.source@, self.pos as int)
        &&& self.column == column_of(self.source@, self.pos as int)
    }

    /// `self` is `before` moved to `pos`.
    spec fn moved(&self, before: Lexer, pos: int) -> bool {
        &&& self.placed()
        &&& self.pos == pos
        &&& self.source == before.source
        &&& self.started == before.started
        &&& self.pulled == before.pulled
    }

    /// The lexer stands where its pulls have brought it.
    pub closed spec fn wf(&self) -> bool {
        let stream = token_stream(self.source@);
        &&& self.placed()
        &&& !self.started ==> self.pos == 0 && self.pulled@ == 0
        &&& self.started ==> self.pulled@ >= 1 && if self.pulled@ < stream.len() {
            tokens_from(self.source@, self.pos as int) == stream.skip(self.pulled@ as int)
        } else {
            scan(self.source@, self.pos as int).item == Ok::<SpecToken, LexErrorKind>(
                SpecToken::End,
            )
        }
    }

    /// A lexer at the start of `input`.
    pub fn new(input: &str) -> (lexer: Lexer)
        ensures
            lexer.wf(),
            lexer.source() == input@,
            lexer.index() == 0,
    {
        Lexer {
            source: to_chars(input),
            pos: 0,
            line: 0,
            column: 0,
            started: false,
            pulled: Ghost(0),
        }
    }

    fn bump(&mut self)
        requires
            old(self).placed(),
            old(self).pos < old(self).source.len(),
        ensures
            final(self).moved(*old(self), old(self).pos + 1),
    {
        proof {
            lemma_line_column_bounds(self.source@, self.pos as int);
        }
        let c = self.source[self.pos];
        let ends = c == '\n' || (c == '\r' && !(self.pos + 1 < self.source.len()
            && self.source[self.pos + 1] == '\n'));
        if ends {
            self.line = self.line + 1;
            self.column = 0;
        } else {
            self.column = self.column + 1;
        }
        self.pos = self.pos + 1;
    }

    fn advance(&mut self, count: usize)
        requires
            old(self).placed(),
            old(self).pos + count <= old(self).source.len(),
        ensures
            final(self).moved(*old(self), old(self).pos + count),
    {
        let mut done: usize = 0;
        while done < count
            invariant
                done <= count,
                self.moved(*old(self), old(self).pos + done),
                old(self).pos + count <= old(self).source.len(),
            decreases count - done,
        {
            self.bump();
            done = done + 1;
        }
    }

    fn location(&self) -> (location: Location)
        requires
            self.placed(),
            self.pos < self.source.len(),
        ensures
            location == location_at(self.source@, self.pos as int),
    {
        proof {
            lemma_line_column_bounds(self.source@, self.pos as int);
        }
        Location { line: self.line + 1, column: self.column + 1, offset: self.pos }
    }

    fn is_at(&self, pos: usize, c: char) -> (found: bool)
        ensures
            found == (pos < self.source.len() && self.source@[pos as int] == c),
    {
        pos < self.source.len() && self.source[pos] == c
    }

    fn triple_at(&self, pos: usize) -> (found: bool)
        ensures
            found == triple_quote_at(self.source@, pos as int),
    {
        pos < self.source.len() && self.source.len() - pos > 2 && self.source[pos] == '"'
            && self.source[pos + 1] == '"' && self.source[pos + 2] == '"'
    }

    fn skip_ignored(&mut self)
        requires
            old(self).placed(),
        ensures
            final(self).moved(
                *old(self),
                skip_ignored(old(self).source@, old(self).pos as int, false),
            ),
    {
        let mut in_comment = false;
        loop
            invariant_except_break
                self.moved(*old(self), self.pos as int),
                skip_ignored(old(self).source@, old(self).pos as int, false) == skip_ignored(
                    self.source@,
                    self.pos as int,
                    in_comment,
                ),
            ensures
                self.moved(
                    *old(self),
                    skip_ignored(old(self).source@, old(self).pos as int, false),
                ),
            decreases self.source.len() - self.pos, if in_comment { 1int } else { 0int },
        {
            if self.pos >= self.source.len() {
                break ;
            }
            let c = self.source[self.pos];
            if in_comment {
                if c == '\n' || c == '\r' {
                    in_comment = false;
                } else {
                    self.bump();
                }
            } else if c == ' ' || c == '\t' || c == '\n' || c == '\r' || c == ',' {
                self.bump();
            } else if c == '#' {
                self.bump();
                in_comment = true;
            } else {
                break ;
            }
        }
    }

    fn skip_name(&mut self)
        requires
            old(self).placed(),
        ensures
            final(self).moved(*old(self), name_end(old(self).source@, old(self).pos as int)),
    {
        while self.pos < self.source.len() && (name_start_of(self.source[self.pos]) || digit_of(
            self.source[self.pos],
        ))
            invariant
                self.moved(*old(self), self.pos as int),
                name_end(old(self).source@, old(self).pos as int) == name_end(
                    self.source@,
                    self.pos as int,
                ),
            decreases self.source.len() - self.pos,
        {
            self.bump();
        }
    }

    fn skip_digits(&mut self)
        requires
            old(self).placed(),
        ensures
            final(self).moved(*old(self), digits_end(old(self).source@, old(self).pos as int)),
    {
        while self.pos < self.source.len() && digit_of(self.source[self.pos])
            invariant
                self.moved(*old(self), self.pos as int),
                digits_end(old(self).source@, old(self).pos as int) == digits_end(
                    self.source@,
                    self.pos as int,
                ),
            decreases self.source.len() - self.pos,
        {
            self.bump();
        }
    }

    /// The integer that the digits `first..end` write, with a minus sign
    /// before them where `negative`; `None` where 64 bits do not hold it.
    fn int_value(&self, first: usize, end: usize, negative: bool) -> (value: Option<i64>)
        requires
            first <= end <= self.source.len(),
            end <= digits_end(self.source@, first as int),
        ensures
            ({
                let magnitude = decimal_value(self.source@.subrange(first as int, end as int));
                let exact = if negative { -magnitude } else { magnitude as int };
                match value {
                    Some(v) => v == exact,
                    None => !(i64::MIN <= exact <= i64::MAX),
                }
            }),
    {
        let ghost digits = self.source@.subrange(first as int, end as int);
        proof {
            lemma_digits_run(self.source@, first as int, end as int);
        }
        let limit: u64 = 9223372036854775808;
        let mut magnitude: u64 = 0;
        let mut pos: usize = first;
        while pos < end
            invariant
                first <= pos <= end <= self.source.len(),
                digits == self.source@.subrange(first as int, end as int),
                forall|j: int| 0 <= j < digits.len() ==> is_digit(#[trigger] digits[j]),
                magnitude == decimal_value(digits.take(pos - first)),
                magnitude <= limit,
                limit == 9223372036854775808,
            decreases end - pos,
        {
            let c = self.source[pos];
            assert(digits[pos - first] == c);
            let digit: u64 = (c as u32 - '0' as u32) as u64;
            proof {
                assert(digits.take(pos - first + 1).drop_last() == digits.take(pos - first));
                assert(digits.take(pos - first + 1).last() == c);
                assert(decimal_value(digits.take(pos - first + 1)) == 10 * magnitude + digit);
            }
            if magnitude > (limit - digit) / 10 {
                proof {
                    lemma_decimal_value_grows(digits, pos - first + 1);
                }
                return None;
            }
            magnitude = magnitude * 10 + digit;
            pos = pos + 1;
        }
        assert(digits.take(end - first) == digits);
        if negative {
            if magnitude == limit {
                Some(i64::MIN)
            } else {
                Some(-(magnitude as i64))
            }
        } else if magnitude == limit {
            None
        } else {
            Some(magnitude as i64)
        }
    }

    fn read_number(&mut self, location: Location) -> (item: Result<Token, LexErrorKind>)
        requires
            old(self).placed(),
            old(self).pos < old(self).source.len(),
            location == location_at(old(self).source@, old(self).pos as int),
        ensures
            final(self).moved(
                *old(self),
                scan_number(old(self).source@, old(self).pos as int).next,
            ),
            item_view(item) == scan_number(old(self).source@, old(self).pos as int).item,
    {
        let start = self.pos;
        let negative = self.source[self.pos] == '-';
        if negative {
            self.bump();
        }
        let first = self.pos;
        self.skip_digits();
        let int_end = self.pos;
        proof {
            let s = self.source@;
            lemma_digits_end_bounds(s, first as int);
            if int_end < s.len() {
                lemma_digits_end_bounds(s, int_end + 1);
                let fraction_end = if s[int_end as int] == '.' {
                    digits_end(s, int_end + 1)
                } else {
                    int_end as int
                };
                if fraction_end < s.len() {
                    lemma_digits_end_bounds(s, fraction_end + 1);
                    if fraction_end + 1 < s.len() {
                        lemma_digits_end_bounds(s, fraction_end + 2);
                    }
                }
            }
        }
        if int_end == first {
            return Err(LexErrorKind::MalformedNumber(location));
        }
        if self.source[first] == '0' && int_end > first + 1 {
            return Err(LexErrorKind::MalformedNumber(location));
        }
        let has_fraction = self.is_at(int_end, '.');
        if has_fraction {
            self.bump();
            self.skip_digits();
            if self.pos == int_end + 1 {
                return Err(LexErrorKind::MalformedNumber(location));
            }
        }
        let fraction_end = self.pos;
        let has_exponent = self.is_at(fraction_end, 'e') || self.is_at(fraction_end, 'E');
        if has_exponent {
            self.bump();
            if self.is_at(self.pos, '+') || self.is_at(self.pos, '-') {
                self.bump();
            }
            let exponent_start = self.pos;
            self.skip_digits();
            if self.pos == exponent_start {
                return Err(LexErrorKind::MalformedNumber(location));
            }
        }
        if has_fraction || has_exponent {
            Ok(Token::Float(location, text_of(&self.source, start, self.pos)))
        } else {
            match self.int_value(first, int_end, negative) {
                Some(value) => Ok(Token::Int(location, value)),
                None => Err(LexErrorKind::MalformedNumber(location)),
            }
        }
    }

    /// Reads the escape whose backslash stands at the position; the lexer
    /// stays where it is if there is none.
    fn read_escape(&mut self) -> (c: Option<char>)
        requires
            old(self).placed(),
            old(self).pos < old(self).source.len(),
        ensures
            match escape_at(old(self).source@, old(self).pos as int) {
                Some((written, width)) => c == Some(written) && final(self).moved(
                    *old(self),
                    old(self).pos + width,
                ),
                None => c is None && final(self).moved(*old(self), old(self).pos as int),
            },
    {
        let at = self.pos;
        if self.source.len() - at < 2 {
            return None;
        }
        let c = self.source[at + 1];
        let written = match c {
            '"' => '"',
            '\\' => '\\',
            '/' => '/',
            'b' => '\u{8}',
            'f' => '\u{c}',
            'n' => '\n',
            'r' => '\r',
            't' => '\t',
            'u' => {
                if self.source.len() - at < 6 {
                    return None;
                }
                let code = match (
                    hex_of(self.source[at + 2]),
                    hex_of(self.source[at + 3]),
                    hex_of(self.source[at + 4]),
                    hex_of(self.source[at + 5]),
                ) {
                    (Some(a), Some(b), Some(c), Some(d)) => ((a * 16 + b) * 16 + c) * 16 + d,
                    _ => {
                        return None;
                    },
                };
                assert(code == hex4_value(self.source@, at + 2));
                match scalar_from(code) {
                    Some(written) => {
                        self.advance(6);
                        return Some(written);
                    },
                    None => {
                        return None;
                    },
                }
            },
            _ => {
                return None;
            },
        };
        self.advance(2);
        Some(written)
    }

    /// Reads a string from behind its opening quote, at `start`, on.
    fn read_string_tail(&mut self, start: usize, location: Location) -> (item: Result<
        Token,
        LexErrorKind,
    >)
        requires
            old(self).placed(),
            start < old(self).pos,
            location == location_at(old(self).source@, start as int),
        ensures
            ({
                let tail = string_tail(old(self).source@, start as int, old(self).pos as int);
                &&& final(self).moved(*old(self), tail.next)
                &&& match tail.text {
                    Ok(text) => item_view(item) == Ok::<SpecToken, LexErrorKind>(
                        SpecToken::Str(location, text),
                    ),
                    Err(kind) => item_view(item) == Err::<SpecToken, LexErrorKind>(kind),
                }
            }),
    {
        let ghost whole = string_tail(self.source@, start as int, self.pos as int);
        let mut text: Vec<char> = Vec::new();
        loop
            invariant
                self.moved(*old(self), self.pos as int),
                whole == string_tail(old(self).source@, start as int, old(self).pos as int),
                whole == string_tail(self.source@, start as int, self.pos as int).after(text@),
                location == location_at(self.source@, start as int),
            decreases self.source.len() - self.pos,
        {
            let ghost rest = string_tail(self.source@, start as int, self.pos as int);
            if self.pos >= self.source.len() {
                return Err(LexErrorKind::UnterminatedString(location));
            }
            let c = self.source[self.pos];
            if c == '\n' || c == '\r' {
                return Err(LexErrorKind::UnterminatedString(location));
            }
            if c == '"' {
                self.bump();
                assert(text@ + Seq::<char>::empty() == text@);
                assert(text@.subrange(0, text@.len() as int) == text@);
                return Ok(Token::Str(location, text_of(&text, 0, text.len())));
            }
            if c == '\\' {
                let here = self.location();
                match self.read_escape() {
                    Some(written) => {
                        let ghost next = string_tail(self.source@, start as int, self.pos as int);
                        assert(rest == next.after(seq![written]));
                        assert(next.after(seq![written]).after(text@) == next.after(
                            text@.push(written),
                        )) by {
                            if let Ok(t) = next.text {
                                assert(text@ + (seq![written] + t) == text@.push(written) + t);
                            }
                        }
                        text.push(written);
                    },
                    None => {
                        self.bump();
                        return Err(LexErrorKind::InvalidEscape(here));
                    },
                }
            } else {
                self.bump();
                let ghost next = string_tail(self.source@, start as int, self.pos as int);
                assert(rest == next.after(seq![c]));
                assert(next.after(seq![c]).after(text@) == next.after(text@.push(c))) by {
                    if let Ok(t) = next.text {
                        assert(text@ + (seq![c] + t) == text@.push(c) + t);
                    }
                }
                text.push(c);
            }
        }
    }

    /// Reads a block string from behind its opening quotes, at `start`, on.
    fn read_block_tail(&mut self, start: usize, location: Location) -> (item: Result<
        Token,
        LexErrorKind,
    >)
        requires
            old(self).placed(),
            start < old(self).pos,
            location == location_at(old(self).source@, start as int),
        ensures
            ({
                let tail = block_tail(old(self).source@, start as int, old(self).pos as int);
                &&& final(self).moved(*old(self), tail.next)
                &&& match tail.text {
                    Ok(raw) => item_view(item) == Ok::<SpecToken, LexErrorKind>(
                        SpecToken::BlockStr(location, crate::block_string::block_string_value(raw)),
                    ),
                    Err(kind) => item_view(item) == Err::<SpecToken, LexErrorKind>(kind),
                }
            }),
    {
        let ghost whole = block_tail(self.source@, start as int, self.pos as int);
        let mut raw: Vec<char> = Vec::new();
        loop
            invariant
                self.moved(*old(self), self.pos as int),
                whole == block_tail(old(self).source@, start as int, old(self).pos as int),
                whole == block_tail(self.source@, start as int, self.pos as int).after(raw@),
                location == location_at(self.source@, start as int),
            decreases self.source.len() - self.pos,
        {
            let ghost rest = block_tail(self.source@, start as int, self.pos as int);
            if self.pos >= self.source.len() {
                return Err(LexErrorKind::UnterminatedBlockString(location));
            }
            if self.triple_at(self.pos) {
                self.advance(3);
                assert(raw@ + Seq::<char>::empty() == raw@);
                let value = block_value(&raw);
                assert(value@.subrange(0, value@.len() as int) == value@);
                return Ok(Token::BlockStr(location, text_of(&value, 0, value.len())));
            }
            let c = self.source[self.pos];
            if c == '\\' && self.triple_at(self.pos + 1) {
                self.advance(4);
                let ghost next = block_tail(self.source@, start as int, self.pos as int);
                let ghost quotes = seq!['"', '"', '"'];
                assert(rest == next.after(quotes));
                assert(next.after(quotes).after(raw@) == next.after(
                    raw@.push('"').push('"').push('"'),
                )) by {
                    if let Ok(t) = next.text {
                        assert(raw@ + (quotes + t) == raw@.push('"').push('"').push('"') + t);
                    }
                }
                raw.push('"');
                raw.push('"');
                raw.push('"');
            } else {
                self.bump();
                let ghost next = block_tail(self.source@, start as int, self.pos as int);
                assert(rest == next.after(seq![c]));
                assert(next.after(seq![c]).after(raw@) == next.after(raw@.push(c))) by {
                    if let Ok(t) = next.text {
                        assert(raw@ + (seq![c] + t) == raw@.push(c) + t);
                    }
                }
                raw.push(c);
            }
        }
    }

    fn read_string(&mut self, location: Location) -> (item: Result<Token, LexErrorKind>)
        requires
            old(self).placed(),
            old(self).pos < old(self).source.len(),
            old(self).source@[old(self).pos as int] == '"',
            location == location_at(old(self).source@, old(self).pos as int),
        ensures
            final(self).moved(
                *old(self),
                scan_string(old(self).source@, old(self).pos as int).next,
            ),
            item_view(item) == scan_string(old(self).source@, old(self).pos as int).item,
    {
        let start = self.pos;
        if self.triple_at(start) {
            self.advance(3);
            self.read_block_tail(start, location)
        } else {
            self.bump();
            self.read_string_tail(start, location)
        }
    }

    /// Reads the token that begins at the position.
    fn read_token(&mut self) -> (item: Result<Token, LexErrorKind>)
        requires
            old(self).placed(),
            old(self).pos < old(self).source.len(),
        ensures
            final(self).moved(*old(self), scan_token(old(self).source@, old(self).pos as int).next),
            item_view(item) == scan_token(old(self).source@, old(self).pos as int).item,
    {
        let start = self.pos;
        let c = self.source[start];
        let location = self.location();
        match punctuator_token(c, location) {
            Some(token) => {
                self.bump();
                return Ok(token);
            },
            None => {},
        }
        if c == '.' {
            if self.source.len() - start > 2 && self.source[start + 1] == '.' && self.source[start
                + 2] == '.' {
                self.advance(3);
                Ok(Token::Ellipsis(location))
            } else {
                self.bump();
                Err(LexErrorKind::UnexpectedCharacter(location))
            }
        } else if c == '"' {
            self.read_string(location)
        } else if c == '-' || digit_of(c) {
            self.read_number(location)
        } else if name_start_of(c) {
            self.bump();
            self.skip_name();
            proof {
                lemma_name_end_bounds(self.source@, start + 1);
            }
            Ok(Token::Name(location, text_of(&self.source, start, self.pos)))
        } else {
            self.bump();
            Err(LexErrorKind::UnexpectedCharacter(location))
        }
    }

    /// The next item: `Start` on the first pull; then the tokens and the
    /// lexical errors of the text in their order; `End` once the text is
    /// used up, and on every pull after that. The result is never `None`.
    pub fn next(&mut self) -> (item: Option<Result<Token, LexErrorKind>>)
        requires
            old(self).wf(),
        ensures
            final(self).wf(),
            final(self).source() == old(self).source(),
            final(self).index() == old(self).index() + 1,
            item matches Some(found) && item_view(found) == item_at(
                old(self).tokens(),
                old(self).index() as int,
            ),
    {
        let ghost s = self.source@;
        let ghost stream = token_stream(s);
        let ghost at = self.pos as int;
        let ghost count = self.pulled@;
        proof {
            lemma_tokens_from_shape(s, 0);
        }
        if !self.started {
            self.started = true;
            self.pulled = Ghost(1);
            assert(stream.skip(1) == tokens_from(s, 0));
            return Some(Ok(Token::Start));
        }
        self.skip_ignored();
        let item = if self.pos >= self.source.len() {
            Ok(Token::End)
        } else {
            self.read_token()
        };
        self.pulled = Ghost((count + 1) as nat);
        proof {
            lemma_scan_bounds(s, at);
            lemma_tokens_from_shape(s, at);
            let step = scan(s, at);
            assert(item_view(item) == step.item);
            assert(self.pos == step.next);
            if count < stream.len() {
                assert(stream.skip(count as int)[0] == stream[count as int]);
                if step.item == Ok::<SpecToken, LexErrorKind>(SpecToken::End) {
                    assert(tokens_from(s, at) == seq![step.item]);
                    assert(stream.skip(count as int).len() == 1);
                } else {
                    lemma_tokens_from_shape(s, step.next);
                    assert(tokens_from(s, at) == seq![step.item] + tokens_from(s, step.next));
                    assert(tokens_from(s, step.next) == stream.skip(count as int).skip(1));
                    assert(stream.skip(count as int).skip(1) == stream.skip((count + 1) as int));
                }
            }
        }
        Some(item)
    }
}

} // verus!
