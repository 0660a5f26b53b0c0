//! The lexical grammar of GraphQL, as functions on the characters of the
//! source text. A position is an index into that text.

use vstd::prelude::*;
use crate::block_string::block_string_value;
use crate::error::LexErrorKind;
use crate::token::{Location, SpecToken};

verus! {

/// What one pull of the lexer gives: a token, or the reason there is none.
pub type SpecItem = Result<SpecToken, LexErrorKind>;

pub open spec fn is_line_terminator(c: char) -> bool {
    c == '\n' || c == '\r'
}

pub open spec fn is_whitespace(c: char) -> bool {
    c == ' ' || c == '\t'
}

/// Characters that separate tokens and mean nothing else: white space, line
/// terminators and commas.
pub open spec fn is_ignored(c: char) -> bool {
    is_whitespace(c) || is_line_terminator(c) || c == ','
}

pub open spec fn is_digit(c: char) -> bool {
    '0' <= c <= '9'
}

pub open spec fn is_name_start(c: char) -> bool {
    c == '_' || ('a' <= c <= 'z') || ('A' <= c <= 'Z')
}

pub open spec fn is_name_continue(c: char) -> bool {
    is_name_start(c) || is_digit(c)
}

pub open spec fn is_hex_digit(c: char) -> bool {
    is_digit(c) || ('a' <= c <= 'f') || ('A' <= c <= 'F')
}

/// Whether the character at `k` ends its line: a line feed does, and a
/// carriage return that no line feed follows.
pub open spec fn ends_line(s: Seq<char>, k: int) -> bool {
    s[k] == '\n' || (s[k] == '\r' && !(k + 1 < s.len() && s[k + 1] == '\n'))
}

/// The number of lines that end before `pos`.
pub open spec fn line_of(s: Seq<char>, pos: int) -> nat
    decreases pos,
{
    if pos <= 0 {
        0
    } else if ends_line(s, pos - 1) {
        line_of(s, pos - 1) + 1
    } else {
        line_of(s, pos - 1)
    }
}

/// The number of characters between the start of its line and `pos`.
pub open spec fn column_of(s: Seq<char>, pos: int) -> nat
    decreases pos,
{
    if pos <= 0 || ends_line(s, pos - 1) {
        0
    } else {
        column_of(s, pos - 1) + 1
    }
}

/// The place of the character at `pos`: line and column count from one.
pub open spec fn location_at(s: Seq<char>, pos: int) -> Location {
    Location {
        line: (line_of(s, pos) + 1) as usize,
        column: (column_of(s, pos) + 1) as usize,
        offset: pos as usize,
    }
}

/// The first position at or after `pos` that holds a character of a token:
/// ignored characters are passed over, and so is a comment, from its `#`
/// to the end of its line. `in_comment` says whether `pos` lies in a comment.
pub open spec fn skip_ignored(s: Seq<char>, pos: int, in_comment: bool) -> int
    decreases s.len() - pos, if in_comment { 1int } else { 0int },
{
    if pos >= s.len() {
        pos
    } else if in_comment {
        if is_line_terminator(s[pos]) {
            skip_ignored(s, pos, false)
        } else {
            skip_ignored(s, pos + 1, true)
        }
    } else if is_ignored(s[pos]) {
        skip_ignored(s, pos + 1, false)
    } else if s[pos] == '#' {
        skip_ignored(s, pos + 1, true)
    } else {
        pos
    }
}

/// The end of the run of name characters that begins at `pos`.
pub open spec fn name_end(s: Seq<char>, pos: int) -> int
    decreases s.len() - pos,
{
    if 0 <= pos < s.len() && is_name_continue(s[pos]) {
        name_end(s, pos + 1)
    } else {
        pos
    }
}

/// The end of the run of digits that begins at `pos`.
pub open spec fn digits_end(s: Seq<char>, pos: int) -> int
    decreases s.len() - pos,
{
    if 0 <= pos < s.len() && is_digit(s[pos]) {
        digits_end(s, pos + 1)
    } else {
        pos
    }
}

/// The number that a decimal digit writes.
pub open spec fn digit_value(c: char) -> int {
    c as int - '0' as int
}

/// The number that a run of decimal digits writes.
pub open spec fn decimal_value(digits: Seq<char>) -> nat
    decreases digits.len(),
{
    if digits.len() == 0 {
        0
    } else {
        (10 * decimal_value(digits.drop_last()) + digit_value(digits.last())) as nat
    }
}

/// The number that a hexadecimal digit writes.
pub open spec fn hex_value(c: char) -> int {
    if is_digit(c) {
        c as int - '0' as int
    } else if 'a' <= c <= 'f' {
        c as int - 'a' as int + 10
    } else {
        c as int - 'A' as int + 10
    }
}

/// The number that the four hexadecimal digits from `pos` on write.
pub open spec fn hex4_value(s: Seq<char>, pos: int) -> int {
    ((hex_value(s[pos]) * 16 + hex_value(s[pos + 1])) * 16 + hex_value(s[pos + 2])) * 16
        + hex_value(s[pos + 3])
}

/// Whether `code` is the code of a character: no surrogate, and within
/// Unicode.
pub open spec fn is_scalar_value(code: int) -> bool {
    0 <= code <= 0xD7FF || 0xE000 <= code <= 0x10FFFF
}

/// One pull: the item, and the position the lexer is left at.
pub ghost struct Scan {
    pub item: SpecItem,
    pub next: int,
}

/// The rest of a string literal: its text, or why it has none, and the
/// position behind it.
pub ghost struct TextScan {
    pub text: Result<Seq<char>, LexErrorKind>,
    pub next: int,
}

impl TextScan {
    /// The same scan with `prefix` put before its text.
    pub open spec fn after(self, prefix: Seq<char>) -> TextScan {
        TextScan {
            text: match self.text {
                Ok(text) => Ok(prefix + text),
                Err(kind) => Err(kind),
            },
            next: self.next,
        }
    }
}

/// The character written by the escape whose backslash stands at `pos`, and
/// the length of the escape; `None` where the backslash begins no escape.
pub open spec fn escape_at(s: Seq<char>, pos: int) -> Option<(char, int)> {
    if pos + 1 >= s.len() {
        None
    } else {
        let c = s[pos + 1];
        if c == '"' {
            Some(('"', 2int))
        } else if c == '\\' {
            Some(('\\', 2int))
        } else if c == '/' {
            Some(('/', 2int))
        } else if c == 'b' {
            Some(('\u{8}', 2int))
        } else if c == 'f' {
            Some(('\u{c}', 2int))
        } else if c == 'n' {
            Some(('\n', 2int))
        } else if c == 'r' {
            Some(('\r', 2int))
        } else if c == 't' {
            Some(('\t', 2int))
        } else if c == 'u' && pos + 5 < s.len() && is_hex_digit(s[pos + 2]) && is_hex_digit(
            s[pos + 3],
        ) && is_hex_digit(s[pos + 4]) && is_hex_digit(s[pos + 5]) && is_scalar_value(
            hex4_value(s, pos + 2),
        ) {
            Some((hex4_value(s, pos + 2) as char, 6int))
        } else {
            None
        }
    }
}

/// The text of the string opened at `start`, read from `pos` on, up to the
/// closing quote. The string must close on its line.
pub open spec fn string_tail(s: Seq<char>, start: int, pos: int) -> TextScan
    decreases s.len() - pos,
{
    if pos < 0 || pos >= s.len() || is_line_terminator(s[pos]) {
        TextScan { text: Err(LexErrorKind::UnterminatedString(location_at(s, start))), next: pos }
    } else if s[pos] == '"' {
        TextScan { text: Ok(Seq::empty()), next: pos + 1 }
    } else if s[pos] == '\\' {
        match escape_at(s, pos) {
            Some((c, width)) => string_tail(s, start, pos + width).after(seq![c]),
            None => TextScan {
                text: Err(LexErrorKind::InvalidEscape(location_at(s, pos))),
                next: pos + 1,
            },
        }
    } else {
        string_tail(s, start, pos + 1).after(seq![s[pos]])
    }
}

/// Whether three quotes stand at `pos`.
pub open spec fn triple_quote_at(s: Seq<char>, pos: int) -> bool {
    0 <= pos && pos + 2 < s.len() && s[pos] == '"' && s[pos + 1] == '"' && s[pos + 2] == '"'
}

/// The raw text of the block string opened at `start`, read from `pos` on,
/// up to the closing quotes. A backslash before three quotes stands for the
/// three quotes.
pub open spec fn block_tail(s: Seq<char>, start: int, pos: int) -> TextScan
    decreases s.len() - pos,
{
    if pos < 0 || pos >= s.len() {
        TextScan {
            text: Err(LexErrorKind::UnterminatedBlockString(location_at(s, start))),
            next: pos,
        }
    } else if triple_quote_at(s, pos) {
        TextScan { text: Ok(Seq::empty()), next: pos + 3 }
    } else if s[pos] == '\\' && triple_quote_at(s, pos + 1) {
        block_tail(s, start, pos + 4).after(seq!['"', '"', '"'])
    } else {
        block_tail(s, start, pos + 1).after(seq![s[pos]])
    }
}

/// The string or block string whose opening quote stands at `pos`.
pub open spec fn scan_string(s: Seq<char>, pos: int) -> Scan {
    let location = location_at(s, pos);
    if triple_quote_at(s, pos) {
        let tail = block_tail(s, pos, pos + 3);
        Scan {
            item: match tail.text {
                Ok(raw) => Ok(SpecToken::BlockStr(location, block_string_value(raw))),
                Err(kind) => Err(kind),
            },
            next: tail.next,
        }
    } else {
        let tail = string_tail(s, pos, pos + 1);
        Scan {
            item: match tail.text {
                Ok(text) => Ok(SpecToken::Str(location, text)),
                Err(kind) => Err(kind),
            },
            next: tail.next,
        }
    }
}

/// The number that begins at `pos` with a digit or a minus sign. The integer
/// part is `0` or begins with another digit; a fraction and an exponent need a
/// digit each. With either of them the number is a float, and the token
/// carries the text of the literal; without, it is an integer of 64 bits.
pub open spec fn scan_number(s: Seq<char>, pos: int) -> Scan {
    let malformed = Err(LexErrorKind::MalformedNumber(location_at(s, pos)));
    let negative = s[pos] == '-';
    let first = if negative { pos + 1 } else { pos };
    let int_end = digits_end(s, first);
    if int_end == first {
        Scan { item: malformed, next: first }
    } else if s[first] == '0' && int_end > first + 1 {
        Scan { item: malformed, next: int_end }
    } else {
        let has_fraction = int_end < s.len() && s[int_end] == '.';
        let fraction_end = if has_fraction { digits_end(s, int_end + 1) } else { int_end };
        if has_fraction && fraction_end == int_end + 1 {
            Scan { item: malformed, next: fraction_end }
        } else {
            let has_exponent = fraction_end < s.len() && (s[fraction_end] == 'e' || s[fraction_end]
                == 'E');
            let signed = has_exponent && fraction_end + 1 < s.len() && (s[fraction_end + 1] == '+'
                || s[fraction_end + 1] == '-');
            let exponent_start = if signed { fraction_end + 2 } else { fraction_end + 1 };
            let end = if has_exponent { digits_end(s, exponent_start) } else { fraction_end };
            if has_exponent && end == exponent_start {
                Scan { item: malformed, next: end }
            } else if has_fraction || has_exponent {
                Scan {
                    item: Ok(SpecToken::Float(location_at(s, pos), s.subrange(pos, end))),
                    next: end,
                }
            } else {
                let magnitude = decimal_value(s.subrange(first, int_end));
                let value = if negative { -magnitude } else { magnitude as int };
                if i64::MIN <= value <= i64::MAX {
                    Scan { item: Ok(SpecToken::Int(location_at(s, pos), value as i64)), next: end }
                } else {
                    Scan { item: malformed, next: end }
                }
            }
        }
    }
}

/// The token that a punctuator writes.
pub open spec fn punctuator(c: char, location: Location) -> Option<SpecToken> {
    if c == '{' {
        Some(SpecToken::OpenBrace(location))
    } else if c == '}' {
        Some(SpecToken::CloseBrace(location))
    } else if c == '(' {
        Some(SpecToken::OpenParen(location))
    } else if c == ')' {
        Some(SpecToken::CloseParen(location))
    } else if c == '[' {
        Some(SpecToken::OpenSquare(location))
    } else if c == ']' {
        Some(SpecToken::CloseSquare(location))
    } else if c == ':' {
        Some(SpecToken::Colon(location))
    } else if c == '=' {
        Some(SpecToken::Equals(location))
    } else if c == '!' {
        Some(SpecToken::Bang(location))
    } else if c == '$' {
        Some(SpecToken::Dollar(location))
    } else if c == '@' {
        Some(SpecToken::At(location))
    } else if c == '|' {
        Some(SpecToken::Pipe(location))
    } else if c == '&' {
        Some(SpecToken::Amp(location))
    } else {
        None
    }
}

/// The token that begins at `pos`, a position that holds a character of a
/// token.
pub open spec fn scan_token(s: Seq<char>, pos: int) -> Scan {
    let c = s[pos];
    let location = location_at(s, pos);
    if punctuator(c, location) is Some {
        Scan { item: Ok(punctuator(c, location)->0), next: pos + 1 }
    } else if c == '.' {
        if pos + 2 < s.len() && s[pos + 1] == '.' && s[pos + 2] == '.' {
            Scan { item: Ok(SpecToken::Ellipsis(location)), next: pos + 3 }
        } else {
            Scan { item: Err(LexErrorKind::UnexpectedCharacter(location)), next: pos + 1 }
        }
    } else if c == '"' {
        scan_string(s, pos)
    } else if c == '-' || is_digit(c) {
        scan_number(s, pos)
    } else if is_name_start(c) {
        let end = name_end(s, pos + 1);
        Scan { item: Ok(SpecToken::Name(location, s.subrange(pos, end))), next: end }
    } else {
        Scan { item: Err(LexErrorKind::UnexpectedCharacter(location)), next: pos + 1 }
    }
}

/// One pull from `pos`: what is ignored is passed over; behind it stands a
/// token, or the text has ended.
pub open spec fn scan(s: Seq<char>, pos: int) -> Scan {
    let at = skip_ignored(s, pos, false);
    if at >= s.len() {
        Scan { item: Ok(SpecToken::End), next: at }
    } else {
        scan_token(s, at)
    }
}

/// The items from `pos` on, up to the first `End`.
pub open spec fn tokens_from(s: Seq<char>, pos: int) -> Seq<SpecItem>
    decreases s.len() - pos,
{
    let step = scan(s, pos);
    if step.item == Ok::<SpecToken, LexErrorKind>(SpecToken::End) || step.next <= pos || step.next
        > s.len() {
        seq![step.item]
    } else {
        seq![step.item] + tokens_from(s, step.next)
    }
}

/// Everything the lexer gives for a text, in order: `Start`, the tokens and
/// the lexical errors of the text, and `End`. After `End` nothing but `End`
/// follows, so the sequence stops there.
pub open spec fn token_stream(s: Seq<char>) -> Seq<SpecItem> {
    seq![Ok(SpecToken::Start)] + tokens_from(s, 0)
}

/// The item at `index` of a stream that `End` continues without end.
pub open spec fn item_at(items: Seq<SpecItem>, index: int) -> SpecItem {
    if 0 <= index < items.len() {
        items[index]
    } else {
        Ok(SpecToken::End)
    }
}

/// No more lines end before a position than characters stand before it, and
/// no line is longer than that.
pub proof fn lemma_line_column_bounds(s: Seq<char>, pos: int)
    requires
        0 <= pos,
    ensures
        line_of(s, pos) <= pos,
        column_of(s, pos) <= pos,
    decreases pos,
{
    if pos > 0 {
        lemma_line_column_bounds(s, pos - 1);
    }
}

pub proof fn lemma_skip_ignored_bounds(s: Seq<char>, pos: int, in_comment: bool)
    requires
        0 <= pos <= s.len(),
    ensures
        pos <= skip_ignored(s, pos, in_comment) <= s.len(),
    decreases s.len() - pos, if in_comment { 1int } else { 0int },
{
    if pos >= s.len() {
    } else if in_comment {
        if is_line_terminator(s[pos]) {
            lemma_skip_ignored_bounds(s, pos, false);
        } else {
            lemma_skip_ignored_bounds(s, pos + 1, true);
        }
    } else if is_ignored(s[pos]) {
        lemma_skip_ignored_bounds(s, pos + 1, false);
    } else if s[pos] == '#' {
        lemma_skip_ignored_bounds(s, pos + 1, true);
    }
}

/// Where the ignored run ends, a token begins or the text ends; nothing is
/// left to pass over.
pub proof fn lemma_skip_ignored_settles(s: Seq<char>, pos: int, in_comment: bool)
    requires
        0 <= pos <= s.len(),
    ensures
        ({
            let at = skip_ignored(s, pos, in_comment);
            &&& skip_ignored(s, at, false) == at
            &&& at < s.len() ==> !is_ignored(s[at]) && s[at] != '#'
        }),
    decreases s.len() - pos, if in_comment { 1int } else { 0int },
{
    if pos >= s.len() {
    } else if in_comment {
        if is_line_terminator(s[pos]) {
            lemma_skip_ignored_settles(s, pos, false);
        } else {
            lemma_skip_ignored_settles(s, pos + 1, true);
        }
    } else if is_ignored(s[pos]) {
        lemma_skip_ignored_settles(s, pos + 1, false);
    } else if s[pos] == '#' {
        lemma_skip_ignored_settles(s, pos + 1, true);
    }
}

pub proof fn lemma_name_end_bounds(s: Seq<char>, pos: int)
    requires
        0 <= pos <= s.len(),
    ensures
        pos <= name_end(s, pos) <= s.len(),
    decreases s.len() - pos,
{
    if pos < s.len() && is_name_continue(s[pos]) {
        lemma_name_end_bounds(s, pos + 1);
    }
}

pub proof fn lemma_digits_end_bounds(s: Seq<char>, pos: int)
    requires
        0 <= pos <= s.len(),
    ensures
        pos <= digits_end(s, pos) <= s.len(),
    decreases s.len() - pos,
{
    if pos < s.len() && is_digit(s[pos]) {
        lemma_digits_end_bounds(s, pos + 1);
    }
}

pub proof fn lemma_string_tail_bounds(s: Seq<char>, start: int, pos: int)
    requires
        0 <= pos <= s.len(),
    ensures
        pos <= string_tail(s, start, pos).next <= s.len(),
    decreases s.len() - pos,
{
    if pos >= s.len() || is_line_terminator(s[pos]) {
    } else if s[pos] == '"' {
    } else if s[pos] == '\\' {
        match escape_at(s, pos) {
            Some((c, width)) => {
                lemma_string_tail_bounds(s, start, pos + width);
            },
            None => {},
        }
    } else {
        lemma_string_tail_bounds(s, start, pos + 1);
    }
}

pub proof fn lemma_block_tail_bounds(s: Seq<char>, start: int, pos: int)
    requires
        0 <= pos <= s.len(),
    ensures
        pos <= block_tail(s, start, pos).next <= s.len(),
    decreases s.len() - pos,
{
    if pos >= s.len() {
    } else if triple_quote_at(s, pos) {
    } else if s[pos] == '\\' && triple_quote_at(s, pos + 1) {
        lemma_block_tail_bounds(s, start, pos + 4);
    } else {
        lemma_block_tail_bounds(s, start, pos + 1);
    }
}

/// A token takes at least one character, and none beyond the text.
pub proof fn lemma_scan_token_bounds(s: Seq<char>, pos: int)
    requires
        0 <= pos < s.len(),
    ensures
        pos < scan_token(s, pos).next <= s.len(),
        scan_token(s, pos).item != Ok::<SpecToken, LexErrorKind>(SpecToken::End),
{
    let c = s[pos];
    let location = location_at(s, pos);
    if punctuator(c, location) is Some {
    } else if c == '.' {
    } else if c == '"' {
        if triple_quote_at(s, pos) {
            lemma_block_tail_bounds(s, pos, pos + 3);
        } else {
            lemma_string_tail_bounds(s, pos, pos + 1);
        }
    } else if c == '-' || is_digit(c) {
        let first = if c == '-' { pos + 1 } else { pos };
        lemma_digits_end_bounds(s, first);
        let int_end = digits_end(s, first);
        if int_end < s.len() {
            lemma_digits_end_bounds(s, int_end + 1);
            let fraction_end = if s[int_end] == '.' { digits_end(s, int_end + 1) } else { int_end };
            if fraction_end < s.len() {
                lemma_digits_end_bounds(s, fraction_end + 1);
                if fraction_end + 1 < s.len() {
                    lemma_digits_end_bounds(s, fraction_end + 2);
                }
            }
        }
    } else if is_name_start(c) {
        lemma_name_end_bounds(s, pos + 1);
    }
}

/// A pull that gives something other than `End` moves on; one that gives
/// `End` stands at the end of the text, where every later pull gives `End`.
pub proof fn lemma_scan_bounds(s: Seq<char>, pos: int)
    requires
        0 <= pos <= s.len(),
    ensures
        pos <= scan(s, pos).next <= s.len(),
        scan(s, pos).item != Ok::<SpecToken, LexErrorKind>(SpecToken::End) ==> pos < scan(
            s,
            pos,
        ).next,
        scan(s, pos).item == Ok::<SpecToken, LexErrorKind>(SpecToken::End) ==> scan(s, pos).next
            == s.len() && scan(s, s.len() as int) == scan(s, pos),
{
    lemma_skip_ignored_bounds(s, pos, false);
    let at = skip_ignored(s, pos, false);
    if at < s.len() {
        lemma_scan_token_bounds(s, at);
    }
}

/// The stream is never empty, and it holds `End` at its last place only.
pub proof fn lemma_tokens_from_shape(s: Seq<char>, pos: int)
    requires
        0 <= pos <= s.len(),
    ensures
        tokens_from(s, pos).len() >= 1,
        tokens_from(s, pos)[0] == scan(s, pos).item,
        tokens_from(s, pos).last() == Ok::<SpecToken, LexErrorKind>(SpecToken::End),
        forall|k: int|
            0 <= k < tokens_from(s, pos).len() - 1 ==> #[trigger] tokens_from(s, pos)[k] != Ok::<
                SpecToken,
                LexErrorKind,
            >(SpecToken::End),
    decreases s.len() - pos,
{
    lemma_scan_bounds(s, pos);
    let step = scan(s, pos);
    if step.item == Ok::<SpecToken, LexErrorKind>(SpecToken::End) {
    } else {
        lemma_tokens_from_shape(s, step.next);
        let rest = tokens_from(s, step.next);
        let all = tokens_from(s, pos);
        assert(all == seq![step.item] + rest);
        assert forall|k: int| 0 <= k < all.len() - 1 implies #[trigger] all[k] != Ok::<
            SpecToken,
            LexErrorKind,
        >(SpecToken::End) by {
            if k > 0 {
                assert(all[k] == rest[k - 1]);
            }
        }
    }
}

} // verus!
