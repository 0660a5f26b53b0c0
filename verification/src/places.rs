//! The places of the items of a stream: each item stands behind the one
//! before it.

use vstd::prelude::*;
use crate::error::LexErrorKind;
use crate::lexical::{
    lemma_line_column_bounds, block_tail, column_of, escape_at, is_digit, is_line_terminator,
    is_name_start, lemma_scan_bounds, lemma_scan_token_bounds, lemma_skip_ignored_bounds,
    lemma_string_tail_bounds, lemma_tokens_from_shape, line_of, location_at, punctuator, scan,
    scan_token, skip_ignored, string_tail, token_stream, tokens_from, triple_quote_at, SpecItem,
};
use crate::token::{Location, SpecToken};

verus! {

/// The place that an item carries: that of its token or of its error.
/// `Start` and `End` carry none.
pub open spec fn place_of(item: SpecItem) -> Option<Location> {
    match item {
        Ok(token) => token.location(),
        Err(kind) => Some(kind.place()),
    }
}

/// `place` is the place of a character of `s` between `from` and `to`.
pub open spec fn placed_between(s: Seq<char>, place: Location, from: int, to: int) -> bool {
    &&& from <= place.offset < to
    &&& place == location_at(s, place.offset as int)
}

proof fn lemma_lines_grow(s: Seq<char>, from: int, to: int)
    requires
        0 <= from <= to,
    ensures
        line_of(s, from) <= line_of(s, to),
    decreases to - from,
{
    if from < to {
        lemma_lines_grow(s, from, to - 1);
    }
}

proof fn lemma_location_at(s: Seq<char>, pos: int)
    requires
        0 <= pos < s.len() <= usize::MAX,
    ensures
        placed_between(s, location_at(s, pos), pos, pos + 1),
        location_at(s, pos).line == line_of(s, pos) + 1,
        location_at(s, pos).column == column_of(s, pos) + 1,
{
    lemma_line_column_bounds(s, pos);
}

proof fn lemma_string_tail_place(s: Seq<char>, start: int, pos: int)
    requires
        0 <= start < pos <= s.len() <= usize::MAX,
        string_tail(s, start, pos).text is Err,
    ensures
        placed_between(
            s,
            string_tail(s, start, pos).text->Err_0.place(),
            start,
            if string_tail(s, start, pos).next > start {
                string_tail(s, start, pos).next
            } else {
                start + 1
            },
        ),
    decreases s.len() - pos,
{
    lemma_location_at(s, start);
    lemma_string_tail_bounds(s, start, pos);
    if pos >= s.len() || is_line_terminator(s[pos]) {
    } else if s[pos] == '"' {
    } else if s[pos] == '\\' {
        match escape_at(s, pos) {
            Some((c, width)) => {
                lemma_string_tail_place(s, start, pos + width);
                lemma_string_tail_bounds(s, start, pos + width);
            },
            None => {
                lemma_location_at(s, pos);
            },
        }
    } else {
        lemma_string_tail_place(s, start, pos + 1);
        lemma_string_tail_bounds(s, start, pos + 1);
    }
}

proof fn lemma_block_tail_place(s: Seq<char>, start: int, pos: int)
    requires
        0 <= start < pos <= s.len() <= usize::MAX,
        block_tail(s, start, pos).text is Err,
    ensures
        block_tail(s, start, pos).text->Err_0.place() == location_at(s, start),
    decreases s.len() - pos,
{
    if pos >= s.len() {
    } else if triple_quote_at(s, pos) {
    } else if s[pos] == '\\' && triple_quote_at(s, pos + 1) {
        lemma_block_tail_place(s, start, pos + 4);
    } else {
        lemma_block_tail_place(s, start, pos + 1);
    }
}

/// The place of a token, or of the error in its stead, lies within the
/// characters that the token takes.
proof fn lemma_scan_token_place(s: Seq<char>, pos: int)
    requires
        0 <= pos < s.len() <= usize::MAX,
    ensures
        place_of(scan_token(s, pos).item) matches Some(place) && placed_between(
            s,
            place,
            pos,
            scan_token(s, pos).next,
        ),
{
    let c = s[pos];
    lemma_location_at(s, pos);
    lemma_scan_token_bounds(s, pos);
    if punctuator(c, location_at(s, pos)) is Some {
    } else if c == '.' {
    } else if c == '"' {
        if triple_quote_at(s, pos) {
            if block_tail(s, pos, pos + 3).text is Err {
                lemma_block_tail_place(s, pos, pos + 3);
            }
        } else {
            if string_tail(s, pos, pos + 1).text is Err {
                lemma_string_tail_place(s, pos, pos + 1);
                lemma_string_tail_bounds(s, pos, pos + 1);
            }
        }
    } else if c == '-' || is_digit(c) {
    } else if is_name_start(c) {
    }
}

/// An item that carries a place carries that of a character at or behind
/// the position that its pull began at, and before the one it ended at.
proof fn lemma_scan_place(s: Seq<char>, pos: int)
    requires
        0 <= pos <= s.len() <= usize::MAX,
    ensures
        place_of(scan(s, pos).item) matches Some(place) ==> placed_between(
            s,
            place,
            pos,
            scan(s, pos).next,
        ),
{
    lemma_skip_ignored_bounds(s, pos, false);
    let at = skip_ignored(s, pos, false);
    if at < s.len() {
        lemma_scan_token_place(s, at);
    }
}

/// No item from `pos` on carries a place before `pos`.
proof fn lemma_place_floor(s: Seq<char>, pos: int, index: int)
    requires
        0 <= pos <= s.len() <= usize::MAX,
        0 <= index < tokens_from(s, pos).len(),
    ensures
        place_of(tokens_from(s, pos)[index]) matches Some(place) ==> placed_between(
            s,
            place,
            pos,
            s.len() as int,
        ),
    decreases index,
{
    lemma_scan_bounds(s, pos);
    lemma_scan_place(s, pos);
    let step = scan(s, pos);
    if index > 0 {
        lemma_place_floor(s, step.next, index - 1);
        assert(tokens_from(s, pos)[index] == tokens_from(s, step.next)[index - 1]);
    }
}

/// Of two items from `pos` on, the later carries the later place.
proof fn lemma_place_order(s: Seq<char>, pos: int, first: int, second: int)
    requires
        0 <= pos <= s.len() <= usize::MAX,
        0 <= first < second < tokens_from(s, pos).len(),
    ensures
        place_of(tokens_from(s, pos)[first]) matches Some(before) ==> (place_of(
            tokens_from(s, pos)[second],
        ) matches Some(behind) ==> before.offset < behind.offset),
    decreases first,
{
    lemma_scan_bounds(s, pos);
    lemma_scan_place(s, pos);
    let step = scan(s, pos);
    assert(tokens_from(s, pos)[second] == tokens_from(s, step.next)[second - 1]);
    if first == 0 {
        lemma_place_floor(s, step.next, second - 1);
    } else {
        assert(tokens_from(s, pos)[first] == tokens_from(s, step.next)[first - 1]);
        lemma_place_order(s, step.next, first - 1, second - 1);
    }
}

/// Every item of a stream but `Start` and `End` carries the place of a
/// character of the text, with the line and the column counted from one.
pub proof fn law_places_lie_in_the_text(text: Seq<char>, index: int)
    requires
        text.len() <= usize::MAX,
        0 < index < token_stream(text).len() - 1,
    ensures
        place_of(token_stream(text)[index]) matches Some(place) && placed_between(
            text,
            place,
            0,
            text.len() as int,
        ) && place.line >= 1 && place.column >= 1,
{
    lemma_tokens_from_shape(text, 0);
    lemma_place_floor(text, 0, index - 1);
    let item = token_stream(text)[index];
    assert(item == tokens_from(text, 0)[index - 1]);
    assert(item != Ok::<SpecToken, LexErrorKind>(SpecToken::End));
    lemma_not_start(text, 0, index - 1);
    let place = place_of(item)->0;
    lemma_location_at(text, place.offset as int);
}

/// No pull after the first gives `Start`.
proof fn lemma_not_start(s: Seq<char>, pos: int, index: int)
    requires
        0 <= pos <= s.len(),
        0 <= index < tokens_from(s, pos).len(),
    ensures
        tokens_from(s, pos)[index] != Ok::<SpecToken, LexErrorKind>(SpecToken::Start),
    decreases index,
{
    lemma_scan_bounds(s, pos);
    let step = scan(s, pos);
    if index > 0 {
        lemma_not_start(s, step.next, index - 1);
        assert(tokens_from(s, pos)[index] == tokens_from(s, step.next)[index - 1]);
    } else {
        lemma_skip_ignored_bounds(s, pos, false);
        let at = skip_ignored(s, pos, false);
        if at < s.len() {
            lemma_scan_token_not_start(s, at);
        }
    }
}

proof fn lemma_scan_token_not_start(s: Seq<char>, pos: int)
    requires
        0 <= pos < s.len(),
    ensures
        scan_token(s, pos).item != Ok::<SpecToken, LexErrorKind>(SpecToken::Start),
{
}

/// A stream begins with `Start` and holds no other; it ends with `End` and
/// holds no other.
pub proof fn law_start_and_end_stand_once(text: Seq<char>, index: int)
    requires
        0 <= index < token_stream(text).len(),
    ensures
        token_stream(text).len() >= 2,
        (token_stream(text)[index] == Ok::<SpecToken, LexErrorKind>(SpecToken::Start)) == (index
            == 0),
        (token_stream(text)[index] == Ok::<SpecToken, LexErrorKind>(SpecToken::End)) == (index
            == token_stream(text).len() - 1),
{
    lemma_tokens_from_shape(text, 0);
    if index > 0 {
        lemma_not_start(text, 0, index - 1);
        assert(token_stream(text)[index] == tokens_from(text, 0)[index - 1]);
    }
}

/// The offsets of the places grow strictly along the stream, and the lines
/// do not fall.
pub proof fn law_places_grow(text: Seq<char>, first: int, second: int)
    requires
        text.len() <= usize::MAX,
        0 < first < second < token_stream(text).len() - 1,
    ensures
        ({
            let before = place_of(token_stream(text)[first])->0;
            let behind = place_of(token_stream(text)[second])->0;
            &&& before.offset < behind.offset
            &&& before.line <= behind.line
        }),
{
    law_places_lie_in_the_text(text, first);
    law_places_lie_in_the_text(text, second);
    lemma_place_order(text, 0, first - 1, second - 1);
    assert(token_stream(text)[first] == tokens_from(text, 0)[first - 1]);
    assert(token_stream(text)[second] == tokens_from(text, 0)[second - 1]);
    let before = place_of(token_stream(text)[first])->0;
    let behind = place_of(token_stream(text)[second])->0;
    lemma_lines_grow(text, before.offset as int, behind.offset as int);
    lemma_location_at(text, before.offset as int);
    lemma_location_at(text, behind.offset as int);
}

} // verus!
