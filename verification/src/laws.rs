//! What holds of every text and of every stream of tokens.

use vstd::prelude::*;
use crate::error::{LexErrorKind, SpecParseError};
use crate::progress::law_document_is_empty_without_tokens;
use crate::grammar::{
    definition_list, accepts, arguments, arguments_definition, default_value, definition,
    description, done, enum_value, field, field_type, input_value, input_value_list, left,
    literal, name,
};
use crate::lexical::{
    lemma_scan_token_bounds, lemma_skip_ignored_bounds, lemma_tokens_from_shape, is_ignored,
    is_line_terminator, item_at, skip_ignored, token_stream, tokens_from, SpecItem,
};
use crate::model::{SpecDocument, SpecInputValue, SpecString, SpecType, SpecValue};
use crate::token::{SpecToken, TokenKind};

verus! {

/// Whether the character at `k` lies in a comment: behind a `#` on its line.
pub open spec fn in_comment(text: Seq<char>, k: int) -> bool
    decreases k,
{
    if k <= 0 {
        false
    } else if in_comment(text, k - 1) {
        !is_line_terminator(text[k - 1])
    } else {
        text[k - 1] == '#'
    }
}

/// A text without a token: every character of it is ignored, or begins a
/// comment, or lies in one.
pub open spec fn is_blank_text(text: Seq<char>) -> bool {
    forall|k: int|
        0 <= k < text.len() ==> is_ignored(#[trigger] text[k]) || text[k] == '#' || in_comment(
            text,
            k,
        )
}

proof fn lemma_blank_text_is_skipped(text: Seq<char>, pos: int)
    requires
        0 <= pos <= text.len(),
        is_blank_text(text),
    ensures
        skip_ignored(text, pos, in_comment(text, pos)) == text.len(),
    decreases text.len() - pos,
{
    reveal_with_fuel(skip_ignored, 3);
    if pos < text.len() {
        assert(is_ignored(text[pos]) || text[pos] == '#' || in_comment(text, pos));
        lemma_blank_text_is_skipped(text, pos + 1);
    }
}

proof fn lemma_skipped_text_is_blank(text: Seq<char>, pos: int, k: int)
    requires
        0 <= pos <= k < text.len(),
        skip_ignored(text, pos, in_comment(text, pos)) >= text.len(),
    ensures
        is_ignored(text[k]) || text[k] == '#' || in_comment(text, k),
    decreases k - pos,
{
    reveal_with_fuel(skip_ignored, 3);
    if pos < k {
        lemma_skipped_text_is_blank(text, pos + 1, k);
    }
}

/// A text is blank where the lexer passes over all of it, and nowhere else.
proof fn lemma_blank_text(text: Seq<char>)
    ensures
        is_blank_text(text) <==> skip_ignored(text, 0, false) >= text.len(),
{
    if is_blank_text(text) {
        lemma_blank_text_is_skipped(text, 0);
    }
    if skip_ignored(text, 0, false) >= text.len() {
        assert forall|k: int| 0 <= k < text.len() implies is_ignored(#[trigger] text[k])
            || text[k] == '#' || in_comment(text, k) by {
            lemma_skipped_text_is_blank(text, 0, k);
        }
    }
}

/// The first pull behind `Start` gives `End` where the lexer passes over all
/// of the text, and nowhere else; the stream is then `Start` and `End`.
proof fn lemma_stream_without_tokens(text: Seq<char>)
    ensures
        token_stream(text).len() >= 2,
        token_stream(text)[0] == Ok::<SpecToken, LexErrorKind>(SpecToken::Start),
        skip_ignored(text, 0, false) >= text.len() <==> token_stream(text)[1] == Ok::<
            SpecToken,
            LexErrorKind,
        >(SpecToken::End),
        skip_ignored(text, 0, false) >= text.len() <==> token_stream(text) == seq![
            Ok::<SpecToken, LexErrorKind>(SpecToken::Start),
            Ok::<SpecToken, LexErrorKind>(SpecToken::End),
        ],
{
    let stream = token_stream(text);
    let end = Ok::<SpecToken, LexErrorKind>(SpecToken::End);
    lemma_tokens_from_shape(text, 0);
    lemma_skip_ignored_bounds(text, 0, false);
    assert(stream[1] == tokens_from(text, 0)[0]);
    if skip_ignored(text, 0, false) >= text.len() {
        assert(tokens_from(text, 0) == seq![end]);
        assert(stream =~= seq![Ok::<SpecToken, LexErrorKind>(SpecToken::Start), end]);
    } else {
        lemma_scan_token_bounds(text, skip_ignored(text, 0, false));
    }
}

/// The stream of a blank text is `Start` and `End`, and parsing the text
/// fails with `DocumentEmpty`. No other text has that stream, and none
/// fails so.
pub proof fn law_blank_text_is_empty(text: Seq<char>)
    ensures
        is_blank_text(text) <==> token_stream(text) == seq![
            Ok::<SpecToken, LexErrorKind>(SpecToken::Start),
            Ok::<SpecToken, LexErrorKind>(SpecToken::End),
        ],
        is_blank_text(text) <==> crate::grammar::document(token_stream(text)) == Err::<
            SpecDocument,
            SpecParseError,
        >(SpecParseError::DocumentEmpty),
{
    lemma_blank_text(text);
    lemma_stream_without_tokens(text);
    law_document_is_empty_without_tokens(token_stream(text));
}

/// The empty text is blank, and so is a text of white space, line
/// terminators and commas.
pub proof fn law_ignored_characters_are_blank(text: Seq<char>)
    requires
        forall|k: int| 0 <= k < text.len() ==> is_ignored(#[trigger] text[k]),
    ensures
        is_blank_text(text),
{
}

proof fn lemma_comment_goes_on(text: Seq<char>, k: int)
    requires
        1 <= k <= text.len(),
        text[0] == '#',
        forall|j: int| 0 <= j < text.len() ==> !is_line_terminator(#[trigger] text[j]),
    ensures
        in_comment(text, k),
    decreases k,
{
    if k > 1 {
        lemma_comment_goes_on(text, k - 1);
    }
}

/// A comment that runs to the end of the text is blank.
pub proof fn law_comment_is_blank(text: Seq<char>)
    requires
        text.len() >= 1,
        text[0] == '#',
        forall|k: int| 0 <= k < text.len() ==> !is_line_terminator(#[trigger] text[k]),
    ensures
        is_blank_text(text),
{
    assert forall|k: int| 0 <= k < text.len() implies is_ignored(#[trigger] text[k]) || text[k]
        == '#' || in_comment(text, k) by {
        if k >= 1 {
            lemma_comment_goes_on(text, k);
        }
    }
}

/// Whether the name `text` stands at `index`.
pub open spec fn names(ts: Seq<SpecItem>, index: int, text: Seq<char>) -> bool {
    item_at(ts, index) matches Ok(SpecToken::Name(_, found)) && found == text
}

/// Whether a token stands at `index` that is not of the category `kind`.
pub open spec fn other_than(ts: Seq<SpecItem>, index: int, kind: TokenKind) -> bool {
    item_at(ts, index) is Ok && !accepts(ts, index, kind)
}

/// `T` is the type named `T`, and `T!` is that type made non-null.
pub proof fn law_named_type(ts: Seq<SpecItem>, i: int, text: Seq<char>)
    requires
        names(ts, i, text),
    ensures
        !accepts(ts, i + 1, TokenKind::Bang) ==> field_type(ts, i) == done(
            SpecType::Named(text),
            i + 1,
        ),
        accepts(ts, i + 1, TokenKind::Bang) ==> field_type(ts, i) == done(
            SpecType::NonNull(Box::new(SpecType::Named(text))),
            i + 2,
        ),
{
}

/// `[T]` is the list of the type named `T`, and `[T]!` is that list made
/// non-null.
pub proof fn law_list_type(ts: Seq<SpecItem>, i: int, text: Seq<char>)
    requires
        accepts(ts, i, TokenKind::OpenSquare),
        names(ts, i + 1, text),
        accepts(ts, i + 2, TokenKind::CloseSquare),
    ensures
        !accepts(ts, i + 3, TokenKind::Bang) ==> field_type(ts, i) == done(
            SpecType::List(Box::new(SpecType::Named(text))),
            i + 3,
        ),
        accepts(ts, i + 3, TokenKind::Bang) ==> field_type(ts, i) == done(
            SpecType::NonNull(Box::new(SpecType::List(Box::new(SpecType::Named(text))))),
            i + 4,
        ),
{
    law_named_type(ts, i + 1, text);
}

/// `[T!]` is the list of the non-null type named `T`, and `[T!]!` is that
/// list made non-null: the exclamation mark binds to what stands right
/// before it.
pub proof fn law_list_of_non_null_type(ts: Seq<SpecItem>, i: int, text: Seq<char>)
    requires
        accepts(ts, i, TokenKind::OpenSquare),
        names(ts, i + 1, text),
        accepts(ts, i + 2, TokenKind::Bang),
        accepts(ts, i + 3, TokenKind::CloseSquare),
    ensures
        !accepts(ts, i + 4, TokenKind::Bang) ==> field_type(ts, i) == done(
            SpecType::List(Box::new(SpecType::NonNull(Box::new(SpecType::Named(text))))),
            i + 4,
        ),
        accepts(ts, i + 4, TokenKind::Bang) ==> field_type(ts, i) == done(
            SpecType::NonNull(
                Box::new(
                    SpecType::List(Box::new(SpecType::NonNull(Box::new(SpecType::Named(text))))),
                ),
            ),
            i + 5,
        ),
{
    law_named_type(ts, i + 1, text);
}

/// Whatever type stands between square brackets, the brackets make the list
/// of it, and an exclamation mark behind them makes that list non-null.
pub proof fn law_brackets_make_a_list(ts: Seq<SpecItem>, i: int)
    requires
        accepts(ts, i, TokenKind::OpenSquare),
        field_type(ts, i + 1).result is Ok,
        accepts(ts, field_type(ts, i + 1).next, TokenKind::CloseSquare),
    ensures
        ({
            let inner = field_type(ts, i + 1);
            let list = SpecType::List(Box::new(inner.value()));
            if accepts(ts, inner.next + 1, TokenKind::Bang) {
                field_type(ts, i) == done(SpecType::NonNull(Box::new(list)), inner.next + 2)
            } else {
                field_type(ts, i) == done(list, inner.next + 1)
            }
        }),
{
}

/// The index at which the declared argument `k` begins, where the first
/// begins at `i`.
pub open spec fn argument_start(ts: Seq<SpecItem>, i: int, k: nat) -> int
    decreases k,
{
    if k == 0 {
        i
    } else {
        input_value(ts, argument_start(ts, i, (k - 1) as nat)).next
    }
}

proof fn lemma_argument_start_shift(ts: Seq<SpecItem>, i: int, k: nat)
    ensures
        argument_start(ts, i, k + 1) == argument_start(ts, input_value(ts, i).next, k),
    decreases k,
{
    reveal_with_fuel(argument_start, 2);
    if k > 0 {
        lemma_argument_start_shift(ts, i, (k - 1) as nat);
    }
}

/// A list of declared arguments has one entry for each argument that stands
/// before the closing parenthesis: behind as many arguments as the list has
/// entries stands the parenthesis that closes it.
pub proof fn law_argument_count(ts: Seq<SpecItem>, i: int)
    requires
        input_value_list(ts, i).result is Ok,
    ensures
        input_value_list(ts, i).value().len() >= 1,
        accepts(
            ts,
            argument_start(ts, i, input_value_list(ts, i).value().len()),
            TokenKind::CloseParen,
        ),
        input_value_list(ts, i).next == argument_start(
            ts,
            i,
            input_value_list(ts, i).value().len(),
        ) + 1,
    decreases left(ts, i),
{
    let first = input_value(ts, i);
    reveal_with_fuel(argument_start, 2);
    if !accepts(ts, first.next, TokenKind::CloseParen) {
        let rest = input_value_list(ts, first.next);
        law_argument_count(ts, first.next);
        lemma_argument_start_shift(ts, i, rest.value().len());
    }
}

/// The entries of a list of declared arguments stand in the order of the
/// arguments, and each entry is what its argument says: entry `k` is the
/// argument that begins where argument `k - 1` ends, and no parenthesis
/// closes the list before it.
pub proof fn law_argument_at(ts: Seq<SpecItem>, i: int, k: nat)
    requires
        input_value_list(ts, i).result is Ok,
        k < input_value_list(ts, i).value().len(),
    ensures
        input_value(ts, argument_start(ts, i, k)).result == Ok::<SpecInputValue, SpecParseError>(
            input_value_list(ts, i).value()[k as int],
        ),
        k >= 1 ==> !accepts(ts, argument_start(ts, i, k), TokenKind::CloseParen),
    decreases k,
{
    let first = input_value(ts, i);
    if k > 0 {
        let rest = input_value_list(ts, first.next);
        law_argument_at(ts, first.next, (k - 1) as nat);
        lemma_argument_start_shift(ts, i, (k - 1) as nat);
        assert(input_value_list(ts, i).value()[k as int] == rest.value()[k - 1]);
    }
}

/// A declared argument without a description is its name, the type behind
/// the colon, and the default value behind the type.
pub proof fn law_argument_parts(ts: Seq<SpecItem>, i: int)
    requires
        accepts(ts, i, TokenKind::Name),
        input_value(ts, i).result is Ok,
    ensures
        ({
            let argument = input_value(ts, i).value();
            let typed = field_type(ts, i + 2);
            &&& argument.description is None
            &&& argument.name == name(ts, i).value()
            &&& accepts(ts, i + 1, TokenKind::Colon)
            &&& argument.input_type == typed.value()
            &&& argument.default_value == default_value(ts, typed.next).value()
        }),
{
}

/// Without an equals sign there is no default value; behind an equals sign
/// the default value is the literal that stands there.
pub proof fn law_default_value(ts: Seq<SpecItem>, i: int)
    ensures
        !accepts(ts, i, TokenKind::Equals) ==> default_value(ts, i) == done(
            None::<SpecValue>,
            i,
        ),
        accepts(ts, i, TokenKind::Equals) && item_at(ts, i + 1) is Ok && literal(
            item_at(ts, i + 1)->Ok_0,
        ) is Some ==> default_value(ts, i) == done(literal(item_at(ts, i + 1)->Ok_0), i + 2),
{
}

/// The arguments of a field definition are those that stand behind its
/// name: what the list between the parentheses holds is what the field
/// holds.
pub proof fn law_field_keeps_its_arguments(ts: Seq<SpecItem>, i: int)
    requires
        field(ts, i).result is Ok,
    ensures
        ({
            let named = name(ts, description(ts, i).next);
            let declared = arguments_definition(ts, named.next);
            &&& declared.result is Ok
            &&& field(ts, i).value().arguments == declared.value()
            &&& accepts(ts, named.next, TokenKind::OpenParen) ==> declared.value() == Some(
                input_value_list(ts, named.next + 1).value(),
            )
            &&& !accepts(ts, named.next, TokenKind::OpenParen) ==> declared.value() is None
        }),
{
}

/// The string that a string token writes.
pub open spec fn string_at(ts: Seq<SpecItem>, index: int) -> Option<SpecString> {
    match item_at(ts, index) {
        Ok(SpecToken::Str(_, text)) => Some(SpecString { value: text, block: false }),
        Ok(SpecToken::BlockStr(_, text)) => Some(SpecString { value: text, block: true }),
        _ => None,
    }
}

/// A string right before a definition is the description of that
/// definition, which is one of the type system: the string makes no
/// definition of its own.
pub proof fn law_description_of_definition(ts: Seq<SpecItem>, i: int)
    requires
        string_at(ts, i) is Some,
        definition(ts, i).result is Ok,
    ensures
        definition(ts, i).value().description() == string_at(ts, i),
        !(definition(ts, i).value() is Operation),
        !(definition(ts, i).value() is Fragment),
        item_at(ts, i + 1) matches Ok(SpecToken::Name(_, word)) && definition(ts, i)
            == crate::grammar::word_definition(ts, i + 1, word, string_at(ts, i)),
{
}

/// A list of definitions begins with the definition that stands first.
proof fn lemma_first_definition(ts: Seq<SpecItem>, i: int)
    requires
        definition_list(ts, i).result is Ok,
    ensures
        definition(ts, i).result is Ok,
        definition_list(ts, i).value().len() >= 1,
        definition_list(ts, i).value()[0] == definition(ts, i).value(),
{
}

/// A string right before the definitions of a document describes the first
/// of them: the list begins with the definition that the string stands
/// before, not with the string.
pub proof fn law_description_makes_no_definition(ts: Seq<SpecItem>, i: int)
    requires
        string_at(ts, i) is Some,
        definition_list(ts, i).result is Ok,
    ensures
        definition_list(ts, i).value().len() >= 1,
        definition_list(ts, i).value()[0] == definition(ts, i).value(),
        definition_list(ts, i).value()[0].description() == string_at(ts, i),
        definition(ts, i).next > i + 1,
{
    lemma_first_definition(ts, i);
    law_description_of_definition(ts, i);
    crate::progress::law_definition_moves(ts, i);
    assert(description(ts, i).next == i + 1);
}

/// Without a string before it, a definition has no description.
pub proof fn law_definition_without_description(ts: Seq<SpecItem>, i: int)
    requires
        string_at(ts, i) is None,
        definition(ts, i).result is Ok,
    ensures
        definition(ts, i).value().description() is None,
{
}

/// A string right before a field, a declared argument or an enum value is
/// the description of it; without a string there is none.
pub proof fn law_description_of_member(ts: Seq<SpecItem>, i: int)
    ensures
        field(ts, i).result is Ok ==> field(ts, i).value().description == string_at(ts, i),
        input_value(ts, i).result is Ok ==> input_value(ts, i).value().description == string_at(
            ts,
            i,
        ),
        enum_value(ts, i).result is Ok ==> enum_value(ts, i).value().description == string_at(
            ts,
            i,
        ),
{
}

/// Parentheses with nothing between them are an error, for the arguments
/// that a definition declares and for those of a call; where no parenthesis
/// opens there are no arguments, and that is no error.
pub proof fn law_empty_parentheses(ts: Seq<SpecItem>, i: int)
    ensures
        accepts(ts, i, TokenKind::OpenParen) && accepts(ts, i + 1, TokenKind::CloseParen) ==> {
            &&& arguments_definition(ts, i).result == Err::<
                Option<Seq<SpecInputValue>>,
                SpecParseError,
            >(SpecParseError::ArgumentEmpty)
            &&& arguments(ts, i).result is Err
            &&& arguments(ts, i).result->Err_0 == SpecParseError::ArgumentEmpty
        },
        !accepts(ts, i, TokenKind::OpenParen) ==> {
            &&& arguments_definition(ts, i) == done(None::<Seq<SpecInputValue>>, i)
            &&& arguments(ts, i).result is Ok
            &&& arguments(ts, i).value() is None
            &&& arguments(ts, i).next == i
        },
{
}

/// A field whose name is followed by empty parentheses fails with
/// `ArgumentEmpty`.
pub proof fn law_field_with_empty_parentheses(ts: Seq<SpecItem>, i: int)
    requires
        accepts(ts, i, TokenKind::Name),
        accepts(ts, i + 1, TokenKind::OpenParen),
        accepts(ts, i + 2, TokenKind::CloseParen),
    ensures
        field(ts, i).result is Err,
        field(ts, i).result->Err_0 == SpecParseError::ArgumentEmpty,
{
}

} // verus!
