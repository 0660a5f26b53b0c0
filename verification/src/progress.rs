//! Every production moves forward through the stream, so the repetitions of
//! the grammar come to an end, and none of them ever gets stuck.

use vstd::prelude::*;
use crate::error::SpecParseError;
use crate::grammar::{
    accepts, argument, argument_list, arguments, arguments_definition, at_word, default_value,
    definition, definition_list, description, directive, directive_list, directives, document,
    enum_value, enum_value_list, extension, field, field_list, field_selection, field_type,
    fields, fragment_definition, fragment_spread, in_stream, input_field_list, input_value,
    input_value_list, interfaces, left, name, name_list, operation, operation_type,
    operation_type_list, schema, selection, selection_list, selection_set, type_definition,
    union_members, variable_definition, variable_definitions, variable_list, Parsed,
};
use crate::lexical::{token_stream, SpecItem};
use crate::model::{SpecDescription, SpecDocument};
use crate::nodes::Operation;
use crate::token::TokenKind;

verus! {

/// The production that began at `i` did not get stuck, did not go back, and
/// did not take what it read for a whole document.
pub open spec fn steady<T>(found: Parsed<T>, i: int) -> bool {
    &&& found.result != Err::<T, SpecParseError>(SpecParseError::EOF)
    &&& found.result != Err::<T, SpecParseError>(SpecParseError::DocumentEmpty)
    &&& found.next >= i
}

/// The production that began at `i` is steady, and where it read something,
/// it began at a token of the stream and went beyond it.
pub open spec fn moving<T>(ts: Seq<SpecItem>, found: Parsed<T>, i: int) -> bool {
    &&& steady(found, i)
    &&& found.result is Ok ==> in_stream(ts, i) && found.next > i
}

proof fn lemma_field_type(ts: Seq<SpecItem>, i: int)
    ensures
        moving(ts, field_type(ts, i), i),
    decreases left(ts, i),
{
    if accepts(ts, i, TokenKind::OpenSquare) {
        lemma_field_type(ts, i + 1);
    }
}

proof fn lemma_argument_list(ts: Seq<SpecItem>, i: int)
    ensures
        moving(ts, argument_list(ts, i), i),
    decreases left(ts, i),
{
    let first = argument(ts, i);
    if !first.failed() && !accepts(ts, first.next, TokenKind::CloseParen) {
        lemma_argument_list(ts, first.next);
    }
}

proof fn lemma_arguments(ts: Seq<SpecItem>, i: int)
    ensures
        steady(arguments(ts, i), i),
{
    lemma_argument_list(ts, i + 1);
}

proof fn lemma_directive(ts: Seq<SpecItem>, i: int)
    ensures
        moving(ts, directive(ts, i), i),
{
    lemma_arguments(ts, i + 2);
}

proof fn lemma_directive_list(ts: Seq<SpecItem>, i: int)
    ensures
        steady(directive_list(ts, i), i),
    decreases left(ts, i),
{
    if accepts(ts, i, TokenKind::At) {
        lemma_directive(ts, i);
        let first = directive(ts, i);
        if !first.failed() {
            lemma_directive_list(ts, first.next);
        }
    }
}

proof fn lemma_directives(ts: Seq<SpecItem>, i: int)
    ensures
        steady(directives(ts, i), i),
{
    lemma_directive_list(ts, i);
}

proof fn lemma_input_value(ts: Seq<SpecItem>, i: int)
    ensures
        moving(ts, input_value(ts, i), i),
{
    let named = name(ts, description(ts, i).next);
    if !description(ts, i).failed() && !named.failed() {
        lemma_field_type(ts, named.next + 1);
        let typed = field_type(ts, named.next + 1);
        if !typed.failed() {
            lemma_directives(ts, default_value(ts, typed.next).next);
        }
    }
}

proof fn lemma_input_value_list(ts: Seq<SpecItem>, i: int)
    ensures
        moving(ts, input_value_list(ts, i), i),
    decreases left(ts, i),
{
    lemma_input_value(ts, i);
    let first = input_value(ts, i);
    if !first.failed() && !accepts(ts, first.next, TokenKind::CloseParen) {
        lemma_input_value_list(ts, first.next);
    }
}

proof fn lemma_arguments_definition(ts: Seq<SpecItem>, i: int)
    ensures
        steady(arguments_definition(ts, i), i),
{
    lemma_input_value_list(ts, i + 1);
}

proof fn lemma_field(ts: Seq<SpecItem>, i: int)
    ensures
        moving(ts, field(ts, i), i),
{
    let named = name(ts, description(ts, i).next);
    if !description(ts, i).failed() && !named.failed() {
        lemma_arguments_definition(ts, named.next);
        let declared = arguments_definition(ts, named.next);
        if !declared.failed() {
            lemma_field_type(ts, declared.next + 1);
        }
    }
}

proof fn lemma_field_list(ts: Seq<SpecItem>, i: int)
    ensures
        moving(ts, field_list(ts, i), i),
    decreases left(ts, i),
{
    if !accepts(ts, i, TokenKind::CloseBrace) {
        lemma_field(ts, i);
        let first = field(ts, i);
        if !first.failed() {
            lemma_field_list(ts, first.next);
        }
    }
}

proof fn lemma_fields(ts: Seq<SpecItem>, i: int)
    ensures
        moving(ts, fields(ts, i), i),
{
    lemma_field_list(ts, i + 1);
}

proof fn lemma_enum_value(ts: Seq<SpecItem>, i: int)
    ensures
        moving(ts, enum_value(ts, i), i),
{
    let named = name(ts, description(ts, i).next);
    if !description(ts, i).failed() && !named.failed() {
        lemma_directives(ts, named.next);
    }
}

proof fn lemma_enum_value_list(ts: Seq<SpecItem>, i: int)
    ensures
        moving(ts, enum_value_list(ts, i), i),
    decreases left(ts, i),
{
    if !accepts(ts, i, TokenKind::CloseBrace) {
        lemma_enum_value(ts, i);
        let first = enum_value(ts, i);
        if !first.failed() {
            lemma_enum_value_list(ts, first.next);
        }
    }
}

proof fn lemma_input_field_list(ts: Seq<SpecItem>, i: int)
    ensures
        moving(ts, input_field_list(ts, i), i),
    decreases left(ts, i),
{
    if !accepts(ts, i, TokenKind::CloseBrace) {
        lemma_input_value(ts, i);
        let first = input_value(ts, i);
        if !first.failed() {
            lemma_input_field_list(ts, first.next);
        }
    }
}

proof fn lemma_name_list(ts: Seq<SpecItem>, i: int, separator: TokenKind)
    ensures
        moving(ts, name_list(ts, i, separator), i),
    decreases left(ts, i),
{
    let first = name(ts, i);
    if !first.failed() && accepts(ts, first.next, separator) {
        lemma_name_list(ts, first.next + 1, separator);
    }
}

proof fn lemma_interfaces(ts: Seq<SpecItem>, i: int)
    ensures
        steady(interfaces(ts, i), i),
{
    lemma_name_list(ts, i + 1, TokenKind::Amp);
    lemma_name_list(ts, i + 2, TokenKind::Amp);
}

proof fn lemma_union_members(ts: Seq<SpecItem>, i: int)
    ensures
        steady(union_members(ts, i), i),
{
    lemma_name_list(ts, i + 1, TokenKind::Pipe);
    lemma_name_list(ts, i + 2, TokenKind::Pipe);
}

proof fn lemma_type_definition(ts: Seq<SpecItem>, i: int, described: SpecDescription)
    ensures
        moving(ts, type_definition(ts, i, described), i),
{
    let named = name(ts, i + 1);
    if !named.failed() {
        lemma_interfaces(ts, named.next);
        lemma_directives(ts, named.next);
        lemma_input_field_list(ts, named.next + 1);
        let implemented = interfaces(ts, named.next);
        if !implemented.failed() {
            lemma_directives(ts, implemented.next);
            let directed = directives(ts, implemented.next);
            if !directed.failed() {
                lemma_fields(ts, directed.next);
            }
        }
        let directed = directives(ts, named.next);
        if !directed.failed() {
            lemma_fields(ts, directed.next);
            lemma_union_members(ts, directed.next);
            lemma_enum_value_list(ts, directed.next + 1);
        }
    }
}

proof fn lemma_operation_type_list(ts: Seq<SpecItem>, i: int)
    ensures
        moving(ts, operation_type_list(ts, i), i),
    decreases left(ts, i),
{
    if !accepts(ts, i, TokenKind::CloseBrace) {
        let first = operation_type(ts, i);
        if !first.failed() {
            lemma_operation_type_list(ts, first.next);
        }
    }
}

proof fn lemma_schema(ts: Seq<SpecItem>, i: int, described: SpecDescription)
    ensures
        moving(ts, schema(ts, i, described), i),
{
    lemma_directives(ts, i);
    let directed = directives(ts, i);
    if !directed.failed() {
        lemma_operation_type_list(ts, directed.next + 1);
    }
}

proof fn lemma_extension(ts: Seq<SpecItem>, i: int, described: SpecDescription)
    ensures
        moving(ts, extension(ts, i, described), i),
{
    let named = name(ts, i + 1);
    if !named.failed() {
        lemma_interfaces(ts, named.next);
        let implemented = interfaces(ts, named.next);
        if !implemented.failed() {
            lemma_directives(ts, implemented.next);
            let directed = directives(ts, implemented.next);
            if !directed.failed() {
                lemma_fields(ts, directed.next);
            }
        }
    }
}

proof fn lemma_variable_definition(ts: Seq<SpecItem>, i: int)
    ensures
        moving(ts, variable_definition(ts, i), i),
{
    lemma_field_type(ts, i + 3);
}

proof fn lemma_variable_list(ts: Seq<SpecItem>, i: int)
    ensures
        moving(ts, variable_list(ts, i), i),
    decreases left(ts, i),
{
    lemma_variable_definition(ts, i);
    let first = variable_definition(ts, i);
    if !first.failed() && !accepts(ts, first.next, TokenKind::CloseParen) {
        lemma_variable_list(ts, first.next);
    }
}

proof fn lemma_variable_definitions(ts: Seq<SpecItem>, i: int)
    ensures
        steady(variable_definitions(ts, i), i),
{
    lemma_variable_list(ts, i + 1);
}

proof fn lemma_selection_set(ts: Seq<SpecItem>, i: int)
    ensures
        moving(ts, selection_set(ts, i), i),
    decreases left(ts, i), 0int,
{
    if accepts(ts, i, TokenKind::OpenBrace) {
        lemma_selection_list(ts, i + 1);
    }
}

proof fn lemma_selection_list(ts: Seq<SpecItem>, i: int)
    ensures
        moving(ts, selection_list(ts, i), i),
    decreases left(ts, i), 3int,
{
    lemma_selection(ts, i);
    let first = selection(ts, i);
    if !first.failed() && !accepts(ts, first.next, TokenKind::CloseBrace) {
        lemma_selection_list(ts, first.next);
    }
}

proof fn lemma_selection(ts: Seq<SpecItem>, i: int)
    ensures
        moving(ts, selection(ts, i), i),
    decreases left(ts, i), 2int,
{
    if accepts(ts, i, TokenKind::Ellipsis) {
        lemma_fragment_spread(ts, i + 1);
    } else {
        lemma_field_selection(ts, i);
    }
}

proof fn lemma_field_selection(ts: Seq<SpecItem>, i: int)
    ensures
        moving(ts, field_selection(ts, i), i),
    decreases left(ts, i), 1int,
{
    let first = name(ts, i);
    if !first.failed() {
        let behind = if accepts(ts, first.next, TokenKind::Colon) {
            name(ts, first.next + 1)
        } else {
            first
        };
        if !behind.failed() {
            lemma_arguments(ts, behind.next);
            let given = arguments(ts, behind.next);
            if !given.failed() {
                lemma_directives(ts, given.next);
                let directed = directives(ts, given.next);
                if !directed.failed() && accepts(ts, directed.next, TokenKind::OpenBrace) {
                    lemma_selection_set(ts, directed.next);
                }
            }
        }
    }
}

proof fn lemma_fragment_spread(ts: Seq<SpecItem>, i: int)
    ensures
        moving(ts, fragment_spread(ts, i), i),
    decreases left(ts, i), 1int,
{
    if accepts(ts, i, TokenKind::Name) && !at_word(ts, i, "on"@) {
        lemma_directives(ts, i + 1);
    } else {
        let from = if at_word(ts, i, "on"@) {
            name(ts, i + 1).next
        } else {
            i
        };
        if !at_word(ts, i, "on"@) || !name(ts, i + 1).failed() {
            lemma_directives(ts, from);
            let directed = directives(ts, from);
            if !directed.failed() {
                lemma_selection_set(ts, directed.next);
            }
        }
    }
}

proof fn lemma_operation(ts: Seq<SpecItem>, i: int, kind: Operation)
    ensures
        moving(ts, operation(ts, i, kind), i),
{
    let from = if accepts(ts, i, TokenKind::Name) {
        i + 1
    } else {
        i
    };
    lemma_variable_definitions(ts, from);
    let declared = variable_definitions(ts, from);
    if !declared.failed() {
        lemma_selection_set(ts, declared.next);
    }
}

proof fn lemma_fragment_definition(ts: Seq<SpecItem>, i: int)
    ensures
        moving(ts, fragment_definition(ts, i), i),
{
    lemma_directives(ts, i + 3);
    let directed = directives(ts, i + 3);
    if !directed.failed() {
        lemma_selection_set(ts, directed.next);
    }
}

proof fn lemma_definition(ts: Seq<SpecItem>, i: int)
    ensures
        moving(ts, definition(ts, i), i),
        definition(ts, i).result is Ok ==> definition(ts, i).next > description(ts, i).next,
{
    let described = description(ts, i);
    if !described.failed() {
        let at = described.next;
        lemma_type_definition(ts, at, described.value());
        lemma_schema(ts, at + 1, described.value());
        lemma_extension(ts, at + 1, described.value());
        lemma_operation(ts, at + 1, Operation::Query);
        lemma_operation(ts, at + 1, Operation::Mutation);
        lemma_operation(ts, at + 1, Operation::Subscription);
        lemma_fragment_definition(ts, at + 1);
        lemma_selection_set(ts, at);
    }
}

proof fn lemma_definition_list(ts: Seq<SpecItem>, i: int)
    ensures
        moving(ts, definition_list(ts, i), i),
    decreases left(ts, i),
{
    lemma_definition(ts, i);
    let first = definition(ts, i);
    if !first.failed() && !accepts(ts, first.next, TokenKind::End) {
        lemma_definition_list(ts, first.next);
    }
}

/// A definition that is read begins at a token of the stream and goes
/// beyond it, and behind a description it goes beyond the next token too.
pub proof fn law_definition_moves(ts: Seq<SpecItem>, i: int)
    ensures
        moving(ts, definition(ts, i), i),
        definition(ts, i).result is Ok ==> definition(ts, i).next > description(ts, i).next,
{
    lemma_definition(ts, i);
}

/// No stream of tokens makes the parser report that its tokens ran dry:
/// `End` stands for the end of the text, and a token that is missing there
/// is an unexpected `End`.
pub proof fn law_tokens_never_run_dry(ts: Seq<SpecItem>)
    ensures
        document(ts) != Err::<SpecDocument, SpecParseError>(SpecParseError::EOF),
{
    lemma_definition_list(ts, 1);
}

/// Parsing a text never reports that the tokens ran dry.
pub proof fn law_text_never_runs_dry(text: Seq<char>)
    ensures
        document(token_stream(text)) != Err::<SpecDocument, SpecParseError>(SpecParseError::EOF),
{
    law_tokens_never_run_dry(token_stream(text));
}

/// A stream is taken for an empty document where `End` follows `Start`, and
/// nowhere else.
pub proof fn law_document_is_empty_without_tokens(ts: Seq<SpecItem>)
    ensures
        document(ts) == Err::<SpecDocument, SpecParseError>(SpecParseError::DocumentEmpty) <==> (
        accepts(ts, 0, TokenKind::Start) && accepts(ts, 1, TokenKind::End)),
{
    lemma_definition_list(ts, 1);
}

} // verus!
