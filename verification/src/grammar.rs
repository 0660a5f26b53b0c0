//! The grammar of GraphQL documents, as functions on the stream of tokens.
//!
//! A production takes the stream and the index of the token it begins at,
//! and gives what it reads and the index behind it. The first failure ends
//! the parse: a production hands the failure of a part on as its own.

use vstd::prelude::*;
use crate::error::SpecParseError;
use crate::lexical::{item_at, SpecItem};
use crate::model::{
    SpecArgument, SpecDefinition, SpecDescription, SpecDirective, SpecDirectives, SpecDocument,
    SpecEnumValue, SpecField, SpecInputValue, SpecOperationType, SpecSelection, SpecString,
    SpecType, SpecValue, SpecVariable,
};
use crate::nodes::Operation;
use crate::token::{SpecToken, TokenKind};

verus! {

/// What a production gives: its value or the failure, and the index of the
/// token that is read next.
pub ghost struct Parsed<T> {
    pub result: Result<T, SpecParseError>,
    pub next: int,
}

impl<T> Parsed<T> {
    /// Whether the production failed.
    pub open spec fn failed(self) -> bool {
        self.result is Err
    }

    /// What the production read, where it did not fail.
    pub open spec fn value(self) -> T {
        self.result->Ok_0
    }

    /// The failure, as the result of the production that the part belongs to.
    pub open spec fn cast<U>(self) -> Parsed<U> {
        Parsed { result: Err(self.result->Err_0), next: self.next }
    }
}

/// A production that read `value` and left off at `next`.
pub open spec fn done<T>(value: T, next: int) -> Parsed<T> {
    Parsed { result: Ok(value), next }
}

/// A production that failed with `error` and left off at `next`.
pub open spec fn fail<T>(error: SpecParseError, next: int) -> Parsed<T> {
    Parsed { result: Err(error), next }
}

/// A list with `prefix` put before it.
pub open spec fn after<T>(prefix: Seq<T>, list: Parsed<Seq<T>>) -> Parsed<Seq<T>> {
    Parsed {
        result: match list.result {
            Ok(items) => Ok(prefix + items),
            Err(error) => Err(error),
        },
        next: list.next,
    }
}

/// Putting an item before a list and a prefix before that is putting the
/// prefix with the item before the list.
pub proof fn lemma_after_push<T>(prefix: Seq<T>, item: T, list: Parsed<Seq<T>>)
    ensures
        after(prefix, after(seq![item], list)) == after(prefix.push(item), list),
{
    if let Ok(items) = list.result {
        assert(prefix + (seq![item] + items) =~= prefix.push(item) + items);
    }
}

/// An empty prefix changes nothing.
pub proof fn lemma_after_nothing<T>(list: Parsed<Seq<T>>)
    ensures
        after(Seq::empty(), list) == list,
{
    if let Ok(items) = list.result {
        assert(Seq::<T>::empty() + items =~= items);
    }
}

/// Whether `index` is the place of an item of the stream itself, not of the
/// `End` that continues it.
pub open spec fn in_stream(ts: Seq<SpecItem>, index: int) -> bool {
    0 <= index < ts.len()
}

/// The number of items of the stream from `index` on. Every production that
/// repeats gets less of it each time round.
pub open spec fn left(ts: Seq<SpecItem>, index: int) -> int {
    if 0 <= index < ts.len() {
        ts.len() - index
    } else {
        0
    }
}

/// What stands for a repetition that makes no headway. No production ever
/// gives it: each one that repeats has read a token of the stream first.
pub open spec fn stuck<T>(index: int) -> Parsed<T> {
    fail(SpecParseError::EOF, index)
}

/// The token at `index`, or the lexical error found there.
pub open spec fn peek(ts: Seq<SpecItem>, index: int) -> Result<SpecToken, SpecParseError> {
    match item_at(ts, index) {
        Ok(token) => Ok(token),
        Err(kind) => Err(SpecParseError::LexError(kind)),
    }
}

/// Takes the token at `index`, whatever it is.
pub open spec fn next_token(ts: Seq<SpecItem>, index: int) -> Parsed<SpecToken> {
    Parsed { result: peek(ts, index), next: index + 1 }
}

/// Takes the token at `index`, which must be of the category `kind`.
pub open spec fn expect(ts: Seq<SpecItem>, index: int, kind: TokenKind) -> Parsed<SpecToken> {
    match item_at(ts, index) {
        Ok(token) => if token.kind() == kind {
            done(token, index + 1)
        } else {
            fail(
                SpecParseError::UnexpectedToken {
                    expected: kind.text(),
                    received: token.kind().text(),
                },
                index + 1,
            )
        },
        Err(error) => fail(SpecParseError::LexError(error), index + 1),
    }
}

/// Whether a token of the category `kind` stands at `index`.
pub open spec fn accepts(ts: Seq<SpecItem>, index: int, kind: TokenKind) -> bool {
    item_at(ts, index) matches Ok(token) && token.kind() == kind
}

/// Whether the name `word` stands at `index`.
pub open spec fn at_word(ts: Seq<SpecItem>, index: int, word: Seq<char>) -> bool {
    item_at(ts, index) matches Ok(token) && token.is_word(word)
}

/// Whether `word` begins the definition of a type. The words of the grammar
/// are names like any other; only their place gives them their meaning.
pub open spec fn is_type_word(word: Seq<char>) -> bool {
    word == "type"@ || word == "interface"@ || word == "union"@ || word == "enum"@ || word
        == "scalar"@ || word == "input"@
}

/// The operation that `word` names.
pub open spec fn operation_of(word: Seq<char>) -> Option<Operation> {
    if word == "query"@ {
        Some(Operation::Query)
    } else if word == "mutation"@ {
        Some(Operation::Mutation)
    } else if word == "subscription"@ {
        Some(Operation::Subscription)
    } else {
        None
    }
}

/// The description that may stand before a definition, a field, an argument
/// or an enum value: a string or a block string, or nothing.
pub open spec fn description(ts: Seq<SpecItem>, i: int) -> Parsed<SpecDescription> {
    match item_at(ts, i) {
        Err(error) => fail(SpecParseError::LexError(error), i),
        Ok(SpecToken::Str(_, text)) => done(Some(SpecString { value: text, block: false }), i + 1),
        Ok(SpecToken::BlockStr(_, text)) => done(
            Some(SpecString { value: text, block: true }),
            i + 1,
        ),
        Ok(_) => done(None, i),
    }
}

/// A name.
pub open spec fn name(ts: Seq<SpecItem>, i: int) -> Parsed<Seq<char>> {
    let token = expect(ts, i, TokenKind::Name);
    if token.failed() {
        token.cast()
    } else {
        done(token.value().payload(), token.next)
    }
}

/// A type reference: a name, or a type between square brackets; an
/// exclamation mark behind either makes it non-null.
pub open spec fn field_type(ts: Seq<SpecItem>, i: int) -> Parsed<SpecType>
    decreases left(ts, i),
{
    let base: Parsed<SpecType> = if accepts(ts, i, TokenKind::OpenSquare) {
        let inner = field_type(ts, i + 1);
        if inner.failed() {
            inner
        } else {
            let close = expect(ts, inner.next, TokenKind::CloseSquare);
            if close.failed() {
                close.cast()
            } else {
                done(SpecType::List(Box::new(inner.value())), close.next)
            }
        }
    } else {
        let named = name(ts, i);
        if named.failed() {
            named.cast()
        } else {
            done(SpecType::Named(named.value()), named.next)
        }
    };
    if base.failed() {
        base
    } else if accepts(ts, base.next, TokenKind::Bang) {
        done(SpecType::NonNull(Box::new(base.value())), base.next + 1)
    } else {
        base
    }
}

/// The value that a token writes as a literal: `true`, `false` and `null`
/// are what they say, any other name is an enum value; numbers and strings
/// are themselves. No other token writes a value.
pub open spec fn literal(token: SpecToken) -> Option<SpecValue> {
    match token {
        SpecToken::Name(_, text) => Some(
            if text == "true"@ {
                SpecValue::Bool(true)
            } else if text == "false"@ {
                SpecValue::Bool(false)
            } else if text == "null"@ {
                SpecValue::Null
            } else {
                SpecValue::Enum(text)
            },
        ),
        SpecToken::Int(_, value) => Some(SpecValue::Int(value)),
        SpecToken::Float(_, text) => Some(SpecValue::Float(text)),
        SpecToken::Str(_, text) => Some(SpecValue::Str(SpecString { value: text, block: false })),
        SpecToken::BlockStr(_, text) => Some(
            SpecValue::Str(SpecString { value: text, block: true }),
        ),
        _ => None,
    }
}

/// A default value: an equals sign and a literal. Without the equals sign
/// there is none. Behind the equals sign a token that writes no literal (a
/// variable, a list, an object) is left where it is, and there is none
/// either.
pub open spec fn default_value(ts: Seq<SpecItem>, i: int) -> Parsed<Option<SpecValue>> {
    if !accepts(ts, i, TokenKind::Equals) {
        done(None, i)
    } else {
        match item_at(ts, i + 1) {
            Err(error) => fail(SpecParseError::LexError(error), i + 1),
            Ok(token) => match literal(token) {
                Some(value) => done(Some(value), i + 2),
                None => done(None, i + 1),
            },
        }
    }
}

/// The value of an argument in a call: a variable or a literal.
pub open spec fn argument_value(ts: Seq<SpecItem>, i: int) -> Parsed<SpecValue> {
    match item_at(ts, i) {
        Err(error) => fail(SpecParseError::LexError(error), i + 1),
        Ok(SpecToken::Dollar(_)) => {
            let variable = name(ts, i + 1);
            if variable.failed() {
                variable.cast()
            } else {
                done(SpecValue::Variable(variable.value()), variable.next)
            }
        },
        Ok(token) => match literal(token) {
            Some(value) => done(value, i + 1),
            None => fail(SpecParseError::BadValue, i + 1),
        },
    }
}

/// An argument in a call: a name, a colon and a value.
pub open spec fn argument(ts: Seq<SpecItem>, i: int) -> Parsed<SpecArgument> {
    let named = name(ts, i);
    if named.failed() {
        named.cast()
    } else {
        let colon = expect(ts, named.next, TokenKind::Colon);
        if colon.failed() {
            colon.cast()
        } else {
            let value = argument_value(ts, colon.next);
            if value.failed() {
                value.cast()
            } else {
                done(SpecArgument { name: named.value(), value: value.value() }, value.next)
            }
        }
    }
}

/// One argument or more, up to the closing parenthesis.
pub open spec fn argument_list(ts: Seq<SpecItem>, i: int) -> Parsed<Seq<SpecArgument>>
    decreases left(ts, i),
{
    let first = argument(ts, i);
    if first.failed() {
        first.cast()
    } else if accepts(ts, first.next, TokenKind::CloseParen) {
        done(seq![first.value()], first.next + 1)
    } else if in_stream(ts, i) && first.next > i {
        after(seq![first.value()], argument_list(ts, first.next))
    } else {
        stuck(first.next)
    }
}

/// The arguments of a call, between parentheses; nothing where no
/// parenthesis opens. Parentheses with nothing between them are an error.
pub open spec fn arguments(ts: Seq<SpecItem>, i: int) -> Parsed<Option<Seq<SpecArgument>>> {
    if !accepts(ts, i, TokenKind::OpenParen) {
        done(None, i)
    } else if accepts(ts, i + 1, TokenKind::CloseParen) {
        fail(SpecParseError::ArgumentEmpty, i + 2)
    } else {
        let list = argument_list(ts, i + 1);
        if list.failed() {
            list.cast()
        } else {
            done(Some(list.value()), list.next)
        }
    }
}

/// A directive: an at sign, a name, and arguments where a parenthesis opens.
pub open spec fn directive(ts: Seq<SpecItem>, i: int) -> Parsed<SpecDirective> {
    let at = expect(ts, i, TokenKind::At);
    if at.failed() {
        at.cast()
    } else {
        let named = name(ts, at.next);
        if named.failed() {
            named.cast()
        } else {
            let given = arguments(ts, named.next);
            if given.failed() {
                given.cast()
            } else {
                done(SpecDirective { name: named.value(), arguments: given.value() }, given.next)
            }
        }
    }
}

/// The directives that follow one another from `i` on.
pub open spec fn directive_list(ts: Seq<SpecItem>, i: int) -> Parsed<Seq<SpecDirective>>
    decreases left(ts, i),
{
    if !accepts(ts, i, TokenKind::At) {
        done(Seq::empty(), i)
    } else {
        let first = directive(ts, i);
        if first.failed() {
            first.cast()
        } else if first.next > i {
            after(seq![first.value()], directive_list(ts, first.next))
        } else {
            stuck(first.next)
        }
    }
}

/// The directives from `i` on; nothing where there is none.
pub open spec fn directives(ts: Seq<SpecItem>, i: int) -> Parsed<SpecDirectives> {
    let list = directive_list(ts, i);
    if list.failed() {
        list.cast()
    } else if list.value().len() == 0 {
        done(None, list.next)
    } else {
        done(Some(list.value()), list.next)
    }
}

/// An argument as a definition declares it, or a field of an input type: a
/// description or none, a name, a colon, a type, a default value or none,
/// and directives.
pub open spec fn input_value(ts: Seq<SpecItem>, i: int) -> Parsed<SpecInputValue> {
    let described = description(ts, i);
    if described.failed() {
        described.cast()
    } else {
        let named = name(ts, described.next);
        if named.failed() {
            named.cast()
        } else {
            let colon = expect(ts, named.next, TokenKind::Colon);
            if colon.failed() {
                colon.cast()
            } else {
                let typed = field_type(ts, colon.next);
                if typed.failed() {
                    typed.cast()
                } else {
                    let default = default_value(ts, typed.next);
                    if default.failed() {
                        default.cast()
                    } else {
                        let directed = directives(ts, default.next);
                        if directed.failed() {
                            directed.cast()
                        } else {
                            done(
                                SpecInputValue {
                                    description: described.value(),
                                    name: named.value(),
                                    input_type: typed.value(),
                                    default_value: default.value(),
                                    directives: directed.value(),
                                },
                                directed.next,
                            )
                        }
                    }
                }
            }
        }
    }
}

/// One declared argument or more, up to the closing parenthesis.
pub open spec fn input_value_list(ts: Seq<SpecItem>, i: int) -> Parsed<Seq<SpecInputValue>>
    decreases left(ts, i),
{
    let first = input_value(ts, i);
    if first.failed() {
        first.cast()
    } else if accepts(ts, first.next, TokenKind::CloseParen) {
        done(seq![first.value()], first.next + 1)
    } else if in_stream(ts, i) && first.next > i {
        after(seq![first.value()], input_value_list(ts, first.next))
    } else {
        stuck(first.next)
    }
}

/// The arguments that a field definition declares, between parentheses;
/// nothing where no parenthesis opens. Parentheses with nothing between them
/// are an error.
pub open spec fn arguments_definition(ts: Seq<SpecItem>, i: int) -> Parsed<
    Option<Seq<SpecInputValue>>,
> {
    if !accepts(ts, i, TokenKind::OpenParen) {
        done(None, i)
    } else if accepts(ts, i + 1, TokenKind::CloseParen) {
        fail(SpecParseError::ArgumentEmpty, i + 2)
    } else {
        let list = input_value_list(ts, i + 1);
        if list.failed() {
            list.cast()
        } else {
            done(Some(list.value()), list.next)
        }
    }
}

/// A field of an object type or an interface: a description or none, a name,
/// arguments or none, a colon and a type.
pub open spec fn field(ts: Seq<SpecItem>, i: int) -> Parsed<SpecField> {
    let described = description(ts, i);
    if described.failed() {
        described.cast()
    } else {
        let named = name(ts, described.next);
        if named.failed() {
            named.cast()
        } else {
            let declared = arguments_definition(ts, named.next);
            if declared.failed() {
                declared.cast()
            } else {
                let colon = expect(ts, declared.next, TokenKind::Colon);
                if colon.failed() {
                    colon.cast()
                } else {
                    let typed = field_type(ts, colon.next);
                    if typed.failed() {
                        typed.cast()
                    } else {
                        done(
                            SpecField {
                                description: described.value(),
                                name: named.value(),
                                arguments: declared.value(),
                                field_type: typed.value(),
                            },
                            typed.next,
                        )
                    }
                }
            }
        }
    }
}

/// Fields up to the closing brace; there may be none.
pub open spec fn field_list(ts: Seq<SpecItem>, i: int) -> Parsed<Seq<SpecField>>
    decreases left(ts, i),
{
    if accepts(ts, i, TokenKind::CloseBrace) {
        done(Seq::empty(), i + 1)
    } else {
        let first = field(ts, i);
        if first.failed() {
            first.cast()
        } else if in_stream(ts, i) && first.next > i {
            after(seq![first.value()], field_list(ts, first.next))
        } else {
            stuck(first.next)
        }
    }
}

/// The fields of a type, between braces.
pub open spec fn fields(ts: Seq<SpecItem>, i: int) -> Parsed<Seq<SpecField>> {
    let open = expect(ts, i, TokenKind::OpenBrace);
    if open.failed() {
        open.cast()
    } else {
        field_list(ts, open.next)
    }
}

/// A value of an enum: a description or none, a name, and directives.
pub open spec fn enum_value(ts: Seq<SpecItem>, i: int) -> Parsed<SpecEnumValue> {
    let described = description(ts, i);
    if described.failed() {
        described.cast()
    } else {
        let named = name(ts, described.next);
        if named.failed() {
            named.cast()
        } else {
            let directed = directives(ts, named.next);
            if directed.failed() {
                directed.cast()
            } else {
                done(
                    SpecEnumValue {
                        description: described.value(),
                        name: named.value(),
                        directives: directed.value(),
                    },
                    directed.next,
                )
            }
        }
    }
}

/// Enum values up to the closing brace; there may be none.
pub open spec fn enum_value_list(ts: Seq<SpecItem>, i: int) -> Parsed<Seq<SpecEnumValue>>
    decreases left(ts, i),
{
    if accepts(ts, i, TokenKind::CloseBrace) {
        done(Seq::empty(), i + 1)
    } else {
        let first = enum_value(ts, i);
        if first.failed() {
            first.cast()
        } else if in_stream(ts, i) && first.next > i {
            after(seq![first.value()], enum_value_list(ts, first.next))
        } else {
            stuck(first.next)
        }
    }
}

/// The values of an enum, between braces.
pub open spec fn enum_values(ts: Seq<SpecItem>, i: int) -> Parsed<Seq<SpecEnumValue>> {
    let open = expect(ts, i, TokenKind::OpenBrace);
    if open.failed() {
        open.cast()
    } else {
        enum_value_list(ts, open.next)
    }
}

/// Fields of an input type up to the closing brace; there may be none.
pub open spec fn input_field_list(ts: Seq<SpecItem>, i: int) -> Parsed<Seq<SpecInputValue>>
    decreases left(ts, i),
{
    if accepts(ts, i, TokenKind::CloseBrace) {
        done(Seq::empty(), i + 1)
    } else {
        let first = input_value(ts, i);
        if first.failed() {
            first.cast()
        } else if in_stream(ts, i) && first.next > i {
            after(seq![first.value()], input_field_list(ts, first.next))
        } else {
            stuck(first.next)
        }
    }
}

/// The fields of an input type, between braces.
pub open spec fn input_fields(ts: Seq<SpecItem>, i: int) -> Parsed<Seq<SpecInputValue>> {
    let open = expect(ts, i, TokenKind::OpenBrace);
    if open.failed() {
        open.cast()
    } else {
        input_field_list(ts, open.next)
    }
}

/// One name or more, with a token of the category `separator` between each
/// two.
pub open spec fn name_list(ts: Seq<SpecItem>, i: int, separator: TokenKind) -> Parsed<
    Seq<Seq<char>>,
>
    decreases left(ts, i),
{
    let first = name(ts, i);
    if first.failed() {
        first.cast()
    } else if !accepts(ts, first.next, separator) {
        done(seq![first.value()], first.next)
    } else if in_stream(ts, i) && first.next > i {
        after(seq![first.value()], name_list(ts, first.next + 1, separator))
    } else {
        stuck(first.next)
    }
}

/// The interfaces that a type implements: the word `implements` and names
/// with ampersands between them, and one before them if it is there; nothing
/// where the word is not.
pub open spec fn interfaces(ts: Seq<SpecItem>, i: int) -> Parsed<Option<Seq<Seq<char>>>> {
    if !at_word(ts, i, "implements"@) {
        done(None, i)
    } else {
        let from = if accepts(ts, i + 1, TokenKind::Amp) {
            i + 2
        } else {
            i + 1
        };
        let list = name_list(ts, from, TokenKind::Amp);
        if list.failed() {
            list.cast()
        } else {
            done(Some(list.value()), list.next)
        }
    }
}

/// The members of a union: an equals sign and names with bars between them,
/// and one before them if it is there; none where no equals sign stands.
pub open spec fn union_members(ts: Seq<SpecItem>, i: int) -> Parsed<Seq<Seq<char>>> {
    if !accepts(ts, i, TokenKind::Equals) {
        done(Seq::empty(), i)
    } else {
        let from = if accepts(ts, i + 1, TokenKind::Pipe) {
            i + 2
        } else {
            i + 1
        };
        name_list(ts, from, TokenKind::Pipe)
    }
}

/// An object type, from behind the word `type` on.
pub open spec fn object_type(ts: Seq<SpecItem>, i: int, described: SpecDescription) -> Parsed<
    SpecDefinition,
> {
    let named = name(ts, i);
    if named.failed() {
        named.cast()
    } else {
        let implemented = interfaces(ts, named.next);
        if implemented.failed() {
            implemented.cast()
        } else {
            let directed = directives(ts, implemented.next);
            if directed.failed() {
                directed.cast()
            } else {
                let body = fields(ts, directed.next);
                if body.failed() {
                    body.cast()
                } else {
                    done(
                        SpecDefinition::Object {
                            description: described,
                            name: named.value(),
                            interfaces: implemented.value(),
                            directives: directed.value(),
                            fields: body.value(),
                        },
                        body.next,
                    )
                }
            }
        }
    }
}

/// An interface, from behind the word `interface` on.
pub open spec fn interface_type(ts: Seq<SpecItem>, i: int, described: SpecDescription) -> Parsed<
    SpecDefinition,
> {
    let named = name(ts, i);
    if named.failed() {
        named.cast()
    } else {
        let directed = directives(ts, named.next);
        if directed.failed() {
            directed.cast()
        } else {
            let body = fields(ts, directed.next);
            if body.failed() {
                body.cast()
            } else {
                done(
                    SpecDefinition::Interface {
                        description: described,
                        name: named.value(),
                        directives: directed.value(),
                        fields: body.value(),
                    },
                    body.next,
                )
            }
        }
    }
}

/// A union, from behind the word `union` on.
pub open spec fn union_type(ts: Seq<SpecItem>, i: int, described: SpecDescription) -> Parsed<
    SpecDefinition,
> {
    let named = name(ts, i);
    if named.failed() {
        named.cast()
    } else {
        let directed = directives(ts, named.next);
        if directed.failed() {
            directed.cast()
        } else {
            let members = union_members(ts, directed.next);
            if members.failed() {
                members.cast()
            } else {
                done(
                    SpecDefinition::Union {
                        description: described,
                        name: named.value(),
                        directives: directed.value(),
                        types: members.value(),
                    },
                    members.next,
                )
            }
        }
    }
}

/// An enum, from behind the word `enum` on.
pub open spec fn enum_type(ts: Seq<SpecItem>, i: int, described: SpecDescription) -> Parsed<
    SpecDefinition,
> {
    let named = name(ts, i);
    if named.failed() {
        named.cast()
    } else {
        let directed = directives(ts, named.next);
        if directed.failed() {
            directed.cast()
        } else {
            let body = enum_values(ts, directed.next);
            if body.failed() {
                body.cast()
            } else {
                done(
                    SpecDefinition::Enum {
                        description: described,
                        name: named.value(),
                        directives: directed.value(),
                        values: body.value(),
                    },
                    body.next,
                )
            }
        }
    }
}

/// A scalar, from behind the word `scalar` on.
pub open spec fn scalar_type(ts: Seq<SpecItem>, i: int, described: SpecDescription) -> Parsed<
    SpecDefinition,
> {
    let named = name(ts, i);
    if named.failed() {
        named.cast()
    } else {
        let directed = directives(ts, named.next);
        if directed.failed() {
            directed.cast()
        } else {
            done(
                SpecDefinition::Scalar {
                    description: described,
                    name: named.value(),
                    directives: directed.value(),
                },
                directed.next,
            )
        }
    }
}

/// An input type, from behind the word `input` on.
pub open spec fn input_type(ts: Seq<SpecItem>, i: int, described: SpecDescription) -> Parsed<
    SpecDefinition,
> {
    let named = name(ts, i);
    if named.failed() {
        named.cast()
    } else {
        let body = input_fields(ts, named.next);
        if body.failed() {
            body.cast()
        } else {
            done(
                SpecDefinition::Input {
                    description: described,
                    name: named.value(),
                    fields: body.value(),
                },
                body.next,
            )
        }
    }
}

/// The definition of a type, from its keyword on.
pub open spec fn type_definition(ts: Seq<SpecItem>, i: int, described: SpecDescription) -> Parsed<
    SpecDefinition,
> {
    match item_at(ts, i) {
        Err(error) => fail(SpecParseError::LexError(error), i + 1),
        Ok(SpecToken::Name(_, word)) => if word == "type"@ {
            object_type(ts, i + 1, described)
        } else if word == "interface"@ {
            interface_type(ts, i + 1, described)
        } else if word == "union"@ {
            union_type(ts, i + 1, described)
        } else if word == "enum"@ {
            enum_type(ts, i + 1, described)
        } else if word == "scalar"@ {
            scalar_type(ts, i + 1, described)
        } else if word == "input"@ {
            input_type(ts, i + 1, described)
        } else {
            fail(SpecParseError::BadValue, i + 1)
        },
        Ok(token) => fail(
            SpecParseError::UnexpectedToken {
                expected: TokenKind::Name.text(),
                received: token.kind().text(),
            },
            i + 1,
        ),
    }
}

/// A root operation of a schema: the name of the operation, a colon and the
/// name of a type.
pub open spec fn operation_type(ts: Seq<SpecItem>, i: int) -> Parsed<SpecOperationType> {
    let word = name(ts, i);
    if word.failed() {
        word.cast()
    } else {
        match operation_of(word.value()) {
            None => fail(SpecParseError::BadValue, word.next),
            Some(operation) => {
                let colon = expect(ts, word.next, TokenKind::Colon);
                if colon.failed() {
                    colon.cast()
                } else {
                    let named = name(ts, colon.next);
                    if named.failed() {
                        named.cast()
                    } else {
                        done(SpecOperationType { operation, node_type: named.value() }, named.next)
                    }
                }
            },
        }
    }
}

/// Root operations up to the closing brace; there may be none.
pub open spec fn operation_type_list(ts: Seq<SpecItem>, i: int) -> Parsed<Seq<SpecOperationType>>
    decreases left(ts, i),
{
    if accepts(ts, i, TokenKind::CloseBrace) {
        done(Seq::empty(), i + 1)
    } else {
        let first = operation_type(ts, i);
        if first.failed() {
            first.cast()
        } else if in_stream(ts, i) && first.next > i {
            after(seq![first.value()], operation_type_list(ts, first.next))
        } else {
            stuck(first.next)
        }
    }
}

/// A schema, from behind the word `schema` on.
pub open spec fn schema(ts: Seq<SpecItem>, i: int, described: SpecDescription) -> Parsed<
    SpecDefinition,
> {
    let directed = directives(ts, i);
    if directed.failed() {
        directed.cast()
    } else {
        let open = expect(ts, directed.next, TokenKind::OpenBrace);
        if open.failed() {
            open.cast()
        } else {
            let body = operation_type_list(ts, open.next);
            if body.failed() {
                body.cast()
            } else {
                done(
                    SpecDefinition::Schema {
                        description: described,
                        directives: directed.value(),
                        operations: body.value(),
                    },
                    body.next,
                )
            }
        }
    }
}

/// The extension of an object type, from behind the words `extend type` on.
/// Its fields may be left out, braces and all.
pub open spec fn object_extension(ts: Seq<SpecItem>, i: int, described: SpecDescription) -> Parsed<
    SpecDefinition,
> {
    let named = name(ts, i);
    if named.failed() {
        named.cast()
    } else {
        let implemented = interfaces(ts, named.next);
        if implemented.failed() {
            implemented.cast()
        } else {
            let directed = directives(ts, implemented.next);
            if directed.failed() {
                directed.cast()
            } else if !accepts(ts, directed.next, TokenKind::OpenBrace) {
                done(
                    SpecDefinition::ObjectExtension {
                        description: described,
                        name: named.value(),
                        interfaces: implemented.value(),
                        directives: directed.value(),
                        fields: None,
                    },
                    directed.next,
                )
            } else {
                let body = fields(ts, directed.next);
                if body.failed() {
                    body.cast()
                } else {
                    done(
                        SpecDefinition::ObjectExtension {
                            description: described,
                            name: named.value(),
                            interfaces: implemented.value(),
                            directives: directed.value(),
                            fields: Some(body.value()),
                        },
                        body.next,
                    )
                }
            }
        }
    }
}

/// An extension, from behind the word `extend` on. Object types are what
/// can be extended.
pub open spec fn extension(ts: Seq<SpecItem>, i: int, described: SpecDescription) -> Parsed<
    SpecDefinition,
> {
    match item_at(ts, i) {
        Err(error) => fail(SpecParseError::LexError(error), i + 1),
        Ok(SpecToken::Name(_, word)) => if word == "type"@ {
            object_extension(ts, i + 1, described)
        } else {
            fail(SpecParseError::BadValue, i + 1)
        },
        Ok(token) => fail(
            SpecParseError::UnexpectedToken {
                expected: TokenKind::Name.text(),
                received: token.kind().text(),
            },
            i + 1,
        ),
    }
}

/// The definition of a variable: a dollar sign, a name, a colon, a type, and
/// a default value or none.
pub open spec fn variable_definition(ts: Seq<SpecItem>, i: int) -> Parsed<SpecVariable> {
    let dollar = expect(ts, i, TokenKind::Dollar);
    if dollar.failed() {
        dollar.cast()
    } else {
        let named = name(ts, dollar.next);
        if named.failed() {
            named.cast()
        } else {
            let colon = expect(ts, named.next, TokenKind::Colon);
            if colon.failed() {
                colon.cast()
            } else {
                let typed = field_type(ts, colon.next);
                if typed.failed() {
                    typed.cast()
                } else {
                    let default = default_value(ts, typed.next);
                    if default.failed() {
                        default.cast()
                    } else {
                        done(
                            SpecVariable {
                                variable: named.value(),
                                variable_type: typed.value(),
                                default_value: default.value(),
                            },
                            default.next,
                        )
                    }
                }
            }
        }
    }
}

/// One variable definition or more, up to the closing parenthesis.
pub open spec fn variable_list(ts: Seq<SpecItem>, i: int) -> Parsed<Seq<SpecVariable>>
    decreases left(ts, i),
{
    let first = variable_definition(ts, i);
    if first.failed() {
        first.cast()
    } else if accepts(ts, first.next, TokenKind::CloseParen) {
        done(seq![first.value()], first.next + 1)
    } else if in_stream(ts, i) && first.next > i {
        after(seq![first.value()], variable_list(ts, first.next))
    } else {
        stuck(first.next)
    }
}

/// The variables of an operation, between parentheses; nothing where no
/// parenthesis opens. Parentheses with nothing between them are an error.
pub open spec fn variable_definitions(ts: Seq<SpecItem>, i: int) -> Parsed<
    Option<Seq<SpecVariable>>,
> {
    if !accepts(ts, i, TokenKind::OpenParen) {
        done(None, i)
    } else if accepts(ts, i + 1, TokenKind::CloseParen) {
        fail(SpecParseError::ArgumentEmpty, i + 2)
    } else {
        let list = variable_list(ts, i + 1);
        if list.failed() {
            list.cast()
        } else {
            done(Some(list.value()), list.next)
        }
    }
}

/// A selection set: one selection or more, between braces.
pub open spec fn selection_set(ts: Seq<SpecItem>, i: int) -> Parsed<Seq<SpecSelection>>
    decreases left(ts, i), 0int,
{
    let open = expect(ts, i, TokenKind::OpenBrace);
    if open.failed() {
        open.cast()
    } else {
        selection_list(ts, i + 1)
    }
}

/// One selection or more, up to the closing brace.
pub open spec fn selection_list(ts: Seq<SpecItem>, i: int) -> Parsed<Seq<SpecSelection>>
    decreases left(ts, i), 3int,
{
    let first = selection(ts, i);
    if first.failed() {
        first.cast()
    } else if accepts(ts, first.next, TokenKind::CloseBrace) {
        done(seq![first.value()], first.next + 1)
    } else if in_stream(ts, i) && first.next > i {
        after(seq![first.value()], selection_list(ts, first.next))
    } else {
        stuck(first.next)
    }
}

/// A selection: the spread of a fragment where three dots stand, else a
/// field.
pub open spec fn selection(ts: Seq<SpecItem>, i: int) -> Parsed<SpecSelection>
    decreases left(ts, i), 2int,
{
    if accepts(ts, i, TokenKind::Ellipsis) {
        fragment_spread(ts, i + 1)
    } else {
        field_selection(ts, i)
    }
}

/// The selection of a field: a name, or an alias, a colon and the name;
/// arguments, directives and a selection set, each of which may be left out.
pub open spec fn field_selection(ts: Seq<SpecItem>, i: int) -> Parsed<SpecSelection>
    decreases left(ts, i), 1int,
{
    let first = name(ts, i);
    if first.failed() {
        first.cast()
    } else {
        let second: Parsed<Option<Seq<char>>> = if accepts(ts, first.next, TokenKind::Colon) {
            let named = name(ts, first.next + 1);
            if named.failed() {
                named.cast()
            } else {
                done(Some(named.value()), named.next)
            }
        } else {
            done(None, first.next)
        };
        if second.failed() {
            second.cast()
        } else {
            let given = arguments(ts, second.next);
            if given.failed() {
                given.cast()
            } else {
                let directed = directives(ts, given.next);
                if directed.failed() {
                    directed.cast()
                } else {
                    let below: Parsed<Option<Seq<SpecSelection>>> = if !accepts(
                        ts,
                        directed.next,
                        TokenKind::OpenBrace,
                    ) {
                        done(None, directed.next)
                    } else if in_stream(ts, i) && directed.next > i {
                        let set = selection_set(ts, directed.next);
                        if set.failed() {
                            set.cast()
                        } else {
                            done(Some(set.value()), set.next)
                        }
                    } else {
                        stuck(directed.next)
                    };
                    if below.failed() {
                        below.cast()
                    } else {
                        done(
                            SpecSelection::Field {
                                name: match second.value() {
                                    Some(named) => named,
                                    None => first.value(),
                                },
                                alias: match second.value() {
                                    Some(_) => Some(first.value()),
                                    None => None,
                                },
                                arguments: given.value(),
                                directives: directed.value(),
                                selections: below.value(),
                            },
                            below.next,
                        )
                    }
                }
            }
        }
    }
}

/// The spread of a fragment, from behind the three dots on: inline with a
/// type where the word `on` stands, by its name where another name stands,
/// inline without a type else. An inline fragment has directives, or none,
/// and a selection set.
pub open spec fn fragment_spread(ts: Seq<SpecItem>, i: int) -> Parsed<SpecSelection>
    decreases left(ts, i), 1int,
{
    if accepts(ts, i, TokenKind::Name) && !at_word(ts, i, "on"@) {
        let named = name(ts, i);
        if named.failed() {
            named.cast()
        } else {
            let directed = directives(ts, named.next);
            if directed.failed() {
                directed.cast()
            } else {
                done(
                    SpecSelection::Spread { name: named.value(), directives: directed.value() },
                    directed.next,
                )
            }
        }
    } else {
        let on: Parsed<Option<Seq<char>>> = if at_word(ts, i, "on"@) {
            let named = name(ts, i + 1);
            if named.failed() {
                named.cast()
            } else {
                done(Some(named.value()), named.next)
            }
        } else {
            done(None, i)
        };
        if on.failed() {
            on.cast()
        } else {
            let directed = directives(ts, on.next);
            if directed.failed() {
                directed.cast()
            } else if directed.next < i {
                stuck(directed.next)
            } else {
                let set = selection_set(ts, directed.next);
                if set.failed() {
                    set.cast()
                } else {
                    done(
                        SpecSelection::Inline {
                            node_type: on.value(),
                            directives: directed.value(),
                            selections: set.value(),
                        },
                        set.next,
                    )
                }
            }
        }
    }
}

/// An operation, from behind its keyword on: a name or none, variables or
/// none, and a selection set.
pub open spec fn operation(ts: Seq<SpecItem>, i: int, kind: Operation) -> Parsed<SpecDefinition> {
    let named: Parsed<Option<Seq<char>>> = if accepts(ts, i, TokenKind::Name) {
        let word = name(ts, i);
        if word.failed() {
            word.cast()
        } else {
            done(Some(word.value()), word.next)
        }
    } else {
        done(None, i)
    };
    if named.failed() {
        named.cast()
    } else {
        let declared = variable_definitions(ts, named.next);
        if declared.failed() {
            declared.cast()
        } else {
            let set = selection_set(ts, declared.next);
            if set.failed() {
                set.cast()
            } else {
                done(
                    SpecDefinition::Operation {
                        operation: kind,
                        name: named.value(),
                        variables: declared.value(),
                        selections: set.value(),
                    },
                    set.next,
                )
            }
        }
    }
}

/// A query written as a selection set alone.
pub open spec fn anonymous_query(ts: Seq<SpecItem>, i: int) -> Parsed<SpecDefinition> {
    let set = selection_set(ts, i);
    if set.failed() {
        set.cast()
    } else {
        done(
            SpecDefinition::Operation {
                operation: Operation::Query,
                name: None,
                variables: None,
                selections: set.value(),
            },
            set.next,
        )
    }
}

/// The definition of a fragment, from behind the word `fragment` on: a name,
/// the word `on`, the name of a type, directives or none, and a selection
/// set.
pub open spec fn fragment_definition(ts: Seq<SpecItem>, i: int) -> Parsed<SpecDefinition> {
    let named = name(ts, i);
    if named.failed() {
        named.cast()
    } else {
        let on = name(ts, named.next);
        if on.failed() {
            on.cast()
        } else if on.value() != "on"@ {
            fail(SpecParseError::BadValue, on.next)
        } else {
            let typed = name(ts, on.next);
            if typed.failed() {
                typed.cast()
            } else {
                let directed = directives(ts, typed.next);
                if directed.failed() {
                    directed.cast()
                } else {
                    let set = selection_set(ts, directed.next);
                    if set.failed() {
                        set.cast()
                    } else {
                        done(
                            SpecDefinition::Fragment {
                                name: named.value(),
                                node_type: typed.value(),
                                directives: directed.value(),
                                selections: set.value(),
                            },
                            set.next,
                        )
                    }
                }
            }
        }
    }
}

/// The definition that the name `word` at `i` begins. A description may
/// stand before a definition of the type system only.
pub open spec fn word_definition(
    ts: Seq<SpecItem>,
    i: int,
    word: Seq<char>,
    described: SpecDescription,
) -> Parsed<SpecDefinition> {
    if is_type_word(word) {
        type_definition(ts, i, described)
    } else if word == "schema"@ {
        schema(ts, i + 1, described)
    } else if word == "extend"@ {
        extension(ts, i + 1, described)
    } else if described is Some {
        fail(SpecParseError::BadValue, i)
    } else if operation_of(word) is Some {
        operation(ts, i + 1, operation_of(word)->0)
    } else if word == "fragment"@ {
        fragment_definition(ts, i + 1)
    } else {
        fail(SpecParseError::BadValue, i)
    }
}

/// A definition: a description or none, and what the next token begins; a
/// brace begins a query where no description stands before it.
pub open spec fn definition(ts: Seq<SpecItem>, i: int) -> Parsed<SpecDefinition> {
    let described = description(ts, i);
    if described.failed() {
        described.cast()
    } else {
        match item_at(ts, described.next) {
            Err(error) => fail(SpecParseError::LexError(error), described.next),
            Ok(SpecToken::Name(_, word)) => word_definition(
                ts,
                described.next,
                word,
                described.value(),
            ),
            Ok(token) => if token is OpenBrace && described.value() is None {
                anonymous_query(ts, described.next)
            } else {
                fail(
                    SpecParseError::UnexpectedToken {
                        expected: TokenKind::Name.text(),
                        received: token.kind().text(),
                    },
                    described.next,
                )
            },
        }
    }
}

/// One definition or more, up to the end of the stream.
pub open spec fn definition_list(ts: Seq<SpecItem>, i: int) -> Parsed<Seq<SpecDefinition>>
    decreases left(ts, i),
{
    let first = definition(ts, i);
    if first.failed() {
        first.cast()
    } else if accepts(ts, first.next, TokenKind::End) {
        done(seq![first.value()], first.next + 1)
    } else if in_stream(ts, i) && first.next > i {
        after(seq![first.value()], definition_list(ts, first.next))
    } else {
        stuck(first.next)
    }
}

/// The definitions of a document: `Start`, then one definition or more. A
/// stream that ends right behind `Start` holds no document.
pub open spec fn definitions(ts: Seq<SpecItem>, i: int) -> Parsed<Seq<SpecDefinition>> {
    let start = expect(ts, i, TokenKind::Start);
    if start.failed() {
        start.cast()
    } else if accepts(ts, start.next, TokenKind::End) {
        fail(SpecParseError::DocumentEmpty, start.next + 1)
    } else {
        definition_list(ts, start.next)
    }
}

/// The document that a stream of tokens writes.
pub open spec fn document(ts: Seq<SpecItem>) -> Result<SpecDocument, SpecParseError> {
    match definitions(ts, 0).result {
        Ok(list) => Ok(SpecDocument { definitions: list }),
        Err(error) => Err(error),
    }
}

} // verus!
