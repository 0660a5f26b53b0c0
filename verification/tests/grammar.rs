use gql_syntax::ast::{is_type_word, operation_of, value_of, AST};
use gql_syntax::document::Document;
use gql_syntax::error::{LexErrorKind, ParseError};
use gql_syntax::nodes::object_type_extension::ObjectTypeExtensionNode;
use gql_syntax::nodes::{
    Argument, BooleanValueNode, DefinitionNode, DirectiveNode, EnumTypeDefinitionNode,
    EnumValueDefinitionNode, EnumValueNode, ExecutableDefinitionNode, FieldDefinitionNode,
    FieldNode, FloatValueNode, FragmentSpread, InlineFragmentSpreadNode,
    InputValueDefinitionNode, IntValueNode, ListTypeNode, MutationDefinitionNode, NameNode,
    Operation,
    NamedTypeNode, ObjectTypeDefinitionNode, OperationTypeNode, QueryDefinitionNode,
    ScalarTypeDefinitionNode, Selection, StringValueNode, SubscriptionDefinitionNode,
    TypeDefinitionNode, TypeNode, TypeSystemDefinitionNode, TypeSystemExtensionNode,
    UnionTypeDefinitionNode, ValueNode, VariableNode,
};
use gql_syntax::parse;
use gql_syntax::token::{Location, Token};

fn named(name: &str) -> TypeNode {
    TypeNode::Named(NamedTypeNode::from(name))
}

fn list(inner: TypeNode) -> TypeNode {
    TypeNode::List(ListTypeNode::new(inner))
}

fn non_null(inner: TypeNode) -> TypeNode {
    TypeNode::NonNull(Box::new(inner))
}

fn type_of(text: &str) -> Result<TypeNode, ParseError> {
    let mut ast = AST::new(text).unwrap();
    ast.expect_token(Token::Start).unwrap();
    ast.parse_field_type()
}

fn object(definition: DefinitionNode) -> ObjectTypeDefinitionNode {
    match definition {
        DefinitionNode::TypeSystem(TypeSystemDefinitionNode::Type(TypeDefinitionNode::Object(
            node,
        ))) => node,
        other => panic!("not an object type: {:?}", other),
    }
}

fn only_object(text: &str) -> ObjectTypeDefinitionNode {
    let mut document = parse(text).unwrap();
    assert_eq!(document.definitions.len(), 1);
    object(document.definitions.remove(0))
}

fn plain_field(name: &str, field_type: TypeNode) -> FieldDefinitionNode {
    FieldDefinitionNode { description: None, name: NameNode::from(name), arguments: None, field_type }
}

fn plain_argument(name: &str, input_type: TypeNode) -> InputValueDefinitionNode {
    InputValueDefinitionNode {
        description: None,
        name: NameNode::from(name),
        input_type,
        default_value: None,
        directives: None,
    }
}

fn unexpected(expected: &str, received: &str) -> ParseError {
    ParseError::UnexpectedToken {
        expected: String::from(expected),
        received: String::from(received),
    }
}

fn at(line: usize, column: usize, offset: usize) -> Location {
    Location { line, column, offset }
}

#[test]
fn text_without_a_token_is_no_document() {
    assert_eq!(parse(""), Err(ParseError::DocumentEmpty));
    assert_eq!(parse(" \t\r\n,,  \n"), Err(ParseError::DocumentEmpty));
    assert_eq!(parse("# nothing here"), Err(ParseError::DocumentEmpty));
    assert_eq!(parse("\n# one\n  # two, three\n\n"), Err(ParseError::DocumentEmpty));
}

#[test]
fn brackets_and_marks_compose() {
    assert_eq!(type_of("T"), Ok(named("T")));
    assert_eq!(type_of("T!"), Ok(non_null(named("T"))));
    assert_eq!(type_of("[T]"), Ok(list(named("T"))));
    assert_eq!(type_of("[T]!"), Ok(non_null(list(named("T")))));
    assert_eq!(type_of("[T!]"), Ok(list(non_null(named("T")))));
    assert_eq!(type_of("[T!]!"), Ok(non_null(list(non_null(named("T"))))));
    assert_eq!(type_of("[[T]!]"), Ok(list(non_null(list(named("T"))))));
    assert_eq!(type_of("[ [ Int ! ] ] !"), Ok(non_null(list(list(non_null(named("Int")))))));
}

#[test]
fn a_type_that_does_not_close_is_an_error() {
    assert_eq!(type_of("[T"), Err(unexpected("Token<]>", "Token<End>")));
    assert_eq!(type_of("[T}"), Err(unexpected("Token<]>", "Token<}>")));
    assert_eq!(type_of("[]"), Err(unexpected("Token<Name>", "Token<]>")));
    assert_eq!(type_of("!"), Err(unexpected("Token<Name>", "Token<!>")));
    assert_eq!(type_of("[\"a"), Err(ParseError::LexError(LexErrorKind::UnterminatedString(at(1, 2, 1)))));
}

#[test]
fn an_object_with_a_non_null_field() {
    assert_eq!(
        parse("type Obj { id: Int! }"),
        Ok(Document {
            definitions: vec![DefinitionNode::TypeSystem(TypeSystemDefinitionNode::Type(
                TypeDefinitionNode::Object(ObjectTypeDefinitionNode {
                    description: None,
                    name: NameNode::from("Obj"),
                    interfaces: None,
                    directives: None,
                    fields: vec![plain_field("id", non_null(named("Int")))],
                })
            ))]
        })
    );
}

#[test]
fn an_enum_of_three_values() {
    let value = |name: &str| EnumValueDefinitionNode {
        description: None,
        name: NameNode::from(name),
        directives: None,
    };
    assert_eq!(
        parse("enum Color { RED GREEN BLUE }"),
        Ok(Document {
            definitions: vec![DefinitionNode::TypeSystem(TypeSystemDefinitionNode::Type(
                TypeDefinitionNode::Enum(EnumTypeDefinitionNode {
                    description: None,
                    name: NameNode::from("Color"),
                    directives: None,
                    values: vec![value("RED"), value("GREEN"), value("BLUE")],
                })
            ))]
        })
    );
}

#[test]
fn a_union_of_two_members() {
    assert_eq!(
        parse("union Pic = Gif | Jpeg"),
        Ok(Document {
            definitions: vec![DefinitionNode::TypeSystem(TypeSystemDefinitionNode::Type(
                TypeDefinitionNode::Union(UnionTypeDefinitionNode {
                    description: None,
                    name: NameNode::from("Pic"),
                    directives: None,
                    types: vec![NamedTypeNode::from("Gif"), NamedTypeNode::from("Jpeg")],
                })
            ))]
        })
    );
}

#[test]
fn a_union_may_have_directives_and_no_members() {
    assert_eq!(
        parse("union Empty @later"),
        Ok(Document {
            definitions: vec![DefinitionNode::TypeSystem(TypeSystemDefinitionNode::Type(
                TypeDefinitionNode::Union(UnionTypeDefinitionNode {
                    description: None,
                    name: NameNode::from("Empty"),
                    directives: Some(vec![DirectiveNode {
                        name: NameNode::from("later"),
                        arguments: None
                    }]),
                    types: vec![],
                })
            ))]
        })
    );
}

#[test]
fn a_query_without_a_keyword() {
    assert_eq!(
        parse("{ user { name } }"),
        Ok(Document {
            definitions: vec![DefinitionNode::Executable(ExecutableDefinitionNode::Operation(
                OperationTypeNode::Query(QueryDefinitionNode {
                    name: None,
                    variables: None,
                    selections: vec![Selection::Field(FieldNode {
                        name: NameNode::from("user"),
                        alias: None,
                        arguments: None,
                        directives: None,
                        selections: Some(vec![Selection::Field(FieldNode::from("name"))]),
                    })],
                })
            ))]
        })
    );
}

#[test]
fn an_argument_with_a_default_value() {
    let node = only_object("type Obj { arg(a: Int = 1): Bool }");
    assert_eq!(
        node.fields,
        vec![FieldDefinitionNode {
            description: None,
            name: NameNode::from("arg"),
            arguments: Some(vec![InputValueDefinitionNode {
                description: None,
                name: NameNode::from("a"),
                input_type: named("Int"),
                default_value: Some(ValueNode::Int(IntValueNode { value: 1 })),
                directives: None,
            }]),
            field_type: named("Bool"),
        }]
    );
}

#[test]
fn an_object_may_have_no_fields() {
    let node = only_object("type Obj {}");
    assert_eq!(node.name, NameNode::from("Obj"));
    assert_eq!(node.fields, vec![]);
}

#[test]
fn arguments_keep_their_number_and_their_order() {
    let node = only_object(
        "type Obj { f(a: Int, b: [String!]! = \"x\", c: Color = RED, d: Boolean = true, e: Float = -1.5e3, g: ID = null): Int }",
    );
    let arguments = node.fields[0].arguments.as_ref().unwrap();
    assert_eq!(arguments.len(), 6);
    assert_eq!(arguments[0], plain_argument("a", named("Int")));
    assert_eq!(
        arguments[1],
        InputValueDefinitionNode {
            default_value: Some(ValueNode::Str(StringValueNode::from("x", false))),
            ..plain_argument("b", non_null(list(non_null(named("String")))))
        }
    );
    assert_eq!(
        arguments[2],
        InputValueDefinitionNode {
            default_value: Some(ValueNode::Enum(EnumValueNode { value: String::from("RED") })),
            ..plain_argument("c", named("Color"))
        }
    );
    assert_eq!(
        arguments[3],
        InputValueDefinitionNode {
            default_value: Some(ValueNode::Bool(BooleanValueNode { value: true })),
            ..plain_argument("d", named("Boolean"))
        }
    );
    assert_eq!(
        arguments[4],
        InputValueDefinitionNode {
            default_value: Some(ValueNode::Float(FloatValueNode {
                value: String::from("-1.5e3")
            })),
            ..plain_argument("e", named("Float"))
        }
    );
    assert_eq!(
        arguments[5],
        InputValueDefinitionNode {
            default_value: Some(ValueNode::Null),
            ..plain_argument("g", named("ID"))
        }
    );
}

#[test]
fn one_argument_is_a_list_of_one() {
    let node = only_object("type Obj { f(only: Int): Int }");
    assert_eq!(node.fields[0].arguments, Some(vec![plain_argument("only", named("Int"))]));
}

#[test]
fn an_argument_may_have_a_description_and_directives() {
    let node = only_object("type Obj { f(\"the first\" a: Int = 3 @range(min: 0), b: Int): Int }");
    assert_eq!(
        node.fields[0].arguments,
        Some(vec![
            InputValueDefinitionNode {
                description: Some(StringValueNode::from("the first", false)),
                name: NameNode::from("a"),
                input_type: named("Int"),
                default_value: Some(ValueNode::Int(IntValueNode { value: 3 })),
                directives: Some(vec![DirectiveNode {
                    name: NameNode::from("range"),
                    arguments: Some(vec![Argument {
                        name: NameNode::from("min"),
                        value: ValueNode::Int(IntValueNode { value: 0 }),
                    }]),
                }]),
            },
            plain_argument("b", named("Int")),
        ])
    );
}

#[test]
fn a_string_before_a_definition_describes_it() {
    let document = parse("\"An object\" type Obj { id: ID } \"\"\"A date\"\"\" scalar Date").unwrap();
    assert_eq!(
        document,
        Document {
            definitions: vec![
                DefinitionNode::TypeSystem(TypeSystemDefinitionNode::Type(
                    TypeDefinitionNode::Object(ObjectTypeDefinitionNode {
                        description: Some(StringValueNode::from("An object", false)),
                        name: NameNode::from("Obj"),
                        interfaces: None,
                        directives: None,
                        fields: vec![plain_field("id", named("ID"))],
                    })
                )),
                DefinitionNode::TypeSystem(TypeSystemDefinitionNode::Type(
                    TypeDefinitionNode::Scalar(ScalarTypeDefinitionNode {
                        description: Some(StringValueNode::from("A date", true)),
                        name: NameNode::from("Date"),
                        directives: None,
                    })
                )),
            ]
        }
    );
}

#[test]
fn a_string_before_a_field_or_an_enum_value_describes_it() {
    let node = only_object("type Obj { \"its key\" id: ID, plain: Int }");
    assert_eq!(
        node.fields,
        vec![
            FieldDefinitionNode {
                description: Some(StringValueNode::from("its key", false)),
                ..plain_field("id", named("ID"))
            },
            plain_field("plain", named("Int")),
        ]
    );
    assert_eq!(
        parse("enum E { \"\"\"  the first\n  of two \"\"\" A @old B }"),
        Ok(Document {
            definitions: vec![DefinitionNode::TypeSystem(TypeSystemDefinitionNode::Type(
                TypeDefinitionNode::Enum(EnumTypeDefinitionNode {
                    description: None,
                    name: NameNode::from("E"),
                    directives: None,
                    values: vec![
                        EnumValueDefinitionNode {
                            description: Some(StringValueNode::from("  the first\nof two ", true)),
                            name: NameNode::from("A"),
                            directives: Some(vec![DirectiveNode {
                                name: NameNode::from("old"),
                                arguments: None
                            }]),
                        },
                        EnumValueDefinitionNode {
                            description: None,
                            name: NameNode::from("B"),
                            directives: None,
                        },
                    ],
                })
            ))]
        })
    );
}

#[test]
fn a_block_description_loses_its_indentation() {
    let node = only_object(
        "\"\"\"\n    An object\n      with a key\n\n    and no more\n  \"\"\"\ntype Obj { id: ID }",
    );
    assert_eq!(
        node.description,
        Some(StringValueNode::from("An object\n  with a key\n\nand no more", true))
    );
}

#[test]
fn a_description_goes_with_the_type_system_only() {
    assert_eq!(parse("\"no\" query Q { a }"), Err(ParseError::BadValue));
    assert_eq!(parse("\"no\" fragment F on T { a }"), Err(ParseError::BadValue));
    assert_eq!(parse("\"no\" { a }"), Err(unexpected("Token<Name>", "Token<{>")));
    assert_eq!(parse("\"one\" \"two\" type T {}"), Err(unexpected("Token<Name>", "Token<Str>")));
    assert_eq!(parse("\"alone\""), Err(unexpected("Token<Name>", "Token<End>")));
}

#[test]
fn a_string_token_makes_a_string_node() {
    assert_eq!(
        StringValueNode::new(Token::Str(Location::ignored(), String::from("  a\n  b"))),
        Ok(StringValueNode::from("  a\n  b", false))
    );
    assert_eq!(
        StringValueNode::new(Token::BlockStr(Location::ignored(), String::from("\n  a\n    b\n"))),
        Ok(StringValueNode::from("a\n  b", true))
    );
    assert_eq!(
        StringValueNode::new(Token::Name(Location::ignored(), String::from("a"))),
        Err(unexpected("Token<Str>", "Token<Name>"))
    );
    assert_eq!(
        StringValueNode::from_token(Token::BlockStr(Location::ignored(), String::from("a\n  b"))),
        Ok(StringValueNode::from("a\n  b", true))
    );
    assert_eq!(
        StringValueNode::from_token(Token::Str(Location::ignored(), String::from("a"))),
        Ok(StringValueNode::from("a", false))
    );
    assert_eq!(
        StringValueNode::from_token(Token::End),
        Err(unexpected("Token<Str>", "Token<End>"))
    );
}

#[test]
fn a_name_token_makes_a_name() {
    assert_eq!(
        NameNode::new(Token::Name(Location::ignored(), String::from("a"))),
        Ok(NameNode::from("a"))
    );
    assert_eq!(
        NameNode::new(Token::Int(Location::ignored(), 1)),
        Err(unexpected("Token<Name>", "Token<Int>"))
    );
    assert_eq!(
        NamedTypeNode::new(Token::Name(Location::ignored(), String::from("T"))),
        Ok(NamedTypeNode::from("T"))
    );
    assert_eq!(
        NamedTypeNode::new(Token::Colon(Location::ignored())),
        Err(unexpected("Token<Name>", "Token<:>"))
    );
    assert_eq!(VariableNode::from("v").name, NameNode::from("v"));
    assert_eq!(NameNode::from("a").value, "a");
}

#[test]
fn parentheses_need_an_argument() {
    assert_eq!(parse("type Obj { name(): Int }"), Err(ParseError::ArgumentEmpty));
    assert_eq!(parse("type Obj @a() { name: Int }"), Err(ParseError::ArgumentEmpty));
    assert_eq!(parse("{ name() }"), Err(ParseError::ArgumentEmpty));
    assert_eq!(parse("query Q() { name }"), Err(ParseError::ArgumentEmpty));
    let node = only_object("type Obj { name: Int }");
    assert_eq!(node.fields[0].arguments, None);
}

#[test]
fn an_unknown_word_is_a_bad_value() {
    assert_eq!(parse("typo Obj { id: ID }"), Err(ParseError::BadValue));
    assert_eq!(parse("type Obj { id: ID } implements"), Err(ParseError::BadValue));
    assert_eq!(parse("extend scalar Date @a"), Err(ParseError::BadValue));
    assert_eq!(parse("schema { other: T }"), Err(ParseError::BadValue));
    assert_eq!(parse("fragment F of T { a }"), Err(ParseError::BadValue));
    assert_eq!(parse("{ a(b: [1]) }"), Err(ParseError::BadValue));
    assert_eq!(parse("{ a(b: {c: 1}) }"), Err(ParseError::BadValue));
}

#[test]
fn a_token_of_the_wrong_category_is_unexpected() {
    assert_eq!(parse("type { id: ID }"), Err(unexpected("Token<Name>", "Token<{>")));
    assert_eq!(parse("type Obj"), Err(unexpected("Token<{>", "Token<End>")));
    assert_eq!(parse("type Obj { id ID }"), Err(unexpected("Token<:>", "Token<Name>")));
    assert_eq!(parse("type Obj { id: ID"), Err(unexpected("Token<Name>", "Token<End>")));
    assert_eq!(parse("42"), Err(unexpected("Token<Name>", "Token<Int>")));
    assert_eq!(parse("}"), Err(unexpected("Token<Name>", "Token<}>")));
    assert_eq!(parse("{ }"), Err(unexpected("Token<Name>", "Token<}>")));
    assert_eq!(parse("{ a: }"), Err(unexpected("Token<Name>", "Token<}>")));
    assert_eq!(parse("{ ... }"), Err(unexpected("Token<{>", "Token<}>")));
    assert_eq!(parse("extend 1"), Err(unexpected("Token<Name>", "Token<Int>")));
    assert_eq!(parse("union U = "), Err(unexpected("Token<Name>", "Token<End>")));
    assert_eq!(parse("query ($a Int) { b }"), Err(unexpected("Token<:>", "Token<Name>")));
    assert_eq!(parse("query (a: Int) { b }"), Err(unexpected("Token<$>", "Token<Name>")));
}

#[test]
fn a_lexical_error_ends_the_parse() {
    assert_eq!(
        parse("type Obj { id: ID ^ }"),
        Err(ParseError::LexError(LexErrorKind::UnexpectedCharacter(at(1, 19, 18))))
    );
    assert_eq!(
        parse("\"open"),
        Err(ParseError::LexError(LexErrorKind::UnterminatedString(at(1, 1, 0))))
    );
    assert_eq!(
        parse("type Obj {\n  \"\"\"open"),
        Err(ParseError::LexError(LexErrorKind::UnterminatedBlockString(at(2, 3, 13))))
    );
    assert_eq!(
        parse("{ a(b: \"c\\d\") }"),
        Err(ParseError::LexError(LexErrorKind::InvalidEscape(at(1, 10, 9))))
    );
    assert_eq!(
        parse("type Obj { f(a: Int = 01): Int }"),
        Err(ParseError::LexError(LexErrorKind::MalformedNumber(at(1, 23, 22))))
    );
    assert_eq!(
        parse("type Obj { id: ID } ?"),
        Err(ParseError::LexError(LexErrorKind::UnexpectedCharacter(at(1, 21, 20))))
    );
    assert_eq!(parse("?"), Err(ParseError::LexError(LexErrorKind::UnexpectedCharacter(at(1, 1, 0)))));
}

#[test]
fn a_default_value_that_is_no_literal_is_left_alone() {
    assert_eq!(
        parse("type Obj { f(a: Int = $b): Int }"),
        Err(unexpected("Token<Name>", "Token<$>"))
    );
    assert_eq!(
        parse("type Obj { f(a: Int = [1]): Int }"),
        Err(unexpected("Token<Name>", "Token<[>"))
    );
    assert_eq!(
        parse("type Obj { f(a: Int = {b: 1}): Int }"),
        Err(unexpected("Token<Name>", "Token<{>"))
    );
    let node = only_object("type Obj { f(a: Int = ): Int }");
    assert_eq!(node.fields[0].arguments, Some(vec![plain_argument("a", named("Int"))]));
}

#[test]
fn a_mutation_and_a_subscription() {
    assert_eq!(
        parse("mutation Add($n: Int! = 1) { add(n: $n) } subscription { ticks }"),
        Ok(Document {
            definitions: vec![
                DefinitionNode::Executable(ExecutableDefinitionNode::Operation(
                    OperationTypeNode::Mutation(MutationDefinitionNode {
                        name: Some(NameNode::from("Add")),
                        variables: Some(vec![gql_syntax::nodes::VariableDefinitionNode {
                            variable: VariableNode::from("n"),
                            variable_type: non_null(named("Int")),
                            default_value: Some(ValueNode::Int(IntValueNode { value: 1 })),
                        }]),
                        selections: vec![Selection::Field(FieldNode {
                            name: NameNode::from("add"),
                            alias: None,
                            arguments: Some(vec![Argument {
                                name: NameNode::from("n"),
                                value: ValueNode::Variable(VariableNode::from("n")),
                            }]),
                            directives: None,
                            selections: None,
                        })],
                    })
                )),
                DefinitionNode::Executable(ExecutableDefinitionNode::Operation(
                    OperationTypeNode::Subscription(SubscriptionDefinitionNode {
                        name: None,
                        variables: None,
                        selections: vec![Selection::Field(FieldNode::from("ticks"))],
                    })
                )),
            ]
        })
    );
}

#[test]
fn values_of_every_kind_in_a_call() {
    let document = parse(
        "{ f(a: 1, b: -2.5, c: \"s\", d: \"\"\"t\"\"\", e: true, g: false, h: null, i: RED, j: $v) }",
    )
    .unwrap();
    let argument =
        |name: &str, value: ValueNode| Argument { name: NameNode::from(name), value };
    assert_eq!(
        document,
        Document {
            definitions: vec![DefinitionNode::Executable(ExecutableDefinitionNode::Operation(
                OperationTypeNode::Query(QueryDefinitionNode {
                    name: None,
                    variables: None,
                    selections: vec![Selection::Field(FieldNode {
                        name: NameNode::from("f"),
                        alias: None,
                        arguments: Some(vec![
                            argument("a", ValueNode::Int(IntValueNode { value: 1 })),
                            argument(
                                "b",
                                ValueNode::Float(FloatValueNode { value: String::from("-2.5") })
                            ),
                            argument("c", ValueNode::Str(StringValueNode::from("s", false))),
                            argument("d", ValueNode::Str(StringValueNode::from("t", true))),
                            argument("e", ValueNode::Bool(BooleanValueNode { value: true })),
                            argument("g", ValueNode::Bool(BooleanValueNode { value: false })),
                            argument("h", ValueNode::Null),
                            argument(
                                "i",
                                ValueNode::Enum(EnumValueNode { value: String::from("RED") })
                            ),
                            argument("j", ValueNode::Variable(VariableNode::from("v"))),
                        ]),
                        directives: None,
                        selections: None,
                    })],
                })
            ))]
        }
    );
}

#[test]
fn an_inline_fragment_on_a_type_named_like_a_keyword() {
    assert_eq!(
        parse("{ ... on on { type } ...query }"),
        Ok(Document {
            definitions: vec![DefinitionNode::Executable(ExecutableDefinitionNode::Operation(
                OperationTypeNode::Query(QueryDefinitionNode {
                    name: None,
                    variables: None,
                    selections: vec![
                        Selection::Fragment(FragmentSpread::Inline(InlineFragmentSpreadNode {
                            node_type: Some(NamedTypeNode::from("on")),
                            directives: None,
                            selections: vec![Selection::Field(FieldNode::from("type"))],
                        })),
                        Selection::Fragment(FragmentSpread::Node(
                            gql_syntax::nodes::FragmentSpreadNode::from("query")
                        )),
                    ],
                })
            ))]
        })
    );
}

#[test]
fn an_extension_with_a_description_and_fields() {
    assert_eq!(
        parse("\"more\" extend type Obj { extra: Int }"),
        Ok(Document {
            definitions: vec![DefinitionNode::Extension(TypeSystemExtensionNode::Object(
                ObjectTypeExtensionNode {
                    description: Some(StringValueNode::from("more", false)),
                    name: NameNode::from("Obj"),
                    interfaces: None,
                    directives: None,
                    fields: Some(vec![plain_field("extra", named("Int"))]),
                }
            ))]
        })
    );
}

#[test]
fn interfaces_may_begin_with_an_ampersand() {
    let node = only_object("type Obj implements & A & B { id: ID }");
    assert_eq!(node.interfaces, Some(vec![NamedTypeNode::from("A"), NamedTypeNode::from("B")]));
    assert_eq!(
        parse("type Obj implements { id: ID }"),
        Err(unexpected("Token<Name>", "Token<{>"))
    );
}

#[test]
fn the_parser_reads_token_by_token() {
    let mut ast = AST::new("a : 1").unwrap();
    assert_eq!(ast.unwrap_peeked_token(), Ok(&Token::Start));
    assert_eq!(ast.unwrap_next_token(), Ok(Token::Start));
    assert_eq!(ast.expect_optional_token(&Token::Colon(Location::ignored())), None);
    assert_eq!(
        ast.expect_optional_token(&Token::Name(Location::ignored(), String::new())),
        Some(Token::Name(at(1, 1, 0), String::from("a")))
    );
    assert_eq!(ast.expect_token(Token::Colon(Location::ignored())), Ok(Token::Colon(at(1, 3, 2))));
    assert_eq!(ast.unwrap_peeked_token(), Ok(&Token::Int(at(1, 5, 4), 1)));
    assert_eq!(
        ast.expect_token(Token::Name(Location::ignored(), String::new())),
        Err(unexpected("Token<Name>", "Token<Int>"))
    );
    assert_eq!(ast.unwrap_next_token(), Ok(Token::End));
    assert_eq!(ast.unwrap_next_token(), Ok(Token::End));
    assert_eq!(
        ast.parse_error(String::from("a name"), Token::Bang(Location::ignored())),
        unexpected("a name", "Token<!>")
    );
}

#[test]
fn the_parser_hands_a_lexical_error_on() {
    let mut ast = AST::new("^ a").unwrap();
    ast.expect_token(Token::Start).unwrap();
    let error = ParseError::LexError(LexErrorKind::UnexpectedCharacter(at(1, 1, 0)));
    assert_eq!(ast.expect_optional_token(&Token::Name(Location::ignored(), String::new())), None);
    assert_eq!(ast.unwrap_peeked_token(), Err(ParseError::LexError(LexErrorKind::UnexpectedCharacter(at(1, 1, 0)))));
    assert_eq!(ast.parse_description(), Err(ParseError::LexError(LexErrorKind::UnexpectedCharacter(at(1, 1, 0)))));
    assert_eq!(ast.unwrap_next_token(), Err(error));
    assert_eq!(ast.unwrap_next_token(), Ok(Token::Name(at(1, 3, 2), String::from("a"))));
}

#[test]
fn a_parser_parses_what_lies_before_it() {
    let mut ast = AST::new("scalar Date").unwrap();
    assert_eq!(
        ast.parse(),
        Ok(Document {
            definitions: vec![DefinitionNode::TypeSystem(TypeSystemDefinitionNode::Type(
                TypeDefinitionNode::Scalar(ScalarTypeDefinitionNode {
                    description: None,
                    name: NameNode::from("Date"),
                    directives: None,
                })
            ))]
        })
    );
    assert_eq!(Document::new(vec![]), Document { definitions: vec![] });
}

#[test]
fn a_parser_is_shown_by_its_name() {
    let ast = AST::new("anything").unwrap();
    assert_eq!(ast.to_string(), "AST");
}

#[test]
fn words_have_their_meaning_by_their_text() {
    assert!(is_type_word("type"));
    assert!(is_type_word("interface"));
    assert!(is_type_word("union"));
    assert!(is_type_word("enum"));
    assert!(is_type_word("scalar"));
    assert!(is_type_word("input"));
    assert!(!is_type_word("schema"));
    assert!(!is_type_word("Type"));
    assert!(!is_type_word("types"));
    assert!(!is_type_word(""));
    assert_eq!(operation_of("query"), Some(Operation::Query));
    assert_eq!(operation_of("mutation"), Some(Operation::Mutation));
    assert_eq!(operation_of("subscription"), Some(Operation::Subscription));
    assert_eq!(operation_of("Query"), None);
    assert_eq!(operation_of("fragment"), None);
}

#[test]
fn tokens_write_values() {
    let name = |text: &str| Token::Name(Location::ignored(), String::from(text));
    assert_eq!(value_of(name("true")), Some(ValueNode::Bool(BooleanValueNode { value: true })));
    assert_eq!(value_of(name("false")), Some(ValueNode::Bool(BooleanValueNode { value: false })));
    assert_eq!(value_of(name("null")), Some(ValueNode::Null));
    assert_eq!(
        value_of(name("True")),
        Some(ValueNode::Enum(EnumValueNode { value: String::from("True") }))
    );
    assert_eq!(
        value_of(Token::Int(Location::ignored(), -7)),
        Some(ValueNode::Int(IntValueNode { value: -7 }))
    );
    assert_eq!(
        value_of(Token::Float(Location::ignored(), String::from("2.5"))),
        Some(ValueNode::Float(FloatValueNode { value: String::from("2.5") }))
    );
    assert_eq!(
        value_of(Token::Str(Location::ignored(), String::from("s"))),
        Some(ValueNode::Str(StringValueNode::from("s", false)))
    );
    assert_eq!(
        value_of(Token::BlockStr(Location::ignored(), String::from("b"))),
        Some(ValueNode::Str(StringValueNode::from("b", true)))
    );
    assert_eq!(value_of(Token::Dollar(Location::ignored())), None);
    assert_eq!(value_of(Token::OpenSquare(Location::ignored())), None);
    assert_eq!(value_of(Token::OpenBrace(Location::ignored())), None);
    assert_eq!(value_of(Token::End), None);
}

#[test]
fn a_text_cut_short_ends_in_an_unexpected_end() {
    let text = "\"d\" type A implements B & C @e(f: 1) { g(h: [I!]! = 2): J } { k: l(m: $n) { ...o ... on P { q } } } union R = | S | T";
    let chars: Vec<char> = text.chars().collect();
    for cut in 0..chars.len() {
        let prefix: String = chars[..cut].iter().collect();
        let result = parse(&prefix);
        assert_ne!(result, Err(ParseError::EOF));
        assert!(result.is_err() || cut >= 59);
    }
    assert!(parse(text).is_ok());
    assert_eq!(parse("type A {"), Err(unexpected("Token<Name>", "Token<End>")));
    assert_eq!(parse("{ a("), Err(unexpected("Token<Name>", "Token<End>")));
    assert_eq!(parse("{ a"), Err(unexpected("Token<Name>", "Token<End>")));
}
