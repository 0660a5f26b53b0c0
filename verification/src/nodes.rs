//! The nodes of the syntax tree. Every node owns its children.

use vstd::prelude::*;
use crate::error::{ParseError, ParseResult, SpecParseError};
use crate::block_string::block_string_value;
use crate::block_string::block_value;
use crate::model::{
    opt_list_view, opt_view, views, SpecArgument, SpecDefinition, SpecDirective, SpecEnumValue,
    SpecField, SpecInputValue, SpecOperationType, SpecSelection, SpecString, SpecType,
    SpecValue, SpecVariable,
};
use crate::nodes::object_type_extension::ObjectTypeExtensionNode;
use crate::text::{text_of, to_chars};
use crate::token::{SpecToken, Token, TokenKind};

pub mod object_type_extension;

verus! {

#[derive(Debug, PartialEq)]
pub struct NameNode {
    pub value: String,
}

impl View for NameNode {
    type V = Seq<char>;

    open spec fn view(&self) -> Seq<char> {
        self.value@
    }
}

/// What a token that should be a name gives: its text, or the error that
/// says which token stood there.
pub open spec fn name_of(token: SpecToken) -> Result<Seq<char>, SpecParseError> {
    match token {
        SpecToken::Name(_, text) => Ok(text),
        _ => Err(
            SpecParseError::UnexpectedToken {
                expected: TokenKind::Name.text(),
                received: token.kind().text(),
            },
        ),
    }
}

/// The error for a token of another category than `expected`.
fn unexpected(expected: TokenKind, received: &Token) -> (error: ParseError)
    ensures
        error@ == (SpecParseError::UnexpectedToken {
            expected: expected.text(),
            received: received@.kind().text(),
        }),
{
    ParseError::UnexpectedToken { expected: expected.to_string(), received: received.to_string() }
}

impl NameNode {
    /// The name that a `Name` token carries.
    pub fn new(token: Token) -> (node: ParseResult<NameNode>)
        ensures
            match name_of(token@) {
                Ok(text) => node is Ok && node->Ok_0@ == text,
                Err(error) => node is Err && node->Err_0@ == error,
            },
    {
        match token {
            Token::Name(_, value) => Ok(NameNode { value }),
            other => Err(unexpected(TokenKind::Name, &other)),
        }
    }

    /// The name with the given text.
    pub fn from(name: &str) -> (node: NameNode)
        ensures
            node@ == name@,
    {
        NameNode { value: name.to_owned() }
    }
}

#[derive(Debug, PartialEq)]
pub struct NamedTypeNode {
    pub name: NameNode,
}

impl View for NamedTypeNode {
    type V = Seq<char>;

    open spec fn view(&self) -> Seq<char> {
        self.name@
    }
}

impl NamedTypeNode {
    /// The type that a `Name` token names.
    pub fn new(token: Token) -> (node: ParseResult<NamedTypeNode>)
        ensures
            match name_of(token@) {
                Ok(text) => node is Ok && node->Ok_0@ == text,
                Err(error) => node is Err && node->Err_0@ == error,
            },
    {
        match NameNode::new(token) {
            Ok(name) => Ok(NamedTypeNode { name }),
            Err(error) => Err(error),
        }
    }

    /// The type with the given name.
    pub fn from(name: &str) -> (node: NamedTypeNode)
        ensures
            node@ == name@,
    {
        NamedTypeNode { name: NameNode::from(name) }
    }
}

#[derive(Debug, PartialEq)]
pub struct ListTypeNode {
    pub list_type: Box<TypeNode>,
}

/// A type reference: a named type, a list of a type, or a type that may not
/// be null.
#[derive(Debug, PartialEq)]
pub enum TypeNode {
    Named(NamedTypeNode),
    List(ListTypeNode),
    NonNull(Box<TypeNode>),
}

/// The model of a type reference.
pub open spec fn type_view(node: TypeNode) -> SpecType
    decreases node,
{
    match node {
        TypeNode::Named(named) => SpecType::Named(named@),
        TypeNode::List(list) => SpecType::List(Box::new(type_view(*list.list_type))),
        TypeNode::NonNull(inner) => SpecType::NonNull(Box::new(type_view(*inner))),
    }
}

impl View for TypeNode {
    type V = SpecType;

    open spec fn view(&self) -> SpecType {
        type_view(*self)
    }
}

impl ListTypeNode {
    /// The list of the given type.
    pub fn new(list_type: TypeNode) -> (node: ListTypeNode)
        ensures
            *node.list_type == list_type,
    {
        ListTypeNode { list_type: Box::new(list_type) }
    }
}

#[derive(Debug, PartialEq)]
pub struct StringValueNode {
    pub value: String,
    pub block: bool,
}

impl View for StringValueNode {
    type V = SpecString;

    open spec fn view(&self) -> SpecString {
        SpecString { value: self.value@, block: self.block }
    }
}

/// What a token that should be a string gives: the string, or the error that
/// says which token stood there. The text of a block string is taken as it
/// stands between the quotes, and its value is worked out from it.
pub open spec fn string_of(token: SpecToken) -> Result<SpecString, SpecParseError> {
    match token {
        SpecToken::Str(_, text) => Ok(SpecString { value: text, block: false }),
        SpecToken::BlockStr(_, raw) => Ok(
            SpecString { value: block_string_value(raw), block: true },
        ),
        _ => Err(
            SpecParseError::UnexpectedToken {
                expected: TokenKind::Str.text(),
                received: token.kind().text(),
            },
        ),
    }
}

impl StringValueNode {
    /// The string that a token written by hand stands for. Give a block
    /// string by its raw text: its value is worked out here. The tokens of
    /// the lexer hold that value already.
    pub fn new(token: Token) -> (node: ParseResult<StringValueNode>)
        ensures
            match string_of(token@) {
                Ok(string) => node is Ok && node->Ok_0@ == string,
                Err(error) => node is Err && node->Err_0@ == error,
            },
    {
        match token {
            Token::Str(_, value) => Ok(StringValueNode { value, block: false }),
            Token::BlockStr(_, raw) => {
                let chars = to_chars(raw.as_str());
                let value = block_value(&chars);
                assert(value@.subrange(0, value@.len() as int) == value@);
                Ok(StringValueNode { value: text_of(&value, 0, value.len()), block: true })
            },
            other => Err(unexpected(TokenKind::Str, &other)),
        }
    }

    /// The string that a token of the lexer carries, as it is.
    pub fn from_token(token: Token) -> (node: ParseResult<StringValueNode>)
        ensures
            match token@ {
                SpecToken::Str(_, text) => node is Ok && node->Ok_0@ == (SpecString {
                    value: text,
                    block: false,
                }),
                SpecToken::BlockStr(_, text) => node is Ok && node->Ok_0@ == (SpecString {
                    value: text,
                    block: true,
                }),
                _ => node is Err && node->Err_0@ == (SpecParseError::UnexpectedToken {
                    expected: TokenKind::Str.text(),
                    received: token@.kind().text(),
                }),
            },
    {
        match token {
            Token::Str(_, value) => Ok(StringValueNode { value, block: false }),
            Token::BlockStr(_, value) => Ok(StringValueNode { value, block: true }),
            other => Err(unexpected(TokenKind::Str, &other)),
        }
    }

    /// The string with the given value.
    pub fn from(value: &str, block: bool) -> (node: StringValueNode)
        ensures
            node@ == (SpecString { value: value@, block }),
    {
        StringValueNode { value: value.to_owned(), block }
    }
}

pub type Description = Option<StringValueNode>;

#[derive(Debug, PartialEq)]
pub struct IntValueNode {
    pub value: i64,
}

/// A float, as the text of its literal.
#[derive(Debug, PartialEq)]
pub struct FloatValueNode {
    pub value: String,
}

#[derive(Debug, PartialEq)]
pub struct BooleanValueNode {
    pub value: bool,
}

#[derive(Debug, PartialEq)]
pub struct EnumValueNode {
    pub value: String,
}

#[derive(Debug, PartialEq)]
pub struct VariableNode {
    pub name: NameNode,
}

impl View for VariableNode {
    type V = Seq<char>;

    open spec fn view(&self) -> Seq<char> {
        self.name@
    }
}

impl VariableNode {
    /// The variable with the given name.
    pub fn from(name: &str) -> (node: VariableNode)
        ensures
            node@ == name@,
    {
        VariableNode { name: NameNode::from(name) }
    }
}

#[derive(Debug, PartialEq)]
pub enum ValueNode {
    Int(IntValueNode),
    Float(FloatValueNode),
    Str(StringValueNode),
    Bool(BooleanValueNode),
    Null,
    Enum(EnumValueNode),
    Variable(VariableNode),
}

impl View for ValueNode {
    type V = SpecValue;

    open spec fn view(&self) -> SpecValue {
        match self {
            ValueNode::Int(node) => SpecValue::Int(node.value),
            ValueNode::Float(node) => SpecValue::Float(node.value@),
            ValueNode::Str(node) => SpecValue::Str(node@),
            ValueNode::Bool(node) => SpecValue::Bool(node.value),
            ValueNode::Null => SpecValue::Null,
            ValueNode::Enum(node) => SpecValue::Enum(node.value@),
            ValueNode::Variable(node) => SpecValue::Variable(node@),
        }
    }
}

/// An argument as a call gives it: a name and a value.
#[derive(Debug, PartialEq)]
pub struct Argument {
    pub name: NameNode,
    pub value: ValueNode,
}

impl View for Argument {
    type V = SpecArgument;

    open spec fn view(&self) -> SpecArgument {
        SpecArgument { name: self.name@, value: self.value@ }
    }
}

#[derive(Debug, PartialEq)]
pub struct DirectiveNode {
    pub name: NameNode,
    pub arguments: Option<Vec<Argument>>,
}

impl View for DirectiveNode {
    type V = SpecDirective;

    open spec fn view(&self) -> SpecDirective {
        SpecDirective { name: self.name@, arguments: opt_list_view(self.arguments) }
    }
}

pub type Directives = Option<Vec<DirectiveNode>>;

/// An argument as a field definition declares it, or a field of an input
/// type.
#[derive(Debug, PartialEq)]
pub struct InputValueDefinitionNode {
    pub description: Description,
    pub name: NameNode,
    pub input_type: TypeNode,
    pub default_value: Option<ValueNode>,
    pub directives: Directives,
}

impl View for InputValueDefinitionNode {
    type V = SpecInputValue;

    open spec fn view(&self) -> SpecInputValue {
        SpecInputValue {
            description: opt_view(self.description),
            name: self.name@,
            input_type: self.input_type@,
            default_value: opt_view(self.default_value),
            directives: opt_list_view(self.directives),
        }
    }
}

pub type Arguments = Vec<InputValueDefinitionNode>;

#[derive(Debug, PartialEq)]
pub struct FieldDefinitionNode {
    pub description: Description,
    pub name: NameNode,
    pub arguments: Option<Arguments>,
    pub field_type: TypeNode,
}

impl View for FieldDefinitionNode {
    type V = SpecField;

    open spec fn view(&self) -> SpecField {
        SpecField {
            description: opt_view(self.description),
            name: self.name@,
            arguments: opt_list_view(self.arguments),
            field_type: self.field_type@,
        }
    }
}

#[derive(Debug, PartialEq)]
pub struct EnumValueDefinitionNode {
    pub description: Description,
    pub name: NameNode,
    pub directives: Directives,
}

impl View for EnumValueDefinitionNode {
    type V = SpecEnumValue;

    open spec fn view(&self) -> SpecEnumValue {
        SpecEnumValue {
            description: opt_view(self.description),
            name: self.name@,
            directives: opt_list_view(self.directives),
        }
    }
}

#[derive(Debug, PartialEq)]
pub struct ObjectTypeDefinitionNode {
    pub description: Description,
    pub name: NameNode,
    pub interfaces: Option<Vec<NamedTypeNode>>,
    pub directives: Directives,
    pub fields: Vec<FieldDefinitionNode>,
}

impl View for ObjectTypeDefinitionNode {
    type V = SpecDefinition;

    open spec fn view(&self) -> SpecDefinition {
        SpecDefinition::Object {
            description: opt_view(self.description),
            name: self.name@,
            interfaces: opt_list_view(self.interfaces),
            directives: opt_list_view(self.directives),
            fields: views(self.fields@),
        }
    }
}

#[derive(Debug, PartialEq)]
pub struct InterfaceTypeDefinitionNode {
    pub description: Description,
    pub name: NameNode,
    pub directives: Directives,
    pub fields: Vec<FieldDefinitionNode>,
}

impl View for InterfaceTypeDefinitionNode {
    type V = SpecDefinition;

    open spec fn view(&self) -> SpecDefinition {
        SpecDefinition::Interface {
            description: opt_view(self.description),
            name: self.name@,
            directives: opt_list_view(self.directives),
            fields: views(self.fields@),
        }
    }
}

#[derive(Debug, PartialEq)]
pub struct UnionTypeDefinitionNode {
    pub description: Description,
    pub name: NameNode,
    pub directives: Directives,
    pub types: Vec<NamedTypeNode>,
}

impl View for UnionTypeDefinitionNode {
    type V = SpecDefinition;

    open spec fn view(&self) -> SpecDefinition {
        SpecDefinition::Union {
            description: opt_view(self.description),
            name: self.name@,
            directives: opt_list_view(self.directives),
            types: views(self.types@),
        }
    }
}

#[derive(Debug, PartialEq)]
pub struct EnumTypeDefinitionNode {
    pub description: Description,
    pub name: NameNode,
    pub directives: Directives,
    pub values: Vec<EnumValueDefinitionNode>,
}

impl View for EnumTypeDefinitionNode {
    type V = SpecDefinition;

    open spec fn view(&self) -> SpecDefinition {
        SpecDefinition::Enum {
            description: opt_view(self.description),
            name: self.name@,
            directives: opt_list_view(self.directives),
            values: views(self.values@),
        }
    }
}

#[derive(Debug, PartialEq)]
pub struct ScalarTypeDefinitionNode {
    pub description: Description,
    pub name: NameNode,
    pub directives: Directives,
}

impl View for ScalarTypeDefinitionNode {
    type V = SpecDefinition;

    open spec fn view(&self) -> SpecDefinition {
        SpecDefinition::Scalar {
            description: opt_view(self.description),
            name: self.name@,
            directives: opt_list_view(self.directives),
        }
    }
}

#[derive(Debug, PartialEq)]
pub struct InputTypeDefinitionNode {
    pub description: Description,
    pub name: NameNode,
    pub fields: Vec<InputValueDefinitionNode>,
}

impl View for InputTypeDefinitionNode {
    type V = SpecDefinition;

    open spec fn view(&self) -> SpecDefinition {
        SpecDefinition::Input {
            description: opt_view(self.description),
            name: self.name@,
            fields: views(self.fields@),
        }
    }
}

#[derive(Debug, PartialEq)]
pub enum TypeDefinitionNode {
    Object(ObjectTypeDefinitionNode),
    Interface(InterfaceTypeDefinitionNode),
    Union(UnionTypeDefinitionNode),
    Enum(EnumTypeDefinitionNode),
    Scalar(ScalarTypeDefinitionNode),
    Input(InputTypeDefinitionNode),
}

impl View for TypeDefinitionNode {
    type V = SpecDefinition;

    open spec fn view(&self) -> SpecDefinition {
        match self {
            TypeDefinitionNode::Object(node) => node@,
            TypeDefinitionNode::Interface(node) => node@,
            TypeDefinitionNode::Union(node) => node@,
            TypeDefinitionNode::Enum(node) => node@,
            TypeDefinitionNode::Scalar(node) => node@,
            TypeDefinitionNode::Input(node) => node@,
        }
    }
}

/// The three kinds of operation.
#[derive(Debug, Clone, Copy, PartialEq, Eq, Structural)]
pub enum Operation {
    Query,
    Mutation,
    Subscription,
}

#[derive(Debug, PartialEq)]
pub struct OperationTypeDefinitionNode {
    pub operation: Operation,
    pub node_type: NamedTypeNode,
}

impl View for OperationTypeDefinitionNode {
    type V = SpecOperationType;

    open spec fn view(&self) -> SpecOperationType {
        SpecOperationType { operation: self.operation, node_type: self.node_type@ }
    }
}

#[derive(Debug, PartialEq)]
pub struct SchemaDefinitionNode {
    pub description: Description,
    pub directives: Directives,
    pub operations: Vec<OperationTypeDefinitionNode>,
}

impl View for SchemaDefinitionNode {
    type V = SpecDefinition;

    open spec fn view(&self) -> SpecDefinition {
        SpecDefinition::Schema {
            description: opt_view(self.description),
            directives: opt_list_view(self.directives),
            operations: views(self.operations@),
        }
    }
}

#[derive(Debug, PartialEq)]
pub enum TypeSystemDefinitionNode {
    Schema(SchemaDefinitionNode),
    Type(TypeDefinitionNode),
}

#[derive(Debug, PartialEq)]
pub enum TypeSystemExtensionNode {
    Object(ObjectTypeExtensionNode),
}

impl View for TypeSystemExtensionNode {
    type V = SpecDefinition;

    open spec fn view(&self) -> SpecDefinition {
        match self {
            TypeSystemExtensionNode::Object(node) => node@,
        }
    }
}

/// One entry of a selection set: a field, or the spread of a fragment.
#[derive(Debug, PartialEq)]
pub enum Selection {
    Field(FieldNode),
    Fragment(FragmentSpread),
}

#[derive(Debug, PartialEq)]
pub struct FieldNode {
    pub name: NameNode,
    pub alias: Option<NameNode>,
    pub arguments: Option<Vec<Argument>>,
    pub directives: Directives,
    pub selections: Option<Vec<Selection>>,
}

#[derive(Debug, PartialEq)]
pub enum FragmentSpread {
    Node(FragmentSpreadNode),
    Inline(InlineFragmentSpreadNode),
}

#[derive(Debug, PartialEq)]
pub struct FragmentSpreadNode {
    pub name: NameNode,
    pub directives: Directives,
}

#[derive(Debug, PartialEq)]
pub struct InlineFragmentSpreadNode {
    pub node_type: Option<NamedTypeNode>,
    pub directives: Directives,
    pub selections: Vec<Selection>,
}

/// The model of a selection.
pub open spec fn selection_view(node: Selection) -> SpecSelection
    decreases node,
{
    match node {
        Selection::Field(field) => SpecSelection::Field {
            name: field.name@,
            alias: opt_view(field.alias),
            arguments: opt_list_view(field.arguments),
            directives: opt_list_view(field.directives),
            selections: match field.selections {
                Some(items) => Some(
                    Seq::new(
                        items@.len(),
                        |k: int|
                            if 0 <= k < items@.len() {
                                selection_view(items@[k])
                            } else {
                                arbitrary()
                            },
                    ),
                ),
                None => None,
            },
        },
        Selection::Fragment(FragmentSpread::Node(spread)) => SpecSelection::Spread {
            name: spread.name@,
            directives: opt_list_view(spread.directives),
        },
        Selection::Fragment(FragmentSpread::Inline(inline)) => SpecSelection::Inline {
            node_type: opt_view(inline.node_type),
            directives: opt_list_view(inline.directives),
            selections: Seq::new(
                inline.selections@.len(),
                |k: int|
                    if 0 <= k < inline.selections@.len() {
                        selection_view(inline.selections@[k])
                    } else {
                        arbitrary()
                    },
            ),
        },
    }
}

impl View for Selection {
    type V = SpecSelection;

    open spec fn view(&self) -> SpecSelection {
        selection_view(*self)
    }
}

/// A selection's model, with the selections below it taken by their models.
pub open spec fn selection_shape(node: Selection) -> SpecSelection {
    match node {
        Selection::Field(field) => SpecSelection::Field {
            name: field.name@,
            alias: opt_view(field.alias),
            arguments: opt_list_view(field.arguments),
            directives: opt_list_view(field.directives),
            selections: opt_list_view(field.selections),
        },
        Selection::Fragment(FragmentSpread::Node(spread)) => SpecSelection::Spread {
            name: spread.name@,
            directives: opt_list_view(spread.directives),
        },
        Selection::Fragment(FragmentSpread::Inline(inline)) => SpecSelection::Inline {
            node_type: opt_view(inline.node_type),
            directives: opt_list_view(inline.directives),
            selections: views(inline.selections@),
        },
    }
}

/// The model of a selection is made of the models of the selections below it.
pub proof fn lemma_selection_view(node: Selection)
    ensures
        node@ == selection_shape(node),
{
    if node is Field {
        let field = node->Field_0;
        if field.selections is Some {
            let items = field.selections->0;
            let below = Seq::new(
                items@.len(),
                |k: int|
                    if 0 <= k < items@.len() {
                        selection_view(items@[k])
                    } else {
                        arbitrary()
                    },
            );
            assert(selection_view(node)->Field_selections == Some(below));
            assert(views(items@) =~= below);
        }
    } else if node->Fragment_0 is Inline {
        let inline = node->Fragment_0->Inline_0;
        let below = Seq::new(
            inline.selections@.len(),
            |k: int|
                if 0 <= k < inline.selections@.len() {
                    selection_view(inline.selections@[k])
                } else {
                    arbitrary()
                },
        );
        assert(selection_view(node)->Inline_selections == below);
        assert(views(inline.selections@) =~= below);
    }
}

impl FieldNode {
    /// The selection of a field by its name alone.
    pub fn from(name: &str) -> (node: FieldNode)
        ensures
            node.name@ == name@,
            node.alias is None,
            node.arguments is None,
            node.directives is None,
            node.selections is None,
    {
        FieldNode {
            name: NameNode::from(name),
            alias: None,
            arguments: None,
            directives: None,
            selections: None,
        }
    }
}

impl FragmentSpreadNode {
    /// The spread of a fragment by its name alone.
    pub fn from(name: &str) -> (node: FragmentSpreadNode)
        ensures
            node.name@ == name@,
            node.directives is None,
    {
        FragmentSpreadNode { name: NameNode::from(name), directives: None }
    }
}

#[derive(Debug, PartialEq)]
pub struct VariableDefinitionNode {
    pub variable: VariableNode,
    pub variable_type: TypeNode,
    pub default_value: Option<ValueNode>,
}

impl View for VariableDefinitionNode {
    type V = SpecVariable;

    open spec fn view(&self) -> SpecVariable {
        SpecVariable {
            variable: self.variable@,
            variable_type: self.variable_type@,
            default_value: opt_view(self.default_value),
        }
    }
}

#[derive(Debug, PartialEq)]
pub struct QueryDefinitionNode {
    pub name: Option<NameNode>,
    pub variables: Option<Vec<VariableDefinitionNode>>,
    pub selections: Vec<Selection>,
}

#[derive(Debug, PartialEq)]
pub struct MutationDefinitionNode {
    pub name: Option<NameNode>,
    pub variables: Option<Vec<VariableDefinitionNode>>,
    pub selections: Vec<Selection>,
}

#[derive(Debug, PartialEq)]
pub struct SubscriptionDefinitionNode {
    pub name: Option<NameNode>,
    pub variables: Option<Vec<VariableDefinitionNode>>,
    pub selections: Vec<Selection>,
}

#[derive(Debug, PartialEq)]
pub enum OperationTypeNode {
    Query(QueryDefinitionNode),
    Mutation(MutationDefinitionNode),
    Subscription(SubscriptionDefinitionNode),
}

impl View for OperationTypeNode {
    type V = SpecDefinition;

    open spec fn view(&self) -> SpecDefinition {
        match self {
            OperationTypeNode::Query(node) => SpecDefinition::Operation {
                operation: Operation::Query,
                name: opt_view(node.name),
                variables: opt_list_view(node.variables),
                selections: views(node.selections@),
            },
            OperationTypeNode::Mutation(node) => SpecDefinition::Operation {
                operation: Operation::Mutation,
                name: opt_view(node.name),
                variables: opt_list_view(node.variables),
                selections: views(node.selections@),
            },
            OperationTypeNode::Subscription(node) => SpecDefinition::Operation {
                operation: Operation::Subscription,
                name: opt_view(node.name),
                variables: opt_list_view(node.variables),
                selections: views(node.selections@),
            },
        }
    }
}

#[derive(Debug, PartialEq)]
pub struct FragmentDefinitionNode {
    pub name: NameNode,
    pub node_type: NamedTypeNode,
    pub directives: Directives,
    pub selections: Vec<Selection>,
}

impl View for FragmentDefinitionNode {
    type V = SpecDefinition;

    open spec fn view(&self) -> SpecDefinition {
        SpecDefinition::Fragment {
            name: self.name@,
            node_type: self.node_type@,
            directives: opt_list_view(self.directives),
            selections: views(self.selections@),
        }
    }
}

#[derive(Debug, PartialEq)]
pub enum ExecutableDefinitionNode {
    Operation(OperationTypeNode),
    Fragment(FragmentDefinitionNode),
}

/// A definition at the top of a document.
#[derive(Debug, PartialEq)]
pub enum DefinitionNode {
    TypeSystem(TypeSystemDefinitionNode),
    Extension(TypeSystemExtensionNode),
    Executable(ExecutableDefinitionNode),
}

impl View for DefinitionNode {
    type V = SpecDefinition;

    open spec fn view(&self) -> SpecDefinition {
        match self {
            DefinitionNode::TypeSystem(TypeSystemDefinitionNode::Schema(node)) => node@,
            DefinitionNode::TypeSystem(TypeSystemDefinitionNode::Type(node)) => node@,
            DefinitionNode::Extension(node) => node@,
            DefinitionNode::Executable(ExecutableDefinitionNode::Operation(node)) => node@,
            DefinitionNode::Executable(ExecutableDefinitionNode::Fragment(node)) => node@,
        }
    }
}

} // verus!
