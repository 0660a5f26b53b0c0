//! The parser: recursive descent over the tokens of the lexer, with one
//! token of lookahead.

use vstd::prelude::*;
use crate::document::Document;
use crate::error::{LexErrorKind, ParseError, ParseResult, SpecParseError};
use crate::grammar;
use crate::grammar::{
    accepts, after, at_word, done, in_stream, left, lemma_after_nothing, lemma_after_push,
    literal, next_token, peek, Parsed,
};
use crate::lexer::{item_view, Lexer};
use crate::lexical::{item_at, token_stream, SpecItem};
use crate::model::{
    lemma_views_empty, lemma_views_push, list_view, opt_list_view, opt_view, SpecDocument,
    SpecSelection, SpecType,
};
use crate::nodes::object_type_extension::ObjectTypeExtensionNode;
use crate::nodes::{
    lemma_selection_view, selection_shape, Argument, Arguments, BooleanValueNode,
    DefinitionNode, Description, DirectiveNode, Directives, EnumTypeDefinitionNode,
    EnumValueDefinitionNode, EnumValueNode, ExecutableDefinitionNode, FieldDefinitionNode,
    FieldNode, FloatValueNode, FragmentDefinitionNode, FragmentSpread, FragmentSpreadNode,
    InlineFragmentSpreadNode, InputTypeDefinitionNode, InputValueDefinitionNode, IntValueNode,
    InterfaceTypeDefinitionNode, ListTypeNode, MutationDefinitionNode, NameNode, NamedTypeNode,
    ObjectTypeDefinitionNode, Operation, OperationTypeDefinitionNode, OperationTypeNode,
    QueryDefinitionNode, ScalarTypeDefinitionNode, SchemaDefinitionNode, Selection,
    StringValueNode, SubscriptionDefinitionNode, TypeDefinitionNode, TypeNode,
    TypeSystemDefinitionNode, TypeSystemExtensionNode, UnionTypeDefinitionNode, ValueNode,
    VariableDefinitionNode, VariableNode,
};
use crate::text::same_text;
use crate::token::{Location, SpecToken, Token, TokenKind};

verus! {

/// The model of what a production gave: the model of its value, or of its
/// failure.
pub open spec fn ok_view<T: View>(result: ParseResult<T>) -> Result<T::V, SpecParseError> {
    match result {
        Ok(value) => Ok(value@),
        Err(error) => Err(error@),
    }
}

/// The model of what a production gave, where it may have found nothing.
pub open spec fn ok_opt_view<T: View>(result: ParseResult<Option<T>>) -> Result<
    Option<T::V>,
    SpecParseError,
> {
    match result {
        Ok(value) => Ok(opt_view(value)),
        Err(error) => Err(error@),
    }
}

/// The model of what a production gave, where it gave a list.
pub open spec fn ok_list_view<T: View>(result: ParseResult<Vec<T>>) -> Result<
    Seq<T::V>,
    SpecParseError,
> {
    match result {
        Ok(value) => Ok(list_view(value)),
        Err(error) => Err(error@),
    }
}

/// The model of what a production gave, where it gave a list or nothing.
pub open spec fn ok_opt_list_view<T: View>(result: ParseResult<Option<Vec<T>>>) -> Result<
    Option<Seq<T::V>>,
    SpecParseError,
> {
    match result {
        Ok(value) => Ok(opt_list_view(value)),
        Err(error) => Err(error@),
    }
}

/// Whether `word` begins the definition of a type.
pub fn is_type_word(word: &str) -> (found: bool)
    ensures
        found == grammar::is_type_word(word@),
{
    same_text(word, "type") || same_text(word, "interface") || same_text(word, "union")
        || same_text(word, "enum") || same_text(word, "scalar") || same_text(word, "input")
}

/// The operation that `word` names.
pub fn operation_of(word: &str) -> (operation: Option<Operation>)
    ensures
        operation == grammar::operation_of(word@),
{
    if same_text(word, "query") {
        Some(Operation::Query)
    } else if same_text(word, "mutation") {
        Some(Operation::Mutation)
    } else if same_text(word, "subscription") {
        Some(Operation::Subscription)
    } else {
        None
    }
}

/// The value that a token writes as a literal, if it writes one.
pub fn value_of(token: Token) -> (value: Option<ValueNode>)
    ensures
        opt_view(value) == literal(token@),
{
    match token {
        Token::Name(_, text) => {
            if same_text(text.as_str(), "true") {
                Some(ValueNode::Bool(BooleanValueNode { value: true }))
            } else if same_text(text.as_str(), "false") {
                Some(ValueNode::Bool(BooleanValueNode { value: false }))
            } else if same_text(text.as_str(), "null") {
                Some(ValueNode::Null)
            } else {
                Some(ValueNode::Enum(EnumValueNode { value: text }))
            }
        },
        Token::Int(_, value) => Some(ValueNode::Int(IntValueNode { value })),
        Token::Float(_, value) => Some(ValueNode::Float(FloatValueNode { value })),
        Token::Str(_, value) => Some(ValueNode::Str(StringValueNode { value, block: false })),
        Token::BlockStr(_, value) => Some(ValueNode::Str(StringValueNode { value, block: true })),
        _ => None,
    }
}

/// The parser over a lexer: the tokens of one text, and a cursor that says
/// which of them comes next.
pub struct AST {
    lexer: Lexer,
    peeked: Option<Result<Token, LexErrorKind>>,
}

impl AST {
    /// The text that is parsed.
    pub closed spec fn source(&self) -> Seq<char> {
        self.lexer.source()
    }

    /// The tokens of the text.
    pub open spec fn tokens(&self) -> Seq<SpecItem> {
        token_stream(self.source())
    }

    /// The index of the token that comes next.
    pub closed spec fn cursor(&self) -> int {
        if self.peeked is Some {
            self.lexer.index() - 1
        } else {
            self.lexer.index() as int
        }
    }

    /// The token that was looked at, if one was, is the one at the cursor.
    pub closed spec fn wf(&self) -> bool {
        &&& self.lexer.wf()
        &&& self.peeked is Some ==> self.lexer.index() >= 1 && item_view(self.peeked->0) == item_at(
            self.lexer.tokens(),
            self.lexer.index() - 1,
        )
    }

    spec fn looked(&self) -> bool {
        self.peeked is Some
    }

    /// `self` is what `before` has become by a production that gave `result`
    /// where the grammar gives `expected`: the same text, the cursor where the
    /// grammar has it, and the result that the grammar has.
    pub open spec fn follows<V>(
        &self,
        before: AST,
        result: Result<V, SpecParseError>,
        expected: Parsed<V>,
    ) -> bool {
        &&& self.wf()
        &&& self.source() == before.source()
        &&& self.cursor() >= before.cursor()
        &&& self.cursor() == expected.next
        &&& result == expected.result
    }

    /// A production that read something has read a token of the stream.
    pub open spec fn advanced<V>(&self, before: AST, result: Result<V, SpecParseError>) -> bool {
        result is Ok ==> in_stream(before.tokens(), before.cursor()) && self.cursor()
            > before.cursor()
    }

    /// A parser at the start of `input`. It never fails.
    pub fn new(input: &str) -> (ast: ParseResult<AST>)
        ensures
            ast matches Ok(parser) && parser.wf() && parser.source() == input@ && parser.cursor()
                == 0,
    {
        let lexer = Lexer::new(input);
        Ok(AST { lexer, peeked: None })
    }

    /// The name under which the parser is shown.
    pub fn to_string(&self) -> (text: String)
        ensures
            text@ == "AST"@,
    {
        "AST".to_owned()
    }

    /// The document that the tokens from the cursor on write.
    pub fn parse(&mut self) -> (document: ParseResult<Document>)
        requires
            old(self).wf(),
        ensures
            final(self).wf(),
            final(self).source() == old(self).source(),
            final(self).cursor() == grammar::definitions(
                old(self).tokens(),
                old(self).cursor(),
            ).next,
            ok_view(document) == match grammar::definitions(
                old(self).tokens(),
                old(self).cursor(),
            ).result {
                Ok(list) => Ok::<SpecDocument, SpecParseError>(SpecDocument { definitions: list }),
                Err(error) => Err::<SpecDocument, SpecParseError>(error),
            },
    {
        let definitions = self.parse_definitions()?;
        Ok(Document::new(definitions))
    }

    /// Looks at the next token, if that was not done yet.
    fn fill(&mut self)
        requires
            old(self).wf(),
        ensures
            final(self).wf(),
            final(self).looked(),
            final(self).source() == old(self).source(),
            final(self).cursor() == old(self).cursor(),
    {
        if self.peeked.is_none() {
            self.peeked = self.lexer.next();
        }
    }

    /// Takes the next item from where it is: the one looked at, or the next of
    /// the lexer.
    fn pull(&mut self) -> (item: Option<Result<Token, LexErrorKind>>)
        requires
            old(self).wf(),
        ensures
            final(self).wf(),
            !final(self).looked(),
            final(self).source() == old(self).source(),
            final(self).cursor() == old(self).cursor() + 1,
            item matches Some(found) && item_view(found) == item_at(
                old(self).tokens(),
                old(self).cursor(),
            ),
    {
        match self.peeked.take() {
            Some(item) => Some(item),
            None => self.lexer.next(),
        }
    }

    /// The category of the token at the cursor, which stays where it is.
    fn peek_kind(&mut self) -> (kind: ParseResult<TokenKind>)
        requires
            old(self).wf(),
        ensures
            final(self).wf(),
            final(self).source() == old(self).source(),
            final(self).cursor() == old(self).cursor(),
            match peek(old(self).tokens(), old(self).cursor()) {
                Ok(token) => kind == Ok::<TokenKind, ParseError>(token.kind()),
                Err(error) => kind is Err && kind->Err_0@ == error,
            },
    {
        match self.unwrap_peeked_token() {
            Ok(token) => Ok(token.kind()),
            Err(error) => Err(error),
        }
    }

    /// Whether the name `word` stands at the cursor, which stays where it is.
    fn peek_word(&mut self, word: &str) -> (found: bool)
        requires
            old(self).wf(),
        ensures
            final(self).wf(),
            final(self).source() == old(self).source(),
            final(self).cursor() == old(self).cursor(),
            found == at_word(old(self).tokens(), old(self).cursor(), word@),
    {
        match self.unwrap_peeked_token() {
            Ok(Token::Name(_, text)) => same_text(text.as_str(), word),
            _ => false,
        }
    }

    /// Whether a word that begins the definition of a type stands at the
    /// cursor, which stays where it is.
    fn peek_type_word(&mut self) -> (found: bool)
        requires
            old(self).wf(),
        ensures
            final(self).wf(),
            final(self).source() == old(self).source(),
            final(self).cursor() == old(self).cursor(),
            found == (item_at(old(self).tokens(), old(self).cursor()) matches Ok(
                SpecToken::Name(_, word),
            ) && grammar::is_type_word(word)),
    {
        match self.unwrap_peeked_token() {
            Ok(Token::Name(_, text)) => is_type_word(text.as_str()),
            _ => false,
        }
    }

    /// The operation that the word at the cursor names, if it names one; the
    /// cursor stays where it is.
    fn peek_operation(&mut self) -> (operation: Option<Operation>)
        requires
            old(self).wf(),
        ensures
            final(self).wf(),
            final(self).source() == old(self).source(),
            final(self).cursor() == old(self).cursor(),
            operation == match item_at(old(self).tokens(), old(self).cursor()) {
                Ok(SpecToken::Name(_, word)) => grammar::operation_of(word),
                _ => None,
            },
    {
        match self.unwrap_peeked_token() {
            Ok(Token::Name(_, text)) => operation_of(text.as_str()),
            _ => None,
        }
    }

    /// The description that stands at the cursor, if one does.
    pub fn parse_description(&mut self) -> (description: ParseResult<Description>)
        requires
            old(self).wf(),
        ensures
            final(self).follows(
                *old(self),
                ok_opt_view(description),
                grammar::description(old(self).tokens(), old(self).cursor()),
            ),
    {
        match self.peek_kind()? {
            TokenKind::Str | TokenKind::BlockStr => {
                let token = self.unwrap_next_token()?;
                Ok(Some(StringValueNode::from_token(token)?))
            },
            _ => Ok(None),
        }
    }

    /// A name.
    pub fn parse_name(&mut self) -> (name: ParseResult<NameNode>)
        requires
            old(self).wf(),
        ensures
            final(self).follows(
                *old(self),
                ok_view(name),
                grammar::name(old(self).tokens(), old(self).cursor()),
            ),
            final(self).advanced(*old(self), ok_view(name)),
    {
        let token = self.expect_token(Token::Name(Location::ignored(), String::new()))?;
        NameNode::new(token)
    }

    /// One argument that a field definition declares, or one field of an
    /// input type.
    pub fn parse_argument(&mut self) -> (argument: ParseResult<InputValueDefinitionNode>)
        requires
            old(self).wf(),
        ensures
            final(self).follows(
                *old(self),
                ok_view(argument),
                grammar::input_value(old(self).tokens(), old(self).cursor()),
            ),
            final(self).advanced(*old(self), ok_view(argument)),
    {
        let description = self.parse_description()?;
        let name = self.parse_name()?;
        self.expect_token(Token::Colon(Location::ignored()))?;
        let input_type = self.parse_field_type()?;
        let default_value = self.parse_value()?;
        let directives = self.parse_directives()?;
        Ok(InputValueDefinitionNode { description, name, input_type, default_value, directives })
    }

    /// The arguments that a field definition declares.
    #[verifier::loop_isolation(false)]
    pub fn parse_arguments(&mut self) -> (arguments: ParseResult<Option<Arguments>>)
        requires
            old(self).wf(),
        ensures
            final(self).follows(
                *old(self),
                ok_opt_list_view(arguments),
                grammar::arguments_definition(old(self).tokens(), old(self).cursor()),
            ),
    {
        let ghost ts = self.tokens();
        let ghost start = self.cursor();
        match self.expect_optional_token(&Token::OpenParen(Location::ignored())) {
            Some(_) => {
                if let Some(_) = self.expect_optional_token(
                    &Token::CloseParen(Location::ignored()),
                ) {
                    return Err(ParseError::ArgumentEmpty);
                }
                let mut args: Arguments = Vec::new();
                proof {
                    lemma_views_empty::<InputValueDefinitionNode>();
                    lemma_after_nothing(grammar::input_value_list(ts, start + 1));
                }
                loop
                    invariant
                        self.wf(),
                        self.source() == old(self).source(),
                        ts == old(self).tokens(),
                        self.cursor() > start,
                        grammar::input_value_list(ts, start + 1) == after(
                            list_view(args),
                            grammar::input_value_list(ts, self.cursor()),
                        ),
                    decreases left(ts, self.cursor()),
                {
                    let ghost at = self.cursor();
                    let argument = self.parse_argument()?;
                    proof {
                        lemma_views_push(args@, argument);
                        lemma_after_push(
                            list_view(args),
                            argument@,
                            grammar::input_value_list(ts, self.cursor()),
                        );
                        lemma_after_push(
                            list_view(args),
                            argument@,
                            done(Seq::empty(), self.cursor() + 1),
                        );
                    }
                    args.push(argument);
                    if let Some(_) = self.expect_optional_token(
                        &Token::CloseParen(Location::ignored()),
                    ) {
                        return Ok(Some(args));
                    }
                }
            },
            None => Ok(None),
        }
    }

    /// The definitions of a document.
    #[verifier::loop_isolation(false)]
    pub fn parse_definitions(&mut self) -> (definitions: ParseResult<Vec<DefinitionNode>>)
        requires
            old(self).wf(),
        ensures
            final(self).follows(
                *old(self),
                ok_list_view(definitions),
                grammar::definitions(old(self).tokens(), old(self).cursor()),
            ),
    {
        let ghost ts = self.tokens();
        let ghost start = self.cursor();
        self.expect_token(Token::Start)?;
        if let Some(_) = self.expect_optional_token(&Token::End) {
            Err(ParseError::DocumentEmpty)
        } else {
            let mut nodes: Vec<DefinitionNode> = Vec::new();
            proof {
                lemma_views_empty::<DefinitionNode>();
                lemma_after_nothing(grammar::definition_list(ts, start + 1));
            }
            loop
                invariant
                    self.wf(),
                    self.source() == old(self).source(),
                    ts == old(self).tokens(),
                    self.cursor() > start,
                    grammar::definition_list(ts, start + 1) == after(
                        list_view(nodes),
                        grammar::definition_list(ts, self.cursor()),
                    ),
                decreases left(ts, self.cursor()),
            {
                let node = self.parse_definition()?;
                proof {
                    lemma_views_push(nodes@, node);
                    lemma_after_push(
                        list_view(nodes),
                        node@,
                        grammar::definition_list(ts, self.cursor()),
                    );
                    lemma_after_push(
                        list_view(nodes),
                        node@,
                        done(Seq::empty(), self.cursor() + 1),
                    );
                }
                nodes.push(node);
                if let Some(_) = self.expect_optional_token(&Token::End) {
                    return Ok(nodes);
                }
            }
        }
    }

    /// One definition.
    pub fn parse_definition(&mut self) -> (definition: ParseResult<DefinitionNode>)
        requires
            old(self).wf(),
        ensures
            final(self).follows(
                *old(self),
                ok_view(definition),
                grammar::definition(old(self).tokens(), old(self).cursor()),
            ),
            final(self).advanced(*old(self), ok_view(definition)),
    {
        let description = self.parse_description()?;
        let kind = self.peek_kind()?;
        if kind == TokenKind::Name {
            if self.peek_type_word() {
                Ok(
                    DefinitionNode::TypeSystem(
                        TypeSystemDefinitionNode::Type(self.parse_type(description)?),
                    ),
                )
            } else if self.peek_word("schema") {
                self.unwrap_next_token()?;
                Ok(
                    DefinitionNode::TypeSystem(
                        TypeSystemDefinitionNode::Schema(self.parse_schema(description)?),
                    ),
                )
            } else if self.peek_word("extend") {
                self.unwrap_next_token()?;
                Ok(DefinitionNode::Extension(self.parse_extension(description)?))
            } else if description.is_some() {
                Err(ParseError::BadValue)
            } else if let Some(operation) = self.peek_operation() {
                self.unwrap_next_token()?;
                Ok(
                    DefinitionNode::Executable(
                        ExecutableDefinitionNode::Operation(self.parse_operation(operation)?),
                    ),
                )
            } else if self.peek_word("fragment") {
                self.unwrap_next_token()?;
                Ok(
                    DefinitionNode::Executable(
                        ExecutableDefinitionNode::Fragment(self.parse_fragment()?),
                    ),
                )
            } else {
                Err(ParseError::BadValue)
            }
        } else if kind == TokenKind::OpenBrace && description.is_none() {
            let selections = self.parse_selection_set()?;
            Ok(
                DefinitionNode::Executable(
                    ExecutableDefinitionNode::Operation(
                        OperationTypeNode::Query(
                            QueryDefinitionNode { name: None, variables: None, selections },
                        ),
                    ),
                ),
            )
        } else {
            Err(
                ParseError::UnexpectedToken {
                    expected: TokenKind::Name.to_string(),
                    received: kind.to_string(),
                },
            )
        }
    }

    /// The definition of a type, from its keyword on.
    pub fn parse_type(&mut self, description: Description) -> (definition: ParseResult<
        TypeDefinitionNode,
    >)
        requires
            old(self).wf(),
        ensures
            final(self).follows(
                *old(self),
                ok_view(definition),
                grammar::type_definition(
                    old(self).tokens(),
                    old(self).cursor(),
                    opt_view(description),
                ),
            ),
            final(self).advanced(*old(self), ok_view(definition)),
    {
        let token = self.unwrap_next_token()?;
        if let Token::Name(_, word) = token {
            let word = word.as_str();
            if same_text(word, "type") {
                Ok(TypeDefinitionNode::Object(self.parse_object_type(description)?))
            } else if same_text(word, "interface") {
                Ok(TypeDefinitionNode::Interface(self.parse_interface_type(description)?))
            } else if same_text(word, "union") {
                Ok(TypeDefinitionNode::Union(self.parse_union_type(description)?))
            } else if same_text(word, "enum") {
                Ok(TypeDefinitionNode::Enum(self.parse_enum_type(description)?))
            } else if same_text(word, "scalar") {
                Ok(TypeDefinitionNode::Scalar(self.parse_scalar_type(description)?))
            } else if same_text(word, "input") {
                Ok(TypeDefinitionNode::Input(self.parse_input_type(description)?))
            } else {
                Err(ParseError::BadValue)
            }
        } else {
            Err(self.parse_error(TokenKind::Name.to_string(), token))
        }
    }

    /// An object type, from behind the word `type` on.
    pub fn parse_object_type(&mut self, description: Description) -> (definition: ParseResult<
        ObjectTypeDefinitionNode,
    >)
        requires
            old(self).wf(),
        ensures
            final(self).follows(
                *old(self),
                ok_view(definition),
                grammar::object_type(old(self).tokens(), old(self).cursor(), opt_view(description)),
            ),
    {
        let name = self.parse_name()?;
        let interfaces = self.parse_interfaces()?;
        let directives = self.parse_directives()?;
        let fields = self.parse_fields()?;
        Ok(ObjectTypeDefinitionNode { description, name, interfaces, directives, fields })
    }

    /// An interface, from behind the word `interface` on.
    pub fn parse_interface_type(&mut self, description: Description) -> (definition: ParseResult<
        InterfaceTypeDefinitionNode,
    >)
        requires
            old(self).wf(),
        ensures
            final(self).follows(
                *old(self),
                ok_view(definition),
                grammar::interface_type(
                    old(self).tokens(),
                    old(self).cursor(),
                    opt_view(description),
                ),
            ),
    {
        let name = self.parse_name()?;
        let directives = self.parse_directives()?;
        let fields = self.parse_fields()?;
        Ok(InterfaceTypeDefinitionNode { description, name, directives, fields })
    }

    /// A union, from behind the word `union` on.
    pub fn parse_union_type(&mut self, description: Description) -> (definition: ParseResult<
        UnionTypeDefinitionNode,
    >)
        requires
            old(self).wf(),
        ensures
            final(self).follows(
                *old(self),
                ok_view(definition),
                grammar::union_type(old(self).tokens(), old(self).cursor(), opt_view(description)),
            ),
    {
        let name = self.parse_name()?;
        let directives = self.parse_directives()?;
        let types = self.parse_union_members()?;
        Ok(UnionTypeDefinitionNode { description, name, directives, types })
    }

    /// An enum, from behind the word `enum` on.
    pub fn parse_enum_type(&mut self, description: Description) -> (definition: ParseResult<
        EnumTypeDefinitionNode,
    >)
        requires
            old(self).wf(),
        ensures
            final(self).follows(
                *old(self),
                ok_view(definition),
                grammar::enum_type(old(self).tokens(), old(self).cursor(), opt_view(description)),
            ),
    {
        let name = self.parse_name()?;
        let directives = self.parse_directives()?;
        let values = self.parse_enum_values()?;
        Ok(EnumTypeDefinitionNode { description, name, directives, values })
    }

    /// A scalar, from behind the word `scalar` on.
    pub fn parse_scalar_type(&mut self, description: Description) -> (definition: ParseResult<
        ScalarTypeDefinitionNode,
    >)
        requires
            old(self).wf(),
        ensures
            final(self).follows(
                *old(self),
                ok_view(definition),
                grammar::scalar_type(old(self).tokens(), old(self).cursor(), opt_view(description)),
            ),
    {
        let name = self.parse_name()?;
        let directives = self.parse_directives()?;
        Ok(ScalarTypeDefinitionNode { description, name, directives })
    }

    /// An input type, from behind the word `input` on.
    pub fn parse_input_type(&mut self, description: Description) -> (definition: ParseResult<
        InputTypeDefinitionNode,
    >)
        requires
            old(self).wf(),
        ensures
            final(self).follows(
                *old(self),
                ok_view(definition),
                grammar::input_type(old(self).tokens(), old(self).cursor(), opt_view(description)),
            ),
    {
        let name = self.parse_name()?;
        let fields = self.parse_input_fields()?;
        Ok(InputTypeDefinitionNode { description, name, fields })
    }

    /// The fields of an object type or an interface, between braces.
    #[verifier::loop_isolation(false)]
    pub fn parse_fields(&mut self) -> (fields: ParseResult<Vec<FieldDefinitionNode>>)
        requires
            old(self).wf(),
        ensures
            final(self).follows(
                *old(self),
                ok_list_view(fields),
                grammar::fields(old(self).tokens(), old(self).cursor()),
            ),
    {
        let ghost ts = self.tokens();
        let ghost start = self.cursor();
        let mut fields: Vec<FieldDefinitionNode> = Vec::new();
        self.expect_token(Token::OpenBrace(Location::ignored()))?;
        proof {
            lemma_views_empty::<FieldDefinitionNode>();
            lemma_after_nothing(grammar::field_list(ts, start + 1));
        }
        loop
            invariant
                self.wf(),
                self.source() == old(self).source(),
                ts == old(self).tokens(),
                self.cursor() > start,
                grammar::field_list(ts, start + 1) == after(
                    list_view(fields),
                    grammar::field_list(ts, self.cursor()),
                ),
            decreases left(ts, self.cursor()),
        {
            proof {
                lemma_after_nothing(done(list_view(fields), self.cursor() + 1));
                assert(list_view(fields) + Seq::empty() =~= list_view(fields));
            }
            if let Some(_) = self.expect_optional_token(&Token::CloseBrace(Location::ignored())) {
                return Ok(fields);
            }
            let field = self.parse_field()?;
            proof {
                lemma_views_push(fields@, field);
                lemma_after_push(list_view(fields), field@, grammar::field_list(ts, self.cursor()));
            }
            fields.push(field);
        }
    }

    /// One field of an object type or an interface.
    pub fn parse_field(&mut self) -> (field: ParseResult<FieldDefinitionNode>)
        requires
            old(self).wf(),
        ensures
            final(self).follows(
                *old(self),
                ok_view(field),
                grammar::field(old(self).tokens(), old(self).cursor()),
            ),
            final(self).advanced(*old(self), ok_view(field)),
    {
        let description = self.parse_description()?;
        let name = self.parse_name()?;
        let arguments = self.parse_arguments()?;
        self.expect_token(Token::Colon(Location::ignored()))?;
        let field_type = self.parse_field_type()?;
        Ok(FieldDefinitionNode { description, name, arguments, field_type })
    }

    /// A type reference.
    pub fn parse_field_type(&mut self) -> (field_type: ParseResult<TypeNode>)
        requires
            old(self).wf(),
        ensures
            final(self).follows(
                *old(self),
                ok_view(field_type),
                grammar::field_type(old(self).tokens(), old(self).cursor()),
            ),
            final(self).advanced(*old(self), ok_view(field_type)),
        decreases left(old(self).tokens(), old(self).cursor()),
    {
        let ghost ts = self.tokens();
        let ghost start = self.cursor();
        let mut field_type: TypeNode;
        if let Some(_) = self.expect_optional_token(&Token::OpenSquare(Location::ignored())) {
            field_type = TypeNode::List(ListTypeNode::new(self.parse_field_type()?));
            self.expect_token(Token::CloseSquare(Location::ignored()))?;
            assert(field_type@ == SpecType::List(
                Box::new(grammar::field_type(ts, start + 1).value()),
            ));
        } else {
            field_type = TypeNode::Named(NamedTypeNode { name: self.parse_name()? });
            assert(field_type@ == SpecType::Named(grammar::name(ts, start).value()));
        }
        let ghost base = field_type@;
        if let Some(_) = self.expect_optional_token(&Token::Bang(Location::ignored())) {
            field_type = TypeNode::NonNull(Box::new(field_type));
            assert(field_type@ == SpecType::NonNull(Box::new(base)));
        }
        Ok(field_type)
    }

    /// The values of an enum, between braces.
    #[verifier::loop_isolation(false)]
    pub fn parse_enum_values(&mut self) -> (values: ParseResult<Vec<EnumValueDefinitionNode>>)
        requires
            old(self).wf(),
        ensures
            final(self).follows(
                *old(self),
                ok_list_view(values),
                grammar::enum_values(old(self).tokens(), old(self).cursor()),
            ),
    {
        let ghost ts = self.tokens();
        let ghost start = self.cursor();
        let mut values: Vec<EnumValueDefinitionNode> = Vec::new();
        self.expect_token(Token::OpenBrace(Location::ignored()))?;
        proof {
            lemma_views_empty::<EnumValueDefinitionNode>();
            lemma_after_nothing(grammar::enum_value_list(ts, start + 1));
        }
        loop
            invariant
                self.wf(),
                self.source() == old(self).source(),
                ts == old(self).tokens(),
                self.cursor() > start,
                grammar::enum_value_list(ts, start + 1) == after(
                    list_view(values),
                    grammar::enum_value_list(ts, self.cursor()),
                ),
            decreases left(ts, self.cursor()),
        {
            proof {
                assert(list_view(values) + Seq::empty() =~= list_view(values));
            }
            if let Some(_) = self.expect_optional_token(&Token::CloseBrace(Location::ignored())) {
                return Ok(values);
            }
            let description = self.parse_description()?;
            let name = self.parse_name()?;
            let directives = self.parse_directives()?;
            let value = EnumValueDefinitionNode { description, name, directives };
            proof {
                lemma_views_push(values@, value);
                lemma_after_push(
                    list_view(values),
                    value@,
                    grammar::enum_value_list(ts, self.cursor()),
                );
            }
            values.push(value);
        }
    }

    /// The fields of an input type, between braces.
    #[verifier::loop_isolation(false)]
    pub fn parse_input_fields(&mut self) -> (fields: ParseResult<Vec<InputValueDefinitionNode>>)
        requires
            old(self).wf(),
        ensures
            final(self).follows(
                *old(self),
                ok_list_view(fields),
                grammar::input_fields(old(self).tokens(), old(self).cursor()),
            ),
    {
        let ghost ts = self.tokens();
        let ghost start = self.cursor();
        let mut fields: Vec<InputValueDefinitionNode> = Vec::new();
        self.expect_token(Token::OpenBrace(Location::ignored()))?;
        proof {
            lemma_views_empty::<InputValueDefinitionNode>();
            lemma_after_nothing(grammar::input_field_list(ts, start + 1));
        }
        loop
            invariant
                self.wf(),
                self.source() == old(self).source(),
                ts == old(self).tokens(),
                self.cursor() > start,
                grammar::input_field_list(ts, start + 1) == after(
                    list_view(fields),
                    grammar::input_field_list(ts, self.cursor()),
                ),
            decreases left(ts, self.cursor()),
        {
            proof {
                assert(list_view(fields) + Seq::empty() =~= list_view(fields));
            }
            if let Some(_) = self.expect_optional_token(&Token::CloseBrace(Location::ignored())) {
                return Ok(fields);
            }
            let field = self.parse_argument()?;
            proof {
                lemma_views_push(fields@, field);
                lemma_after_push(
                    list_view(fields),
                    field@,
                    grammar::input_field_list(ts, self.cursor()),
                );
            }
            fields.push(field);
        }
    }

    /// A default value.
    pub fn parse_value(&mut self) -> (value: ParseResult<Option<ValueNode>>)
        requires
            old(self).wf(),
        ensures
            final(self).follows(
                *old(self),
                ok_opt_view(value),
                grammar::default_value(old(self).tokens(), old(self).cursor()),
            ),
    {
        match self.expect_optional_token(&Token::Equals(Location::ignored())) {
            Some(_) => {
                match self.peek_kind()? {
                    TokenKind::Name
                    | TokenKind::Int
                    | TokenKind::Float
                    | TokenKind::Str
                    | TokenKind::BlockStr => {
                        let token = self.unwrap_next_token()?;
                        Ok(value_of(token))
                    },
                    _ => Ok(None),
                }
            },
            None => Ok(None),
        }
    }

    /// The value of an argument in a call.
    pub fn parse_argument_value(&mut self) -> (value: ParseResult<ValueNode>)
        requires
            old(self).wf(),
        ensures
            final(self).follows(
                *old(self),
                ok_view(value),
                grammar::argument_value(old(self).tokens(), old(self).cursor()),
            ),
    {
        let token = self.unwrap_next_token()?;
        if let Token::Dollar(_) = token {
            Ok(ValueNode::Variable(VariableNode { name: self.parse_name()? }))
        } else {
            match value_of(token) {
                Some(value) => Ok(value),
                None => Err(ParseError::BadValue),
            }
        }
    }

    /// The arguments of a call.
    #[verifier::loop_isolation(false)]
    pub fn parse_call_arguments(&mut self) -> (arguments: ParseResult<Option<Vec<Argument>>>)
        requires
            old(self).wf(),
        ensures
            final(self).follows(
                *old(self),
                ok_opt_list_view(arguments),
                grammar::arguments(old(self).tokens(), old(self).cursor()),
            ),
    {
        let ghost ts = self.tokens();
        let ghost start = self.cursor();
        if self.expect_optional_token(&Token::OpenParen(Location::ignored())).is_none() {
            return Ok(None);
        }
        if let Some(_) = self.expect_optional_token(&Token::CloseParen(Location::ignored())) {
            return Err(ParseError::ArgumentEmpty);
        }
        let mut args: Vec<Argument> = Vec::new();
        proof {
            lemma_views_empty::<Argument>();
            lemma_after_nothing(grammar::argument_list(ts, start + 1));
        }
        loop
            invariant
                self.wf(),
                self.source() == old(self).source(),
                ts == old(self).tokens(),
                self.cursor() > start,
                grammar::argument_list(ts, start + 1) == after(
                    list_view(args),
                    grammar::argument_list(ts, self.cursor()),
                ),
            decreases left(ts, self.cursor()),
        {
            let name = self.parse_name()?;
            self.expect_token(Token::Colon(Location::ignored()))?;
            let value = self.parse_argument_value()?;
            let argument = Argument { name, value };
            proof {
                lemma_views_push(args@, argument);
                lemma_after_push(
                    list_view(args),
                    argument@,
                    grammar::argument_list(ts, self.cursor()),
                );
                lemma_after_push(list_view(args), argument@, done(Seq::empty(), self.cursor() + 1));
            }
            args.push(argument);
            if let Some(_) = self.expect_optional_token(&Token::CloseParen(Location::ignored())) {
                return Ok(Some(args));
            }
        }
    }

    /// The directives that stand at the cursor.
    #[verifier::loop_isolation(false)]
    pub fn parse_directives(&mut self) -> (directives: ParseResult<Directives>)
        requires
            old(self).wf(),
        ensures
            final(self).follows(
                *old(self),
                ok_opt_list_view(directives),
                grammar::directives(old(self).tokens(), old(self).cursor()),
            ),
    {
        let ghost ts = self.tokens();
        let ghost start = self.cursor();
        let mut found: Vec<DirectiveNode> = Vec::new();
        proof {
            lemma_views_empty::<DirectiveNode>();
            lemma_after_nothing(grammar::directive_list(ts, start));
        }
        loop
            invariant
                self.wf(),
                self.source() == old(self).source(),
                ts == old(self).tokens(),
                self.cursor() >= start,
                grammar::directive_list(ts, start) == after(
                    list_view(found),
                    grammar::directive_list(ts, self.cursor()),
                ),
            decreases left(ts, self.cursor()),
        {
            proof {
                assert(list_view(found) + Seq::empty() =~= list_view(found));
            }
            if self.expect_optional_token(&Token::At(Location::ignored())).is_none() {
                if found.len() == 0 {
                    return Ok(None);
                } else {
                    return Ok(Some(found));
                }
            }
            let name = self.parse_name()?;
            let arguments = self.parse_call_arguments()?;
            let directive = DirectiveNode { name, arguments };
            proof {
                lemma_views_push(found@, directive);
                lemma_after_push(
                    list_view(found),
                    directive@,
                    grammar::directive_list(ts, self.cursor()),
                );
            }
            found.push(directive);
        }
    }

    /// Names with `separator` between them.
    #[verifier::loop_isolation(false)]
    fn parse_name_list(&mut self, separator: Token) -> (names: ParseResult<Vec<NamedTypeNode>>)
        requires
            old(self).wf(),
        ensures
            final(self).follows(
                *old(self),
                ok_list_view(names),
                grammar::name_list(old(self).tokens(), old(self).cursor(), separator@.kind()),
            ),
    {
        let ghost ts = self.tokens();
        let ghost start = self.cursor();
        let mut names: Vec<NamedTypeNode> = Vec::new();
        proof {
            lemma_views_empty::<NamedTypeNode>();
            lemma_after_nothing(grammar::name_list(ts, start, separator@.kind()));
        }
        loop
            invariant
                self.wf(),
                self.source() == old(self).source(),
                ts == old(self).tokens(),
                self.cursor() >= start,
                grammar::name_list(ts, start, separator@.kind()) == after(
                    list_view(names),
                    grammar::name_list(ts, self.cursor(), separator@.kind()),
                ),
            decreases left(ts, self.cursor()),
        {
            let name = NamedTypeNode { name: self.parse_name()? };
            proof {
                lemma_views_push(names@, name);
                lemma_after_push(
                    list_view(names),
                    name@,
                    grammar::name_list(ts, self.cursor() + 1, separator@.kind()),
                );
                lemma_after_push(list_view(names), name@, done(Seq::empty(), self.cursor()));
            }
            names.push(name);
            if self.expect_optional_token(&separator).is_none() {
                return Ok(names);
            }
        }
    }

    /// The interfaces that a type implements.
    pub fn parse_interfaces(&mut self) -> (interfaces: ParseResult<Option<Vec<NamedTypeNode>>>)
        requires
            old(self).wf(),
        ensures
            final(self).follows(
                *old(self),
                ok_opt_list_view(interfaces),
                grammar::interfaces(old(self).tokens(), old(self).cursor()),
            ),
    {
        if !self.peek_word("implements") {
            return Ok(None);
        }
        self.unwrap_next_token()?;
        self.expect_optional_token(&Token::Amp(Location::ignored()));
        Ok(Some(self.parse_name_list(Token::Amp(Location::ignored()))?))
    }

    /// The members of a union.
    pub fn parse_union_members(&mut self) -> (members: ParseResult<Vec<NamedTypeNode>>)
        requires
            old(self).wf(),
        ensures
            final(self).follows(
                *old(self),
                ok_list_view(members),
                grammar::union_members(old(self).tokens(), old(self).cursor()),
            ),
    {
        if self.expect_optional_token(&Token::Equals(Location::ignored())).is_none() {
            proof {
                lemma_views_empty::<NamedTypeNode>();
            }
            return Ok(Vec::new());
        }
        self.expect_optional_token(&Token::Pipe(Location::ignored()));
        self.parse_name_list(Token::Pipe(Location::ignored()))
    }

    /// A schema, from behind the word `schema` on.
    #[verifier::loop_isolation(false)]
    pub fn parse_schema(&mut self, description: Description) -> (definition: ParseResult<
        SchemaDefinitionNode,
    >)
        requires
            old(self).wf(),
        ensures
            final(self).follows(
                *old(self),
                ok_view(definition),
                grammar::schema(old(self).tokens(), old(self).cursor(), opt_view(description)),
            ),
    {
        let ghost ts = self.tokens();
        let directives = self.parse_directives()?;
        let ghost brace = self.cursor();
        self.expect_token(Token::OpenBrace(Location::ignored()))?;
        let mut operations: Vec<OperationTypeDefinitionNode> = Vec::new();
        proof {
            lemma_views_empty::<OperationTypeDefinitionNode>();
            lemma_after_nothing(grammar::operation_type_list(ts, brace + 1));
        }
        loop
            invariant
                self.wf(),
                self.source() == old(self).source(),
                ts == old(self).tokens(),
                self.cursor() > brace >= old(self).cursor(),
                grammar::operation_type_list(ts, brace + 1) == after(
                    list_view(operations),
                    grammar::operation_type_list(ts, self.cursor()),
                ),
            decreases left(ts, self.cursor()),
        {
            proof {
                assert(list_view(operations) + Seq::empty() =~= list_view(operations));
            }
            if let Some(_) = self.expect_optional_token(&Token::CloseBrace(Location::ignored())) {
                return Ok(SchemaDefinitionNode { description, directives, operations });
            }
            let word = self.parse_name()?;
            let operation = match operation_of(word.value.as_str()) {
                Some(operation) => operation,
                None => {
                    return Err(ParseError::BadValue);
                },
            };
            self.expect_token(Token::Colon(Location::ignored()))?;
            let node_type = NamedTypeNode { name: self.parse_name()? };
            let entry = OperationTypeDefinitionNode { operation, node_type };
            proof {
                lemma_views_push(operations@, entry);
                lemma_after_push(
                    list_view(operations),
                    entry@,
                    grammar::operation_type_list(ts, self.cursor()),
                );
            }
            operations.push(entry);
        }
    }

    /// An extension, from behind the word `extend` on.
    pub fn parse_extension(&mut self, description: Description) -> (extension: ParseResult<
        TypeSystemExtensionNode,
    >)
        requires
            old(self).wf(),
        ensures
            final(self).follows(
                *old(self),
                ok_view(extension),
                grammar::extension(old(self).tokens(), old(self).cursor(), opt_view(description)),
            ),
    {
        let token = self.unwrap_next_token()?;
        if let Token::Name(_, word) = token {
            if same_text(word.as_str(), "type") {
                let name = self.parse_name()?;
                let interfaces = self.parse_interfaces()?;
                let directives = self.parse_directives()?;
                let fields = if self.peek_kind_is(TokenKind::OpenBrace) {
                    Some(self.parse_fields()?)
                } else {
                    None
                };
                Ok(
                    TypeSystemExtensionNode::Object(
                        ObjectTypeExtensionNode { description, name, interfaces, directives, fields },
                    ),
                )
            } else {
                Err(ParseError::BadValue)
            }
        } else {
            Err(self.parse_error(TokenKind::Name.to_string(), token))
        }
    }

    /// Whether a token of the category `kind` stands at the cursor, which
    /// stays where it is.
    fn peek_kind_is(&mut self, kind: TokenKind) -> (found: bool)
        requires
            old(self).wf(),
        ensures
            final(self).wf(),
            final(self).source() == old(self).source(),
            final(self).cursor() == old(self).cursor(),
            found == accepts(old(self).tokens(), old(self).cursor(), kind),
    {
        match self.unwrap_peeked_token() {
            Ok(token) => token.kind() == kind,
            Err(_) => false,
        }
    }

    /// The variables of an operation.
    #[verifier::loop_isolation(false)]
    pub fn parse_variable_definitions(&mut self) -> (variables: ParseResult<
        Option<Vec<VariableDefinitionNode>>,
    >)
        requires
            old(self).wf(),
        ensures
            final(self).follows(
                *old(self),
                ok_opt_list_view(variables),
                grammar::variable_definitions(old(self).tokens(), old(self).cursor()),
            ),
    {
        let ghost ts = self.tokens();
        let ghost start = self.cursor();
        if self.expect_optional_token(&Token::OpenParen(Location::ignored())).is_none() {
            return Ok(None);
        }
        if let Some(_) = self.expect_optional_token(&Token::CloseParen(Location::ignored())) {
            return Err(ParseError::ArgumentEmpty);
        }
        let mut variables: Vec<VariableDefinitionNode> = Vec::new();
        proof {
            lemma_views_empty::<VariableDefinitionNode>();
            lemma_after_nothing(grammar::variable_list(ts, start + 1));
        }
        loop
            invariant
                self.wf(),
                self.source() == old(self).source(),
                ts == old(self).tokens(),
                self.cursor() > start,
                grammar::variable_list(ts, start + 1) == after(
                    list_view(variables),
                    grammar::variable_list(ts, self.cursor()),
                ),
            decreases left(ts, self.cursor()),
        {
            self.expect_token(Token::Dollar(Location::ignored()))?;
            let variable = VariableNode { name: self.parse_name()? };
            self.expect_token(Token::Colon(Location::ignored()))?;
            let variable_type = self.parse_field_type()?;
            let default_value = self.parse_value()?;
            let definition = VariableDefinitionNode { variable, variable_type, default_value };
            proof {
                lemma_views_push(variables@, definition);
                lemma_after_push(
                    list_view(variables),
                    definition@,
                    grammar::variable_list(ts, self.cursor()),
                );
                lemma_after_push(
                    list_view(variables),
                    definition@,
                    done(Seq::empty(), self.cursor() + 1),
                );
            }
            variables.push(definition);
            if let Some(_) = self.expect_optional_token(&Token::CloseParen(Location::ignored())) {
                return Ok(Some(variables));
            }
        }
    }

    /// A selection set.
    #[verifier::loop_isolation(false)]
    pub fn parse_selection_set(&mut self) -> (selections: ParseResult<Vec<Selection>>)
        requires
            old(self).wf(),
        ensures
            final(self).follows(
                *old(self),
                ok_list_view(selections),
                grammar::selection_set(old(self).tokens(), old(self).cursor()),
            ),
            final(self).advanced(*old(self), ok_list_view(selections)),
        decreases left(old(self).tokens(), old(self).cursor()), 0int,
    {
        let ghost ts = self.tokens();
        let ghost start = self.cursor();
        self.expect_token(Token::OpenBrace(Location::ignored()))?;
        let mut selections: Vec<Selection> = Vec::new();
        proof {
            lemma_views_empty::<Selection>();
            lemma_after_nothing(grammar::selection_list(ts, start + 1));
        }
        loop
            invariant
                self.wf(),
                self.source() == old(self).source(),
                ts == old(self).tokens(),
                start == old(self).cursor(),
                in_stream(ts, start),
                self.cursor() > start,
                grammar::selection_list(ts, start + 1) == after(
                    list_view(selections),
                    grammar::selection_list(ts, self.cursor()),
                ),
            decreases left(ts, self.cursor()),
        {
            let selection = self.parse_selection()?;
            proof {
                lemma_views_push(selections@, selection);
                lemma_after_push(
                    list_view(selections),
                    selection@,
                    grammar::selection_list(ts, self.cursor()),
                );
                lemma_after_push(
                    list_view(selections),
                    selection@,
                    done(Seq::empty(), self.cursor() + 1),
                );
            }
            selections.push(selection);
            if let Some(_) = self.expect_optional_token(&Token::CloseBrace(Location::ignored())) {
                return Ok(selections);
            }
        }
    }

    /// One selection.
    pub fn parse_selection(&mut self) -> (selection: ParseResult<Selection>)
        requires
            old(self).wf(),
        ensures
            final(self).follows(
                *old(self),
                ok_view(selection),
                grammar::selection(old(self).tokens(), old(self).cursor()),
            ),
            final(self).advanced(*old(self), ok_view(selection)),
        decreases left(old(self).tokens(), old(self).cursor()), 2int,
    {
        if let Some(_) = self.expect_optional_token(&Token::Ellipsis(Location::ignored())) {
            let spread = self.parse_fragment_spread()?;
            proof {
                lemma_selection_view(Selection::Fragment(spread));
            }
            Ok(Selection::Fragment(spread))
        } else {
            let field = self.parse_field_selection()?;
            proof {
                lemma_selection_view(Selection::Field(field));
            }
            Ok(Selection::Field(field))
        }
    }

    /// The selection of a field.
    pub fn parse_field_selection(&mut self) -> (field: ParseResult<FieldNode>)
        requires
            old(self).wf(),
        ensures
            final(self).follows(
                *old(self),
                match field {
                    Ok(node) => Ok::<SpecSelection, SpecParseError>(
                        selection_shape(Selection::Field(node)),
                    ),
                    Err(error) => Err::<SpecSelection, SpecParseError>(error@),
                },
                grammar::field_selection(old(self).tokens(), old(self).cursor()),
            ),
            field is Ok ==> in_stream(old(self).tokens(), old(self).cursor())
                && final(self).cursor() > old(self).cursor(),
        decreases left(old(self).tokens(), old(self).cursor()), 1int,
    {
        let first = self.parse_name()?;
        let (name, alias) = if let Some(_) = self.expect_optional_token(
            &Token::Colon(Location::ignored()),
        ) {
            (self.parse_name()?, Some(first))
        } else {
            (first, None)
        };
        let arguments = self.parse_call_arguments()?;
        let directives = self.parse_directives()?;
        let selections = if self.peek_kind_is(TokenKind::OpenBrace) {
            Some(self.parse_selection_set()?)
        } else {
            None
        };
        Ok(FieldNode { name, alias, arguments, directives, selections })
    }

    /// The spread of a fragment, from behind the three dots on.
    pub fn parse_fragment_spread(&mut self) -> (spread: ParseResult<FragmentSpread>)
        requires
            old(self).wf(),
        ensures
            final(self).follows(
                *old(self),
                match spread {
                    Ok(node) => Ok::<SpecSelection, SpecParseError>(
                        selection_shape(Selection::Fragment(node)),
                    ),
                    Err(error) => Err::<SpecSelection, SpecParseError>(error@),
                },
                grammar::fragment_spread(old(self).tokens(), old(self).cursor()),
            ),
        decreases left(old(self).tokens(), old(self).cursor()), 1int,
    {
        let on = self.peek_word("on");
        if !on && self.peek_kind_is(TokenKind::Name) {
            let name = self.parse_name()?;
            let directives = self.parse_directives()?;
            Ok(FragmentSpread::Node(FragmentSpreadNode { name, directives }))
        } else {
            let node_type = if on {
                self.unwrap_next_token()?;
                Some(NamedTypeNode { name: self.parse_name()? })
            } else {
                None
            };
            let directives = self.parse_directives()?;
            let selections = self.parse_selection_set()?;
            Ok(
                FragmentSpread::Inline(
                    InlineFragmentSpreadNode { node_type, directives, selections },
                ),
            )
        }
    }

    /// An operation, from behind its keyword on.
    pub fn parse_operation(&mut self, operation: Operation) -> (definition: ParseResult<
        OperationTypeNode,
    >)
        requires
            old(self).wf(),
        ensures
            final(self).follows(
                *old(self),
                ok_view(definition),
                grammar::operation(old(self).tokens(), old(self).cursor(), operation),
            ),
    {
        let name = if self.peek_kind_is(TokenKind::Name) {
            Some(self.parse_name()?)
        } else {
            None
        };
        let variables = self.parse_variable_definitions()?;
        let selections = self.parse_selection_set()?;
        Ok(
            match operation {
                Operation::Query => OperationTypeNode::Query(
                    QueryDefinitionNode { name, variables, selections },
                ),
                Operation::Mutation => OperationTypeNode::Mutation(
                    MutationDefinitionNode { name, variables, selections },
                ),
                Operation::Subscription => OperationTypeNode::Subscription(
                    SubscriptionDefinitionNode { name, variables, selections },
                ),
            },
        )
    }

    /// The definition of a fragment, from behind the word `fragment` on.
    pub fn parse_fragment(&mut self) -> (definition: ParseResult<FragmentDefinitionNode>)
        requires
            old(self).wf(),
        ensures
            final(self).follows(
                *old(self),
                ok_view(definition),
                grammar::fragment_definition(old(self).tokens(), old(self).cursor()),
            ),
    {
        let name = self.parse_name()?;
        let on = self.parse_name()?;
        if !same_text(on.value.as_str(), "on") {
            return Err(ParseError::BadValue);
        }
        let node_type = NamedTypeNode { name: self.parse_name()? };
        let directives = self.parse_directives()?;
        let selections = self.parse_selection_set()?;
        Ok(FragmentDefinitionNode { name, node_type, directives, selections })
    }

    /// The error that says which token stood where another was asked for.
    pub fn parse_error(&mut self, expected: String, received: Token) -> (error: ParseError)
        ensures
            *final(self) == *old(self),
            error@ == (SpecParseError::UnexpectedToken {
                expected: expected@,
                received: received@.kind().text(),
            }),
    {
        ParseError::UnexpectedToken { expected, received: received.to_string() }
    }

    /// Takes the next token, which must be of the category of `tok`.
    pub fn expect_token(&mut self, tok: Token) -> (token: ParseResult<Token>)
        requires
            old(self).wf(),
        ensures
            final(self).follows(
                *old(self),
                ok_view(token),
                grammar::expect(old(self).tokens(), old(self).cursor(), tok@.kind()),
            ),
    {
        if let Some(next) = self.pull() {
            match next {
                Ok(actual) => {
                    if actual.is_same_type(&tok) {
                        Ok(actual)
                    } else {
                        Err(
                            ParseError::UnexpectedToken {
                                expected: tok.to_string(),
                                received: actual.to_string(),
                            },
                        )
                    }
                },
                Err(e) => Err(ParseError::LexError(e)),
            }
        } else {
            Err(ParseError::EOF)
        }
    }

    /// Takes the next token if it is of the category of `tok`, and leaves it
    /// where it is if it is not.
    pub fn expect_optional_token(&mut self, tok: &Token) -> (token: Option<Token>)
        requires
            old(self).wf(),
        ensures
            final(self).wf(),
            final(self).source() == old(self).source(),
            match token {
                Some(found) => accepts(old(self).tokens(), old(self).cursor(), tok@.kind())
                    && Ok::<SpecToken, LexErrorKind>(found@) == item_at(
                    old(self).tokens(),
                    old(self).cursor(),
                ) && final(self).cursor() == old(self).cursor() + 1,
                None => !accepts(old(self).tokens(), old(self).cursor(), tok@.kind())
                    && final(self).cursor() == old(self).cursor(),
            },
    {
        self.fill();
        let same = match &self.peeked {
            Some(Ok(actual)) => actual.is_same_type(tok),
            _ => false,
        };
        if same {
            match self.pull() {
                Some(Ok(actual)) => Some(actual),
                _ => None,
            }
        } else {
            None
        }
    }

    /// The next token, which stays where it is.
    pub fn unwrap_peeked_token(&mut self) -> (token: ParseResult<&Token>)
        requires
            old(self).wf(),
        ensures
            final(self).wf(),
            final(self).source() == old(self).source(),
            final(self).cursor() == old(self).cursor(),
            match peek(old(self).tokens(), old(self).cursor()) {
                Ok(expected) => token matches Ok(found) && found@ == expected,
                Err(expected) => token matches Err(error) && error@ == expected,
            },
    {
        self.fill();
        match &self.peeked {
            Some(res) => {
                match res {
                    Ok(tok) => Ok(tok),
                    Err(lex_error) => Err(ParseError::LexError(*lex_error)),
                }
            },
            None => Err(ParseError::EOF),
        }
    }

    /// Takes the next token, whatever it is.
    pub fn unwrap_next_token(&mut self) -> (token: ParseResult<Token>)
        requires
            old(self).wf(),
        ensures
            final(self).follows(
                *old(self),
                ok_view(token),
                next_token(old(self).tokens(), old(self).cursor()),
            ),
    {
        match self.pull() {
            Some(res) => {
                match res {
                    Ok(tok) => Ok(tok),
                    Err(lex_error) => Err(ParseError::LexError(lex_error)),
                }
            },
            None => Err(ParseError::EOF),
        }
    }
}

} // verus!
