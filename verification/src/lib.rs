//! A front end for GraphQL: source text to tokens, tokens to a typed tree.
//!
//! [`parse`] turns the text of a schema or of a query into a [`Document`].
//! The lexical grammar is stated in [`lexical`], the grammar of documents in
//! [`grammar`]; the lexer and the parser are proved to give what they state.

use vstd::prelude::*;
use crate::ast::{ok_view, AST};
use crate::document::Document;
use crate::error::ParseResult;
use crate::lexical::token_stream;

pub mod ast;
pub mod block_string;
pub mod document;
pub mod error;
pub mod grammar;
pub mod laws;
pub mod lexer;
pub mod lexical;
pub mod model;
pub mod nodes;
pub mod places;
pub mod progress;
pub mod text;
pub mod token;

verus! {

/// Parses a text into a document: the one that the grammar gives for the
/// tokens of the text, or the first failure that the grammar meets.
pub fn parse(query: &str) -> (document: ParseResult<Document>)
    ensures
        ok_view(document) == grammar::document(token_stream(query@)),
{
    let mut ast = AST::new(query)?;
    let document = ast.parse()?;
    Ok(document)
}

} // verus!
