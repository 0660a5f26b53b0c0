//! The root of the syntax tree.

use vstd::prelude::*;
use crate::model::{views, SpecDocument};
use crate::nodes::DefinitionNode;

verus! {

/// A document: its definitions in the order of the source text.
#[derive(Debug, PartialEq)]
pub struct Document {
    pub definitions: Vec<DefinitionNode>,
}

impl View for Document {
    type V = SpecDocument;

    open spec fn view(&self) -> SpecDocument {
        SpecDocument { definitions: views(self.definitions@) }
    }
}

impl Document {
    /// The document of the given definitions.
    pub fn new(definitions: Vec<DefinitionNode>) -> (document: Document)
        ensures
            document.definitions == definitions,
    {
        Document { definitions }
    }
}

} // verus!
