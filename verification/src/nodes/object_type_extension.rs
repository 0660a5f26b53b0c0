//! The extension of an object type.

use vstd::prelude::*;
use crate::model::{opt_list_view, opt_view, SpecDefinition};
use crate::nodes::{Description, Directives, FieldDefinitionNode, NameNode, NamedTypeNode};

verus! {

/// What `extend type` adds to an object type: interfaces, directives and
/// fields, each of which may be left out.
#[derive(Debug, PartialEq)]
pub struct ObjectTypeExtensionNode {
    pub description: Description,
    pub name: NameNode,
    pub interfaces: Option<Vec<NamedTypeNode>>,
    pub directives: Directives,
    pub fields: Option<Vec<FieldDefinitionNode>>,
}

impl View for ObjectTypeExtensionNode {
    type V = SpecDefinition;

    open spec fn view(&self) -> SpecDefinition {
        SpecDefinition::ObjectExtension {
            description: opt_view(self.description),
            name: self.name@,
            interfaces: opt_list_view(self.interfaces),
            directives: opt_list_view(self.directives),
            fields: opt_list_view(self.fields),
        }
    }
}

} // verus!
