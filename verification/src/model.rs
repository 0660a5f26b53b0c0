//! The mathematical model of the syntax tree: text is a sequence of
//! characters, a list is a sequence, and a definition is one of ten shapes.

use vstd::prelude::*;
use crate::nodes::Operation;

verus! {

/// A string literal: its value, and whether it was written as a block string.
pub ghost struct SpecString {
    pub value: Seq<char>,
    pub block: bool,
}

pub type SpecDescription = Option<SpecString>;

/// A type reference. `NonNull` wraps what stands before the `!`.
pub ghost enum SpecType {
    Named(Seq<char>),
    List(Box<SpecType>),
    NonNull(Box<SpecType>),
}

/// A value. A float is the text of its literal.
pub ghost enum SpecValue {
    Int(i64),
    Float(Seq<char>),
    Str(SpecString),
    Bool(bool),
    Null,
    Enum(Seq<char>),
    Variable(Seq<char>),
}

pub ghost struct SpecArgument {
    pub name: Seq<char>,
    pub value: SpecValue,
}

pub ghost struct SpecDirective {
    pub name: Seq<char>,
    pub arguments: Option<Seq<SpecArgument>>,
}

pub type SpecDirectives = Option<Seq<SpecDirective>>;

/// An argument of a field definition, or a field of an input type.
pub ghost struct SpecInputValue {
    pub description: SpecDescription,
    pub name: Seq<char>,
    pub input_type: SpecType,
    pub default_value: Option<SpecValue>,
    pub directives: SpecDirectives,
}

/// A field of an object type or of an interface.
pub ghost struct SpecField {
    pub description: SpecDescription,
    pub name: Seq<char>,
    pub arguments: Option<Seq<SpecInputValue>>,
    pub field_type: SpecType,
}

pub ghost struct SpecEnumValue {
    pub description: SpecDescription,
    pub name: Seq<char>,
    pub directives: SpecDirectives,
}

/// A root operation of a schema and the type that serves it.
pub ghost struct SpecOperationType {
    pub operation: Operation,
    pub node_type: Seq<char>,
}

pub ghost struct SpecVariable {
    pub variable: Seq<char>,
    pub variable_type: SpecType,
    pub default_value: Option<SpecValue>,
}

#[allow(inconsistent_fields)]
pub ghost enum SpecSelection {
    Field {
        name: Seq<char>,
        alias: Option<Seq<char>>,
        arguments: Option<Seq<SpecArgument>>,
        directives: SpecDirectives,
        selections: Option<Seq<SpecSelection>>,
    },
    Spread { name: Seq<char>, directives: SpecDirectives },
    Inline {
        node_type: Option<Seq<char>>,
        directives: SpecDirectives,
        selections: Seq<SpecSelection>,
    },
}

#[allow(inconsistent_fields)]
pub ghost enum SpecDefinition {
    Schema {
        description: SpecDescription,
        directives: SpecDirectives,
        operations: Seq<SpecOperationType>,
    },
    Object {
        description: SpecDescription,
        name: Seq<char>,
        interfaces: Option<Seq<Seq<char>>>,
        directives: SpecDirectives,
        fields: Seq<SpecField>,
    },
    Interface {
        description: SpecDescription,
        name: Seq<char>,
        directives: SpecDirectives,
        fields: Seq<SpecField>,
    },
    Union {
        description: SpecDescription,
        name: Seq<char>,
        directives: SpecDirectives,
        types: Seq<Seq<char>>,
    },
    Enum {
        description: SpecDescription,
        name: Seq<char>,
        directives: SpecDirectives,
        values: Seq<SpecEnumValue>,
    },
    Scalar { description: SpecDescription, name: Seq<char>, directives: SpecDirectives },
    Input { description: SpecDescription, name: Seq<char>, fields: Seq<SpecInputValue> },
    ObjectExtension {
        description: SpecDescription,
        name: Seq<char>,
        interfaces: Option<Seq<Seq<char>>>,
        directives: SpecDirectives,
        fields: Option<Seq<SpecField>>,
    },
    Operation {
        operation: Operation,
        name: Option<Seq<char>>,
        variables: Option<Seq<SpecVariable>>,
        selections: Seq<SpecSelection>,
    },
    Fragment {
        name: Seq<char>,
        node_type: Seq<char>,
        directives: SpecDirectives,
        selections: Seq<SpecSelection>,
    },
}

impl SpecDefinition {
    /// The description that a definition of the type system carries.
    pub open spec fn description(self) -> SpecDescription {
        match self {
            SpecDefinition::Schema { description, .. } => description,
            SpecDefinition::Object { description, .. } => description,
            SpecDefinition::Interface { description, .. } => description,
            SpecDefinition::Union { description, .. } => description,
            SpecDefinition::Enum { description, .. } => description,
            SpecDefinition::Scalar { description, .. } => description,
            SpecDefinition::Input { description, .. } => description,
            SpecDefinition::ObjectExtension { description, .. } => description,
            SpecDefinition::Operation { .. } => None,
            SpecDefinition::Fragment { .. } => None,
        }
    }
}

pub ghost struct SpecDocument {
    pub definitions: Seq<SpecDefinition>,
}

/// The models of the items of a list, in order.
pub open spec fn views<T: View>(items: Seq<T>) -> Seq<T::V> {
    Seq::new(items.len(), |k: int| items[k]@)
}

/// The models of the items of a vector.
pub open spec fn list_view<T: View>(items: Vec<T>) -> Seq<T::V> {
    views(items@)
}

/// The model of an item that may be missing.
pub open spec fn opt_view<T: View>(item: Option<T>) -> Option<T::V> {
    match item {
        Some(item) => Some(item@),
        None => None,
    }
}

/// The models of the items of a vector that may be missing.
pub open spec fn opt_list_view<T: View>(items: Option<Vec<T>>) -> Option<Seq<T::V>> {
    match items {
        Some(items) => Some(views(items@)),
        None => None,
    }
}

/// The models of a list with one item more.
pub proof fn lemma_views_push<T: View>(items: Seq<T>, item: T)
    ensures
        views(items.push(item)) == views(items).push(item@),
{
    assert(views(items.push(item)) =~= views(items).push(item@));
}

/// The empty list has no models.
pub proof fn lemma_views_empty<T: View>()
    ensures
        views(Seq::<T>::empty()) == Seq::<T::V>::empty(),
{
    assert(views(Seq::<T>::empty()) =~= Seq::<T::V>::empty());
}

} // verus!
