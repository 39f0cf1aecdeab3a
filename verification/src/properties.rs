//! Keys and values of properties, and what a property lookup can find.

use vstd::prelude::*;
use crate::ids::{FunctionId, TypeId};

verus! {

#[derive(Clone, Copy, Debug, PartialEq, Eq, Structural)]
pub enum Publicity {
    Private,
    Public,
}

/// What a property is stored under.
#[derive(Clone, Debug)]
pub enum PropertyKey {
    /// A name known to the checker. An index is held as its decimal digits.
    String(String),
    /// A key that is only known as a type.
    Type(TypeId),
}

/// A key, with its name as text.
pub enum PropertyKeyView {
    String(Seq<char>),
    Type(TypeId),
}

impl View for PropertyKey {
    type V = PropertyKeyView;

    open spec fn view(&self) -> PropertyKeyView {
        match self {
            PropertyKey::String(name) => PropertyKeyView::String(name@),
            PropertyKey::Type(ty) => PropertyKeyView::Type(*ty),
        }
    }
}

impl PropertyKey {
    /// Whether two keys name the same property: the same text, or the same type.
    pub fn is_same_as(&self, other: &PropertyKey) -> (same: bool)
        ensures
            same == (self@ == other@),
    {
        match (self, other) {
            (PropertyKey::String(a), PropertyKey::String(b)) => *a == *b,
            (PropertyKey::Type(a), PropertyKey::Type(b)) => *a == *b,
            _ => false,
        }
    }
}

/// What is stored under a key.
#[derive(Clone, Copy, Debug, PartialEq, Eq, Structural)]
pub enum PropertyValue {
    Value(TypeId),
    Getter(FunctionId),
    Setter(FunctionId),
    Deleted,
}

/// One property of an object or of an anonymous interface.
pub type Property = (Publicity, PropertyKey, PropertyValue);

/// The properties of one object, in the order they were defined.
pub type Properties = Vec<Property>;

/// A property, with the name of its key as text.
pub type PropertyView = (Publicity, PropertyKeyView, PropertyValue);

pub open spec fn property_view(property: Property) -> PropertyView {
    (property.0, property.1@, property.2)
}

pub open spec fn properties_view(properties: Seq<Property>) -> Seq<PropertyView> {
    properties.map_values(|property: Property| property_view(property))
}

/// An answer that may depend on a condition or on generic arguments.
#[derive(Debug)]
pub enum Logical {
    /// It holds as it stands.
    Pure(PropertyValue),
    /// One of two answers, by a condition.
    Or { condition: TypeId, left: Box<Logical>, right: Box<Logical> },
    /// An answer under the arguments of a partially applied generic.
    Implies { on: Box<Logical>, antecedent: TypeId },
    /// An answer that depends on which key of a mapped type is asked for.
    BasedOnKey { on: TypeId, key: TypeId },
}

/// What an unbound property lookup returns when it finds something.
#[derive(Debug)]
pub enum LogicalOrValid {
    Logical(Logical),
    /// The property is there, but its type has to be computed at the access.
    NeedsCalculation(TypeId),
}

/// The lookup found no such property.
#[derive(Clone, Copy, Debug, PartialEq, Eq, Structural)]
pub struct MissingProperty;

} // verus!
