//! The descriptor of a type: what an identifier resolves to.

use vstd::prelude::*;
use crate::constant::Constant;
use crate::functions::ThisValue;
use crate::ids::{ClosureId, FunctionId, SpanWithSource, TypeId, VariableId};
use crate::properties::{Properties, Property, PropertyKey, PropertyValue};
use crate::regexp::RegExp;

verus! {

/// What a free variable refers to.
#[derive(Clone, Copy, Debug, PartialEq, Eq, Structural)]
pub enum RootReference {
    Variable(VariableId),
    This,
}

/// The role of a polymorphic root.
#[derive(Clone, Debug)]
pub enum PolyNature {
    Parameter { fixed_to: TypeId, variable_id: VariableId },
    FreeVariable { reference: RootReference, based_on: TypeId },
    StructureGeneric { name: String, extends: TypeId },
    FunctionGeneric { name: String, extends: TypeId },
    MappedGeneric { name: String, extends: TypeId },
    /// An unknown of a given base, introduced during inference.
    Open(TypeId),
    /// Stands in where synthesis went wrong, and keeps what was known.
    Error(TypeId),
}

impl PolyNature {
    /// The bound that every instance of the root satisfies.
    pub open spec fn constraint(self) -> TypeId {
        match self {
            PolyNature::Parameter { fixed_to, .. } => fixed_to,
            PolyNature::FreeVariable { based_on, .. } => based_on,
            PolyNature::StructureGeneric { extends, .. } => extends,
            PolyNature::FunctionGeneric { extends, .. } => extends,
            PolyNature::MappedGeneric { extends, .. } => extends,
            PolyNature::Open(base) => base,
            PolyNature::Error(base) => base,
        }
    }

    pub fn get_constraint(&self) -> (constraint: TypeId)
        ensures
            constraint == self.constraint(),
    {
        match self {
            PolyNature::Parameter { fixed_to, .. } => *fixed_to,
            PolyNature::FreeVariable { based_on, .. } => *based_on,
            PolyNature::StructureGeneric { extends, .. } => *extends,
            PolyNature::FunctionGeneric { extends, .. } => *extends,
            PolyNature::MappedGeneric { extends, .. } => *extends,
            PolyNature::Open(base) => *base,
            PolyNature::Error(base) => *base,
        }
    }
}

/// How a property access came about.
#[derive(Clone, Copy, Debug, PartialEq, Eq, Structural)]
pub enum AccessMode {
    Regular,
    /// An indexed access written in a type annotation.
    FromTypeAnnotation,
    DoNotBindThis,
}

#[derive(Clone, Copy, Debug, PartialEq, Eq, Structural)]
pub struct TypeExtends {
    pub item: TypeId,
    pub extends: TypeId,
}

/// A symbolic type derived from others.
#[derive(Clone, Debug)]
pub enum Constructor {
    ConditionalResult {
        condition: TypeId,
        truthy_result: TypeId,
        otherwise_result: TypeId,
        /// The union of the two results.
        result_union: TypeId,
    },
    Property { on: TypeId, under: PropertyKey, result: TypeId, mode: AccessMode },
    KeyOf(TypeId),
    TypeExtends(TypeExtends),
}

/// The arguments that a prototype is applied to.
#[derive(Clone, Debug)]
pub enum GenericArguments {
    /// For each parameter, the argument and where it was written.
    ExplicitRestrictions(Vec<(TypeId, (TypeId, SpanWithSource))>),
    Closure(Vec<ClosureId>),
    LookUp { on: TypeId },
}

/// An instantiation: a prototype and the bindings of its parameters.
#[derive(Clone, Debug)]
pub struct PartiallyAppliedGenerics {
    pub on: TypeId,
    pub arguments: GenericArguments,
}

/// How a parameter of a prototype is projected from an instance.
#[derive(Clone, Copy, Debug, PartialEq, Eq, Structural)]
pub enum LookUpGeneric {
    /// The union of the instance's number-keyed properties.
    NumberPropertyOfSelf,
    /// The type under a fixed key of the instance.
    PropertyOfSelf(TypeId),
}

/// For one prototype: the rule of each of its parameters.
pub type LookUpGenericMap = Vec<(TypeId, LookUpGeneric)>;

#[derive(Clone, Debug)]
pub enum ObjectNature {
    /// An object made by running code. Its properties live in the environment.
    RealDeal,
    /// An object type written as an annotation, with its properties.
    AnonymousTypeAnnotation(Properties),
}

/// A built-in object that is not a plain class instance.
#[derive(Clone, Debug)]
pub enum SpecialObject {
    Null,
    Function(FunctionId, ThisValue),
    RegularExpression(RegExp),
}

/// What one identifier resolves to.
#[derive(Clone, Debug)]
pub enum Type {
    Interface { name: String, parameters: Option<Vec<TypeId>>, extends: Option<TypeId> },
    Class { name: String, type_parameters: Option<Vec<TypeId>> },
    AliasTo { to: TypeId, name: String, parameters: Option<Vec<TypeId>> },
    Constant(Constant),
    Or(TypeId, TypeId),
    And(TypeId, TypeId),
    Object(ObjectNature),
    SpecialObject(SpecialObject),
    /// An unapplied function: no `this` bound yet.
    FunctionReference(FunctionId),
    RootPolyType(PolyNature),
    PartiallyAppliedGenerics(PartiallyAppliedGenerics),
    Constructor(Constructor),
    /// A flow-refined view of `from`.
    Narrowed { from: TypeId, narrowed_to: TypeId },
}

/// Which variant a descriptor is. A registered descriptor never changes its kind.
#[derive(Clone, Copy, Debug, PartialEq, Eq, Structural)]
pub enum TypeKind {
    Interface,
    Class,
    AliasTo,
    Constant,
    Or,
    And,
    Object,
    SpecialObject,
    FunctionReference,
    RootPolyType,
    PartiallyAppliedGenerics,
    Constructor,
    Narrowed,
}

/// Whether each type of a list that may be missing is below `bound`.
pub open spec fn list_below(list: Option<Vec<TypeId>>, bound: int) -> bool {
    list matches Some(list) ==> forall|i: int| 0 <= i < list@.len() ==> #[trigger] list@[i] < bound
}

/// Whether what the key and the value of a property refer to is below `bound`.
pub open spec fn property_below(property: Property, bound: int) -> bool {
    &&& property.1 matches PropertyKey::Type(key) ==> key < bound
    &&& property.2 matches PropertyValue::Value(value) ==> value < bound
}

impl GenericArguments {
    /// Whether every parameter and argument is below `bound`.
    pub open spec fn refers_below(self, bound: int) -> bool {
        match self {
            GenericArguments::ExplicitRestrictions(list) => forall|i: int|
                0 <= i < list@.len() ==> (#[trigger] list@[i]).0 < bound && list@[i].1.0 < bound,
            GenericArguments::Closure(_) => true,
            GenericArguments::LookUp { on } => on < bound,
        }
    }
}

impl Constructor {
    /// Whether every type that the constructor refers to is below `bound`:
    /// its operands, and the key of a property where that is a type.
    pub open spec fn refers_below(self, bound: int) -> bool {
        &&& self.operands_below(bound)
        &&& self matches Constructor::Property { under: PropertyKey::Type(key), .. } ==> key < bound
    }

    /// Whether every operand is an identifier below `bound`.
    pub open spec fn operands_below(self, bound: int) -> bool {
        match self {
            Constructor::ConditionalResult {
                condition,
                truthy_result,
                otherwise_result,
                result_union,
            } => condition < bound && truthy_result < bound && otherwise_result < bound
                && result_union < bound,
            Constructor::Property { on, result, .. } => on < bound && result < bound,
            Constructor::KeyOf(of) => of < bound,
            Constructor::TypeExtends(TypeExtends { item, extends }) => item < bound && extends
                < bound,
        }
    }
}

impl Type {
    /// Whether the operands of a derived descriptor are all identifiers below
    /// `bound`. It holds of every other descriptor.
    pub open spec fn operands_below(self, bound: int) -> bool {
        match self {
            Type::Or(left, right) => left < bound && right < bound,
            Type::And(left, right) => left < bound && right < bound,
            Type::Narrowed { from, narrowed_to } => from < bound && narrowed_to < bound,
            Type::Constructor(constructor) => constructor.operands_below(bound),
            _ => true,
        }
    }

    /// Whether every type that the descriptor refers to is below `bound`.
    pub open spec fn refers_below(self, bound: int) -> bool {
        match self {
            Type::Interface { parameters, extends, .. } => list_below(parameters, bound) && (
            extends matches Some(extends) ==> extends < bound),
            Type::Class { type_parameters, .. } => list_below(type_parameters, bound),
            Type::AliasTo { to, parameters, .. } => to < bound && list_below(parameters, bound),
            Type::Constant(_) => true,
            Type::Or(left, right) => left < bound && right < bound,
            Type::And(left, right) => left < bound && right < bound,
            Type::Object(ObjectNature::RealDeal) => true,
            Type::Object(ObjectNature::AnonymousTypeAnnotation(properties)) => forall|i: int|
                0 <= i < properties@.len() ==> property_below(#[trigger] properties@[i], bound),
            Type::SpecialObject(SpecialObject::Function(_, ThisValue::Passed(this))) => this
                < bound,
            Type::SpecialObject(_) => true,
            Type::FunctionReference(_) => true,
            Type::RootPolyType(nature) => nature.constraint() < bound,
            Type::PartiallyAppliedGenerics(applied) => applied.on < bound
                && applied.arguments.refers_below(bound),
            Type::Constructor(constructor) => constructor.refers_below(bound),
            Type::Narrowed { from, narrowed_to } => from < bound && narrowed_to < bound,
        }
    }

    /// The alias with `to` as its target. Any other descriptor is itself.
    pub open spec fn with_alias_target(self, to: TypeId) -> Type {
        match self {
            Type::AliasTo { name, parameters, .. } => Type::AliasTo { to, name, parameters },
            other => other,
        }
    }

    /// The interface with `extends` in place of what it extended. An interface
    /// that extends nothing stays so, and any other descriptor is itself.
    pub open spec fn with_interface_extends(self, extends: TypeId) -> Type {
        match self {
            Type::Interface { name, parameters, extends: Some(_) } => Type::Interface {
                name,
                parameters,
                extends: Some(extends),
            },
            other => other,
        }
    }

    /// The structure generic with `extends` as its bound. Any other descriptor is itself.
    pub open spec fn with_generic_extends(self, extends: TypeId) -> Type {
        match self {
            Type::RootPolyType(PolyNature::StructureGeneric { name, .. }) => Type::RootPolyType(
                PolyNature::StructureGeneric { name, extends },
            ),
            other => other,
        }
    }

    /// The parameter root fixed to `fixed_to`. Any other descriptor is itself.
    pub open spec fn with_parameter_constraint(self, fixed_to: TypeId) -> Type {
        match self {
            Type::RootPolyType(PolyNature::Parameter { variable_id, .. }) => Type::RootPolyType(
                PolyNature::Parameter { fixed_to, variable_id },
            ),
            other => other,
        }
    }

    pub open spec fn is_structure_generic(self) -> bool {
        self matches Type::RootPolyType(PolyNature::StructureGeneric { .. })
    }

    pub open spec fn is_parameter(self) -> bool {
        self matches Type::RootPolyType(PolyNature::Parameter { .. })
    }

    pub open spec fn is_function_generic(self) -> bool {
        self matches Type::RootPolyType(PolyNature::FunctionGeneric { .. })
    }

    pub open spec fn kind(self) -> TypeKind {
        match self {
            Type::Interface { .. } => TypeKind::Interface,
            Type::Class { .. } => TypeKind::Class,
            Type::AliasTo { .. } => TypeKind::AliasTo,
            Type::Constant(_) => TypeKind::Constant,
            Type::Or(..) => TypeKind::Or,
            Type::And(..) => TypeKind::And,
            Type::Object(_) => TypeKind::Object,
            Type::SpecialObject(_) => TypeKind::SpecialObject,
            Type::FunctionReference(_) => TypeKind::FunctionReference,
            Type::RootPolyType(_) => TypeKind::RootPolyType,
            Type::PartiallyAppliedGenerics(_) => TypeKind::PartiallyAppliedGenerics,
            Type::Constructor(_) => TypeKind::Constructor,
            Type::Narrowed { .. } => TypeKind::Narrowed,
        }
    }

    pub fn get_kind(&self) -> (kind: TypeKind)
        ensures
            kind == self.kind(),
    {
        match self {
            Type::Interface { .. } => TypeKind::Interface,
            Type::Class { .. } => TypeKind::Class,
            Type::AliasTo { .. } => TypeKind::AliasTo,
            Type::Constant(_) => TypeKind::Constant,
            Type::Or(..) => TypeKind::Or,
            Type::And(..) => TypeKind::And,
            Type::Object(_) => TypeKind::Object,
            Type::SpecialObject(_) => TypeKind::SpecialObject,
            Type::FunctionReference(_) => TypeKind::FunctionReference,
            Type::RootPolyType(_) => TypeKind::RootPolyType,
            Type::PartiallyAppliedGenerics(_) => TypeKind::PartiallyAppliedGenerics,
            Type::Constructor(_) => TypeKind::Constructor,
            Type::Narrowed { .. } => TypeKind::Narrowed,
        }
    }
}

} // verus!
