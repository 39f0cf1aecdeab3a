//! Indexed access written in a type annotation, such as `T["key"]`.

use vstd::prelude::*;
use crate::constant::Constant;
use crate::functions::FunctionType;
use crate::ids::{
    FunctionId, TypeId, ANY_TYPE, BOOLEAN_TYPE, MAX_TYPE_COUNT, NEVER_TYPE, STRING_TYPE,
    UNDEFINED_TYPE, UNIMPLEMENTED_ERROR_TYPE,
};
use crate::number::{integer_of_number, number_as_integer};
use crate::objects::{last_defined, Environment};
use crate::properties::{
    Logical, LogicalOrValid, MissingProperty, PropertyKey, PropertyKeyView, PropertyValue,
    Publicity,
};
use crate::store::TypeStore;
use crate::text::{decimal_string, decimal_text};
use crate::types::{AccessMode, Constructor, Type, TypeExtends};

verus! {

impl Constructor {
    /// The bound of what the constructor stands for.
    pub open spec fn constraint(self) -> TypeId {
        match self {
            Constructor::ConditionalResult { result_union, .. } => result_union,
            Constructor::Property { result, .. } => result,
            Constructor::KeyOf(_) => STRING_TYPE,
            Constructor::TypeExtends(_) => BOOLEAN_TYPE,
        }
    }

    pub fn get_constraint(&self) -> (constraint: TypeId)
        ensures
            constraint == self.constraint(),
    {
        match self {
            Constructor::ConditionalResult { result_union, .. } => *result_union,
            Constructor::Property { result, .. } => *result,
            Constructor::KeyOf(_) => STRING_TYPE,
            Constructor::TypeExtends(_) => BOOLEAN_TYPE,
        }
    }
}

/// The bound of the type `id`, where it is polymorphic: a root, a
/// constructor or a narrowing. Any other type has none.
pub open spec fn constraint_of(types: Seq<Type>, id: TypeId) -> Option<TypeId> {
    match types[id as int] {
        Type::RootPolyType(nature) => Some(nature.constraint()),
        Type::Constructor(constructor) => Some(constructor.constraint()),
        Type::Narrowed { narrowed_to, .. } => Some(narrowed_to),
        _ => None,
    }
}

pub fn get_constraint(on: TypeId, types: &TypeStore) -> (constraint: Option<TypeId>)
    requires
        types@.contains(on),
    ensures
        constraint == constraint_of(types@.types, on),
{
    match types.get_type_by_id(on) {
        Type::RootPolyType(nature) => Some(nature.get_constraint()),
        Type::Constructor(constructor) => Some(constructor.get_constraint()),
        Type::Narrowed { narrowed_to, .. } => Some(*narrowed_to),
        _ => None,
    }
}

/// The key that the type `id` stands for: the text of a text constant, the
/// decimal digits of a number constant that is an index, and else the type itself.
pub open spec fn key_of_type(types: Seq<Type>, id: TypeId) -> PropertyKeyView {
    match types[id as int] {
        Type::Constant(Constant::String(text)) => PropertyKeyView::String(text@),
        Type::Constant(Constant::Number(bits)) => match integer_of_number(bits) {
            Some(index) => PropertyKeyView::String(decimal_text(index)),
            None => PropertyKeyView::Type(id),
        },
        _ => PropertyKeyView::Type(id),
    }
}

impl PropertyKey {
    /// The key of an index: its decimal digits.
    pub fn from_usize(index: usize) -> (key: PropertyKey)
        ensures
            key@ == PropertyKeyView::String(decimal_text(index as nat)),
    {
        PropertyKey::String(decimal_string(index as u64))
    }

    /// The key that a type stands for.
    pub fn from_type(ty: TypeId, types: &TypeStore) -> (key: PropertyKey)
        requires
            types@.contains(ty),
        ensures
            key@ == key_of_type(types@.types, ty),
    {
        match types.get_type_by_id(ty) {
            Type::Constant(Constant::String(text)) => PropertyKey::String(text.clone()),
            Type::Constant(Constant::Number(bits)) => match number_as_integer(*bits) {
                Some(index) => PropertyKey::String(decimal_string(index)),
                None => PropertyKey::Type(ty),
            },
            _ => PropertyKey::Type(ty),
        }
    }
}

impl PropertyValue {
    /// The type that reading the property gives: the value itself, what a
    /// getter returns, `undefined` where there is only a setter, and `never`
    /// for a property that was deleted.
    pub open spec fn get_type(self, functions: Map<FunctionId, FunctionType>) -> TypeId {
        match self {
            PropertyValue::Value(value) => value,
            PropertyValue::Getter(getter) => functions[getter].return_type,
            PropertyValue::Setter(_) => UNDEFINED_TYPE,
            PropertyValue::Deleted => NEVER_TYPE,
        }
    }

    /// Whether the store knows what reading the property needs: the function of a getter.
    pub open spec fn is_known_to(self, functions: Map<FunctionId, FunctionType>) -> bool {
        self matches PropertyValue::Getter(getter) ==> functions.contains_key(getter)
    }

    pub fn as_get_type(&self, types: &TypeStore) -> (ty: TypeId)
        requires
            self.is_known_to(types@.functions),
        ensures
            ty == self.get_type(types@.functions),
    {
        match self {
            PropertyValue::Value(value) => *value,
            PropertyValue::Getter(getter) => types.get_function_from_id(*getter).return_type,
            PropertyValue::Setter(_) => UNDEFINED_TYPE,
            PropertyValue::Deleted => NEVER_TYPE,
        }
    }
}

/// The type of an indexed access whose lookup gave `found`: what reading a
/// property gives where the lookup found one as it stands, and the type of
/// what is not supported for every other answer.
pub open spec fn type_of_lookup(
    found: Result<LogicalOrValid, MissingProperty>,
    functions: Map<FunctionId, FunctionType>,
) -> TypeId {
    match found {
        Ok(LogicalOrValid::Logical(Logical::Pure(value))) => value.get_type(functions),
        _ => UNIMPLEMENTED_ERROR_TYPE,
    }
}

/// Whether the store knows what the type of the lookup's answer needs.
pub open spec fn lookup_known_to(
    found: Result<LogicalOrValid, MissingProperty>,
    functions: Map<FunctionId, FunctionType>,
) -> bool {
    found matches Ok(LogicalOrValid::Logical(Logical::Pure(value))) ==> value.is_known_to(
        functions,
    )
}

/// The type of an indexed access, from what the lookup of the property gave.
pub fn type_from_lookup(found: &Result<LogicalOrValid, MissingProperty>, types: &TypeStore) -> (ty:
    TypeId)
    requires
        lookup_known_to(*found, types@.functions),
    ensures
        ty == type_of_lookup(*found, types@.functions),
{
    match found {
        Ok(LogicalOrValid::Logical(Logical::Pure(value))) => value.as_get_type(types),
        _ => UNIMPLEMENTED_ERROR_TYPE,
    }
}

/// The descriptor of a property access that is put off: on `on`, under `under`.
pub open spec fn is_deferred_access(ty: Type, on: TypeId, under: PropertyKeyView) -> bool {
    ty matches Type::Constructor(
        Constructor::Property { on: its_on, under: its_under, result, mode },
    ) && its_on == on && its_under@ == under && result == ANY_TYPE && mode
        == AccessMode::FromTypeAnnotation
}

impl TypeStore {
    /// What the environment's lookup gives for the access `indexee[indexer]`.
    pub open spec fn lookup_on_annotation(
        self,
        indexee: TypeId,
        indexer: TypeId,
        environment: Environment,
    ) -> Result<LogicalOrValid, MissingProperty> {
        match last_defined(
            environment.info@.properties_of(indexee),
            Publicity::Public,
            key_of_type(self@.types, indexer),
        ) {
            Some(value) => Ok(LogicalOrValid::Logical(Logical::Pure(value))),
            None => Err(MissingProperty),
        }
    }

    /// The type of `indexee[indexer]`, written in a type annotation. On a
    /// polymorphic `indexee` the access is put off and registered as a type
    /// of its own. Else the property is looked up in the environment.
    pub fn new_property_on_type_annotation(
        &mut self,
        indexee: TypeId,
        indexer: TypeId,
        environment: &Environment,
    ) -> (id: TypeId)
        requires
            old(self).wf(),
            old(self)@.contains(indexee),
            old(self)@.contains(indexer),
            constraint_of(old(self)@.types, indexee) is Some ==> old(self)@.types.len()
                < MAX_TYPE_COUNT,
            constraint_of(old(self)@.types, indexee) is None ==> lookup_known_to(
                old(self).lookup_on_annotation(indexee, indexer, *environment),
                old(self)@.functions,
            ),
        ensures
            final(self).wf(),
            match constraint_of(old(self)@.types, indexee) {
                Some(_) => {
                    &&& id as int == old(self)@.types.len()
                    &&& final(self)@ == old(self)@.register(final(self)@.types.last())
                    &&& is_deferred_access(
                        final(self)@.types.last(),
                        indexee,
                        key_of_type(old(self)@.types, indexer),
                    )
                },
                None => {
                    &&& final(self)@ == old(self)@
                    &&& id == type_of_lookup(
                        old(self).lookup_on_annotation(indexee, indexer, *environment),
                        old(self)@.functions,
                    )
                },
            },
    {
        if get_constraint(indexee, self).is_some() {
            let under = PropertyKey::from_type(indexer, self);
            let ty = Type::Constructor(
                Constructor::Property {
                    on: indexee,
                    under,
                    result: ANY_TYPE,
                    mode: AccessMode::FromTypeAnnotation,
                },
            );
            self.register_type(ty)
        } else {
            let under = PropertyKey::from_type(indexer, self);
            let found = environment.get_property_unbound(indexee, Publicity::Public, &under);
            type_from_lookup(&found, self)
        }
    }
}

} // verus!
