//! The store of types: an append-only sequence of descriptors indexed by
//! identifier, and the tables that go with it.

use std::collections::{HashMap, HashSet};
use vstd::prelude::*;
use crate::builtins::{builtin_types, builtins_in_place};
use crate::constant::Constant;
use crate::functions::{
    FunctionBehavior, FunctionEffect, FunctionType, GenericTypeParameter, SynthesisedParameters,
    ThisValue,
};
use crate::ids::{
    lemma_table_key_injective, ClosureId, FunctionId, SpanWithSource, TypeId, VariableId,
    ARRAY_TYPE, BOOLEAN_TYPE, FALSE, INTERNAL_TYPE_COUNT, MAX_TYPE_COUNT, TRUE, T_TYPE,
};
use crate::properties::Properties;
use crate::types::{
    property_below, Constructor, GenericArguments, LookUpGeneric, LookUpGenericMap, ObjectNature,
    PartiallyAppliedGenerics, PolyNature, SpecialObject, Type,
};

verus! {

/// Holds all the types.
#[derive(Debug)]
pub struct TypeStore {
    /// Every descriptor, indexed by its identifier.
    pub(crate) types: Vec<Type>,
    /// For a prototype with parameters: how each is projected from an instance.
    pub(crate) lookup_generic_map: HashMap<TypeId, LookUpGenericMap>,
    /// The names of parameters and free variables, by the key of the variable.
    pub(crate) parameter_names: HashMap<u64, String>,
    /// Every function, by the key of its identifier.
    pub(crate) functions: HashMap<u64, FunctionType>,
    /// The keys of the functions that were seen to be called.
    pub(crate) called_functions: HashSet<u64>,
    /// The last closure identifier handed out.
    pub(crate) closure_counter: u32,
}

/// What a store holds, as mathematical values.
pub struct TypeStoreView {
    pub types: Seq<Type>,
    pub lookup_generic_map: Map<TypeId, LookUpGenericMap>,
    pub parameter_names: Map<VariableId, Seq<char>>,
    pub functions: Map<FunctionId, FunctionType>,
    pub called_functions: Set<FunctionId>,
    pub closure_counter: u32,
}

/// Every derived descriptor refers only to identifiers registered before it.
pub open spec fn operands_precede(types: Seq<Type>) -> bool {
    forall|i: int| 0 <= i < types.len() ==> (#[trigger] types[i]).operands_below(i)
}

/// Every descriptor refers only to identifiers that are registered.
pub open spec fn references_registered(types: Seq<Type>) -> bool {
    forall|i: int| 0 <= i < types.len() ==> (#[trigger] types[i]).refers_below(types.len() as int)
}

impl TypeStoreView {
    pub open spec fn with_types(self, types: Seq<Type>) -> TypeStoreView {
        TypeStoreView { types, ..self }
    }

    /// The store after one registration.
    pub open spec fn register(self, ty: Type) -> TypeStoreView {
        self.with_types(self.types.push(ty))
    }

    /// Whether `id` is the identifier of a registered type.
    pub open spec fn contains(self, id: TypeId) -> bool {
        (id as int) < self.types.len()
    }

    /// Every identifier fits in sixteen bits, each built-in slot holds a
    /// descriptor of its kind, every descriptor refers to registered types
    /// only, and no derived descriptor refers forward.
    pub open spec fn wf(self) -> bool {
        &&& INTERNAL_TYPE_COUNT <= self.types.len() <= MAX_TYPE_COUNT
        &&& builtins_in_place(self.types)
        &&& references_registered(self.types)
        &&& operands_precede(self.types)
    }
}

/// The descriptors after a constant was asked for, and its identifier: the
/// reserved one where the constant has one, else that of a new registration.
pub open spec fn constant_type(types: Seq<Type>, constant: Constant) -> (Seq<Type>, TypeId) {
    match constant.reserved_id() {
        Some(id) => (types, id),
        None => (types.push(Type::Constant(constant)), types.len() as TypeId),
    }
}

/// The descriptor of an array of `item_type`, written at `position`.
pub open spec fn is_array_of(ty: Type, item_type: TypeId, position: SpanWithSource) -> bool {
    ty matches Type::PartiallyAppliedGenerics(
        PartiallyAppliedGenerics { on, arguments: GenericArguments::ExplicitRestrictions(list) },
    ) && on == ARRAY_TYPE && list@ == seq![(T_TYPE, (item_type, position))]
}

/// The descriptor of the negation of `condition`: `false` where it holds, `true` where not.
pub open spec fn negation_of(condition: TypeId) -> Type {
    Type::Constructor(
        Constructor::ConditionalResult {
            condition,
            truthy_result: FALSE,
            otherwise_result: TRUE,
            result_union: BOOLEAN_TYPE,
        },
    )
}

impl View for TypeStore {
    type V = TypeStoreView;

    closed spec fn view(&self) -> TypeStoreView {
        TypeStoreView {
            types: self.types@,
            lookup_generic_map: self.lookup_generic_map@,
            parameter_names: Map::new(
                |id: VariableId| self.parameter_names@.contains_key(id.key()),
                |id: VariableId| self.parameter_names@[id.key()]@,
            ),
            functions: Map::new(
                |id: FunctionId| self.functions@.contains_key(id.key()),
                |id: FunctionId| self.functions@[id.key()],
            ),
            called_functions: Set::new(|id: FunctionId| self.called_functions@.contains(id.key())),
            closure_counter: self.closure_counter,
        }
    }
}

impl Default for TypeStore {
    /// A store that holds the built-in types and nothing else.
    fn default() -> (store: Self)
        ensures
            store.wf(),
            store@.is_initial(),
    {
        broadcast use vstd::std_specs::hash::group_hash_axioms;

        let mut lookup_generic_map: HashMap<TypeId, LookUpGenericMap> = HashMap::new();
        let array_rules = vec![(T_TYPE, LookUpGeneric::NumberPropertyOfSelf)];
        assert(array_rules@ =~= seq![(T_TYPE, LookUpGeneric::NumberPropertyOfSelf)]);
        lookup_generic_map.insert(ARRAY_TYPE, array_rules);
        let store = TypeStore {
            types: builtin_types(),
            lookup_generic_map,
            parameter_names: HashMap::new(),
            functions: HashMap::new(),
            called_functions: HashSet::new(),
            closure_counter: 0,
        };
        assert(store@.functions =~= Map::<FunctionId, FunctionType>::empty());
        assert(store@.parameter_names =~= Map::<VariableId, Seq<char>>::empty());
        store
    }
}

impl TypeStore {
    pub open spec fn wf(&self) -> bool {
        self@.wf()
    }

    #[must_use]
    pub fn count_of_types(&self) -> (count: usize)
        ensures
            count == self@.types.len(),
    {
        self.types.len()
    }

    /// Appends a descriptor and returns its fresh identifier.
    pub fn register_type(&mut self, ty: Type) -> (id: TypeId)
        requires
            old(self).wf(),
            old(self)@.types.len() < MAX_TYPE_COUNT,
            ty.refers_below(old(self)@.types.len() as int),
        ensures
            final(self).wf(),
            final(self)@ == old(self)@.register(ty),
            id as int == old(self)@.types.len(),
    {
        let id: TypeId = self.types.len() as TypeId;
        self.types.push(ty);
        id
    }

    /// Overwrites the target of an alias. Any other descriptor is left as it is.
    pub fn update_alias(&mut self, alias_type: TypeId, to: TypeId)
        requires
            old(self).wf(),
            old(self)@.contains(alias_type),
            old(self)@.contains(to),
        ensures
            final(self).wf(),
            final(self)@ == old(self)@.with_types(
                old(self)@.types.update(
                    alias_type as int,
                    old(self)@.types[alias_type as int].with_alias_target(to),
                ),
            ),
    {
        if let Type::AliasTo { to: old, .. } = &mut self.types[alias_type as usize] {
            *old = to;
        }
    }

    /// Overwrites what an interface extends, if it extended something.
    /// An interface that extends nothing is left as it is.
    pub fn set_extends_on_interface(&mut self, interface_type: TypeId, extends: TypeId)
        requires
            old(self).wf(),
            old(self)@.contains(interface_type),
            old(self)@.contains(extends),
        ensures
            final(self).wf(),
            final(self)@ == old(self)@.with_types(
                old(self)@.types.update(
                    interface_type as int,
                    old(self)@.types[interface_type as int].with_interface_extends(extends),
                ),
            ),
    {
        if let Type::Interface { extends: Some(old), .. } = &mut self.types[interface_type as usize] {
            *old = extends;
        }
    }

    /// Overwrites the bound of a structure generic. Any other descriptor is left as it is.
    pub fn update_generic_extends(&mut self, generic: TypeId, to: TypeId)
        requires
            old(self).wf(),
            old(self)@.contains(generic),
            old(self)@.contains(to),
        ensures
            final(self).wf(),
            final(self)@ == old(self)@.with_types(
                old(self)@.types.update(
                    generic as int,
                    old(self)@.types[generic as int].with_generic_extends(to),
                ),
            ),
    {
        if let Type::RootPolyType(PolyNature::StructureGeneric { extends, .. }) =
            &mut self.types[generic as usize] {
            *extends = to;
        }
    }

    /// Replaces the bound of a type parameter of an interface, which is a structure generic.
    pub fn modify_interface_type_parameter_constraint(&mut self, ty: TypeId, constraint: TypeId)
        requires
            old(self).wf(),
            old(self)@.contains(ty),
            old(self)@.contains(constraint),
            old(self)@.types[ty as int].is_structure_generic(),
        ensures
            final(self).wf(),
            final(self)@ == old(self)@.with_types(
                old(self)@.types.update(
                    ty as int,
                    old(self)@.types[ty as int].with_generic_extends(constraint),
                ),
            ),
    {
        if let Type::RootPolyType(PolyNature::StructureGeneric { extends, .. }) =
            &mut self.types[ty as usize] {
            *extends = constraint;
        }
    }

    /// Replaces what a parameter root is fixed to.
    pub fn _set_inferred_constraint(&mut self, ty: TypeId, constraint: TypeId)
        requires
            old(self).wf(),
            old(self)@.contains(ty),
            old(self)@.contains(constraint),
            old(self)@.types[ty as int].is_parameter(),
        ensures
            final(self).wf(),
            final(self)@ == old(self)@.with_types(
                old(self)@.types.update(
                    ty as int,
                    old(self)@.types[ty as int].with_parameter_constraint(constraint),
                ),
            ),
    {
        if let Type::RootPolyType(PolyNature::Parameter { fixed_to, .. }) =
            &mut self.types[ty as usize] {
            *fixed_to = constraint;
        }
    }

    /// The type of a constant: its reserved identifier, or a new registration.
    pub fn new_constant_type(&mut self, constant: Constant) -> (id: TypeId)
        requires
            old(self).wf(),
            constant_type(old(self)@.types, constant).0.len() <= MAX_TYPE_COUNT,
        ensures
            final(self).wf(),
            final(self)@ == old(self)@.with_types(constant_type(old(self)@.types, constant).0),
            id == constant_type(old(self)@.types, constant).1,
            final(self)@.contains(id),
    {
        // Reuse existing ids rather than creating new types sometimes
        match constant.get_reserved_id() {
            Some(id) => id,
            None => self.register_type(Type::Constant(constant)),
        }
    }

    /// An object type written as an annotation, with its properties.
    pub fn new_anonymous_interface_type(&mut self, properties: Properties) -> (id: TypeId)
        requires
            old(self).wf(),
            old(self)@.types.len() < MAX_TYPE_COUNT,
            forall|i: int|
                0 <= i < properties@.len() ==> property_below(
                    #[trigger] properties@[i],
                    old(self)@.types.len() as int,
                ),
        ensures
            final(self).wf(),
            final(self)@ == old(self)@.register(
                Type::Object(ObjectNature::AnonymousTypeAnnotation(properties)),
            ),
            id as int == old(self)@.types.len(),
    {
        let ty = Type::Object(ObjectNature::AnonymousTypeAnnotation(properties));
        self.register_type(ty)
    }

    /// The negation of `condition`, registered as it stands: nothing is evaluated.
    pub fn new_logical_negation_type(&mut self, condition: TypeId) -> (id: TypeId)
        requires
            old(self).wf(),
            old(self)@.contains(condition),
            old(self)@.types.len() < MAX_TYPE_COUNT,
        ensures
            final(self).wf(),
            final(self)@ == old(self)@.register(negation_of(condition)),
            id as int == old(self)@.types.len(),
    {
        self.register_type(
            Type::Constructor(
                Constructor::ConditionalResult {
                    condition,
                    truthy_result: FALSE,
                    otherwise_result: TRUE,
                    result_union: BOOLEAN_TYPE,
                },
            ),
        )
    }

    /// A fresh closure identifier: one more than the last.
    pub fn new_closure_id(&mut self) -> (id: ClosureId)
        requires
            old(self).wf(),
            old(self)@.closure_counter < u32::MAX,
        ensures
            final(self).wf(),
            id == ClosureId((old(self)@.closure_counter + 1) as u32),
            final(self)@ == (TypeStoreView { closure_counter: id.0, ..old(self)@ }),
    {
        self.closure_counter += 1;
        ClosureId(self.closure_counter)
    }

    #[must_use]
    pub fn get_function_from_id(&self, id: FunctionId) -> (function: &FunctionType)
        requires
            self@.functions.contains_key(id),
        ensures
            *function == self@.functions[id],
    {
        broadcast use vstd::std_specs::hash::group_hash_axioms;

        let key = id.table_key();
        self.functions.get(&key).unwrap()
    }

    /// Records `function_type` under its identifier, in place of what was there.
    fn insert_function(&mut self, function_type: FunctionType)
        ensures
            final(self)@ == (TypeStoreView {
                functions: old(self)@.functions.insert(function_type.id, function_type),
                ..old(self)@
            }),
    {
        broadcast use vstd::std_specs::hash::group_hash_axioms;

        let id = function_type.id;
        let key = id.table_key();
        self.functions.insert(key, function_type);
        proof {
            assert forall|other: FunctionId| other.key() == id.key() implies other == id by {
                lemma_table_key_injective(other.0, other.1, id.0, id.1);
            }
            assert(self@.functions =~= old(self)@.functions.insert(id, function_type));
        }
    }

    /// A function object: the function is recorded, and `this` is bound as by default.
    pub fn new_function_type(&mut self, function_type: FunctionType) -> (id: TypeId)
        requires
            old(self).wf(),
            old(self)@.types.len() < MAX_TYPE_COUNT,
        ensures
            final(self).wf(),
            final(self)@ == (TypeStoreView {
                functions: old(self)@.functions.insert(function_type.id, function_type),
                ..old(self)@
            }).register(
                Type::SpecialObject(SpecialObject::Function(function_type.id, ThisValue::UseParent)),
            ),
            id as int == old(self)@.types.len(),
    {
        let id = function_type.id;
        self.insert_function(function_type);
        self.register_type(Type::SpecialObject(SpecialObject::Function(id, ThisValue::default())))
    }

    /// A function that was declared but not yet bound: the function is recorded,
    /// and its type is a reference to it.
    pub fn new_hoisted_function_type(&mut self, function_type: FunctionType) -> (id: TypeId)
        requires
            old(self).wf(),
            old(self)@.types.len() < MAX_TYPE_COUNT,
        ensures
            final(self).wf(),
            final(self)@ == (TypeStoreView {
                functions: old(self)@.functions.insert(function_type.id, function_type),
                ..old(self)@
            }).register(Type::FunctionReference(function_type.id)),
            id as int == old(self)@.types.len(),
    {
        let id = function_type.id;
        self.insert_function(function_type);
        self.register_type(Type::FunctionReference(id))
    }

    /// The constructor of a class: a function object that takes `this` from its parent.
    pub fn new_class_constructor_type(&mut self, constructor: FunctionType) -> (id: TypeId)
        requires
            old(self).wf(),
            old(self)@.types.len() < MAX_TYPE_COUNT,
        ensures
            final(self).wf(),
            final(self)@ == (TypeStoreView {
                functions: old(self)@.functions.insert(constructor.id, constructor),
                ..old(self)@
            }).register(
                Type::SpecialObject(SpecialObject::Function(constructor.id, ThisValue::UseParent)),
            ),
            id as int == old(self)@.types.len(),
    {
        let id = constructor.id;
        self.insert_function(constructor);
        self.register_type(Type::SpecialObject(SpecialObject::Function(id, ThisValue::UseParent)))
    }

    /// The type of a function written as an annotation, such as `(a: number) => string`.
    /// Its identifier is where it was declared; nothing is known of its effect.
    pub fn new_function_type_annotation(
        &mut self,
        type_parameters: Option<Vec<GenericTypeParameter>>,
        parameters: SynthesisedParameters,
        return_type: TypeId,
        declared_at: &SpanWithSource,
    ) -> (id: TypeId)
        requires
            old(self).wf(),
            old(self)@.types.len() < MAX_TYPE_COUNT,
        ensures
            final(self).wf(),
            final(self)@ == (TypeStoreView {
                functions: old(self)@.functions.insert(
                    FunctionId(declared_at.source, declared_at.start),
                    FunctionType {
                        id: FunctionId(declared_at.source, declared_at.start),
                        type_parameters,
                        parameters,
                        return_type,
                        effect: FunctionEffect::Unknown,
                        behavior: FunctionBehavior::ArrowFunction { is_async: false },
                    },
                ),
                ..old(self)@
            }).register(Type::FunctionReference(FunctionId(declared_at.source, declared_at.start))),
            id as int == old(self)@.types.len(),
    {
        let id = FunctionId(declared_at.source, declared_at.start);
        let function_type = FunctionType {
            id,
            type_parameters,
            parameters,
            return_type,
            effect: FunctionEffect::Unknown,
            behavior: FunctionBehavior::ArrowFunction { is_async: false },
        };
        self.insert_function(function_type);
        self.register_type(Type::FunctionReference(id))
    }

    /// The type of a parameter. Its name is recorded. A constraint that is a
    /// function generic is the parameter's type itself: no root is nested in it.
    pub fn new_function_parameter(
        &mut self,
        parameter_constraint: TypeId,
        variable_id: VariableId,
        name: &str,
    ) -> (id: TypeId)
        requires
            old(self).wf(),
            old(self)@.contains(parameter_constraint),
            !old(self)@.types[parameter_constraint as int].is_function_generic() ==> old(
                self,
            )@.types.len() < MAX_TYPE_COUNT,
        ensures
            final(self).wf(),
            final(self)@.contains(id),
            old(self)@.types[parameter_constraint as int].is_function_generic() ==> {
                &&& id == parameter_constraint
                &&& final(self)@ == (TypeStoreView {
                    parameter_names: old(self)@.parameter_names.insert(variable_id, name@),
                    ..old(self)@
                })
            },
            !old(self)@.types[parameter_constraint as int].is_function_generic() ==> {
                &&& id as int == old(self)@.types.len()
                &&& final(self)@ == (TypeStoreView {
                    parameter_names: old(self)@.parameter_names.insert(variable_id, name@),
                    ..old(self)@
                }).register(
                    Type::RootPolyType(
                        PolyNature::Parameter { fixed_to: parameter_constraint, variable_id },
                    ),
                )
            },
    {
        self.insert_parameter_name(variable_id, name);
        if let Type::RootPolyType(PolyNature::FunctionGeneric { .. }) = self.get_type_by_id(
            parameter_constraint,
        ) {
            parameter_constraint
        } else {
            self.register_type(
                Type::RootPolyType(
                    PolyNature::Parameter { fixed_to: parameter_constraint, variable_id },
                ),
            )
        }
    }

    /// Records the name of a variable, in place of what was there.
    fn insert_parameter_name(&mut self, variable_id: VariableId, name: &str)
        ensures
            final(self)@ == (TypeStoreView {
                parameter_names: old(self)@.parameter_names.insert(variable_id, name@),
                ..old(self)@
            }),
    {
        broadcast use vstd::std_specs::hash::group_hash_axioms;

        let key = variable_id.table_key();
        self.parameter_names.insert(key, name.to_owned());
        proof {
            assert forall|other: VariableId| other.key() == variable_id.key() implies other
                == variable_id by {
                lemma_table_key_injective(other.0, other.1, variable_id.0, variable_id.1);
            }
            assert(self@.parameter_names =~= old(self)@.parameter_names.insert(
                variable_id,
                name@,
            ));
        }
    }

    /// The name recorded for a variable, or the empty text where none was.
    pub fn get_parameter_name(&self, id: VariableId) -> (name: &str)
        ensures
            name@ == if self@.parameter_names.contains_key(id) {
                self@.parameter_names[id]
            } else {
                Seq::<char>::empty()
            },
    {
        broadcast use vstd::std_specs::hash::group_hash_axioms;

        let key = id.table_key();
        match self.parameter_names.get(&key) {
            Some(name) => name.as_str(),
            None => {
                proof {
                    reveal_strlit("");
                }
                ""
            },
        }
    }

    /// The type of an array whose items are of `item_type`.
    pub fn new_array_type(&mut self, item_type: TypeId, position: SpanWithSource) -> (id: TypeId)
        requires
            old(self).wf(),
            old(self)@.contains(item_type),
            old(self)@.types.len() < MAX_TYPE_COUNT,
        ensures
            final(self).wf(),
            final(self)@.types.len() == old(self)@.types.len() + 1,
            final(self)@ == old(self)@.register(final(self)@.types[id as int]),
            is_array_of(final(self)@.types[id as int], item_type, position),
            id as int == old(self)@.types.len(),
    {
        let arguments = vec![(T_TYPE, (item_type, position))];
        assert(arguments@ =~= seq![(T_TYPE, (item_type, position))]);
        let ty = Type::PartiallyAppliedGenerics(
            PartiallyAppliedGenerics {
                on: ARRAY_TYPE,
                arguments: GenericArguments::ExplicitRestrictions(arguments),
            },
        );
        self.register_type(ty)
    }

    /// An unknown of base `base`.
    pub fn new_open_type(&mut self, base: TypeId) -> (id: TypeId)
        requires
            old(self).wf(),
            old(self)@.contains(base),
            old(self)@.types.len() < MAX_TYPE_COUNT,
        ensures
            final(self).wf(),
            final(self)@ == old(self)@.register(Type::RootPolyType(PolyNature::Open(base))),
            id as int == old(self)@.types.len(),
    {
        self.register_type(Type::RootPolyType(PolyNature::Open(base)))
    }

    /// A type to go on with after an error, which keeps what `base` says.
    pub fn new_error_type(&mut self, base: TypeId) -> (id: TypeId)
        requires
            old(self).wf(),
            old(self)@.contains(base),
            old(self)@.types.len() < MAX_TYPE_COUNT,
        ensures
            final(self).wf(),
            final(self)@ == old(self)@.register(Type::RootPolyType(PolyNature::Error(base))),
            id as int == old(self)@.types.len(),
    {
        self.register_type(Type::RootPolyType(PolyNature::Error(base)))
    }

    /// The object that `this` is in a constructor.
    pub fn create_this_object(&mut self) -> (id: TypeId)
        requires
            old(self).wf(),
            old(self)@.types.len() < MAX_TYPE_COUNT,
        ensures
            final(self).wf(),
            final(self)@ == old(self)@.register(Type::Object(ObjectNature::RealDeal)),
            id as int == old(self)@.types.len(),
    {
        self.register_type(Type::Object(ObjectNature::RealDeal))
    }

    /// The type of the keys of `of`.
    pub fn new_key_of(&mut self, of: TypeId) -> (id: TypeId)
        requires
            old(self).wf(),
            old(self)@.contains(of),
            old(self)@.types.len() < MAX_TYPE_COUNT,
        ensures
            final(self).wf(),
            final(self)@ == old(self)@.register(Type::Constructor(Constructor::KeyOf(of))),
            id as int == old(self)@.types.len(),
    {
        self.register_type(Type::Constructor(Constructor::KeyOf(of)))
    }

    /// Records that the function `id` was seen to be called.
    pub fn mark_function_called(&mut self, id: FunctionId)
        ensures
            final(self)@ == (TypeStoreView {
                called_functions: old(self)@.called_functions.insert(id),
                ..old(self)@
            }),
    {
        broadcast use vstd::std_specs::hash::group_hash_axioms;

        let key = id.table_key();
        self.called_functions.insert(key);
        proof {
            assert forall|other: FunctionId| other.key() == id.key() implies other == id by {
                lemma_table_key_injective(other.0, other.1, id.0, id.1);
            }
            assert(self@.called_functions =~= old(self)@.called_functions.insert(id));
        }
    }

    /// Whether the function `id` was seen to be called.
    pub fn is_function_called(&self, id: FunctionId) -> (called: bool)
        ensures
            called == self@.called_functions.contains(id),
    {
        broadcast use vstd::std_specs::hash::group_hash_axioms;

        let key = id.table_key();
        self.called_functions.contains(&key)
    }

    /// How the parameters of `prototype` are projected from an instance, where that is known.
    pub fn get_look_up_generic_from_prototype(&self, prototype: TypeId) -> (rules: Option<
        &LookUpGenericMap,
    >)
        ensures
            match rules {
                Some(rules) => self@.lookup_generic_map.contains_key(prototype) && *rules
                    == self@.lookup_generic_map[prototype],
                None => !self@.lookup_generic_map.contains_key(prototype),
            },
    {
        broadcast use vstd::std_specs::hash::group_hash_axioms;

        self.lookup_generic_map.get(&prototype)
    }

    /// Every type that is not built in, with its identifier, in the order of registration.
    pub fn user_types(&self) -> (listed: Vec<(TypeId, &Type)>)
        requires
            self.wf(),
        ensures
            listed@.len() == self@.types.len() - INTERNAL_TYPE_COUNT,
            forall|i: int|
                0 <= i < listed@.len() ==> (#[trigger] listed@[i]).0 == INTERNAL_TYPE_COUNT + i
                    && *listed@[i].1 == self@.types[INTERNAL_TYPE_COUNT + i],
    {
        let mut listed: Vec<(TypeId, &Type)> = Vec::new();
        let mut idx: usize = INTERNAL_TYPE_COUNT;
        while idx < self.types.len()
            invariant
                self.wf(),
                INTERNAL_TYPE_COUNT <= idx <= self.types@.len(),
                self.types@ == self@.types,
                listed@.len() == idx - INTERNAL_TYPE_COUNT,
                forall|i: int|
                    0 <= i < listed@.len() ==> (#[trigger] listed@[i]).0 == INTERNAL_TYPE_COUNT + i
                        && *listed@[i].1 == self@.types[INTERNAL_TYPE_COUNT + i],
            decreases self.types@.len() - idx,
        {
            listed.push((idx as TypeId, &self.types[idx]));
            idx += 1;
        }
        listed
    }

    #[must_use]
    pub fn get_type_by_id(&self, id: TypeId) -> (ty: &Type)
        requires
            self@.contains(id),
        ensures
            *ty == self@.types[id as int],
    {
        &self.types[id as usize]
    }
}

} // verus!
