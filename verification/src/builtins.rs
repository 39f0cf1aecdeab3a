//! The built-in types: what a new store holds, slot by slot.

use vstd::prelude::*;
use crate::constant::{
    Constant, NUMBER_EPSILON, NUMBER_INFINITY, NUMBER_MAX_VALUE, NUMBER_MIN_VALUE, NUMBER_NAN,
    NUMBER_NEG_INFINITY, NUMBER_NEG_ONE, NUMBER_ONE, NUMBER_ZERO,
};
use crate::ids::{
    SpanWithSource, TypeId, ANY_TYPE, ARRAY_TYPE, BOOLEAN_TYPE, INTERNAL_TYPE_COUNT, NAN,
    NOT_NAN, NOT_RESTRICTION, NUMBER_GENERIC, NUMBER_TYPE, STRING_GENERIC, STRING_TYPE, T_TYPE,
    UNDEFINED_TYPE,
};
use crate::store::TypeStoreView;
use crate::types::{
    GenericArguments, LookUpGeneric, PartiallyAppliedGenerics, PolyNature, RootReference,
    SpecialObject, Type, TypeKind,
};

verus! {

/// The kind of the descriptor in each built-in slot.
pub open spec fn builtin_kind(id: TypeId) -> TypeKind {
    if id == 0 || id == 11 || id == 28 || id == 29 || id == 35 || id == 42 || id == 43 || id == 44
        || id == 54 || id == 55 {
        TypeKind::RootPolyType
    } else if id == 1 || id == 2 || id == 30 {
        TypeKind::Interface
    } else if 3 <= id <= 5 || id == 9 || id == 10 || 12 <= id <= 15 {
        TypeKind::Class
    } else if id == 6 || 16 <= id <= 27 || 31 <= id <= 34 {
        TypeKind::Constant
    } else if id == 7 {
        TypeKind::SpecialObject
    } else if id == 48 {
        TypeKind::PartiallyAppliedGenerics
    } else if id == 49 {
        TypeKind::And
    } else if id == 56 {
        TypeKind::Or
    } else {
        TypeKind::AliasTo
    }
}

/// Every built-in slot holds a descriptor of its kind.
pub open spec fn builtins_in_place(types: Seq<Type>) -> bool {
    forall|id: TypeId|
        (id as int) < INTERNAL_TYPE_COUNT ==> (#[trigger] types[id as int]).kind() == builtin_kind(
            id,
        )
}

/// An interface or a class without parameters that extends nothing.
pub open spec fn is_plain_interface(ty: Type, its_name: Seq<char>) -> bool {
    ty matches Type::Interface { name, parameters, extends } && name@ == its_name && parameters
        is None && extends is None
}

pub open spec fn is_class(ty: Type, its_name: Seq<char>, parameter: Option<TypeId>) -> bool {
    ty matches Type::Class { name, type_parameters } && name@ == its_name && match parameter {
        Some(parameter) => type_parameters matches Some(list) && list@ == seq![parameter],
        None => type_parameters is None,
    }
}

pub open spec fn is_alias(
    ty: Type,
    its_name: Seq<char>,
    target: TypeId,
    parameter: Option<TypeId>,
) -> bool {
    ty matches Type::AliasTo { to, name, parameters } && name@ == its_name && to == target
        && match parameter {
        Some(parameter) => parameters matches Some(list) && list@ == seq![parameter],
        None => parameters is None,
    }
}

pub open spec fn is_number(ty: Type, bits: u64) -> bool {
    ty == Type::Constant(Constant::Number(bits))
}

pub open spec fn is_symbol(ty: Type, its_key: Seq<char>) -> bool {
    ty matches Type::Constant(Constant::Symbol { key }) && key@ == its_key
}

pub open spec fn is_structure_generic(ty: Type, its_name: Seq<char>, bound: TypeId) -> bool {
    ty matches Type::RootPolyType(PolyNature::StructureGeneric { name, extends }) && name@
        == its_name && extends == bound
}

pub open spec fn is_function_generic(ty: Type, its_name: Seq<char>, bound: TypeId) -> bool {
    ty matches Type::RootPolyType(PolyNature::FunctionGeneric { name, extends }) && name@
        == its_name && extends == bound
}

pub open spec fn is_mapped_generic(ty: Type, its_name: Seq<char>, bound: TypeId) -> bool {
    ty matches Type::RootPolyType(PolyNature::MappedGeneric { name, extends }) && name@
        == its_name && extends == bound
}

/// `Not` applied to the not-a-number constant.
pub open spec fn is_not_nan(ty: Type) -> bool {
    ty matches Type::PartiallyAppliedGenerics(
        PartiallyAppliedGenerics { on, arguments: GenericArguments::ExplicitRestrictions(list) },
    ) && on == NOT_RESTRICTION && list@ == seq![(T_TYPE, (NAN, SpanWithSource::null()))]
}

/// The first sixteen slots: the error root, the nominal primitives and their companions.
pub open spec fn initial_primitives(types: Seq<Type>) -> bool {
    &&& types[0] == Type::RootPolyType(PolyNature::Error(ANY_TYPE))
    &&& is_plain_interface(types[1], "never"@)
    &&& is_plain_interface(types[2], "any"@)
    &&& is_class(types[3], "boolean"@, None)
    &&& is_class(types[4], "number"@, None)
    &&& is_class(types[5], "string"@, None)
    &&& types[6] == Type::Constant(Constant::Undefined)
    &&& types[7] matches Type::SpecialObject(SpecialObject::Null)
    &&& is_alias(types[8], "void"@, UNDEFINED_TYPE, None)
    &&& is_class(types[9], "Array"@, Some(T_TYPE))
    &&& is_class(types[10], "Promise"@, Some(T_TYPE))
    &&& is_structure_generic(types[11], "T"@, ANY_TYPE)
    &&& is_class(types[12], "object"@, None)
    &&& is_class(types[13], "Function"@, None)
    &&& is_class(types[14], "RegExp"@, None)
    &&& is_class(types[15], "Symbol"@, None)
}

/// Slots sixteen to thirty-four: the reserved constants, `this`, `new.target`,
/// `ImportMeta` and the well-known symbols.
pub open spec fn initial_constants(types: Seq<Type>) -> bool {
    &&& types[16] == Type::Constant(Constant::Boolean(true))
    &&& types[17] == Type::Constant(Constant::Boolean(false))
    &&& is_number(types[18], NUMBER_ZERO)
    &&& is_number(types[19], NUMBER_ONE)
    &&& is_number(types[20], NUMBER_NAN)
    &&& is_number(types[21], NUMBER_NEG_INFINITY)
    &&& is_number(types[22], NUMBER_INFINITY)
    &&& is_number(types[23], NUMBER_MIN_VALUE)
    &&& is_number(types[24], NUMBER_MAX_VALUE)
    &&& is_number(types[25], NUMBER_EPSILON)
    &&& is_number(types[26], NUMBER_NEG_ONE)
    &&& types[27] matches Type::Constant(Constant::String(text)) && text@.len() == 0
    &&& types[28] == Type::RootPolyType(
        PolyNature::FreeVariable { reference: RootReference::This, based_on: ANY_TYPE },
    )
    &&& is_function_generic(types[29], "new.target"@, ANY_TYPE)
    &&& is_plain_interface(types[30], "ImportMeta"@)
    &&& is_symbol(types[31], "iterator"@)
    &&& is_symbol(types[32], "asyncIterator"@)
    &&& is_symbol(types[33], "hasInstance"@)
    &&& is_symbol(types[34], "toPrimitive"@)
}

/// Slots thirty-five to fifty-six: the intrinsic aliases and their parameters,
/// the number that is a number, the open types and `string | number`.
pub open spec fn initial_intrinsics(types: Seq<Type>) -> bool {
    &&& is_structure_generic(types[35], "S"@, STRING_TYPE)
    &&& is_alias(types[36], "Uppercase"@, STRING_TYPE, Some(STRING_GENERIC))
    &&& is_alias(types[37], "Lowercase"@, STRING_TYPE, Some(STRING_GENERIC))
    &&& is_alias(types[38], "Capitalize"@, STRING_TYPE, Some(STRING_GENERIC))
    &&& is_alias(types[39], "Uncapitalize"@, STRING_TYPE, Some(STRING_GENERIC))
    &&& is_alias(types[40], "NoInfer"@, T_TYPE, Some(T_TYPE))
    &&& is_alias(types[41], "Readonly"@, T_TYPE, Some(T_TYPE))
    &&& is_mapped_generic(types[42], "NonOptional"@, BOOLEAN_TYPE)
    &&& is_mapped_generic(types[43], "Writable"@, BOOLEAN_TYPE)
    &&& is_structure_generic(types[44], "T"@, NUMBER_TYPE)
    &&& is_alias(types[45], "GreaterThan"@, NUMBER_TYPE, Some(NUMBER_GENERIC))
    &&& is_alias(types[46], "LessThan"@, NUMBER_TYPE, Some(NUMBER_GENERIC))
    &&& is_alias(types[47], "MultipleOf"@, NUMBER_TYPE, Some(NUMBER_GENERIC))
    &&& is_not_nan(types[48])
    &&& types[49] == Type::And(NUMBER_TYPE, NOT_NAN)
    &&& is_alias(types[50], "Literal"@, T_TYPE, Some(T_TYPE))
    &&& is_alias(types[51], "Exclusive"@, T_TYPE, Some(T_TYPE))
    &&& is_alias(types[52], "Not"@, ANY_TYPE, Some(T_TYPE))
    &&& is_alias(types[53], "CaseInsensitive"@, STRING_TYPE, Some(STRING_GENERIC))
    &&& types[54] == Type::RootPolyType(PolyNature::Open(BOOLEAN_TYPE))
    &&& types[55] == Type::RootPolyType(PolyNature::Open(NUMBER_TYPE))
    &&& types[56] == Type::Or(STRING_TYPE, NUMBER_TYPE)
}

impl TypeStoreView {
    /// What a new store holds: the built-in descriptors in their slots and
    /// nothing else, the lookup rule of `Array`, no function, no name, and a
    /// closure counter at zero.
    pub open spec fn is_initial(self) -> bool {
        &&& self.types.len() == INTERNAL_TYPE_COUNT
        &&& initial_primitives(self.types)
        &&& initial_constants(self.types)
        &&& initial_intrinsics(self.types)
        &&& self.lookup_generic_map.dom() == set![ARRAY_TYPE]
        &&& self.lookup_generic_map[ARRAY_TYPE]@ == seq![
            (T_TYPE, LookUpGeneric::NumberPropertyOfSelf),
        ]
        &&& self.functions == Map::<crate::ids::FunctionId, crate::functions::FunctionType>::empty()
        &&& self.parameter_names == Map::<crate::ids::VariableId, Seq<char>>::empty()
        &&& self.called_functions == Set::<crate::ids::FunctionId>::empty()
        &&& self.closure_counter == 0
    }
}

fn single(parameter: TypeId) -> (list: Vec<TypeId>)
    ensures
        list@ == seq![parameter],
{
    let list = vec![parameter];
    list
}

fn not_nan() -> (ty: Type)
    ensures
        is_not_nan(ty),
{
    let list = vec![(T_TYPE, (NAN, SpanWithSource::new_null()))];
    assert(list@ =~= seq![(T_TYPE, (NAN, SpanWithSource::null()))]);
    Type::PartiallyAppliedGenerics(
        PartiallyAppliedGenerics {
            on: NOT_RESTRICTION,
            arguments: GenericArguments::ExplicitRestrictions(list),
        },
    )
}

fn plain_interface(name: &str) -> (ty: Type)
    ensures
        is_plain_interface(ty, name@),
{
    Type::Interface { name: name.to_owned(), parameters: None, extends: None }
}

fn class(name: &str, parameter: Option<TypeId>) -> (ty: Type)
    ensures
        is_class(ty, name@, parameter),
{
    let type_parameters = match parameter {
        Some(parameter) => Some(single(parameter)),
        None => None,
    };
    Type::Class { name: name.to_owned(), type_parameters }
}

fn alias(name: &str, to: TypeId, parameter: Option<TypeId>) -> (ty: Type)
    ensures
        is_alias(ty, name@, to, parameter),
{
    let parameters = match parameter {
        Some(parameter) => Some(single(parameter)),
        None => None,
    };
    Type::AliasTo { to, name: name.to_owned(), parameters }
}

fn number(bits: u64) -> (ty: Type)
    ensures
        is_number(ty, bits),
{
    Type::Constant(Constant::Number(bits))
}

fn symbol(key: &str) -> (ty: Type)
    ensures
        is_symbol(ty, key@),
{
    Type::Constant(Constant::Symbol { key: key.to_owned() })
}

fn structure_generic(name: &str, extends: TypeId) -> (ty: Type)
    ensures
        is_structure_generic(ty, name@, extends),
{
    Type::RootPolyType(PolyNature::StructureGeneric { name: name.to_owned(), extends })
}

fn mapped_generic(name: &str, extends: TypeId) -> (ty: Type)
    ensures
        is_mapped_generic(ty, name@, extends),
{
    Type::RootPolyType(PolyNature::MappedGeneric { name: name.to_owned(), extends })
}

fn primitives() -> (types: Vec<Type>)
    ensures
        types@.len() == 16,
        initial_primitives(types@),
{
    let mut types: Vec<Type> = Vec::new();
    types.push(Type::RootPolyType(PolyNature::Error(ANY_TYPE)));
    types.push(plain_interface("never"));
    types.push(plain_interface("any"));
    types.push(class("boolean", None));
    types.push(class("number", None));
    types.push(class("string", None));
    types.push(Type::Constant(Constant::Undefined));
    types.push(Type::SpecialObject(SpecialObject::Null));
    // Has special subtyping in returns
    types.push(alias("void", UNDEFINED_TYPE, None));
    types.push(class("Array", Some(T_TYPE)));
    types.push(class("Promise", Some(T_TYPE)));
    // The parameter of Array and of Promise
    types.push(structure_generic("T", ANY_TYPE));
    types.push(class("object", None));
    types.push(class("Function", None));
    types.push(class("RegExp", None));
    types.push(class("Symbol", None));
    types
}

fn push_constants(types: &mut Vec<Type>)
    requires
        old(types)@.len() == 16,
    ensures
        final(types)@.len() == 35,
        final(types)@.subrange(0, 16) == old(types)@,
        initial_constants(final(types)@),
{
    types.push(Type::Constant(Constant::Boolean(true)));
    types.push(Type::Constant(Constant::Boolean(false)));
    types.push(number(NUMBER_ZERO));
    types.push(number(NUMBER_ONE));
    types.push(number(NUMBER_NAN));
    types.push(number(NUMBER_NEG_INFINITY));
    types.push(number(NUMBER_INFINITY));
    types.push(number(NUMBER_MIN_VALUE));
    types.push(number(NUMBER_MAX_VALUE));
    types.push(number(NUMBER_EPSILON));
    types.push(number(NUMBER_NEG_ONE));
    types.push(Type::Constant(Constant::String(String::new())));
    // The inferred `this` free variable
    types.push(
        Type::RootPolyType(
            PolyNature::FreeVariable { reference: RootReference::This, based_on: ANY_TYPE },
        ),
    );
    types.push(
        Type::RootPolyType(
            PolyNature::FunctionGeneric { name: "new.target".to_owned(), extends: ANY_TYPE },
        ),
    );
    types.push(plain_interface("ImportMeta"));
    types.push(symbol("iterator"));
    types.push(symbol("asyncIterator"));
    types.push(symbol("hasInstance"));
    types.push(symbol("toPrimitive"));
}

fn push_intrinsics(types: &mut Vec<Type>)
    requires
        old(types)@.len() == 35,
    ensures
        final(types)@.len() == 57,
        final(types)@.subrange(0, 35) == old(types)@,
        initial_intrinsics(final(types)@),
{
    types.push(structure_generic("S", STRING_TYPE));
    types.push(alias("Uppercase", STRING_TYPE, Some(STRING_GENERIC)));
    types.push(alias("Lowercase", STRING_TYPE, Some(STRING_GENERIC)));
    types.push(alias("Capitalize", STRING_TYPE, Some(STRING_GENERIC)));
    types.push(alias("Uncapitalize", STRING_TYPE, Some(STRING_GENERIC)));
    types.push(alias("NoInfer", T_TYPE, Some(T_TYPE)));
    types.push(alias("Readonly", T_TYPE, Some(T_TYPE)));
    types.push(mapped_generic("NonOptional", BOOLEAN_TYPE));
    types.push(mapped_generic("Writable", BOOLEAN_TYPE));
    types.push(structure_generic("T", NUMBER_TYPE));
    types.push(alias("GreaterThan", NUMBER_TYPE, Some(NUMBER_GENERIC)));
    types.push(alias("LessThan", NUMBER_TYPE, Some(NUMBER_GENERIC)));
    types.push(alias("MultipleOf", NUMBER_TYPE, Some(NUMBER_GENERIC)));
    // What the intersection below is built from
    types.push(not_nan());
    types.push(Type::And(NUMBER_TYPE, NOT_NAN));
    types.push(alias("Literal", T_TYPE, Some(T_TYPE)));
    types.push(alias("Exclusive", T_TYPE, Some(T_TYPE)));
    types.push(alias("Not", ANY_TYPE, Some(T_TYPE)));
    types.push(alias("CaseInsensitive", STRING_TYPE, Some(STRING_GENERIC)));
    types.push(Type::RootPolyType(PolyNature::Open(BOOLEAN_TYPE)));
    types.push(Type::RootPolyType(PolyNature::Open(NUMBER_TYPE)));
    types.push(Type::Or(STRING_TYPE, NUMBER_TYPE));
}

/// The descriptors of the built-in types, in the order of their identifiers.
pub(crate) fn builtin_types() -> (types: Vec<Type>)
    ensures
        types@.len() == INTERNAL_TYPE_COUNT,
        initial_primitives(types@),
        initial_constants(types@),
        initial_intrinsics(types@),
        builtins_in_place(types@),
        crate::store::operands_precede(types@),
        crate::store::references_registered(types@),
{
    let mut types = primitives();
    push_constants(&mut types);
    push_intrinsics(&mut types);
    types
}

} // verus!
