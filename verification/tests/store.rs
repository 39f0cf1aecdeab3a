use ezno_checker::constant::Constant;
use ezno_checker::functions::{
    FunctionBehavior, FunctionEffect, FunctionType, SynthesisedParameters, ThisValue,
};
use ezno_checker::ids::{
    ClosureId, FunctionId, SpanWithSource, VariableId, ANY_TYPE, ARRAY_TYPE, BOOLEAN_TYPE,
    EMPTY_STRING, FALSE, FLOAT_EPSILON, FLOAT_MAX, FLOAT_MIN, INFINITY, INTERNAL_TYPE_COUNT,
    MAX_U32, NAN, NEG_INFINITY, NEW_TARGET_ARG, NOT_NAN, NOT_NOT_A_NUMBER, NUMBER_TYPE, ONE,
    STRING_OR_NUMBER, STRING_TYPE, TRUE, T_TYPE, UNDEFINED_TYPE, VOID_TYPE, ZERO,
};
use ezno_checker::properties::{PropertyKey, PropertyValue, Publicity};
use ezno_checker::store::TypeStore;
use ezno_checker::types::{
    Constructor, GenericArguments, LookUpGeneric, ObjectNature, PartiallyAppliedGenerics,
    PolyNature, SpecialObject, Type, TypeKind,
};

fn interface(name: &str, extends: Option<u16>) -> Type {
    Type::Interface { name: name.to_owned(), parameters: None, extends }
}

fn function(source: u16, start: u32, return_type: u16) -> FunctionType {
    FunctionType {
        id: FunctionId(source, start),
        type_parameters: None,
        parameters: SynthesisedParameters { parameters: Vec::new(), rest_parameter: None },
        return_type,
        effect: FunctionEffect::Unknown,
        behavior: FunctionBehavior::ArrowFunction { is_async: false },
    }
}

fn number_of(ty: &Type) -> f64 {
    match ty {
        Type::Constant(Constant::Number(bits)) => f64::from_bits(*bits),
        other => panic!("not a number: {:?}", other),
    }
}

#[test]
fn a_new_store_holds_the_built_in_types() {
    let store = TypeStore::default();
    assert_eq!(store.count_of_types(), INTERNAL_TYPE_COUNT);
    assert_eq!(store.count_of_types(), 57);
    assert!(store.user_types().is_empty());
}

#[test]
fn built_in_slots_hold_their_descriptors() {
    let store = TypeStore::default();
    assert!(matches!(store.get_type_by_id(0), Type::RootPolyType(PolyNature::Error(ANY_TYPE))));
    assert!(matches!(
        store.get_type_by_id(1),
        Type::Interface { name, parameters: None, extends: None } if name == "never"
    ));
    assert!(matches!(
        store.get_type_by_id(BOOLEAN_TYPE),
        Type::Class { name, type_parameters: None } if name == "boolean"
    ));
    assert!(matches!(store.get_type_by_id(UNDEFINED_TYPE), Type::Constant(Constant::Undefined)));
    assert!(matches!(
        store.get_type_by_id(VOID_TYPE),
        Type::AliasTo { to: UNDEFINED_TYPE, name, parameters: None } if name == "void"
    ));
    assert!(matches!(
        store.get_type_by_id(ARRAY_TYPE),
        Type::Class { name, type_parameters: Some(list) } if name == "Array" && *list == vec![T_TYPE]
    ));
    assert!(matches!(store.get_type_by_id(TRUE), Type::Constant(Constant::Boolean(true))));
    assert!(matches!(store.get_type_by_id(FALSE), Type::Constant(Constant::Boolean(false))));
    assert!(matches!(
        store.get_type_by_id(EMPTY_STRING),
        Type::Constant(Constant::String(text)) if text.is_empty()
    ));
    assert!(matches!(
        store.get_type_by_id(NEW_TARGET_ARG),
        Type::RootPolyType(PolyNature::FunctionGeneric { name, extends: ANY_TYPE })
            if name == "new.target"
    ));
    assert!(matches!(store.get_type_by_id(NOT_NOT_A_NUMBER), Type::And(NUMBER_TYPE, NOT_NAN)));
    assert!(matches!(store.get_type_by_id(STRING_OR_NUMBER), Type::Or(STRING_TYPE, NUMBER_TYPE)));
    match store.get_type_by_id(NOT_NAN) {
        Type::PartiallyAppliedGenerics(PartiallyAppliedGenerics {
            on,
            arguments: GenericArguments::ExplicitRestrictions(list),
        }) => {
            assert_eq!(*on, 52);
            assert_eq!(*list, vec![(T_TYPE, (NAN, SpanWithSource { start: 0, end: 0, source: 0 }))]);
        }
        other => panic!("unexpected descriptor {:?}", other),
    }
}

#[test]
fn built_in_numbers_have_their_values() {
    let store = TypeStore::default();
    assert_eq!(number_of(store.get_type_by_id(ZERO)), 0.0);
    assert_eq!(number_of(store.get_type_by_id(ONE)), 1.0);
    assert!(number_of(store.get_type_by_id(NAN)).is_nan());
    assert_eq!(number_of(store.get_type_by_id(NEG_INFINITY)), f64::NEG_INFINITY);
    assert_eq!(number_of(store.get_type_by_id(INFINITY)), f64::INFINITY);
    assert_eq!(number_of(store.get_type_by_id(FLOAT_MIN)), 5e-324);
    assert_eq!(number_of(store.get_type_by_id(FLOAT_MAX)), f64::MAX);
    assert_eq!(number_of(store.get_type_by_id(FLOAT_EPSILON)), f64::EPSILON);
    assert_eq!(number_of(store.get_type_by_id(MAX_U32)), -1.0);
}

#[test]
fn every_built_in_slot_has_a_descriptor_of_its_kind() {
    let store = TypeStore::default();
    let aliases = [8u16, 36, 37, 38, 39, 40, 41, 45, 46, 47, 50, 51, 52, 53];
    for id in aliases {
        assert_eq!(store.get_type_by_id(id).get_kind(), TypeKind::AliasTo);
    }
    for id in [0u16, 11, 28, 29, 35, 42, 43, 44, 54, 55] {
        assert_eq!(store.get_type_by_id(id).get_kind(), TypeKind::RootPolyType);
    }
    for id in 16u16..=27 {
        assert_eq!(store.get_type_by_id(id).get_kind(), TypeKind::Constant);
    }
    assert_eq!(store.get_type_by_id(7).get_kind(), TypeKind::SpecialObject);
    assert_eq!(store.get_type_by_id(12).get_kind(), TypeKind::Class);
}

#[test]
fn the_lookup_rule_of_array_is_there() {
    let store = TypeStore::default();
    let rules = store.get_look_up_generic_from_prototype(ARRAY_TYPE).unwrap();
    assert_eq!(*rules, vec![(T_TYPE, LookUpGeneric::NumberPropertyOfSelf)]);
    assert!(store.get_look_up_generic_from_prototype(10).is_none());
}

#[test]
fn identifiers_are_dense() {
    let mut store = TypeStore::default();
    for k in 0..10usize {
        let id = store.register_type(interface("I", None));
        assert_eq!(id as usize, INTERNAL_TYPE_COUNT + k);
        assert_eq!(store.count_of_types(), INTERNAL_TYPE_COUNT + k + 1);
    }
    let listed = store.user_types();
    assert_eq!(listed.len(), 10);
    assert_eq!(listed[0].0, 57);
    assert_eq!(listed[9].0, 66);
    assert!(matches!(listed[3].1, Type::Interface { .. }));
}

#[test]
fn a_registered_descriptor_is_read_back() {
    let mut store = TypeStore::default();
    let id = store.register_type(Type::Or(STRING_TYPE, BOOLEAN_TYPE));
    assert!(matches!(store.get_type_by_id(id), Type::Or(STRING_TYPE, BOOLEAN_TYPE)));
}

#[test]
fn zero_of_either_sign_is_the_reserved_zero() {
    let mut store = TypeStore::default();
    assert_eq!(store.new_constant_type(Constant::Number(0.0f64.to_bits())), ZERO);
    assert_eq!(store.new_constant_type(Constant::Number((-0.0f64).to_bits())), ZERO);
    assert_eq!(store.new_constant_type(Constant::Number(f64::NAN.to_bits())), NAN);
    assert_eq!(store.count_of_types(), INTERNAL_TYPE_COUNT);
}

#[test]
fn every_not_a_number_is_the_reserved_one() {
    let mut store = TypeStore::default();
    for bits in [0x7FF8_0000_0000_0000u64, 0x7FF0_0000_0000_0001, 0xFFF8_0000_0000_0000, u64::MAX] {
        assert!(f64::from_bits(bits).is_nan());
        assert_eq!(store.new_constant_type(Constant::Number(bits)), NAN);
    }
    assert_eq!(store.count_of_types(), INTERNAL_TYPE_COUNT);
}

#[test]
fn reserved_constants_are_idempotent() {
    let mut store = TypeStore::default();
    let table = [
        (Constant::String(String::new()), EMPTY_STRING),
        (Constant::Number(0.0f64.to_bits()), ZERO),
        (Constant::Number(1.0f64.to_bits()), ONE),
        (Constant::Number(f64::INFINITY.to_bits()), INFINITY),
        (Constant::Number(f64::NEG_INFINITY.to_bits()), NEG_INFINITY),
        (Constant::Number(f64::NAN.to_bits()), NAN),
        (Constant::Boolean(true), TRUE),
        (Constant::Boolean(false), FALSE),
    ];
    for (constant, reserved) in table {
        assert_eq!(constant.get_reserved_id(), Some(reserved));
        let first = store.new_constant_type(constant.clone());
        let second = store.new_constant_type(constant);
        assert_eq!(first, reserved);
        assert_eq!(second, reserved);
    }
    assert_eq!(store.count_of_types(), INTERNAL_TYPE_COUNT);
}

#[test]
fn other_constants_are_registered_each_time() {
    let mut store = TypeStore::default();
    let first = store.new_constant_type(Constant::Number(2.0f64.to_bits()));
    let second = store.new_constant_type(Constant::Number(2.0f64.to_bits()));
    let third = store.new_constant_type(Constant::String("a".to_owned()));
    let fourth = store.new_constant_type(Constant::Undefined);
    let fifth = store.new_constant_type(Constant::Symbol { key: "iterator".to_owned() });
    let sixth = store.new_constant_type(Constant::Number((-1.0f64).to_bits()));
    assert_eq!((first, second, third, fourth, fifth, sixth), (57, 58, 59, 60, 61, 62));
    assert_eq!(number_of(store.get_type_by_id(first)), 2.0);
    assert!(matches!(
        store.get_type_by_id(third),
        Type::Constant(Constant::String(text)) if text == "a"
    ));
    assert_eq!(Constant::Undefined.get_reserved_id(), None);
}

#[test]
fn an_interface_that_extends_something_can_be_made_to_extend_another() {
    let mut store = TypeStore::default();
    let x = store.register_type(interface("X", None));
    let y = store.register_type(interface("Y", None));
    let i = store.register_type(interface("I", Some(y)));
    store.set_extends_on_interface(i, x);
    assert!(matches!(
        store.get_type_by_id(i),
        Type::Interface { name, parameters: None, extends: Some(extends) }
            if name == "I" && *extends == x
    ));
}

#[test]
fn an_interface_that_extends_nothing_stays_so() {
    let mut store = TypeStore::default();
    let x = store.register_type(interface("X", None));
    let i = store.register_type(interface("I", None));
    store.set_extends_on_interface(i, x);
    assert!(matches!(store.get_type_by_id(i), Type::Interface { extends: None, .. }));
    // on a descriptor of another kind nothing happens either
    store.set_extends_on_interface(TRUE, x);
    assert!(matches!(store.get_type_by_id(TRUE), Type::Constant(Constant::Boolean(true))));
}

#[test]
fn an_alias_can_be_pointed_elsewhere() {
    let mut store = TypeStore::default();
    let alias = store.register_type(Type::AliasTo {
        to: ANY_TYPE,
        name: "Later".to_owned(),
        parameters: None,
    });
    store.update_alias(alias, STRING_TYPE);
    assert!(matches!(
        store.get_type_by_id(alias),
        Type::AliasTo { to: STRING_TYPE, name, parameters: None } if name == "Later"
    ));
    store.update_alias(NUMBER_TYPE, STRING_TYPE);
    assert!(matches!(store.get_type_by_id(NUMBER_TYPE), Type::Class { .. }));
    assert_eq!(store.count_of_types(), INTERNAL_TYPE_COUNT + 1);
}

#[test]
fn the_bound_of_a_structure_generic_can_be_replaced() {
    let mut store = TypeStore::default();
    let generic = store.register_type(Type::RootPolyType(PolyNature::StructureGeneric {
        name: "U".to_owned(),
        extends: ANY_TYPE,
    }));
    store.update_generic_extends(generic, NUMBER_TYPE);
    assert!(matches!(
        store.get_type_by_id(generic),
        Type::RootPolyType(PolyNature::StructureGeneric { name, extends: NUMBER_TYPE })
            if name == "U"
    ));
    store.modify_interface_type_parameter_constraint(generic, STRING_TYPE);
    assert!(matches!(
        store.get_type_by_id(generic),
        Type::RootPolyType(PolyNature::StructureGeneric { extends: STRING_TYPE, .. })
    ));
    store.update_generic_extends(TRUE, NUMBER_TYPE);
    assert!(matches!(store.get_type_by_id(TRUE), Type::Constant(Constant::Boolean(true))));
}

#[test]
fn the_constraint_of_a_parameter_can_be_inferred_later() {
    let mut store = TypeStore::default();
    let variable = VariableId(1, 10);
    let parameter = store.new_function_parameter(ANY_TYPE, variable, "x");
    assert_eq!(parameter, 57);
    store._set_inferred_constraint(parameter, NUMBER_TYPE);
    assert!(matches!(
        store.get_type_by_id(parameter),
        Type::RootPolyType(PolyNature::Parameter { fixed_to: NUMBER_TYPE, variable_id })
            if *variable_id == variable
    ));
}

#[test]
fn a_parameter_records_its_name() {
    let mut store = TypeStore::default();
    let variable = VariableId(1, 10);
    assert_eq!(store.get_parameter_name(variable), "");
    let parameter = store.new_function_parameter(STRING_TYPE, variable, "text");
    assert_eq!(store.get_parameter_name(variable), "text");
    assert_eq!(store.get_parameter_name(VariableId(10, 1)), "");
    assert_eq!(store.get_parameter_name(VariableId(1, 11)), "");
    assert!(matches!(
        store.get_type_by_id(parameter),
        Type::RootPolyType(PolyNature::Parameter { fixed_to: STRING_TYPE, .. })
    ));
    // a later name replaces the earlier one
    store.new_function_parameter(STRING_TYPE, variable, "other");
    assert_eq!(store.get_parameter_name(variable), "other");
}

#[test]
fn a_function_generic_constraint_is_the_parameter_itself() {
    let mut store = TypeStore::default();
    let before = store.count_of_types();
    let parameter = store.new_function_parameter(NEW_TARGET_ARG, VariableId(2, 0), "target");
    assert_eq!(parameter, NEW_TARGET_ARG);
    assert_eq!(store.count_of_types(), before);
    assert_eq!(store.get_parameter_name(VariableId(2, 0)), "target");
}

#[test]
fn closure_identifiers_count_up_from_one() {
    let mut store = TypeStore::default();
    assert_eq!(store.new_closure_id(), ClosureId(1));
    assert_eq!(store.new_closure_id(), ClosureId(2));
    assert_eq!(store.new_closure_id(), ClosureId(3));
}

#[test]
fn a_function_object_uses_the_this_of_its_parent() {
    let mut store = TypeStore::default();
    let id = store.new_function_type(function(3, 40, STRING_TYPE));
    assert!(matches!(
        store.get_type_by_id(id),
        Type::SpecialObject(SpecialObject::Function(FunctionId(3, 40), ThisValue::UseParent))
    ));
    assert_eq!(store.get_function_from_id(FunctionId(3, 40)).return_type, STRING_TYPE);
    assert_eq!(ThisValue::default(), ThisValue::UseParent);
}

#[test]
fn a_hoisted_function_is_a_reference() {
    let mut store = TypeStore::default();
    let id = store.new_hoisted_function_type(function(3, 41, NUMBER_TYPE));
    assert!(matches!(store.get_type_by_id(id), Type::FunctionReference(FunctionId(3, 41))));
    assert_eq!(store.get_function_from_id(FunctionId(3, 41)).return_type, NUMBER_TYPE);
}

#[test]
fn a_class_constructor_uses_the_this_of_its_parent() {
    let mut store = TypeStore::default();
    let id = store.new_class_constructor_type(function(4, 0, ANY_TYPE));
    assert!(matches!(
        store.get_type_by_id(id),
        Type::SpecialObject(SpecialObject::Function(FunctionId(4, 0), ThisValue::UseParent))
    ));
}

#[test]
fn functions_with_the_same_offset_in_other_sources_are_kept_apart() {
    let mut store = TypeStore::default();
    store.new_function_type(function(1, 2, STRING_TYPE));
    store.new_function_type(function(2, 1, NUMBER_TYPE));
    store.new_function_type(function(0, 0x1_0002, BOOLEAN_TYPE));
    assert_eq!(store.get_function_from_id(FunctionId(1, 2)).return_type, STRING_TYPE);
    assert_eq!(store.get_function_from_id(FunctionId(2, 1)).return_type, NUMBER_TYPE);
    assert_eq!(store.get_function_from_id(FunctionId(0, 0x1_0002)).return_type, BOOLEAN_TYPE);
    assert_eq!(FunctionId(1, 2).table_key(), 0x1_0000_0002);
    assert_eq!(VariableId(0xFFFF, u32::MAX).table_key(), 0xFFFF_FFFF_FFFF);
}

#[test]
fn a_function_annotation_is_identified_by_its_position() {
    let mut store = TypeStore::default();
    let declared_at = SpanWithSource { start: 120, end: 140, source: 7 };
    let id = store.new_function_type_annotation(
        None,
        SynthesisedParameters { parameters: Vec::new(), rest_parameter: None },
        STRING_TYPE,
        &declared_at,
    );
    assert!(matches!(store.get_type_by_id(id), Type::FunctionReference(FunctionId(7, 120))));
    let recorded = store.get_function_from_id(FunctionId(7, 120));
    assert_eq!(recorded.id, FunctionId(7, 120));
    assert_eq!(recorded.return_type, STRING_TYPE);
    assert!(matches!(recorded.effect, FunctionEffect::Unknown));
    assert_eq!(recorded.behavior, FunctionBehavior::ArrowFunction { is_async: false });
}

#[test]
fn called_functions_are_remembered() {
    let mut store = TypeStore::default();
    assert!(!store.is_function_called(FunctionId(1, 1)));
    store.mark_function_called(FunctionId(1, 1));
    assert!(store.is_function_called(FunctionId(1, 1)));
    assert!(!store.is_function_called(FunctionId(1, 2)));
}

#[test]
fn an_array_type_applies_array_to_its_item() {
    let mut store = TypeStore::default();
    let position = SpanWithSource { start: 3, end: 9, source: 2 };
    let id = store.new_array_type(STRING_TYPE, position);
    match store.get_type_by_id(id) {
        Type::PartiallyAppliedGenerics(PartiallyAppliedGenerics {
            on: ARRAY_TYPE,
            arguments: GenericArguments::ExplicitRestrictions(list),
        }) => assert_eq!(*list, vec![(T_TYPE, (STRING_TYPE, position))]),
        other => panic!("unexpected descriptor {:?}", other),
    }
}

#[test]
fn the_plain_constructors_register_what_they_say() {
    let mut store = TypeStore::default();
    let open = store.new_open_type(NUMBER_TYPE);
    let error = store.new_error_type(STRING_TYPE);
    let this = store.create_this_object();
    let keys = store.new_key_of(this);
    let negation = store.new_logical_negation_type(open);
    let anonymous = store.new_anonymous_interface_type(vec![(
        Publicity::Public,
        PropertyKey::String("a".to_owned()),
        PropertyValue::Value(NUMBER_TYPE),
    )]);
    assert_eq!((open, error, this, keys, negation, anonymous), (57, 58, 59, 60, 61, 62));
    assert!(matches!(store.get_type_by_id(open), Type::RootPolyType(PolyNature::Open(NUMBER_TYPE))));
    assert!(matches!(
        store.get_type_by_id(error),
        Type::RootPolyType(PolyNature::Error(STRING_TYPE))
    ));
    assert!(matches!(store.get_type_by_id(this), Type::Object(ObjectNature::RealDeal)));
    assert!(matches!(
        store.get_type_by_id(keys),
        Type::Constructor(Constructor::KeyOf(of)) if *of == this
    ));
    assert!(matches!(
        store.get_type_by_id(negation),
        Type::Constructor(Constructor::ConditionalResult {
            condition,
            truthy_result: FALSE,
            otherwise_result: TRUE,
            result_union: BOOLEAN_TYPE,
        }) if *condition == open
    ));
    match store.get_type_by_id(anonymous) {
        Type::Object(ObjectNature::AnonymousTypeAnnotation(properties)) => {
            assert_eq!(properties.len(), 1);
            assert_eq!(properties[0].0, Publicity::Public);
            assert!(matches!(&properties[0].1, PropertyKey::String(name) if name == "a"));
            assert_eq!(properties[0].2, PropertyValue::Value(NUMBER_TYPE));
        }
        other => panic!("unexpected descriptor {:?}", other),
    }
}
