use ezno_checker::constant::Constant;
use ezno_checker::ids::{
    SpanWithSource, BOOLEAN_TYPE, FALSE, GREATER_THAN, INTERNAL_TYPE_COUNT, LESS_THAN,
    MULTIPLE_OF, NEVER_TYPE, NOT_RESTRICTION, NUMBER_TYPE, OPEN_BOOLEAN_TYPE, STRING_OR_NUMBER,
    STRING_TYPE, TRUE, T_TYPE, UNDEFINED_TYPE,
};
use ezno_checker::store::TypeStore;
use ezno_checker::types::{
    Constructor, GenericArguments, PartiallyAppliedGenerics, Type, TypeExtends,
};

fn fresh(store: &mut TypeStore, name: &str) -> u16 {
    store.register_type(Type::Interface {
        name: name.to_owned(),
        parameters: None,
        extends: None,
    })
}

fn refinement(store: &mut TypeStore, on: u16, argument: u16) -> u16 {
    store.register_type(Type::PartiallyAppliedGenerics(PartiallyAppliedGenerics {
        on,
        arguments: GenericArguments::ExplicitRestrictions(vec![(
            T_TYPE,
            (argument, SpanWithSource { start: 0, end: 0, source: 0 }),
        )]),
    }))
}

fn sides(store: &TypeStore, id: u16) -> (u16, u16) {
    match store.get_type_by_id(id) {
        Type::Or(left, right) => (*left, *right),
        other => panic!("not a union: {:?}", other),
    }
}

#[test]
fn the_union_of_a_type_with_itself_is_that_type() {
    let mut store = TypeStore::default();
    let a = fresh(&mut store, "A");
    let before = store.count_of_types();
    for x in [a, NEVER_TYPE, TRUE, STRING_TYPE, STRING_OR_NUMBER] {
        assert_eq!(store.new_or_type(x, x), x);
    }
    assert_eq!(store.count_of_types(), before);
}

#[test]
fn never_is_dropped_from_a_union() {
    let mut store = TypeStore::default();
    let a = fresh(&mut store, "A");
    let before = store.count_of_types();
    for x in [a, TRUE, STRING_TYPE, STRING_OR_NUMBER, NEVER_TYPE] {
        assert_eq!(store.new_or_type(NEVER_TYPE, x), x);
        assert_eq!(store.new_or_type(x, NEVER_TYPE), x);
    }
    assert_eq!(store.count_of_types(), before);
}

#[test]
fn true_and_false_make_the_open_boolean() {
    let mut store = TypeStore::default();
    assert_eq!(store.new_or_type(TRUE, FALSE), OPEN_BOOLEAN_TYPE);
    assert_eq!(store.new_or_type(FALSE, TRUE), OPEN_BOOLEAN_TYPE);
    assert_eq!(store.count_of_types(), INTERNAL_TYPE_COUNT);
}

#[test]
fn two_unrelated_types_make_a_new_union_each_time() {
    let mut store = TypeStore::default();
    let first = store.new_or_type(STRING_TYPE, BOOLEAN_TYPE);
    let second = store.new_or_type(STRING_TYPE, BOOLEAN_TYPE);
    assert_eq!(first, 57);
    assert_eq!(second, 58);
    assert_eq!(sides(&store, first), (STRING_TYPE, BOOLEAN_TYPE));
    assert_eq!(sides(&store, second), (STRING_TYPE, BOOLEAN_TYPE));
}

#[test]
fn a_union_absorbs_an_operand_that_it_already_has() {
    let mut store = TypeStore::default();
    let a = fresh(&mut store, "A");
    let b = fresh(&mut store, "B");
    let ab = store.new_or_type(a, b);
    let joined = store.new_or_type(ab, a);
    assert_eq!(sides(&store, joined), (a, b));
    // on the way: `a | b`, then `b | a`, then `a | b` again
    assert_eq!((ab, joined), (59, 61));
    assert_eq!(sides(&store, 60), (b, a));
}

#[test]
fn an_operand_on_the_right_side_is_absorbed_too() {
    let mut store = TypeStore::default();
    let a = fresh(&mut store, "A");
    let b = fresh(&mut store, "B");
    let ab = store.new_or_type(a, b);
    // `a | (a | b)` drops to `a | b`, and `b | (a | b)` to `b | a`
    let left = store.new_or_type(a, ab);
    assert_eq!(sides(&store, left), (a, b));
    let right = store.new_or_type(b, ab);
    assert_eq!(sides(&store, right), (b, a));
}

#[test]
fn unions_lean_to_the_right() {
    let mut store = TypeStore::default();
    let a = fresh(&mut store, "A");
    let b = fresh(&mut store, "B");
    let c = fresh(&mut store, "C");
    let ab = store.new_or_type(a, b);
    let nested_left = store.new_or_type(ab, c);
    let (first, rest) = sides(&store, nested_left);
    assert_eq!(first, a);
    assert_eq!(sides(&store, rest), (b, c));

    let mut other = TypeStore::default();
    let a = fresh(&mut other, "A");
    let b = fresh(&mut other, "B");
    let c = fresh(&mut other, "C");
    let bc = other.new_or_type(b, c);
    let nested_right = other.new_or_type(a, bc);
    let (first, rest) = sides(&other, nested_right);
    assert_eq!(first, a);
    assert_eq!(rest, bc);
    assert_eq!(sides(&other, rest), (b, c));
    // the same shape under two identifiers: the first nesting registered `a | b` on its way
    assert_eq!(nested_left, 62);
    assert_eq!(nested_right, 61);
}

#[test]
fn a_union_of_many_starts_from_never() {
    let mut store = TypeStore::default();
    assert_eq!(store.new_or_type_from_iterator(Vec::new()), NEVER_TYPE);
    assert_eq!(store.new_or_type_from_iterator(vec![STRING_TYPE]), STRING_TYPE);
    assert_eq!(store.new_or_type_from_iterator(vec![TRUE, FALSE]), OPEN_BOOLEAN_TYPE);
    assert_eq!(store.new_or_type_from_iterator(vec![NEVER_TYPE, NEVER_TYPE]), NEVER_TYPE);
    assert_eq!(store.count_of_types(), INTERNAL_TYPE_COUNT);
    let a = fresh(&mut store, "A");
    let b = fresh(&mut store, "B");
    let c = fresh(&mut store, "C");
    let all = store.new_or_type_from_iterator(vec![a, b, c]);
    let (first, rest) = sides(&store, all);
    assert_eq!(first, a);
    assert_eq!(sides(&store, rest), (b, c));
    // only a direct side is absorbed: a fourth operand that lies deeper is joined again
    let more = store.new_or_type_from_iterator(vec![a, b, c, a]);
    let (first, rest) = sides(&store, more);
    assert_eq!(first, a);
    let (second, rest) = sides(&store, rest);
    assert_eq!(second, b);
    assert_eq!(sides(&store, rest), (c, a));
}

#[test]
fn the_intersection_of_a_type_with_itself_is_that_type() {
    let mut store = TypeStore::default();
    for x in [STRING_TYPE, TRUE, STRING_OR_NUMBER, NEVER_TYPE] {
        assert_eq!(store.new_and_type(x, x), x);
    }
    assert_eq!(store.count_of_types(), INTERNAL_TYPE_COUNT);
}

#[test]
fn a_constant_operand_is_the_intersection() {
    let mut store = TypeStore::default();
    assert_eq!(store.new_and_type(TRUE, BOOLEAN_TYPE), TRUE);
    assert_eq!(store.new_and_type(BOOLEAN_TYPE, FALSE), FALSE);
    // the left constant wins over the right one
    assert_eq!(store.new_and_type(TRUE, FALSE), TRUE);
    assert_eq!(store.new_and_type(UNDEFINED_TYPE, TRUE), UNDEFINED_TYPE);
    assert_eq!(store.count_of_types(), INTERNAL_TYPE_COUNT);
}

#[test]
fn two_unrelated_types_make_a_new_intersection() {
    let mut store = TypeStore::default();
    let a = fresh(&mut store, "A");
    let b = fresh(&mut store, "B");
    let both = store.new_and_type(a, b);
    assert_eq!(both, 59);
    assert!(matches!(store.get_type_by_id(both), Type::And(l, r) if *l == a && *r == b));
}

#[test]
fn intersection_distributes_over_a_union_on_the_left() {
    let mut store = TypeStore::default();
    let u = fresh(&mut store, "U");
    let v = fresh(&mut store, "V");
    let b = fresh(&mut store, "B");
    let a = store.new_or_type(u, v);

    let mut expected = TypeStore::default();
    fresh(&mut expected, "U");
    fresh(&mut expected, "V");
    fresh(&mut expected, "B");
    expected.new_or_type(u, v);

    let whole = store.new_and_type(a, b);
    let left = expected.new_and_type(u, b);
    let right = expected.new_and_type(v, b);
    let parts = expected.new_or_type(left, right);

    assert_eq!(whole, parts);
    assert_eq!(store.count_of_types(), expected.count_of_types());
    let (first, second) = sides(&store, whole);
    assert!(matches!(store.get_type_by_id(first), Type::And(l, r) if *l == u && *r == b));
    assert!(matches!(store.get_type_by_id(second), Type::And(l, r) if *l == v && *r == b));
}

#[test]
fn intersection_distributes_over_a_union_on_the_right() {
    let mut store = TypeStore::default();
    let a = fresh(&mut store, "A");
    let whole = store.new_and_type(a, STRING_OR_NUMBER);
    let (first, second) = sides(&store, whole);
    assert!(matches!(store.get_type_by_id(first), Type::And(l, STRING_TYPE) if *l == a));
    assert!(matches!(store.get_type_by_id(second), Type::And(l, NUMBER_TYPE) if *l == a));
}

#[test]
fn an_intersection_with_a_constant_side_of_a_union_keeps_the_constant() {
    let mut store = TypeStore::default();
    let flag = store.new_or_type(TRUE, STRING_TYPE);
    let before = store.count_of_types();
    // (true & boolean) | (string & boolean) = true | (string & boolean)
    let whole = store.new_and_type(flag, BOOLEAN_TYPE);
    let (first, second) = sides(&store, whole);
    assert_eq!(first, TRUE);
    assert!(matches!(store.get_type_by_id(second), Type::And(STRING_TYPE, BOOLEAN_TYPE)));
    assert_eq!(store.count_of_types(), before + 2);
}

#[test]
fn an_intersection_on_the_right_is_taken_apart() {
    let mut store = TypeStore::default();
    let a = fresh(&mut store, "A");
    let b = fresh(&mut store, "B");
    let c = fresh(&mut store, "C");
    let bc = store.new_and_type(b, c);
    let all = store.new_and_type(a, bc);
    match store.get_type_by_id(all) {
        Type::And(left, right) => {
            assert_eq!(*right, c);
            assert!(matches!(store.get_type_by_id(*left), Type::And(l, r) if *l == a && *r == b));
        }
        other => panic!("not an intersection: {:?}", other),
    }
}

#[test]
fn a_conditional_collapses_where_it_can() {
    let mut store = TypeStore::default();
    let x = fresh(&mut store, "X");
    let before = store.count_of_types();
    assert_eq!(store.new_conditional_type(TRUE, STRING_TYPE, NUMBER_TYPE), STRING_TYPE);
    assert_eq!(store.new_conditional_type(FALSE, STRING_TYPE, NUMBER_TYPE), NUMBER_TYPE);
    assert_eq!(store.new_conditional_type(x, TRUE, FALSE), x);
    assert_eq!(store.new_conditional_type(x, STRING_TYPE, STRING_TYPE), STRING_TYPE);
    assert_eq!(store.new_conditional_type(TRUE, TRUE, FALSE), TRUE);
    assert_eq!(store.new_conditional_type(FALSE, TRUE, FALSE), FALSE);
    assert_eq!(store.count_of_types(), before);
}

#[test]
fn a_conditional_is_registered_with_the_union_of_its_results() {
    let mut store = TypeStore::default();
    let x = fresh(&mut store, "X");
    let id = store.new_conditional_type(x, STRING_TYPE, NUMBER_TYPE);
    match store.get_type_by_id(id) {
        Type::Constructor(Constructor::ConditionalResult {
            condition,
            truthy_result: STRING_TYPE,
            otherwise_result: NUMBER_TYPE,
            result_union,
        }) => {
            assert_eq!(*condition, x);
            assert_eq!(sides(&store, *result_union), (STRING_TYPE, NUMBER_TYPE));
            assert_eq!(*result_union + 1, id);
        }
        other => panic!("not a conditional: {:?}", other),
    }
}

#[test]
fn a_negated_condition_swaps_the_results() {
    let mut store = TypeStore::default();
    let x = fresh(&mut store, "X");
    let not_x = store.new_logical_negation_type(x);
    let id = store.new_conditional_type(not_x, STRING_TYPE, NUMBER_TYPE);
    assert!(matches!(
        store.get_type_by_id(id),
        Type::Constructor(Constructor::ConditionalResult {
            condition,
            truthy_result: NUMBER_TYPE,
            otherwise_result: STRING_TYPE,
            ..
        }) if *condition == x
    ));
    // the negation of a negation of a negation is one negation
    let not_not_x = store.new_logical_negation_type(not_x);
    let back = store.new_conditional_type(not_not_x, FALSE, TRUE);
    assert_eq!(back, not_x);
}

#[test]
fn logical_and_and_or_are_conditionals() {
    let mut store = TypeStore::default();
    let x = fresh(&mut store, "X");
    let y = fresh(&mut store, "Y");
    let and = store.new_logical_and_type(x, y);
    assert!(matches!(
        store.get_type_by_id(and),
        Type::Constructor(Constructor::ConditionalResult {
            condition,
            truthy_result,
            otherwise_result: FALSE,
            ..
        }) if *condition == x && *truthy_result == y
    ));
    let or = store.new_logical_or_type(x, y);
    assert!(matches!(
        store.get_type_by_id(or),
        Type::Constructor(Constructor::ConditionalResult {
            condition,
            truthy_result: TRUE,
            otherwise_result,
            ..
        }) if *condition == x && *otherwise_result == y
    ));
    assert_eq!(store.new_logical_and_type(TRUE, y), y);
    assert_eq!(store.new_logical_and_type(FALSE, y), FALSE);
    assert_eq!(store.new_logical_or_type(TRUE, y), TRUE);
    assert_eq!(store.new_logical_or_type(FALSE, y), y);
}

#[test]
fn a_conditional_on_extends_registers_the_test() {
    let mut store = TypeStore::default();
    let x = fresh(&mut store, "X");
    let id = store.new_conditional_extends_type(x, STRING_TYPE, NUMBER_TYPE, BOOLEAN_TYPE);
    match store.get_type_by_id(id) {
        Type::Constructor(Constructor::ConditionalResult {
            condition,
            truthy_result: NUMBER_TYPE,
            otherwise_result: BOOLEAN_TYPE,
            ..
        }) => assert!(matches!(
            store.get_type_by_id(*condition),
            Type::Constructor(Constructor::TypeExtends(TypeExtends { item, extends: STRING_TYPE }))
                if *item == x
        )),
        other => panic!("not a conditional: {:?}", other),
    }
    // equal results need no condition, but the test was registered before that is seen
    let before = store.count_of_types();
    assert_eq!(store.new_conditional_extends_type(x, STRING_TYPE, TRUE, TRUE), TRUE);
    assert_eq!(store.count_of_types(), before + 1);
}

#[test]
fn a_narrowing_keeps_its_origin_and_its_bound() {
    let mut store = TypeStore::default();
    let x = fresh(&mut store, "X");
    let narrowed = store.new_narrowed(x, STRING_TYPE);
    assert!(matches!(
        store.get_type_by_id(narrowed),
        Type::Narrowed { from, narrowed_to: STRING_TYPE } if *from == x
    ));
    // narrowing again starts from the first origin, and another bound replaces the old one
    let again = store.new_narrowed(narrowed, NUMBER_TYPE);
    assert!(matches!(
        store.get_type_by_id(again),
        Type::Narrowed { from, narrowed_to: NUMBER_TYPE } if *from == x
    ));
}

#[test]
fn a_refinement_is_met_with_the_bound_that_was_there() {
    for on in [GREATER_THAN, LESS_THAN, MULTIPLE_OF, NOT_RESTRICTION] {
        let mut store = TypeStore::default();
        let x = fresh(&mut store, "X");
        let four = store.new_constant_type(Constant::Number(4.0f64.to_bits()));
        let bound = refinement(&mut store, on, four);
        assert!(store.is_refinement(bound));
        // on a type that was not narrowed before, the refinement is the bound as it stands
        let first = store.new_narrowed(x, NUMBER_TYPE);
        let second = store.new_narrowed(first, bound);
        match store.get_type_by_id(second) {
            Type::Narrowed { from, narrowed_to } => {
                assert_eq!(*from, x);
                assert!(matches!(
                    store.get_type_by_id(*narrowed_to),
                    Type::And(NUMBER_TYPE, right) if *right == bound
                ));
            }
            other => panic!("not a narrowing: {:?}", other),
        }
        let plain = store.new_narrowed(x, bound);
        assert!(matches!(
            store.get_type_by_id(plain),
            Type::Narrowed { from, narrowed_to } if *from == x && *narrowed_to == bound
        ));
    }
}

#[test]
fn an_application_of_another_prototype_is_no_refinement() {
    let mut store = TypeStore::default();
    let list = refinement(&mut store, 9, STRING_TYPE);
    assert!(!store.is_refinement(list));
    assert!(!store.is_refinement(STRING_TYPE));
    let x = fresh(&mut store, "X");
    let first = store.new_narrowed(x, NUMBER_TYPE);
    let second = store.new_narrowed(first, list);
    assert!(matches!(
        store.get_type_by_id(second),
        Type::Narrowed { from, narrowed_to } if *from == x && *narrowed_to == list
    ));
}

fn members(store: &TypeStore, id: u16) -> Vec<u16> {
    match store.get_type_by_id(id) {
        Type::Or(left, right) => {
            let mut all = members(store, *left);
            all.extend(members(store, *right));
            all
        }
        _ => vec![id],
    }
}

fn leans_right(store: &TypeStore, id: u16) -> bool {
    match store.get_type_by_id(id) {
        Type::Or(left, right) => {
            !matches!(store.get_type_by_id(*left), Type::Or(..)) && leans_right(store, *right)
        }
        _ => true,
    }
}

#[test]
fn nested_unions_join_their_members_in_order() {
    let mut store = TypeStore::default();
    let names = ["A", "B", "C", "D", "E", "F", "G"];
    let leaves: Vec<u16> = names.iter().map(|name| fresh(&mut store, name)).collect();
    // a = (A | B) | C, registered as it stands: it leans to the left
    let inner = store.register_type(Type::Or(leaves[0], leaves[1]));
    let a = store.register_type(Type::Or(inner, leaves[2]));
    let b = store.new_or_type(leaves[3], leaves[4]);
    let c = store.new_or_type(leaves[5], leaves[6]);
    assert!(!leans_right(&store, a));

    let ab = store.new_or_type(a, b);
    let left = store.new_or_type(ab, c);
    let bc = store.new_or_type(b, c);
    let right = store.new_or_type(a, bc);
    assert_eq!(members(&store, left), leaves);
    assert_eq!(members(&store, right), leaves);
    assert!(leans_right(&store, left));
    assert!(leans_right(&store, right));
    assert_ne!(left, right);
}
