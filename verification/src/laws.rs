//! What holds of the constructors on every store, stated over their models.

use vstd::prelude::*;
use crate::algebra::{
    and_type, conditional_type, extends, lemma_extends_index, lemma_or_type_grows,
    lemma_or_type_len, lemma_push_extends, or_type, union_sides,
};
use crate::builtins::{builtin_kind, builtins_in_place};
use crate::constant::Constant;
use crate::ids::{
    TypeId, FALSE, INTERNAL_TYPE_COUNT, MAX_TYPE_COUNT, NEVER_TYPE, OPEN_BOOLEAN_TYPE, TRUE,
};
use crate::store::{constant_type, operands_precede, TypeStoreView};
use crate::types::Type;

verus! {

/// The store after each of `descriptors` was registered in turn.
pub open spec fn register_all(store: TypeStoreView, descriptors: Seq<Type>) -> TypeStoreView
    decreases descriptors.len(),
{
    if descriptors.len() == 0 {
        store
    } else {
        register_all(store, descriptors.drop_last()).register(descriptors.last())
    }
}

/// Identifiers are dense: a new store holds exactly the built-in types, and
/// after `k` registrations it holds `k` more, the `i`-th of which has the
/// identifier that follows those before it.
pub proof fn lemma_dense_identifiers(store: TypeStoreView, descriptors: Seq<Type>)
    ensures
        register_all(store, descriptors).types.len() == store.types.len() + descriptors.len(),
        store.is_initial() ==> register_all(store, descriptors).types.len() == INTERNAL_TYPE_COUNT
            + descriptors.len(),
        forall|i: int|
            0 <= i < descriptors.len() ==> register_all(store, descriptors).types[store.types.len()
                + i] == #[trigger] descriptors[i],
        forall|i: int|
            0 <= i < store.types.len() ==> register_all(store, descriptors).types[i]
                == #[trigger] store.types[i],
    decreases descriptors.len(),
{
    if descriptors.len() > 0 {
        lemma_dense_identifiers(store, descriptors.drop_last());
        assert forall|i: int| 0 <= i < descriptors.len() implies register_all(
            store,
            descriptors,
        ).types[store.types.len() + i] == #[trigger] descriptors[i] by {
            if i < descriptors.len() - 1 {
                assert(descriptors.drop_last()[i] == descriptors[i]);
            }
        }
    }
}

/// A controlled mutation changes one field of a descriptor and never its
/// kind; a constant and a derived descriptor it leaves as they are.
pub proof fn lemma_mutations_keep_kind(ty: Type, to: TypeId)
    ensures
        ty.with_alias_target(to).kind() == ty.kind(),
        ty.with_interface_extends(to).kind() == ty.kind(),
        ty.with_generic_extends(to).kind() == ty.kind(),
        ty.with_parameter_constraint(to).kind() == ty.kind(),
        ty is Constant || ty is Or || ty is And || ty is Narrowed || ty is Constructor ==> {
            &&& ty.with_alias_target(to) == ty
            &&& ty.with_interface_extends(to) == ty
            &&& ty.with_generic_extends(to) == ty
            &&& ty.with_parameter_constraint(to) == ty
        },
{
}

/// Asking twice for a constant that has a reserved identifier gives that
/// identifier both times, and registers nothing either time.
pub proof fn lemma_reserved_constant_idempotent(types: Seq<Type>, constant: Constant)
    requires
        constant.reserved_id() is Some,
    ensures
        constant_type(types, constant) == (types, constant.reserved_id()->0),
        constant_type(constant_type(types, constant).0, constant) == constant_type(
            types,
            constant,
        ),
{
}

/// The union of a type with itself is that type, and nothing is registered.
pub proof fn lemma_union_idempotent(types: Seq<Type>, x: TypeId)
    ensures
        or_type(types, x, x) == (types, x),
{
}

/// `never` is the unit of union, on either side, and nothing is registered.
pub proof fn lemma_union_with_never(types: Seq<Type>, x: TypeId)
    ensures
        or_type(types, NEVER_TYPE, x) == (types, x),
        or_type(types, x, NEVER_TYPE) == (types, x),
{
}

/// `true` and `false`, in either order, make the open boolean, and nothing is registered.
pub proof fn lemma_boolean_completion(types: Seq<Type>)
    ensures
        or_type(types, TRUE, FALSE) == (types, OPEN_BOOLEAN_TYPE),
        or_type(types, FALSE, TRUE) == (types, OPEN_BOOLEAN_TYPE),
{
}

/// The types that the union `id` joins, from left to right: its sides, and
/// theirs where they are unions themselves. A type that is no union is its own
/// only member.
pub open spec fn members(types: Seq<Type>, id: TypeId) -> Seq<TypeId>
    decreases id,
{
    match union_sides(types, id) {
        Some((left, right)) => members(types, left) + members(types, right),
        None => seq![id],
    }
}

/// Whether the union `id` leans to the right: its left side is no union, and
/// its right side leans to the right. A type that is no union does.
pub open spec fn leans_right(types: Seq<Type>, id: TypeId) -> bool
    decreases id,
{
    match union_sides(types, id) {
        Some((left, right)) => union_sides(types, left) is None && leans_right(types, right),
        None => true,
    }
}

/// Whether joining `ids` drops and merges nothing: no type stands twice,
/// none is `never`, and none is a constant.
pub open spec fn joinable(types: Seq<Type>, ids: Seq<TypeId>) -> bool {
    &&& ids.no_duplicates()
    &&& forall|i: int|
        0 <= i < ids.len() ==> #[trigger] ids[i] != NEVER_TYPE && !(types[ids[i] as int]
            is Constant)
}

/// Every type has a member, and the members of a registered type are registered.
pub proof fn lemma_members_registered(types: Seq<Type>, id: TypeId)
    requires
        (id as int) < types.len(),
    ensures
        members(types, id).len() >= 1,
        forall|i: int|
            0 <= i < members(types, id).len() ==> (#[trigger] members(types, id)[i] as int)
                < types.len(),
    decreases id,
{
    if let Some((left, right)) = union_sides(types, id) {
        lemma_members_registered(types, left);
        lemma_members_registered(types, right);
    }
}

/// What was registered before keeps its members and its leaning when the store grows.
pub proof fn lemma_members_kept(grown: Seq<Type>, types: Seq<Type>, id: TypeId)
    requires
        extends(grown, types),
        (id as int) < types.len(),
    ensures
        union_sides(grown, id) == union_sides(types, id),
        members(grown, id) == members(types, id),
        leans_right(grown, id) == leans_right(types, id),
    decreases id,
{
    lemma_extends_index(grown, types, id);
    if let Some((left, right)) = union_sides(types, id) {
        lemma_members_kept(grown, types, left);
        lemma_members_kept(grown, types, right);
    }
}

/// Part of what can be joined can be joined.
pub proof fn lemma_joinable_part(types: Seq<Type>, ids: Seq<TypeId>, from: int, to: int)
    requires
        joinable(types, ids),
        0 <= from <= to <= ids.len(),
    ensures
        joinable(types, ids.subrange(from, to)),
{
}

/// The union of two types joins the members of the first with those of the
/// second, in this order, where all of them can be joined; and it leans to
/// the right where the second operand does.
pub proof fn lemma_union_joins_members(types: Seq<Type>, lhs: TypeId, rhs: TypeId)
    requires
        INTERNAL_TYPE_COUNT <= types.len(),
        builtins_in_place(types),
        operands_precede(types),
        (lhs as int) < types.len(),
        (rhs as int) < types.len(),
        or_type(types, lhs, rhs).0.len() <= MAX_TYPE_COUNT,
        joinable(types, members(types, lhs) + members(types, rhs)),
    ensures
        members(or_type(types, lhs, rhs).0, or_type(types, lhs, rhs).1) == members(types, lhs)
            + members(types, rhs),
        leans_right(types, rhs) ==> leans_right(
            or_type(types, lhs, rhs).0,
            or_type(types, lhs, rhs).1,
        ),
    decreases lhs, rhs,
{
    let all = members(types, lhs) + members(types, rhs);
    let of_lhs = members(types, lhs);
    let of_rhs = members(types, rhs);
    lemma_members_registered(types, lhs);
    lemma_members_registered(types, rhs);
    lemma_or_type_grows(types, lhs, rhs);
    assert(all[0] == of_lhs[0]);
    assert(all[of_lhs.len() as int] == of_rhs[0]);
    if lhs == rhs {
        // cannot be: the first member of both would stand twice
    } else if lhs == TRUE || lhs == FALSE || lhs == NEVER_TYPE {
        // cannot be: none of the three can be joined
    } else if rhs == NEVER_TYPE {
    } else if let Some((lhs_lhs, lhs_rhs)) = union_sides(types, lhs) {
        // the right side is joined first, then the left side with what that gave
        let (grown, new_rhs) = or_type(types, lhs_rhs, rhs);
        let of_left = members(types, lhs_lhs);
        let of_right = members(types, lhs_rhs);
        lemma_or_type_len(grown, lhs_lhs, new_rhs);
        lemma_or_type_grows(types, lhs_rhs, rhs);
        assert(all.subrange(of_left.len() as int, all.len() as int) =~= of_right + of_rhs);
        lemma_joinable_part(types, all, of_left.len() as int, all.len() as int);
        lemma_union_joins_members(types, lhs_rhs, rhs);
        lemma_members_kept(grown, types, lhs_lhs);
        assert(members(grown, lhs_lhs) + members(grown, new_rhs) =~= all);
        assert(joinable(grown, all)) by {
            assert forall|i: int| 0 <= i < all.len() implies #[trigger] all[i] != NEVER_TYPE && !(
            grown[all[i] as int] is Constant) by {
                lemma_extends_index(grown, types, all[i]);
            }
        }
        lemma_extends_index(grown, types, TRUE);
        lemma_builtins_kept(grown, types);
        lemma_union_joins_members(grown, lhs_lhs, new_rhs);
    } else {
        // nothing is absorbed, as `lhs` stands nowhere in `rhs`: a new union is registered
        let pushed = types.push(Type::Or(lhs, rhs));
        if let Some((rhs_lhs, rhs_rhs)) = union_sides(types, rhs) {
            lemma_members_registered(types, rhs_lhs);
            lemma_members_registered(types, rhs_rhs);
            if lhs == rhs_rhs {
                let last = all.len() - 1;
                assert(all[last] == of_rhs[of_rhs.len() - 1]);
            }
        }
        lemma_push_extends(types, Type::Or(lhs, rhs));
        lemma_members_kept(pushed, types, lhs);
        lemma_members_kept(pushed, types, rhs);
    }
}

/// Growing a store keeps the built-in slots as they are.
pub proof fn lemma_builtins_kept(grown: Seq<Type>, types: Seq<Type>)
    requires
        extends(grown, types),
        INTERNAL_TYPE_COUNT <= types.len(),
        builtins_in_place(types),
    ensures
        builtins_in_place(grown),
{
    assert forall|id: TypeId| (id as int) < INTERNAL_TYPE_COUNT implies (
    #[trigger] grown[id as int]).kind() == builtin_kind(id) by {
        lemma_extends_index(grown, types, id);
    }
}

/// Joining three types gives the same union however the joins are nested:
/// for `a`, `b`, `c` whose members can all be joined, `(a | b) | c` and
/// `a | (b | c)` join the members of `a`, of `b` and of `c` in this order, and
/// both lean to the right where `c` does, so that they are built alike. Their
/// identifiers differ: the first nesting registers `a | b` on its way.
pub proof fn lemma_union_flattening(types: Seq<Type>, a: TypeId, b: TypeId, c: TypeId)
    requires
        INTERNAL_TYPE_COUNT <= types.len(),
        builtins_in_place(types),
        operands_precede(types),
        (a as int) < types.len(),
        (b as int) < types.len(),
        (c as int) < types.len(),
        joinable(types, members(types, a) + members(types, b) + members(types, c)),
        or_type(or_type(types, a, b).0, or_type(types, a, b).1, c).0.len() <= MAX_TYPE_COUNT,
        or_type(or_type(types, b, c).0, a, or_type(types, b, c).1).0.len() <= MAX_TYPE_COUNT,
    ensures
        ({
            let (first, ab) = or_type(types, a, b);
            let (nested_left, left) = or_type(first, ab, c);
            let (second, bc) = or_type(types, b, c);
            let (nested_right, right) = or_type(second, a, bc);
            &&& members(nested_left, left) == members(types, a) + members(types, b) + members(
                types,
                c,
            )
            &&& members(nested_right, right) == members(nested_left, left)
            &&& leans_right(types, c) ==> leans_right(nested_left, left) && leans_right(
                nested_right,
                right,
            )
        }),
{
    let of_a = members(types, a);
    let of_b = members(types, b);
    let of_c = members(types, c);
    let all = of_a + of_b + of_c;
    // (a | b) | c
    let (first, ab) = or_type(types, a, b);
    lemma_or_type_len(first, ab, c);
    lemma_or_type_grows(types, a, b);
    assert(all.subrange(0, (of_a + of_b).len() as int) =~= of_a + of_b);
    lemma_joinable_part(types, all, 0, (of_a + of_b).len() as int);
    lemma_union_joins_members(types, a, b);
    lemma_members_kept(first, types, c);
    lemma_builtins_kept(first, types);
    lemma_joinable_kept(first, types, all, a, b, c);
    lemma_union_joins_members(first, ab, c);
    // a | (b | c)
    let (second, bc) = or_type(types, b, c);
    lemma_or_type_len(second, a, bc);
    lemma_or_type_grows(types, b, c);
    assert(all.subrange(of_a.len() as int, all.len() as int) =~= of_b + of_c);
    lemma_joinable_part(types, all, of_a.len() as int, all.len() as int);
    lemma_union_joins_members(types, b, c);
    lemma_members_kept(second, types, a);
    lemma_builtins_kept(second, types);
    lemma_joinable_kept(second, types, all, a, b, c);
    assert(of_a + (of_b + of_c) =~= all);
    lemma_union_joins_members(second, a, bc);
}

/// What can be joined in a store can be joined when the store has grown.
pub proof fn lemma_joinable_kept(
    grown: Seq<Type>,
    types: Seq<Type>,
    all: Seq<TypeId>,
    a: TypeId,
    b: TypeId,
    c: TypeId,
)
    requires
        extends(grown, types),
        (a as int) < types.len(),
        (b as int) < types.len(),
        (c as int) < types.len(),
        all == members(types, a) + members(types, b) + members(types, c),
        joinable(types, all),
    ensures
        joinable(grown, all),
{
    lemma_members_registered(types, a);
    lemma_members_registered(types, b);
    lemma_members_registered(types, c);
    assert forall|i: int| 0 <= i < all.len() implies #[trigger] all[i] != NEVER_TYPE && !(
    grown[all[i] as int] is Constant) by {
        lemma_extends_index(grown, types, all[i]);
    }
}

/// A conditional on `true` is its first result, one on `false` its second,
/// and one with the results `true` and `false` is its condition. Nothing is registered.
pub proof fn lemma_conditional_collapse(types: Seq<Type>, x: TypeId, t: TypeId, f: TypeId)
    ensures
        conditional_type(types, TRUE, t, f) == (types, t),
        conditional_type(types, FALSE, t, f) == (types, f),
        conditional_type(types, x, TRUE, FALSE) == (types, x),
{
}

/// Intersection distributes over a union on the left: for `a` the union of
/// `u` and `v`, and `b` another type than `a`, `a & b` is `(u & b) | (v & b)`,
/// built in that order. (Where `b` is `a`, the intersection is `a` itself.)
pub proof fn lemma_intersection_distributes(
    types: Seq<Type>,
    a: TypeId,
    b: TypeId,
    u: TypeId,
    v: TypeId,
)
    requires
        types[a as int] == Type::Or(u, v),
        u < a,
        v < a,
        a != b,
    ensures
        and_type(types, a, b) == ({
            let (first, left) = and_type(types, u, b);
            let (second, right) = and_type(first, v, b);
            or_type(second, left, right)
        }),
{
}

} // verus!
