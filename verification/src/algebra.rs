//! The smart constructors of unions, intersections and conditionals: each
//! normalises its operands and registers a descriptor only where no rule applies.

use vstd::prelude::*;
use crate::ids::{
    TypeId, FALSE, GREATER_THAN, LESS_THAN, MAX_TYPE_COUNT, MULTIPLE_OF, NEVER_TYPE,
    NOT_RESTRICTION, OPEN_BOOLEAN_TYPE, TRUE,
};
use crate::store::{operands_precede, TypeStore};
use crate::types::{Constructor, PartiallyAppliedGenerics, Type, TypeExtends};

verus! {

/// The sides of the union that `id` resolves to, where both were registered before it.
pub open spec fn union_sides(types: Seq<Type>, id: TypeId) -> Option<(TypeId, TypeId)> {
    match types[id as int] {
        Type::Or(left, right) => if left < id && right < id {
            Some((left, right))
        } else {
            None
        },
        _ => None,
    }
}

/// The sides of the intersection that `id` resolves to, where both were registered before it.
pub open spec fn intersection_sides(types: Seq<Type>, id: TypeId) -> Option<(TypeId, TypeId)> {
    match types[id as int] {
        Type::And(left, right) => if left < id && right < id {
            Some((left, right))
        } else {
            None
        },
        _ => None,
    }
}

/// The union of two types: the descriptors after it, and its identifier.
///
/// The rules, in this order: a type joined with itself is itself; `true` and
/// `false` make the open boolean; `never` is dropped; a union on the left is
/// flattened, so that what is built leans to the right; a union on the right
/// that already has the left operand as a side absorbs it; otherwise a new
/// union is registered.
pub open spec fn or_type(types: Seq<Type>, lhs: TypeId, rhs: TypeId) -> (Seq<Type>, TypeId)
    decreases lhs, rhs,
{
    if lhs == rhs {
        (types, lhs)
    } else if (lhs == TRUE && rhs == FALSE) || (lhs == FALSE && rhs == TRUE) {
        (types, OPEN_BOOLEAN_TYPE)
    } else if lhs == NEVER_TYPE {
        (types, rhs)
    } else if rhs == NEVER_TYPE {
        (types, lhs)
    } else if let Some((lhs_lhs, lhs_rhs)) = union_sides(types, lhs) {
        let (grown, rhs) = or_type(types, lhs_rhs, rhs);
        or_type(grown, lhs_lhs, rhs)
    } else if let Some((rhs_lhs, rhs_rhs)) = union_sides(types, rhs) {
        if lhs == rhs_lhs {
            or_type(types, lhs, rhs_rhs)
        } else if lhs == rhs_rhs {
            or_type(types, lhs, rhs_lhs)
        } else {
            (types.push(Type::Or(lhs, rhs)), types.len() as TypeId)
        }
    } else {
        (types.push(Type::Or(lhs, rhs)), types.len() as TypeId)
    }
}

/// The intersection of two types: the descriptors after it, and its identifier.
///
/// The rules, in this order: a type met with itself is itself; an
/// intersection distributes over a union on the left, then over one on the
/// right; a constant operand is the result, the left one first; an
/// intersection on the right is taken apart, so that what is built leans to
/// the left; otherwise a new intersection is registered. Whether the two
/// operands are disjoint is not looked at.
pub open spec fn and_type(types: Seq<Type>, lhs: TypeId, rhs: TypeId) -> (Seq<Type>, TypeId)
    decreases rhs, lhs,
{
    if lhs == rhs {
        (types, lhs)
    } else if let Some((or_lhs, or_rhs)) = union_sides(types, lhs) {
        let (grown, new_lhs) = and_type(types, or_lhs, rhs);
        let (grown, new_rhs) = and_type(grown, or_rhs, rhs);
        or_type(grown, new_lhs, new_rhs)
    } else if let Some((or_lhs, or_rhs)) = union_sides(types, rhs) {
        let (grown, new_lhs) = and_type(types, lhs, or_lhs);
        let (grown, new_rhs) = and_type(grown, lhs, or_rhs);
        or_type(grown, new_lhs, new_rhs)
    } else if types[lhs as int] is Constant {
        (types, lhs)
    } else if types[rhs as int] is Constant {
        (types, rhs)
    } else if let Some((rhs_lhs, rhs_rhs)) = intersection_sides(types, rhs) {
        let (grown, lhs) = and_type(types, lhs, rhs_lhs);
        and_type(grown, lhs, rhs_rhs)
    } else {
        (types.push(Type::And(lhs, rhs)), types.len() as TypeId)
    }
}

/// The condition of the negation that `id` resolves to: a conditional that
/// gives `false` where its condition holds and `true` where it does not.
pub open spec fn negated_condition(types: Seq<Type>, id: TypeId) -> Option<TypeId> {
    match types[id as int] {
        Type::Constructor(
            Constructor::ConditionalResult { condition, truthy_result, otherwise_result, .. },
        ) => if truthy_result == FALSE && otherwise_result == TRUE && condition < id {
            Some(condition)
        } else {
            None
        },
        _ => None,
    }
}

/// The type that is `truthy_result` where `condition` holds and
/// `otherwise_result` where it does not: the descriptors after it, and its identifier.
///
/// The rules, in this order: equal results need no condition; a condition
/// that is `true` or `false` picks its result; with the results `true` and
/// `false` the conditional is the condition; a negated condition is replaced
/// by what it negates, with the results swapped; otherwise a new conditional
/// is registered, after the union of its results.
pub open spec fn conditional_type(
    types: Seq<Type>,
    condition: TypeId,
    truthy_result: TypeId,
    otherwise_result: TypeId,
) -> (Seq<Type>, TypeId)
    decreases condition,
{
    if truthy_result == otherwise_result {
        (types, truthy_result)
    } else if condition == TRUE {
        (types, truthy_result)
    } else if condition == FALSE {
        (types, otherwise_result)
    } else if truthy_result == TRUE && otherwise_result == FALSE {
        (types, condition)
    } else if let Some(negated) = negated_condition(types, condition) {
        conditional_type(types, negated, otherwise_result, truthy_result)
    } else {
        let (grown, result_union) = or_type(types, truthy_result, otherwise_result);
        (
            grown.push(
                Type::Constructor(
                    Constructor::ConditionalResult {
                        condition,
                        truthy_result,
                        otherwise_result,
                        result_union,
                    },
                ),
            ),
            grown.len() as TypeId,
        )
    }
}

/// Whether `id` resolves to an application of one of the numeric refinements
/// (greater than, less than, multiple of) or of the negation.
pub open spec fn is_refinement(types: Seq<Type>, id: TypeId) -> bool {
    match types[id as int] {
        Type::PartiallyAppliedGenerics(PartiallyAppliedGenerics { on, .. }) => on == GREATER_THAN
            || on == LESS_THAN || on == MULTIPLE_OF || on == NOT_RESTRICTION,
        _ => false,
    }
}

/// The narrowing of `from` to `narrowed_to`: the descriptors after it, and its identifier.
///
/// A narrowing of a narrowing starts from the first origin. Where the new
/// bound is a refinement, it is met with the bound that was there.
pub open spec fn narrowed_type(types: Seq<Type>, from: TypeId, narrowed_to: TypeId) -> (
    Seq<Type>,
    TypeId,
) {
    match types[from as int] {
        Type::Narrowed { from: origin, narrowed_to: existing } => {
            let (grown, narrowed_to) = if is_refinement(types, narrowed_to) {
                and_type(types, existing, narrowed_to)
            } else {
                (types, narrowed_to)
            };
            (grown.push(Type::Narrowed { from: origin, narrowed_to }), grown.len() as TypeId)
        },
        _ => (types.push(Type::Narrowed { from, narrowed_to }), types.len() as TypeId),
    }
}

/// The union of all of `ids`, joined one after the other from the left,
/// starting from `never`: the descriptors after it, and its identifier.
pub open spec fn or_type_of_all(types: Seq<Type>, ids: Seq<TypeId>) -> (Seq<Type>, TypeId)
    decreases ids.len(),
{
    if ids.len() == 0 {
        (types, NEVER_TYPE)
    } else {
        let (grown, joined) = or_type_of_all(types, ids.drop_last());
        or_type(grown, joined, ids.last())
    }
}

/// Whether `grown` holds the descriptors of `types`, unchanged, and then some.
pub open spec fn extends(grown: Seq<Type>, types: Seq<Type>) -> bool {
    &&& types.len() <= grown.len()
    &&& grown.subrange(0, types.len() as int) == types
}

/// A union only appends: what was registered stays as it was, no derived
/// descriptor refers forward afterwards, and the result is a registered type.
pub proof fn lemma_or_type_grows(types: Seq<Type>, lhs: TypeId, rhs: TypeId)
    requires
        operands_precede(types),
        (lhs as int) < types.len(),
        (rhs as int) < types.len(),
        OPEN_BOOLEAN_TYPE < types.len(),
        or_type(types, lhs, rhs).0.len() <= MAX_TYPE_COUNT,
    ensures
        extends(or_type(types, lhs, rhs).0, types),
        operands_precede(or_type(types, lhs, rhs).0),
        (or_type(types, lhs, rhs).1 as int) < or_type(types, lhs, rhs).0.len(),
    decreases lhs, rhs,
{
    let result = or_type(types, lhs, rhs);
    if lhs == rhs {
        assert(types.subrange(0, types.len() as int) == types);
    } else if (lhs == TRUE && rhs == FALSE) || (lhs == FALSE && rhs == TRUE) {
        assert(types.subrange(0, types.len() as int) == types);
    } else if lhs == NEVER_TYPE {
        assert(types.subrange(0, types.len() as int) == types);
    } else if rhs == NEVER_TYPE {
        assert(types.subrange(0, types.len() as int) == types);
    } else if let Some((lhs_lhs, lhs_rhs)) = union_sides(types, lhs) {
        let (grown, new_rhs) = or_type(types, lhs_rhs, rhs);
        lemma_or_type_len(grown, lhs_lhs, new_rhs);
        lemma_or_type_grows(types, lhs_rhs, rhs);
        lemma_or_type_grows(grown, lhs_lhs, new_rhs);
        lemma_extends_transitive(result.0, grown, types);
    } else if let Some((rhs_lhs, rhs_rhs)) = union_sides(types, rhs) {
        if lhs == rhs_lhs {
            lemma_or_type_grows(types, lhs, rhs_rhs);
        } else if lhs == rhs_rhs {
            lemma_or_type_grows(types, lhs, rhs_lhs);
        } else {
            lemma_push_extends(types, Type::Or(lhs, rhs));
        }
    } else {
        lemma_push_extends(types, Type::Or(lhs, rhs));
    }
}

/// A union never removes a descriptor.
pub proof fn lemma_or_type_len(types: Seq<Type>, lhs: TypeId, rhs: TypeId)
    ensures
        types.len() <= or_type(types, lhs, rhs).0.len(),
    decreases lhs, rhs,
{
    if lhs == rhs {
    } else if (lhs == TRUE && rhs == FALSE) || (lhs == FALSE && rhs == TRUE) {
    } else if lhs == NEVER_TYPE {
    } else if rhs == NEVER_TYPE {
    } else if let Some((lhs_lhs, lhs_rhs)) = union_sides(types, lhs) {
        let (grown, new_rhs) = or_type(types, lhs_rhs, rhs);
        lemma_or_type_len(types, lhs_rhs, rhs);
        lemma_or_type_len(grown, lhs_lhs, new_rhs);
    } else if let Some((rhs_lhs, rhs_rhs)) = union_sides(types, rhs) {
        if lhs == rhs_lhs {
            lemma_or_type_len(types, lhs, rhs_rhs);
        } else if lhs == rhs_rhs {
            lemma_or_type_len(types, lhs, rhs_lhs);
        }
    }
}

pub proof fn lemma_extends_transitive(last: Seq<Type>, middle: Seq<Type>, first: Seq<Type>)
    requires
        extends(last, middle),
        extends(middle, first),
    ensures
        extends(last, first),
{
    assert(last.subrange(0, first.len() as int) =~= first);
}

/// Registering a descriptor whose operands were registered before keeps the store in order.
pub proof fn lemma_push_extends(types: Seq<Type>, ty: Type)
    requires
        operands_precede(types),
        ty.operands_below(types.len() as int),
    ensures
        extends(types.push(ty), types),
        operands_precede(types.push(ty)),
{
    assert(types.push(ty).subrange(0, types.len() as int) =~= types);
}

/// What was registered before an operation reads the same after it.
pub proof fn lemma_extends_index(grown: Seq<Type>, types: Seq<Type>, id: TypeId)
    requires
        extends(grown, types),
        (id as int) < types.len(),
    ensures
        grown[id as int] == types[id as int],
{
}

/// An intersection never removes a descriptor.
pub proof fn lemma_and_type_len(types: Seq<Type>, lhs: TypeId, rhs: TypeId)
    ensures
        types.len() <= and_type(types, lhs, rhs).0.len(),
    decreases rhs, lhs,
{
    if lhs == rhs {
    } else if let Some((or_lhs, or_rhs)) = union_sides(types, lhs) {
        let (grown1, new_lhs) = and_type(types, or_lhs, rhs);
        let (grown2, new_rhs) = and_type(grown1, or_rhs, rhs);
        lemma_and_type_len(types, or_lhs, rhs);
        lemma_and_type_len(grown1, or_rhs, rhs);
        lemma_or_type_len(grown2, new_lhs, new_rhs);
    } else if let Some((or_lhs, or_rhs)) = union_sides(types, rhs) {
        let (grown1, new_lhs) = and_type(types, lhs, or_lhs);
        let (grown2, new_rhs) = and_type(grown1, lhs, or_rhs);
        lemma_and_type_len(types, lhs, or_lhs);
        lemma_and_type_len(grown1, lhs, or_rhs);
        lemma_or_type_len(grown2, new_lhs, new_rhs);
    } else if types[lhs as int] is Constant {
    } else if types[rhs as int] is Constant {
    } else if let Some((rhs_lhs, rhs_rhs)) = intersection_sides(types, rhs) {
        let (grown, new_lhs) = and_type(types, lhs, rhs_lhs);
        lemma_and_type_len(types, lhs, rhs_lhs);
        lemma_and_type_len(grown, new_lhs, rhs_rhs);
    }
}

/// An intersection only appends: what was registered stays as it was, no
/// derived descriptor refers forward afterwards, and the result is a registered type.
pub proof fn lemma_and_type_grows(types: Seq<Type>, lhs: TypeId, rhs: TypeId)
    requires
        operands_precede(types),
        (lhs as int) < types.len(),
        (rhs as int) < types.len(),
        OPEN_BOOLEAN_TYPE < types.len(),
        and_type(types, lhs, rhs).0.len() <= MAX_TYPE_COUNT,
    ensures
        extends(and_type(types, lhs, rhs).0, types),
        operands_precede(and_type(types, lhs, rhs).0),
        (and_type(types, lhs, rhs).1 as int) < and_type(types, lhs, rhs).0.len(),
    decreases rhs, lhs,
{
    let result = and_type(types, lhs, rhs);
    if lhs == rhs {
        assert(types.subrange(0, types.len() as int) == types);
    } else if let Some((or_lhs, or_rhs)) = union_sides(types, lhs) {
        let (grown1, new_lhs) = and_type(types, or_lhs, rhs);
        let (grown2, new_rhs) = and_type(grown1, or_rhs, rhs);
        lemma_or_type_len(grown2, new_lhs, new_rhs);
        lemma_and_type_len(grown1, or_rhs, rhs);
        lemma_and_type_grows(types, or_lhs, rhs);
        lemma_and_type_grows(grown1, or_rhs, rhs);
        lemma_or_type_grows(grown2, new_lhs, new_rhs);
        lemma_extends_transitive(grown2, grown1, types);
        lemma_extends_transitive(result.0, grown2, types);
    } else if let Some((or_lhs, or_rhs)) = union_sides(types, rhs) {
        let (grown1, new_lhs) = and_type(types, lhs, or_lhs);
        let (grown2, new_rhs) = and_type(grown1, lhs, or_rhs);
        lemma_or_type_len(grown2, new_lhs, new_rhs);
        lemma_and_type_len(grown1, lhs, or_rhs);
        lemma_and_type_grows(types, lhs, or_lhs);
        lemma_and_type_grows(grown1, lhs, or_rhs);
        lemma_or_type_grows(grown2, new_lhs, new_rhs);
        lemma_extends_transitive(grown2, grown1, types);
        lemma_extends_transitive(result.0, grown2, types);
    } else if types[lhs as int] is Constant {
        assert(types.subrange(0, types.len() as int) == types);
    } else if types[rhs as int] is Constant {
        assert(types.subrange(0, types.len() as int) == types);
    } else if let Some((rhs_lhs, rhs_rhs)) = intersection_sides(types, rhs) {
        let (grown, new_lhs) = and_type(types, lhs, rhs_lhs);
        lemma_and_type_len(grown, new_lhs, rhs_rhs);
        lemma_and_type_grows(types, lhs, rhs_lhs);
        lemma_and_type_grows(grown, new_lhs, rhs_rhs);
        lemma_extends_transitive(result.0, grown, types);
    } else {
        lemma_push_extends(types, Type::And(lhs, rhs));
    }
}

/// A conditional only appends: what was registered stays as it was, no
/// derived descriptor refers forward afterwards, and the result is a registered type.
pub proof fn lemma_conditional_type_grows(
    types: Seq<Type>,
    condition: TypeId,
    truthy_result: TypeId,
    otherwise_result: TypeId,
)
    requires
        operands_precede(types),
        (condition as int) < types.len(),
        (truthy_result as int) < types.len(),
        (otherwise_result as int) < types.len(),
        OPEN_BOOLEAN_TYPE < types.len(),
        conditional_type(types, condition, truthy_result, otherwise_result).0.len()
            <= MAX_TYPE_COUNT,
    ensures
        extends(conditional_type(types, condition, truthy_result, otherwise_result).0, types),
        operands_precede(conditional_type(types, condition, truthy_result, otherwise_result).0),
        (conditional_type(types, condition, truthy_result, otherwise_result).1 as int)
            < conditional_type(types, condition, truthy_result, otherwise_result).0.len(),
    decreases condition,
{
    let result = conditional_type(types, condition, truthy_result, otherwise_result);
    if truthy_result == otherwise_result || condition == TRUE || condition == FALSE || (
    truthy_result == TRUE && otherwise_result == FALSE) {
        assert(types.subrange(0, types.len() as int) == types);
    } else if let Some(negated) = negated_condition(types, condition) {
        lemma_conditional_type_grows(types, negated, otherwise_result, truthy_result);
    } else {
        let (grown, result_union) = or_type(types, truthy_result, otherwise_result);
        lemma_or_type_grows(types, truthy_result, otherwise_result);
        let ty = Type::Constructor(
            Constructor::ConditionalResult {
                condition,
                truthy_result,
                otherwise_result,
                result_union,
            },
        );
        lemma_push_extends(grown, ty);
        lemma_extends_transitive(result.0, grown, types);
    }
}

/// A narrowing only appends: what was registered stays as it was, no derived
/// descriptor refers forward afterwards, and the result is the one new identifier
/// that comes last.
pub proof fn lemma_narrowed_type_grows(types: Seq<Type>, from: TypeId, narrowed_to: TypeId)
    requires
        operands_precede(types),
        (from as int) < types.len(),
        (narrowed_to as int) < types.len(),
        OPEN_BOOLEAN_TYPE < types.len(),
        narrowed_type(types, from, narrowed_to).0.len() <= MAX_TYPE_COUNT,
    ensures
        extends(narrowed_type(types, from, narrowed_to).0, types),
        operands_precede(narrowed_type(types, from, narrowed_to).0),
        narrowed_type(types, from, narrowed_to).1 as int + 1 == narrowed_type(
            types,
            from,
            narrowed_to,
        ).0.len(),
{
    let result = narrowed_type(types, from, narrowed_to);
    match types[from as int] {
        Type::Narrowed { from: origin, narrowed_to: existing } => {
            if is_refinement(types, narrowed_to) {
                let (grown, bound) = and_type(types, existing, narrowed_to);
                lemma_and_type_grows(types, existing, narrowed_to);
                lemma_push_extends(grown, Type::Narrowed { from: origin, narrowed_to: bound });
                lemma_extends_transitive(result.0, grown, types);
            } else {
                lemma_push_extends(types, Type::Narrowed { from: origin, narrowed_to });
            }
        },
        _ => {
            lemma_push_extends(types, Type::Narrowed { from, narrowed_to });
        },
    }
}

impl TypeStore {
    /// The union of `lhs` and `rhs`, normalised.
    pub fn new_or_type(&mut self, lhs: TypeId, rhs: TypeId) -> (id: TypeId)
        requires
            old(self).wf(),
            old(self)@.contains(lhs),
            old(self)@.contains(rhs),
            or_type(old(self)@.types, lhs, rhs).0.len() <= MAX_TYPE_COUNT,
        ensures
            final(self).wf(),
            final(self)@ == old(self)@.with_types(or_type(old(self)@.types, lhs, rhs).0),
            id == or_type(old(self)@.types, lhs, rhs).1,
            final(self)@.contains(id),
            extends(final(self)@.types, old(self)@.types),
        decreases lhs, rhs,
    {
        proof {
            lemma_or_type_grows(self@.types, lhs, rhs);
        }
        if lhs == rhs {
            return lhs;
        }
        if (lhs == TRUE && rhs == FALSE) || (lhs == FALSE && rhs == TRUE) {
            return OPEN_BOOLEAN_TYPE;
        }
        if lhs == NEVER_TYPE {
            return rhs;
        }
        if rhs == NEVER_TYPE {
            return lhs;
        }
        // Normalise to the right
        if let Type::Or(lhs_lhs, lhs_rhs) = self.get_type_by_id(lhs) {
            let (lhs_lhs, lhs_rhs) = (*lhs_lhs, *lhs_rhs);
            proof {
                let (grown, new_rhs) = or_type(self@.types, lhs_rhs, rhs);
                lemma_or_type_len(grown, lhs_lhs, new_rhs);
                lemma_or_type_grows(self@.types, lhs_rhs, rhs);
            }
            let rhs = self.new_or_type(lhs_rhs, rhs);
            return self.new_or_type(lhs_lhs, rhs);
        }
        if let Type::Or(rhs_lhs, rhs_rhs) = self.get_type_by_id(rhs) {
            let (rhs_lhs, rhs_rhs) = (*rhs_lhs, *rhs_rhs);
            if lhs == rhs_lhs {
                return self.new_or_type(lhs, rhs_rhs);
            } else if lhs == rhs_rhs {
                return self.new_or_type(lhs, rhs_lhs);
            }
        }
        let ty = Type::Or(lhs, rhs);
        self.register_type(ty)
    }

    /// The intersection of `lhs` and `rhs`, normalised. Disjointness is not computed.
    pub fn new_and_type(&mut self, lhs: TypeId, rhs: TypeId) -> (id: TypeId)
        requires
            old(self).wf(),
            old(self)@.contains(lhs),
            old(self)@.contains(rhs),
            and_type(old(self)@.types, lhs, rhs).0.len() <= MAX_TYPE_COUNT,
        ensures
            final(self).wf(),
            final(self)@ == old(self)@.with_types(and_type(old(self)@.types, lhs, rhs).0),
            id == and_type(old(self)@.types, lhs, rhs).1,
            final(self)@.contains(id),
            extends(final(self)@.types, old(self)@.types),
        decreases rhs, lhs,
    {
        proof {
            lemma_and_type_grows(self@.types, lhs, rhs);
        }
        // string & string = string
        if lhs == rhs {
            return lhs;
        }
        let ghost types = self@.types;
        if let Type::Or(or_lhs, or_rhs) = self.get_type_by_id(lhs) {
            let (or_lhs, or_rhs) = (*or_lhs, *or_rhs);
            proof {
                let (grown1, new_lhs) = and_type(types, or_lhs, rhs);
                let (grown2, new_rhs) = and_type(grown1, or_rhs, rhs);
                lemma_or_type_len(grown2, new_lhs, new_rhs);
                lemma_and_type_len(grown1, or_rhs, rhs);
                lemma_and_type_grows(types, or_lhs, rhs);
                lemma_and_type_grows(grown1, or_rhs, rhs);
            }
            let new_lhs = self.new_and_type(or_lhs, rhs);
            let new_rhs = self.new_and_type(or_rhs, rhs);
            return self.new_or_type(new_lhs, new_rhs);
        }
        if let Type::Or(or_lhs, or_rhs) = self.get_type_by_id(rhs) {
            let (or_lhs, or_rhs) = (*or_lhs, *or_rhs);
            proof {
                let (grown1, new_lhs) = and_type(types, lhs, or_lhs);
                let (grown2, new_rhs) = and_type(grown1, lhs, or_rhs);
                lemma_or_type_len(grown2, new_lhs, new_rhs);
                lemma_and_type_len(grown1, lhs, or_rhs);
                lemma_and_type_grows(types, lhs, or_lhs);
                lemma_and_type_grows(grown1, lhs, or_rhs);
            }
            let new_lhs = self.new_and_type(lhs, or_lhs);
            let new_rhs = self.new_and_type(lhs, or_rhs);
            return self.new_or_type(new_lhs, new_rhs);
        }
        if let Type::Constant(_) = self.get_type_by_id(lhs) {
            return lhs;
        }
        if let Type::Constant(_) = self.get_type_by_id(rhs) {
            return rhs;
        }
        if let Type::And(rhs_lhs, rhs_rhs) = self.get_type_by_id(rhs) {
            let (rhs_lhs, rhs_rhs) = (*rhs_lhs, *rhs_rhs);
            proof {
                let (grown, new_lhs) = and_type(types, lhs, rhs_lhs);
                lemma_and_type_len(grown, new_lhs, rhs_rhs);
                lemma_and_type_grows(types, lhs, rhs_lhs);
            }
            let lhs = self.new_and_type(lhs, rhs_lhs);
            return self.new_and_type(lhs, rhs_rhs);
        }
        let ty = Type::And(lhs, rhs);
        self.register_type(ty)
    }

    /// The type that is `truthy_result` where `condition` holds and
    /// `otherwise_result` where it does not.
    pub fn new_conditional_type(
        &mut self,
        condition: TypeId,
        truthy_result: TypeId,
        otherwise_result: TypeId,
    ) -> (id: TypeId)
        requires
            old(self).wf(),
            old(self)@.contains(condition),
            old(self)@.contains(truthy_result),
            old(self)@.contains(otherwise_result),
            conditional_type(
                old(self)@.types,
                condition,
                truthy_result,
                otherwise_result,
            ).0.len() <= MAX_TYPE_COUNT,
        ensures
            final(self).wf(),
            final(self)@ == old(self)@.with_types(
                conditional_type(old(self)@.types, condition, truthy_result, otherwise_result).0,
            ),
            id == conditional_type(old(self)@.types, condition, truthy_result, otherwise_result).1,
            final(self)@.contains(id),
            extends(final(self)@.types, old(self)@.types),
        decreases condition,
    {
        proof {
            lemma_conditional_type_grows(self@.types, condition, truthy_result, otherwise_result);
        }
        if truthy_result == otherwise_result {
            return truthy_result;
        }
        if condition == TRUE {
            return truthy_result;
        }
        if condition == FALSE {
            return otherwise_result;
        }
        if truthy_result == TRUE && otherwise_result == FALSE {
            return condition;
        }
        if let Type::Constructor(
            Constructor::ConditionalResult {
                condition: negated,
                truthy_result: negated_truthy,
                otherwise_result: negated_otherwise,
                result_union: _,
            },
        ) = self.get_type_by_id(condition) {
            if *negated_truthy == FALSE && *negated_otherwise == TRUE {
                // Reverse the condition
                let negated = *negated;
                return self.new_conditional_type(negated, otherwise_result, truthy_result);
            }
        }
        proof {
            lemma_or_type_grows(self@.types, truthy_result, otherwise_result);
        }
        let result_union = self.new_or_type(truthy_result, otherwise_result);
        let ty = Type::Constructor(
            Constructor::ConditionalResult {
                condition,
                truthy_result,
                otherwise_result,
                result_union,
            },
        );
        self.register_type(ty)
    }

    /// A conditional on whether `check_type` extends `extends`. The test is
    /// registered as a type of its own and becomes the condition.
    pub fn new_conditional_extends_type(
        &mut self,
        check_type: TypeId,
        extends: TypeId,
        true_result: TypeId,
        false_result: TypeId,
    ) -> (id: TypeId)
        requires
            old(self).wf(),
            old(self)@.contains(check_type),
            old(self)@.contains(extends),
            old(self)@.contains(true_result),
            old(self)@.contains(false_result),
            conditional_type(
                old(self)@.types.push(type_extends(check_type, extends)),
                old(self)@.types.len() as TypeId,
                true_result,
                false_result,
            ).0.len() <= MAX_TYPE_COUNT,
        ensures
            final(self).wf(),
            final(self)@ == old(self)@.with_types(
                conditional_type(
                    old(self)@.types.push(type_extends(check_type, extends)),
                    old(self)@.types.len() as TypeId,
                    true_result,
                    false_result,
                ).0,
            ),
            id == conditional_type(
                old(self)@.types.push(type_extends(check_type, extends)),
                old(self)@.types.len() as TypeId,
                true_result,
                false_result,
            ).1,
            final(self)@.contains(id),
    {
        proof {
            lemma_conditional_type_len(
                self@.types.push(type_extends(check_type, extends)),
                self@.types.len() as TypeId,
                true_result,
                false_result,
            );
        }
        let on = self.register_type(
            Type::Constructor(Constructor::TypeExtends(TypeExtends { item: check_type, extends })),
        );
        self.new_conditional_type(on, true_result, false_result)
    }

    /// The narrowing of `from` to `narrowed_to`, which control flow has shown.
    pub fn new_narrowed(&mut self, from: TypeId, narrowed_to: TypeId) -> (id: TypeId)
        requires
            old(self).wf(),
            old(self)@.contains(from),
            old(self)@.contains(narrowed_to),
            narrowed_type(old(self)@.types, from, narrowed_to).0.len() <= MAX_TYPE_COUNT,
        ensures
            final(self).wf(),
            final(self)@ == old(self)@.with_types(
                narrowed_type(old(self)@.types, from, narrowed_to).0,
            ),
            id == narrowed_type(old(self)@.types, from, narrowed_to).1,
            final(self)@.contains(id),
    {
        proof {
            lemma_narrowed_type_grows(self@.types, from, narrowed_to);
        }
        let (from, existing) = if let Type::Narrowed { from, narrowed_to } = self.get_type_by_id(
            from,
        ) {
            (*from, Some(*narrowed_to))
        } else {
            (from, None)
        };
        let narrowed_to = match existing {
            Some(existing) => {
                if self.is_refinement(narrowed_to) {
                    proof {
                        lemma_and_type_grows(self@.types, existing, narrowed_to);
                    }
                    self.new_and_type(existing, narrowed_to)
                } else {
                    narrowed_to
                }
            },
            None => narrowed_to,
        };
        self.register_type(Type::Narrowed { from, narrowed_to })
    }

    /// The union of all of `ids`, or `never` where there is none.
    #[must_use]
    pub fn new_or_type_from_iterator(&mut self, ids: Vec<TypeId>) -> (id: TypeId)
        requires
            old(self).wf(),
            forall|i: int| 0 <= i < ids@.len() ==> old(self)@.contains(#[trigger] ids@[i]),
            or_type_of_all(old(self)@.types, ids@).0.len() <= MAX_TYPE_COUNT,
        ensures
            final(self).wf(),
            final(self)@ == old(self)@.with_types(or_type_of_all(old(self)@.types, ids@).0),
            id == or_type_of_all(old(self)@.types, ids@).1,
            final(self)@.contains(id),
    {
        let mut joined = NEVER_TYPE;
        let mut idx: usize = 0;
        while idx < ids.len()
            invariant
                self.wf(),
                idx <= ids@.len(),
                self@ == old(self)@.with_types(or_type_of_all(old(self)@.types, ids@.take(idx as int)).0),
                joined == or_type_of_all(old(self)@.types, ids@.take(idx as int)).1,
                self@.contains(joined),
                old(self)@.types.len() <= self@.types.len(),
                forall|i: int| 0 <= i < ids@.len() ==> old(self)@.contains(#[trigger] ids@[i]),
                or_type_of_all(old(self)@.types, ids@).0.len() <= MAX_TYPE_COUNT,
            decreases ids@.len() - idx,
        {
            proof {
                assert(ids@.take(idx + 1).drop_last() =~= ids@.take(idx as int));
                lemma_or_type_of_all_len(old(self)@.types, ids@, idx + 1);
            }
            joined = self.new_or_type(joined, ids[idx]);
            idx += 1;
        }
        assert(ids@.take(idx as int) =~= ids@);
        joined
    }

    /// `left && right` as a type: `right` where `left` holds, else `false`.
    pub fn new_logical_and_type(&mut self, left: TypeId, right: TypeId) -> (id: TypeId)
        requires
            old(self).wf(),
            old(self)@.contains(left),
            old(self)@.contains(right),
            conditional_type(old(self)@.types, left, right, FALSE).0.len() <= MAX_TYPE_COUNT,
        ensures
            final(self).wf(),
            final(self)@ == old(self)@.with_types(
                conditional_type(old(self)@.types, left, right, FALSE).0,
            ),
            id == conditional_type(old(self)@.types, left, right, FALSE).1,
            final(self)@.contains(id),
    {
        self.new_conditional_type(left, right, FALSE)
    }

    /// `left || right` as a type: `true` where `left` holds, else `right`.
    pub fn new_logical_or_type(&mut self, left: TypeId, right: TypeId) -> (id: TypeId)
        requires
            old(self).wf(),
            old(self)@.contains(left),
            old(self)@.contains(right),
            conditional_type(old(self)@.types, left, TRUE, right).0.len() <= MAX_TYPE_COUNT,
        ensures
            final(self).wf(),
            final(self)@ == old(self)@.with_types(
                conditional_type(old(self)@.types, left, TRUE, right).0,
            ),
            id == conditional_type(old(self)@.types, left, TRUE, right).1,
            final(self)@.contains(id),
    {
        self.new_conditional_type(left, TRUE, right)
    }

    /// Whether `id` is an application of a numeric refinement or of the negation.
    pub fn is_refinement(&self, id: TypeId) -> (refinement: bool)
        requires
            self@.contains(id),
        ensures
            refinement == is_refinement(self@.types, id),
    {
        match self.get_type_by_id(id) {
            Type::PartiallyAppliedGenerics(PartiallyAppliedGenerics { on, .. }) => *on
                == GREATER_THAN || *on == LESS_THAN || *on == MULTIPLE_OF || *on
                == NOT_RESTRICTION,
            _ => false,
        }
    }
}

/// Joining more types never removes a descriptor.
pub proof fn lemma_or_type_of_all_len(types: Seq<Type>, ids: Seq<TypeId>, count: int)
    requires
        0 <= count <= ids.len(),
    ensures
        types.len() <= or_type_of_all(types, ids.take(count)).0.len() <= or_type_of_all(
            types,
            ids,
        ).0.len(),
    decreases ids.len() - count,
{
    lemma_or_type_of_all_grows_from(types, ids.take(count));
    if count == ids.len() {
        assert(ids.take(count) =~= ids);
    } else {
        let (grown, joined) = or_type_of_all(types, ids.take(count));
        assert(ids.take(count + 1).drop_last() =~= ids.take(count));
        lemma_or_type_len(grown, joined, ids[count]);
        lemma_or_type_of_all_len(types, ids, count + 1);
    }
}

proof fn lemma_or_type_of_all_grows_from(types: Seq<Type>, ids: Seq<TypeId>)
    ensures
        types.len() <= or_type_of_all(types, ids).0.len(),
    decreases ids.len(),
{
    if ids.len() > 0 {
        let (grown, joined) = or_type_of_all(types, ids.drop_last());
        lemma_or_type_of_all_grows_from(types, ids.drop_last());
        lemma_or_type_len(grown, joined, ids.last());
    }
}

/// The descriptor of the test whether `item` extends `extends`.
pub open spec fn type_extends(item: TypeId, extends: TypeId) -> Type {
    Type::Constructor(Constructor::TypeExtends(TypeExtends { item, extends }))
}

/// A conditional never removes a descriptor.
pub proof fn lemma_conditional_type_len(
    types: Seq<Type>,
    condition: TypeId,
    truthy_result: TypeId,
    otherwise_result: TypeId,
)
    ensures
        types.len() <= conditional_type(types, condition, truthy_result, otherwise_result).0.len(),
    decreases condition,
{
    if truthy_result == otherwise_result || condition == TRUE || condition == FALSE || (
    truthy_result == TRUE && otherwise_result == FALSE) {
    } else if let Some(negated) = negated_condition(types, condition) {
        lemma_conditional_type_len(types, negated, otherwise_result, truthy_result);
    } else {
        lemma_or_type_len(types, truthy_result, otherwise_result);
    }
}

} // verus!
