//! What the store keeps about a function.

use vstd::prelude::*;
use crate::ids::{FunctionId, SpanWithSource, TypeId};

verus! {

/// A type parameter of a function, an interface, a class or an alias.
#[derive(Clone, Debug)]
pub struct GenericTypeParameter {
    pub name: String,
    /// The structure-generic or function-generic root that stands for it.
    pub type_id: TypeId,
    pub default: Option<TypeId>,
}

#[derive(Clone, Debug)]
pub struct SynthesisedParameter {
    pub name: String,
    pub is_optional: bool,
    pub ty: TypeId,
    pub position: SpanWithSource,
}

#[derive(Clone, Debug)]
pub struct SynthesisedRestParameter {
    pub name: String,
    /// The type of one collected argument.
    pub item_type: TypeId,
    /// The array type of all of them.
    pub ty: TypeId,
    pub position: SpanWithSource,
}

#[derive(Clone, Debug)]
pub struct SynthesisedParameters {
    pub parameters: Vec<SynthesisedParameter>,
    pub rest_parameter: Option<SynthesisedRestParameter>,
}

/// What calling the function does besides returning.
#[derive(Clone, Debug)]
pub enum FunctionEffect {
    /// Nothing is known: an annotation, or a body not yet synthesised.
    Unknown,
    /// The body was synthesised and its events recorded.
    SideEffects,
    /// A function that the checker evaluates itself.
    Constant { identifier: String },
    /// A function of the host.
    InputOutput { identifier: String },
}

/// How the function was written, which decides what `this` and `new` mean in it.
#[derive(Clone, Copy, Debug, PartialEq, Eq, Structural)]
pub enum FunctionBehavior {
    ArrowFunction { is_async: bool },
    Method { is_async: bool, is_generator: bool, free_this_id: TypeId },
    Function { is_async: bool, is_generator: bool, this_id: TypeId, prototype: TypeId },
    Constructor { prototype: TypeId, this_object_type: TypeId },
}

/// How `this` is bound when a function object is called.
#[derive(Clone, Copy, Debug, PartialEq, Eq, Structural)]
pub enum ThisValue {
    Passed(TypeId),
    /// Take `this` from what the function is called on.
    UseParent,
}

impl Default for ThisValue {
    fn default() -> (this_value: Self)
        ensures
            this_value == ThisValue::UseParent,
    {
        ThisValue::UseParent
    }
}

/// A function's descriptor. Its identity is its identifier.
#[derive(Clone, Debug)]
pub struct FunctionType {
    pub id: FunctionId,
    pub type_parameters: Option<Vec<GenericTypeParameter>>,
    pub parameters: SynthesisedParameters,
    pub return_type: TypeId,
    pub effect: FunctionEffect,
    pub behavior: FunctionBehavior,
}

} // verus!
