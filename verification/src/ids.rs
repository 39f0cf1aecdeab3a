//! Dense small-integer identifiers for sources, types, functions, variables and closures,
//! and the reserved identifiers of the built-in types.

use vstd::prelude::*;

verus! {

/// Identifies a source file.
pub type SourceId = u16;

/// The source of positions that belong to no file.
pub const NULL_SOURCE: SourceId = 0;

/// Handle of a type in the store: the index of its descriptor.
pub type TypeId = u16;

/// How many identifiers are reserved for built-in types.
pub const INTERNAL_TYPE_COUNT: usize = 57;

/// The largest number of descriptors that a store can hold: one per 16-bit identifier.
pub const MAX_TYPE_COUNT: usize = 65536;

/// Not to be confused with [`NEVER_TYPE`]: the type given where synthesis went wrong.
pub const ERROR_TYPE: TypeId = 0;

/// What is returned where a construction is not supported.
pub const UNIMPLEMENTED_ERROR_TYPE: TypeId = 0;

pub const NEVER_TYPE: TypeId = 1;

pub const ANY_TYPE: TypeId = 2;

pub const BOOLEAN_TYPE: TypeId = 3;

pub const NUMBER_TYPE: TypeId = 4;

pub const STRING_TYPE: TypeId = 5;

pub const UNDEFINED_TYPE: TypeId = 6;

pub const NULL_TYPE: TypeId = 7;

pub const VOID_TYPE: TypeId = 8;

pub const ARRAY_TYPE: TypeId = 9;

pub const PROMISE_TYPE: TypeId = 10;

/// The parameter that `Array` and `Promise` share.
pub const T_TYPE: TypeId = 11;

pub const OBJECT_TYPE: TypeId = 12;

pub const FUNCTION_TYPE: TypeId = 13;

pub const REGEXP_TYPE: TypeId = 14;

pub const SYMBOL_TYPE: TypeId = 15;

pub const TRUE: TypeId = 16;

pub const FALSE: TypeId = 17;

pub const ZERO: TypeId = 18;

pub const ONE: TypeId = 19;

pub const NAN: TypeId = 20;

pub const NEG_INFINITY: TypeId = 21;

pub const INFINITY: TypeId = 22;

/// The smallest positive number.
pub const FLOAT_MIN: TypeId = 23;

/// The largest finite number.
pub const FLOAT_MAX: TypeId = 24;

/// The gap between `1` and the next number.
pub const FLOAT_EPSILON: TypeId = 25;

/// The number whose 32-bit integer form has every bit set: `-1`.
pub const MAX_U32: TypeId = 26;

pub const EMPTY_STRING: TypeId = 27;

/// The inferred `this` free variable.
pub const ANY_INFERRED_FREE_THIS: TypeId = 28;

pub const NEW_TARGET_ARG: TypeId = 29;

pub const IMPORT_META: TypeId = 30;

pub const SYMBOL_ITERATOR: TypeId = 31;

pub const SYMBOL_ASYNC_ITERATOR: TypeId = 32;

pub const SYMBOL_HAS_INSTANCE: TypeId = 33;

pub const SYMBOL_TO_PRIMITIVE: TypeId = 34;

/// The `string`-bounded parameter of the string-case aliases.
pub const STRING_GENERIC: TypeId = 35;

pub const STRING_UPPERCASE: TypeId = 36;

pub const STRING_LOWERCASE: TypeId = 37;

pub const STRING_CAPITALIZE: TypeId = 38;

pub const STRING_UNCAPITALIZE: TypeId = 39;

pub const NO_INFER: TypeId = 40;

pub const READONLY_RESTRICTION: TypeId = 41;

pub const NON_OPTIONAL_KEY_ARGUMENT: TypeId = 42;

pub const WRITABLE_KEY_ARGUMENT: TypeId = 43;

/// The `number`-bounded parameter of the numeric refinements.
pub const NUMBER_GENERIC: TypeId = 44;

pub const GREATER_THAN: TypeId = 45;

pub const LESS_THAN: TypeId = 46;

pub const MULTIPLE_OF: TypeId = 47;

/// `Not<NaN>`: what the intersection after it is built from.
pub const NOT_NAN: TypeId = 48;

/// `number & Not<NaN>`: every number that is a number.
pub const NOT_NOT_A_NUMBER: TypeId = 49;

pub const LITERAL_RESTRICTION: TypeId = 50;

pub const EXCLUSIVE_RESTRICTION: TypeId = 51;

pub const NOT_RESTRICTION: TypeId = 52;

pub const CASE_INSENSITIVE: TypeId = 53;

pub const OPEN_BOOLEAN_TYPE: TypeId = 54;

pub const OPEN_NUMBER_TYPE: TypeId = 55;

pub const STRING_OR_NUMBER: TypeId = 56;

/// A range of byte offsets in one source text.
#[derive(Clone, Copy, Debug, PartialEq, Eq, Hash, Structural)]
pub struct Span {
    pub start: u32,
    pub end: u32,
}

/// A [`Span`] together with the source it lies in.
#[derive(Clone, Copy, Debug, PartialEq, Eq, Hash, Structural)]
pub struct SpanWithSource {
    pub start: u32,
    pub end: u32,
    pub source: SourceId,
}

impl SpanWithSource {
    /// The position of what stands in no source text.
    pub open spec fn null() -> SpanWithSource {
        SpanWithSource { start: 0, end: 0, source: NULL_SOURCE }
    }

    pub fn new_null() -> (position: SpanWithSource)
        ensures
            position == Self::null(),
    {
        SpanWithSource { start: 0, end: 0, source: NULL_SOURCE }
    }

    pub open spec fn is_null(self) -> bool {
        self.source == NULL_SOURCE
    }
}

/// A function is identified by where it was declared: its source and the offset it starts at.
#[derive(Clone, Copy, Debug, PartialEq, Eq, Hash, Structural)]
pub struct FunctionId(pub SourceId, pub u32);

/// A variable is identified by where it was declared, as a function is.
#[derive(Clone, Copy, Debug, PartialEq, Eq, Hash, Structural)]
pub struct VariableId(pub SourceId, pub u32);

/// Identifies one closure. Fresh ones come from the store's counter.
#[derive(Clone, Copy, Debug, PartialEq, Eq, Hash, Structural)]
pub struct ClosureId(pub u32);

/// The integer that stands for a source and an offset in the store's tables:
/// the source in the upper half, the offset in the lower.
pub open spec fn table_key(source: SourceId, offset: u32) -> u64 {
    (source as u64 * 0x1_0000_0000 + offset as u64) as u64
}

/// Two positions have the same key only if they are the same position.
pub proof fn lemma_table_key_injective(s1: SourceId, o1: u32, s2: SourceId, o2: u32)
    requires
        table_key(s1, o1) == table_key(s2, o2),
    ensures
        s1 == s2,
        o1 == o2,
{
}

impl FunctionId {
    pub open spec fn key(self) -> u64 {
        table_key(self.0, self.1)
    }

    pub fn table_key(&self) -> (key: u64)
        ensures
            key == self.key(),
    {
        self.0 as u64 * 0x1_0000_0000 + self.1 as u64
    }
}

impl VariableId {
    pub open spec fn key(self) -> u64 {
        table_key(self.0, self.1)
    }

    pub fn table_key(&self) -> (key: u64)
        ensures
            key == self.key(),
    {
        self.0 as u64 * 0x1_0000_0000 + self.1 as u64
    }
}

} // verus!
