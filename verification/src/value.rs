//! The closed tagged union of runtime values.
//!
//! A value is a cheap handle: primitives carry their payload inline
//! together with the index of their private extension storage, and every
//! other kind carries the index of its record in the [`crate::vm::Vm`]
//! arena. Copying a handle aliases the record, so mutation through one
//! handle is visible through every copy — the shared-payload semantics
//! the dispatch core is built on.

use vstd::prelude::*;

verus! {

/// A runtime value handle. `Integer`, `Float`, `Boolean` and `Str` are
/// value-like but still point at per-handle extension storage; all other
/// kinds are indices into the owning [`crate::vm::Vm`]'s arenas.
///
/// Floats are carried as raw IEEE-754 binary64 bits; see
/// [`crate::float_repr`].
#[derive(Clone, Copy, Debug, PartialEq, Eq, Structural)]
pub enum RuntimeValue {
    Integer(i64, usize),
    Float(u64, usize),
    Boolean(bool, usize),
    Str(usize, usize),
    Object(usize),
    EnumValue(usize),
    CodeObject(usize),
    Function(usize),
    BoundFunction(usize),
    List(usize),
    Mixin(usize),
    Type(usize),
    Module(usize),
    Opaque(usize),
    TypeCheck(usize),
}

/// Failures local to attribute resolution. Call sites decide whether to
/// turn one into a fatal error, a language exception, or a boolean; the
/// dispatch core never escalates them on its own.
#[derive(Clone, Copy, Debug, PartialEq, Eq, Structural)]
pub enum AttributeError {
    NoSuchAttribute,
    InvalidFunctionBinding,
    ValueHasNoAttributes,
}

/// Fatal error conditions reported by dispatch or by the execution
/// engine: not catchable in-language, they abort the current activation
/// and pass through every layer untouched.
#[derive(Clone, Copy, Debug, PartialEq, Eq, Structural)]
pub enum VmErrorReason {
    UnexpectedType,
    UnexpectedVmState,
}


} // verus!
