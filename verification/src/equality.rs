//! The equality protocol: the one operator with a non-failing terminal
//! fallback, since every pair of values must be comparable.
//!
//! Like the other operator protocols this is an explicit state machine:
//! a step either finishes — always with a bare boolean, equality cannot
//! end in an exception or an error — or asks the host to perform one
//! override call. Same-kind pairs fall back to kind-native equality:
//! numeric for numbers, by content for strings, by shared identity for
//! objects, modules, mixins, functions, lists, code objects and type
//! descriptors. An enumerated-case value's payload re-enters the full
//! protocol, so even the structural fallback can ask the host for a
//! payload override call — always on a pair strictly older in the
//! arena, which bounds the recursion. Integer and float compare across
//! kinds by exact numeric value; every other heterogeneous pair is
//! simply unequal, never an error.

use crate::attributes::{lemma_read_effect_growth, spec_attr_ok, spec_attr_value};
use crate::float_repr::{f64_eq, f64_equals_int, float_eq_bits, float_int_eq_bits};
use crate::kind::spec_type_key;
use crate::operators::{classify_rel, spec_rel_attempt, CallOutcome, OperatorEvalAttemptOutcome, valid_outcome};
use crate::value::RuntimeValue;
use crate::vm::{bound_only_growth, lemma_bound_only_growth_refl, valid_value, Vm};
use vstd::prelude::*;

verus! {

/// Recursion measure: comparing an enum-case value only ever recurses
/// into a payload with a smaller arena index.
pub open spec fn enum_measure(v: RuntimeValue) -> int {
    match v {
        RuntimeValue::EnumValue(e) => e + 1,
        _ => 0,
    }
}

/// Which side's override an equality `Call` step asks for.
#[derive(Clone, Copy, Debug, PartialEq, Eq, Structural)]
pub enum EqPhase {
    Lhs,
    Rhs,
}

/// One step of an equality evaluation. A `Call` step names the pair
/// currently under comparison — payload re-entry replaces the pair —
/// and the host echoes that pair into the resume. The terminal carries
/// a bare boolean: equality is total.
#[derive(Clone, Copy, Debug)]
pub enum EqStep {
    Call {
        callable: RuntimeValue,
        argument: RuntimeValue,
        phase: EqPhase,
        lhs: RuntimeValue,
        rhs: RuntimeValue,
    },
    Done(bool),
}

pub open spec fn valid_eq_step(vm: Vm, s: EqStep) -> bool {
    match s {
        EqStep::Call { callable, argument, phase, lhs, rhs } => {
            &&& valid_value(vm, callable)
            &&& valid_value(vm, argument)
            &&& valid_value(vm, lhs)
            &&& valid_value(vm, rhs)
        },
        EqStep::Done(_) => true,
    }
}

/// Kind-native structural equality as a machine step: every pair
/// answers directly except a same-shaped enumerated pair with
/// payloads, which re-enters the full protocol on the payloads.
pub open spec fn spec_eq_terminal(vm: Vm, l: RuntimeValue, r: RuntimeValue) -> EqStep
    decreases enum_measure(l), 0int,
    when vm.wf() && valid_value(vm, l)
    via spec_eq_terminal_decreases
{
    match (l, r) {
        (RuntimeValue::Integer(x, _), RuntimeValue::Integer(y, _)) => EqStep::Done(x == y),
        (RuntimeValue::Float(x, _), RuntimeValue::Float(y, _)) => EqStep::Done(f64_eq(x, y)),
        (RuntimeValue::Float(x, _), RuntimeValue::Integer(y, _)) => EqStep::Done(
            f64_equals_int(x, y as int),
        ),
        (RuntimeValue::Integer(x, _), RuntimeValue::Float(y, _)) => EqStep::Done(
            f64_equals_int(y, x as int),
        ),
        (RuntimeValue::Boolean(x, _), RuntimeValue::Boolean(y, _)) => EqStep::Done(x == y),
        (RuntimeValue::Str(x, _), RuntimeValue::Str(y, _)) => EqStep::Done(
            vm.texts@[x as int]@ == vm.texts@[y as int]@,
        ),
        (RuntimeValue::Object(x), RuntimeValue::Object(y)) => EqStep::Done(x == y),
        (RuntimeValue::Mixin(x), RuntimeValue::Mixin(y)) => EqStep::Done(x == y),
        (RuntimeValue::Module(x), RuntimeValue::Module(y)) => EqStep::Done(x == y),
        (RuntimeValue::EnumValue(x), RuntimeValue::EnumValue(y)) => {
            let rx = vm.enum_values@[x as int];
            let ry = vm.enum_values@[y as int];
            if rx.enum_id != ry.enum_id || rx.case_index != ry.case_index {
                EqStep::Done(false)
            } else {
                match (rx.payload, ry.payload) {
                    (Some(a), Some(b)) => spec_equals_begin(vm, a, b),
                    (None, None) => EqStep::Done(true),
                    _ => EqStep::Done(false),
                }
            }
        },
        (RuntimeValue::CodeObject(x), RuntimeValue::CodeObject(y)) => EqStep::Done(x == y),
        (RuntimeValue::Function(x), RuntimeValue::Function(y)) => EqStep::Done(x == y),
        (RuntimeValue::BoundFunction(x), RuntimeValue::BoundFunction(y)) => EqStep::Done(
            x == y,
        ),
        (RuntimeValue::List(x), RuntimeValue::List(y)) => EqStep::Done(x == y),
        (RuntimeValue::Type(x), RuntimeValue::Type(y)) => EqStep::Done(x == y),
        (RuntimeValue::TypeCheck(x), RuntimeValue::TypeCheck(y)) => EqStep::Done(x == y),
        _ => EqStep::Done(false),
    }
}

#[via_fn]
proof fn spec_eq_terminal_decreases(vm: Vm, l: RuntimeValue, r: RuntimeValue) {
    match (l, r) {
        (RuntimeValue::EnumValue(x), RuntimeValue::EnumValue(y)) => {
            // the payload of a valid enum record points strictly below
            // the record itself
            assert((x as int) < vm.enum_values@.len());
            let rx = vm.enum_values@[x as int];
            assert(match rx.payload {
                Some(p) => valid_value(vm, p) && match p {
                    RuntimeValue::EnumValue(j) => j < x,
                    _ => true,
                },
                None => true,
            });
        },
        _ => {},
    }
}

/// Equality once the left override is out of the picture: same-typed
/// operands take the structural fallback and stop; otherwise the right
/// override is tried, and the structural fallback is terminal.
pub open spec fn spec_eq_step2(vm: Vm, lhs: RuntimeValue, rhs: RuntimeValue) -> EqStep
    decreases enum_measure(lhs), 1int,
{
    if spec_type_key(vm, lhs) == spec_type_key(vm, rhs) {
        spec_eq_terminal(vm, lhs, rhs)
    } else if spec_attr_ok(vm, rhs, vm.symbols.op_equals) {
        EqStep::Call {
            callable: spec_attr_value(vm, rhs, vm.symbols.op_equals),
            argument: lhs,
            phase: EqPhase::Rhs,
            lhs,
            rhs,
        }
    } else {
        spec_eq_terminal(vm, lhs, rhs)
    }
}

/// The first step of an equality evaluation.
pub open spec fn spec_equals_begin(vm: Vm, lhs: RuntimeValue, rhs: RuntimeValue) -> EqStep
    decreases enum_measure(lhs), 2int,
{
    if spec_attr_ok(vm, lhs, vm.symbols.op_equals) {
        EqStep::Call {
            callable: spec_attr_value(vm, lhs, vm.symbols.op_equals),
            argument: rhs,
            phase: EqPhase::Lhs,
            lhs,
            rhs,
        }
    } else {
        spec_eq_step2(vm, lhs, rhs)
    }
}

/// The equality step after the host performed an override call. Any
/// outcome other than a direct boolean falls through rather than
/// propagating: after the left override, a sentinel or a non-boolean
/// continues the protocol while an exception or a fatal condition
/// falls straight back to the structural fallback; after the right
/// override, everything but a boolean falls back.
pub open spec fn spec_equals_resume(
    vm: Vm,
    lhs: RuntimeValue,
    rhs: RuntimeValue,
    phase: EqPhase,
    outcome: CallOutcome,
) -> EqStep
    decreases enum_measure(lhs), 3int,
{
    match phase {
        EqPhase::Lhs => match spec_rel_attempt(vm, outcome) {
            OperatorEvalAttemptOutcome::Value(b) => EqStep::Done(b),
            OperatorEvalAttemptOutcome::Exception(_) => spec_eq_terminal(vm, lhs, rhs),
            OperatorEvalAttemptOutcome::Error(_) => spec_eq_terminal(vm, lhs, rhs),
            OperatorEvalAttemptOutcome::NeedTryROperator => spec_eq_step2(vm, lhs, rhs),
        },
        EqPhase::Rhs => match spec_rel_attempt(vm, outcome) {
            OperatorEvalAttemptOutcome::Value(b) => EqStep::Done(b),
            _ => spec_eq_terminal(vm, lhs, rhs),
        },
    }
}

impl RuntimeValue {
    /// Kind-native structural equality, as a machine step: total and
    /// override-free for every pair except a same-shaped enumerated
    /// pair, whose payloads re-enter the full protocol and may
    /// therefore ask the host for an override call.
    pub fn builtin_equals(&self, other: &RuntimeValue, vm: &mut Vm) -> (r: EqStep)
        requires
            old(vm).wf(),
            valid_value(*old(vm), *self),
            valid_value(*old(vm), *other),
        ensures
            final(vm).wf(),
            r == spec_eq_terminal(*old(vm), *self, *other),
            bound_only_growth(*old(vm), *final(vm)),
            valid_eq_step(*final(vm), r),
        decreases enum_measure(*self), 0int,
    {
        proof {
            lemma_bound_only_growth_refl(*vm);
        }
        match (self, other) {
            (RuntimeValue::Integer(x, _), RuntimeValue::Integer(y, _)) => EqStep::Done(
                *x == *y,
            ),
            (RuntimeValue::Float(x, _), RuntimeValue::Float(y, _)) => EqStep::Done(
                float_eq_bits(*x, *y),
            ),
            (RuntimeValue::Float(x, _), RuntimeValue::Integer(y, _)) => EqStep::Done(
                float_int_eq_bits(*x, *y),
            ),
            (RuntimeValue::Integer(x, _), RuntimeValue::Float(y, _)) => EqStep::Done(
                float_int_eq_bits(*y, *x),
            ),
            (RuntimeValue::Boolean(x, _), RuntimeValue::Boolean(y, _)) => EqStep::Done(
                *x == *y,
            ),
            (RuntimeValue::Str(x, _), RuntimeValue::Str(y, _)) => EqStep::Done(
                vm.texts[*x] == vm.texts[*y],
            ),
            (RuntimeValue::Object(x), RuntimeValue::Object(y)) => EqStep::Done(*x == *y),
            (RuntimeValue::Mixin(x), RuntimeValue::Mixin(y)) => EqStep::Done(*x == *y),
            (RuntimeValue::Module(x), RuntimeValue::Module(y)) => EqStep::Done(*x == *y),
            (RuntimeValue::EnumValue(x), RuntimeValue::EnumValue(y)) => {
                let same_shape = vm.enum_values[*x].enum_id == vm.enum_values[*y].enum_id
                    && vm.enum_values[*x].case_index == vm.enum_values[*y].case_index;
                if !same_shape {
                    EqStep::Done(false)
                } else {
                    match (&vm.enum_values[*x].payload, &vm.enum_values[*y].payload) {
                        (Some(a), Some(b)) => {
                            let pa = *a;
                            let pb = *b;
                            proof {
                                let rx = vm.enum_values@[*x as int];
                                assert(match rx.payload {
                                    Some(p) => valid_value(*vm, p) && match p {
                                        RuntimeValue::EnumValue(j) => j < *x,
                                        _ => true,
                                    },
                                    None => true,
                                });
                                let ry = vm.enum_values@[*y as int];
                                assert(match ry.payload {
                                    Some(p) => valid_value(*vm, p),
                                    None => true,
                                });
                            }
                            RuntimeValue::equals(&pa, &pb, vm)
                        },
                        (None, None) => EqStep::Done(true),
                        _ => EqStep::Done(false),
                    }
                }
            },
            (RuntimeValue::CodeObject(x), RuntimeValue::CodeObject(y)) => EqStep::Done(
                *x == *y,
            ),
            (RuntimeValue::Function(x), RuntimeValue::Function(y)) => EqStep::Done(*x == *y),
            (RuntimeValue::BoundFunction(x), RuntimeValue::BoundFunction(y)) => EqStep::Done(
                *x == *y,
            ),
            (RuntimeValue::List(x), RuntimeValue::List(y)) => EqStep::Done(*x == *y),
            (RuntimeValue::Type(x), RuntimeValue::Type(y)) => EqStep::Done(*x == *y),
            (RuntimeValue::TypeCheck(x), RuntimeValue::TypeCheck(y)) => EqStep::Done(*x == *y),
            _ => EqStep::Done(false),
        }
    }
}

fn equals_step2(lhs: &RuntimeValue, rhs: &RuntimeValue, vm: &mut Vm) -> (r: EqStep)
    requires
        old(vm).wf(),
        valid_value(*old(vm), *lhs),
        valid_value(*old(vm), *rhs),
    ensures
        final(vm).wf(),
        r == spec_eq_step2(*old(vm), *lhs, *rhs),
        bound_only_growth(*old(vm), *final(vm)),
        valid_eq_step(*final(vm), r),
    decreases enum_measure(*lhs), 1int,
{
    let lk = vm.type_key_of(lhs);
    let rk = vm.type_key_of(rhs);
    if lk == rk {
        lhs.builtin_equals(rhs, vm)
    } else {
        let eq_sym = vm.symbols.op_equals;
        match rhs.read_attribute(eq_sym, vm) {
            Ok(callable) => {
                proof {
                    lemma_read_effect_growth(*old(vm), *vm, *rhs, eq_sym);
                }
                EqStep::Call {
                    callable,
                    argument: *lhs,
                    phase: EqPhase::Rhs,
                    lhs: *lhs,
                    rhs: *rhs,
                }
            },
            Err(_) => lhs.builtin_equals(rhs, vm),
        }
    }
}

impl RuntimeValue {
    /// Start evaluating equality of two values. Equality is total: the
    /// machine always terminates in a boolean, whatever the overrides
    /// do, because `Done` carries nothing else and every re-entered
    /// payload pair is strictly older in the arena.
    pub fn equals(lhs: &RuntimeValue, rhs: &RuntimeValue, vm: &mut Vm) -> (r: EqStep)
        requires
            old(vm).wf(),
            valid_value(*old(vm), *lhs),
            valid_value(*old(vm), *rhs),
        ensures
            final(vm).wf(),
            r == spec_equals_begin(*old(vm), *lhs, *rhs),
            bound_only_growth(*old(vm), *final(vm)),
            valid_eq_step(*final(vm), r),
        decreases enum_measure(*lhs), 2int,
    {
        let eq_sym = vm.symbols.op_equals;
        match lhs.read_attribute(eq_sym, vm) {
            Ok(callable) => {
                proof {
                    lemma_read_effect_growth(*old(vm), *vm, *lhs, eq_sym);
                }
                EqStep::Call {
                    callable,
                    argument: *rhs,
                    phase: EqPhase::Lhs,
                    lhs: *lhs,
                    rhs: *rhs,
                }
            },
            Err(_) => equals_step2(lhs, rhs, vm),
        }
    }

    /// Continue an equality evaluation after the host performed an
    /// override call for the pair a `Call` step named. A raising
    /// override never propagates: the answer falls back to structural
    /// equality, which in turn may re-enter a strictly older payload
    /// pair.
    pub fn equals_resume(
        lhs: &RuntimeValue,
        rhs: &RuntimeValue,
        phase: EqPhase,
        outcome: &CallOutcome,
        vm: &mut Vm,
    ) -> (r: EqStep)
        requires
            old(vm).wf(),
            valid_value(*old(vm), *lhs),
            valid_value(*old(vm), *rhs),
            valid_outcome(*old(vm), *outcome),
        ensures
            final(vm).wf(),
            r == spec_equals_resume(*old(vm), *lhs, *rhs, phase, *outcome),
            bound_only_growth(*old(vm), *final(vm)),
            valid_eq_step(*final(vm), r),
        decreases enum_measure(*lhs), 3int,
    {
        match classify_rel(outcome, vm) {
            OperatorEvalAttemptOutcome::Value(b) => {
                proof {
                    lemma_bound_only_growth_refl(*vm);
                }
                EqStep::Done(b)
            },
            OperatorEvalAttemptOutcome::Exception(_) => lhs.builtin_equals(rhs, vm),
            OperatorEvalAttemptOutcome::Error(_) => lhs.builtin_equals(rhs, vm),
            OperatorEvalAttemptOutcome::NeedTryROperator => {
                match phase {
                    EqPhase::Lhs => equals_step2(lhs, rhs, vm),
                    EqPhase::Rhs => lhs.builtin_equals(rhs, vm),
                }
            },
        }
    }
}

/// Every step of the equality machine either finishes with a boolean
/// or asks for a call: the pair a `Call` step names is the pair given,
/// or a payload pair strictly older in the arena. Together with the
/// measure this bounds the whole evaluation.
pub proof fn lemma_eq_machine_descends(vm: Vm, l: RuntimeValue, r: RuntimeValue)
    requires
        vm.wf(),
        valid_value(vm, l),
        valid_value(vm, r),
    ensures
        match spec_eq_terminal(vm, l, r) {
            EqStep::Done(_) => true,
            EqStep::Call { lhs: l2, rhs: r2, .. } => enum_measure(l2) < enum_measure(l)
                && valid_value(vm, l2) && valid_value(vm, r2),
        },
        match spec_eq_step2(vm, l, r) {
            EqStep::Done(_) => true,
            EqStep::Call { lhs: l2, rhs: r2, phase, .. } => (l2 == l && r2 == r && phase
                == EqPhase::Rhs) || (enum_measure(l2) < enum_measure(l) && valid_value(vm, l2)
                && valid_value(vm, r2)),
        },
        match spec_equals_begin(vm, l, r) {
            EqStep::Done(_) => true,
            EqStep::Call { lhs: l2, rhs: r2, .. } => (l2 == l && r2 == r) || (enum_measure(l2)
                < enum_measure(l) && valid_value(vm, l2) && valid_value(vm, r2)),
        },
    decreases enum_measure(l),
{
    match (l, r) {
        (RuntimeValue::EnumValue(x), RuntimeValue::EnumValue(y)) => {
            let rx = vm.enum_values@[x as int];
            let ry = vm.enum_values@[y as int];
            assert(match rx.payload {
                Some(p) => valid_value(vm, p) && match p {
                    RuntimeValue::EnumValue(j) => j < x,
                    _ => true,
                },
                None => true,
            });
            assert(match ry.payload {
                Some(p) => valid_value(vm, p),
                None => true,
            });
            match (rx.payload, ry.payload) {
                (Some(a), Some(b)) => {
                    lemma_eq_machine_descends(vm, a, b);
                },
                _ => {},
            }
        },
        _ => {},
    }
}

/// Equality never raises. Every terminal step of the machine carries a
/// bare boolean; when a user-defined override itself raises an
/// exception that is not the sentinel — or even a fatal condition at
/// this boundary — the answer falls back to the structural terminal
/// rather than propagating; and each `Call` step either moves the
/// phase forward on the same pair or descends to a strictly older
/// payload pair, so the whole evaluation resolves to a boolean.
pub proof fn lemma_equals_never_raises(
    vm: Vm,
    lhs: RuntimeValue,
    rhs: RuntimeValue,
    outcome: CallOutcome,
)
    requires
        vm.wf(),
        valid_value(vm, lhs),
        valid_value(vm, rhs),
    ensures
        spec_attr_ok(vm, lhs, vm.symbols.op_equals) ==> match spec_equals_begin(vm, lhs, rhs) {
            EqStep::Call { phase, .. } => phase == EqPhase::Lhs,
            EqStep::Done(_) => false,
        },
        (outcome matches CallOutcome::Exception(e) && !crate::operators::spec_is_unimplemented(
            vm,
            e,
        )) ==> spec_equals_resume(vm, lhs, rhs, EqPhase::Lhs, outcome) == spec_eq_terminal(
            vm,
            lhs,
            rhs,
        ),
        outcome is Error ==> spec_equals_resume(vm, lhs, rhs, EqPhase::Lhs, outcome)
            == spec_eq_terminal(vm, lhs, rhs),
        match spec_equals_resume(vm, lhs, rhs, EqPhase::Rhs, outcome) {
            EqStep::Done(_) => true,
            EqStep::Call { lhs: l2, .. } => enum_measure(l2) < enum_measure(lhs),
        },
        match spec_equals_resume(vm, lhs, rhs, EqPhase::Lhs, outcome) {
            EqStep::Done(_) => true,
            EqStep::Call { lhs: l2, rhs: r2, phase, .. } => (l2 == lhs && r2 == rhs && phase
                == EqPhase::Rhs) || enum_measure(l2) < enum_measure(lhs),
        },
{
    lemma_eq_machine_descends(vm, lhs, rhs);
}

} // verus!
