//! The operator-overload protocol: arithmetic, relational, bitwise,
//! unary and indexing as attribute-lookup-plus-call, with
//! forward/reverse fallback and sentinel-based "not implemented"
//! detection; the equality protocol, with its non-failing terminal,
//! lives in [`crate::equality`].
//!
//! Dispatch never executes a callable itself. Each protocol is an
//! explicit state machine: a `begin` step resolves the operator
//! attribute and either finishes ([`OpStep::Done`]) or asks the host to
//! perform one call ([`OpStep::Call`]); the host reports what happened
//! as a [`CallOutcome`] and hands it to the matching `resume` step. The
//! phase carried by a `Call` step makes the protocol's shape a theorem:
//! a resume after the reverse phase always finishes, so one invocation
//! attempts at most one forward and at most one reverse call.
//!
//! "Not implemented" detection is identity-based: the exception payload
//! must be an object whose declaring descriptor is the registry's
//! shared `Unimplemented` descriptor, never a name comparison.

use crate::attributes::{spec_attr_ok, spec_attr_value, spec_read_attribute, spec_read_effect};
use crate::kind::spec_type_key;
use crate::symbol::Symbol;
use crate::value::{RuntimeValue, VmErrorReason};
use crate::vm::{valid_value, ReservedSymbols, Vm};
use vstd::prelude::*;

verus! {

/// What the execution engine reports for one call it performed on
/// dispatch's behalf: a result value, an in-language exception with
/// its payload, or a fatal error.
#[derive(Clone, Copy, Debug)]
pub enum CallOutcome {
    Value(RuntimeValue),
    Exception(RuntimeValue),
    Error(VmErrorReason),
}

/// Every payload the engine reports must be a valid handle.
pub open spec fn valid_outcome(vm: Vm, o: CallOutcome) -> bool {
    match o {
        CallOutcome::Value(v) => valid_value(vm, v),
        CallOutcome::Exception(e) => valid_value(vm, e),
        CallOutcome::Error(_) => true,
    }
}

/// Outcome of one overload attempt, before the other side has been
/// considered: the sentinel turns into `NeedTryROperator` here.
#[derive(Debug)]
pub enum OperatorEvalAttemptOutcome<T> {
    Value(T),
    Exception(RuntimeValue),
    Error(VmErrorReason),
    NeedTryROperator,
}

/// Terminal outcome of a whole operator evaluation.
#[derive(Debug)]
pub enum OperatorEvalOutcome<T> {
    Value(T),
    Exception(RuntimeValue),
    Error(VmErrorReason),
}

/// The payload is the distinguished "operator not implemented"
/// sentinel: an object whose declaring descriptor is the registry's
/// shared `Unimplemented` descriptor — reference identity, never a
/// name comparison.
pub open spec fn spec_is_unimplemented(vm: Vm, v: RuntimeValue) -> bool {
    match v {
        RuntimeValue::Object(o) => vm.objects@[o as int].struct_id
            == vm.builtin_types.unimplemented_id,
        _ => false,
    }
}

impl RuntimeValue {
    /// Identity check against the registry's `Unimplemented`
    /// descriptor.
    pub fn is_builtin_unimplemented(&self, vm: &Vm) -> (r: bool)
        requires
            vm.wf(),
            valid_value(*vm, *self),
        ensures
            r == spec_is_unimplemented(*vm, *self),
    {
        match self {
            RuntimeValue::Object(o) => {
                let unimp = vm.get_builtin_type_by_id(crate::vm::BuiltinTypeId::Unimplemented);
                vm.objects[*o].struct_id == unimp
            },
            _ => false,
        }
    }
}

/// Classify an engine report for a value-producing attempt: the
/// sentinel means "try the other side", anything else is terminal for
/// this side.
pub open spec fn spec_bin_attempt(vm: Vm, o: CallOutcome) -> OperatorEvalAttemptOutcome<
    RuntimeValue,
> {
    match o {
        CallOutcome::Value(v) => OperatorEvalAttemptOutcome::Value(v),
        CallOutcome::Exception(e) => if spec_is_unimplemented(vm, e) {
            OperatorEvalAttemptOutcome::NeedTryROperator
        } else {
            OperatorEvalAttemptOutcome::Exception(e)
        },
        CallOutcome::Error(r) => OperatorEvalAttemptOutcome::Error(r),
    }
}

/// Classify an engine report for a boolean-producing attempt: on top
/// of the sentinel rule, a non-boolean result also sends evaluation to
/// the other side.
pub open spec fn spec_rel_attempt(vm: Vm, o: CallOutcome) -> OperatorEvalAttemptOutcome<bool> {
    match o {
        CallOutcome::Value(v) => match v {
            RuntimeValue::Boolean(b, _) => OperatorEvalAttemptOutcome::Value(b),
            _ => OperatorEvalAttemptOutcome::NeedTryROperator,
        },
        CallOutcome::Exception(e) => if spec_is_unimplemented(vm, e) {
            OperatorEvalAttemptOutcome::NeedTryROperator
        } else {
            OperatorEvalAttemptOutcome::Exception(e)
        },
        CallOutcome::Error(r) => OperatorEvalAttemptOutcome::Error(r),
    }
}

fn classify_bin(outcome: &CallOutcome, vm: &Vm) -> (r: OperatorEvalAttemptOutcome<RuntimeValue>)
    requires
        vm.wf(),
        valid_outcome(*vm, *outcome),
    ensures
        r == spec_bin_attempt(*vm, *outcome),
{
    match outcome {
        CallOutcome::Value(v) => OperatorEvalAttemptOutcome::Value(*v),
        CallOutcome::Exception(e) => {
            if e.is_builtin_unimplemented(vm) {
                OperatorEvalAttemptOutcome::NeedTryROperator
            } else {
                OperatorEvalAttemptOutcome::Exception(*e)
            }
        },
        CallOutcome::Error(r) => OperatorEvalAttemptOutcome::Error(*r),
    }
}

pub(crate) fn classify_rel(outcome: &CallOutcome, vm: &Vm) -> (r: OperatorEvalAttemptOutcome<bool>)
    requires
        vm.wf(),
        valid_outcome(*vm, *outcome),
    ensures
        r == spec_rel_attempt(*vm, *outcome),
{
    match outcome {
        CallOutcome::Value(v) => match v {
            RuntimeValue::Boolean(b, _) => OperatorEvalAttemptOutcome::Value(*b),
            _ => OperatorEvalAttemptOutcome::NeedTryROperator,
        },
        CallOutcome::Exception(e) => {
            if e.is_builtin_unimplemented(vm) {
                OperatorEvalAttemptOutcome::NeedTryROperator
            } else {
                OperatorEvalAttemptOutcome::Exception(*e)
            }
        },
        CallOutcome::Error(r) => OperatorEvalAttemptOutcome::Error(*r),
    }
}

/// The binary arithmetic and bitwise operators, each instantiating the
/// same two-sided protocol with its own forward and reverse attribute
/// names.
#[derive(Clone, Copy, Debug, PartialEq, Eq, Structural)]
pub enum BinaryOp {
    Add,
    Sub,
    Mul,
    Div,
    Rem,
    Shl,
    Shr,
    BitAnd,
    BitOr,
    BitXor,
}

impl BinaryOp {
    /// The attribute the left operand's side resolves.
    pub open spec fn spec_fwd(self, syms: ReservedSymbols) -> Symbol {
        match self {
            BinaryOp::Add => syms.op_add,
            BinaryOp::Sub => syms.op_sub,
            BinaryOp::Mul => syms.op_mul,
            BinaryOp::Div => syms.op_div,
            BinaryOp::Rem => syms.op_rem,
            BinaryOp::Shl => syms.op_lshift,
            BinaryOp::Shr => syms.op_rshift,
            BinaryOp::BitAnd => syms.op_bwand,
            BinaryOp::BitOr => syms.op_bwor,
            BinaryOp::BitXor => syms.op_xor,
        }
    }

    /// The attribute the right operand's side resolves.
    pub open spec fn spec_rev(self, syms: ReservedSymbols) -> Symbol {
        match self {
            BinaryOp::Add => syms.op_radd,
            BinaryOp::Sub => syms.op_rsub,
            BinaryOp::Mul => syms.op_rmul,
            BinaryOp::Div => syms.op_rdiv,
            BinaryOp::Rem => syms.op_rrem,
            BinaryOp::Shl => syms.op_rlshift,
            BinaryOp::Shr => syms.op_rrshift,
            BinaryOp::BitAnd => syms.op_rbwand,
            BinaryOp::BitOr => syms.op_rbwor,
            BinaryOp::BitXor => syms.op_rxor,
        }
    }

    pub fn fwd_symbol(&self, vm: &Vm) -> (r: Symbol)
        ensures
            r == self.spec_fwd(vm.symbols),
    {
        match self {
            BinaryOp::Add => vm.symbols.op_add,
            BinaryOp::Sub => vm.symbols.op_sub,
            BinaryOp::Mul => vm.symbols.op_mul,
            BinaryOp::Div => vm.symbols.op_div,
            BinaryOp::Rem => vm.symbols.op_rem,
            BinaryOp::Shl => vm.symbols.op_lshift,
            BinaryOp::Shr => vm.symbols.op_rshift,
            BinaryOp::BitAnd => vm.symbols.op_bwand,
            BinaryOp::BitOr => vm.symbols.op_bwor,
            BinaryOp::BitXor => vm.symbols.op_xor,
        }
    }

    pub fn rev_symbol(&self, vm: &Vm) -> (r: Symbol)
        ensures
            r == self.spec_rev(vm.symbols),
    {
        match self {
            BinaryOp::Add => vm.symbols.op_radd,
            BinaryOp::Sub => vm.symbols.op_rsub,
            BinaryOp::Mul => vm.symbols.op_rmul,
            BinaryOp::Div => vm.symbols.op_rdiv,
            BinaryOp::Rem => vm.symbols.op_rrem,
            BinaryOp::Shl => vm.symbols.op_rlshift,
            BinaryOp::Shr => vm.symbols.op_rrshift,
            BinaryOp::BitAnd => vm.symbols.op_rbwand,
            BinaryOp::BitOr => vm.symbols.op_rbwor,
            BinaryOp::BitXor => vm.symbols.op_rxor,
        }
    }
}

/// The relational operators. Each one's "reverse" counterpart is its
/// algebraic mirror: the right operand is asked the mirrored question.
#[derive(Clone, Copy, Debug, PartialEq, Eq, Structural)]
pub enum RelationalOp {
    Lt,
    Gt,
    LtEq,
    GtEq,
}

impl RelationalOp {
    pub open spec fn spec_fwd(self, syms: ReservedSymbols) -> Symbol {
        match self {
            RelationalOp::Lt => syms.op_lt,
            RelationalOp::Gt => syms.op_gt,
            RelationalOp::LtEq => syms.op_lteq,
            RelationalOp::GtEq => syms.op_gteq,
        }
    }

    /// The algebraic mirror: `lt` ↔ `gt`, `lteq` ↔ `gteq`.
    pub open spec fn spec_rev(self, syms: ReservedSymbols) -> Symbol {
        match self {
            RelationalOp::Lt => syms.op_gt,
            RelationalOp::Gt => syms.op_lt,
            RelationalOp::LtEq => syms.op_gteq,
            RelationalOp::GtEq => syms.op_lteq,
        }
    }

    pub fn fwd_symbol(&self, vm: &Vm) -> (r: Symbol)
        ensures
            r == self.spec_fwd(vm.symbols),
    {
        match self {
            RelationalOp::Lt => vm.symbols.op_lt,
            RelationalOp::Gt => vm.symbols.op_gt,
            RelationalOp::LtEq => vm.symbols.op_lteq,
            RelationalOp::GtEq => vm.symbols.op_gteq,
        }
    }

    pub fn rev_symbol(&self, vm: &Vm) -> (r: Symbol)
        ensures
            r == self.spec_rev(vm.symbols),
    {
        match self {
            RelationalOp::Lt => vm.symbols.op_gt,
            RelationalOp::Gt => vm.symbols.op_lt,
            RelationalOp::LtEq => vm.symbols.op_gteq,
            RelationalOp::GtEq => vm.symbols.op_lteq,
        }
    }
}

/// Which side's call a `Call` step asks for.
#[derive(Clone, Copy, Debug, PartialEq, Eq, Structural)]
pub enum OpPhase {
    Forward,
    Reverse,
}

/// One step of a two-sided operator evaluation: either the protocol is
/// finished, or the host must call `callable` with `argument` as the
/// sole argument and resume with the phase echoed back.
#[derive(Debug)]
pub enum OpStep<T> {
    Call { callable: RuntimeValue, argument: RuntimeValue, phase: OpPhase },
    Done(OperatorEvalOutcome<T>),
}

/// Every handle a step carries is valid.
pub open spec fn valid_step<T>(vm: Vm, s: OpStep<T>) -> bool {
    match s {
        OpStep::Call { callable, argument, phase } => valid_value(vm, callable) && valid_value(
            vm,
            argument,
        ),
        OpStep::Done(o) => match o {
            OperatorEvalOutcome::Value(_) => true,
            OperatorEvalOutcome::Exception(e) => valid_value(vm, e),
            OperatorEvalOutcome::Error(_) => true,
        },
    }
}

/// The protocol once the forward side is out of the picture: same-type
/// operands fail immediately and are never retried in reverse;
/// otherwise the right operand's reverse attribute is resolved.
pub open spec fn spec_bin_step2(vm: Vm, lhs: RuntimeValue, rhs: RuntimeValue, op: BinaryOp) -> OpStep<
    RuntimeValue,
> {
    if spec_type_key(vm, lhs) == spec_type_key(vm, rhs) {
        OpStep::Done(OperatorEvalOutcome::Error(VmErrorReason::UnexpectedType))
    } else if spec_attr_ok(vm, rhs, op.spec_rev(vm.symbols)) {
        OpStep::Call {
            callable: spec_attr_value(vm, rhs, op.spec_rev(vm.symbols)),
            argument: lhs,
            phase: OpPhase::Reverse,
        }
    } else {
        OpStep::Done(OperatorEvalOutcome::Error(VmErrorReason::UnexpectedType))
    }
}

/// The first step of a binary operator evaluation.
pub open spec fn spec_bin_begin(vm: Vm, lhs: RuntimeValue, rhs: RuntimeValue, op: BinaryOp) -> OpStep<
    RuntimeValue,
> {
    if spec_attr_ok(vm, lhs, op.spec_fwd(vm.symbols)) {
        OpStep::Call {
            callable: spec_attr_value(vm, lhs, op.spec_fwd(vm.symbols)),
            argument: rhs,
            phase: OpPhase::Forward,
        }
    } else {
        spec_bin_step2(vm, lhs, rhs, op)
    }
}

/// The step after the host performed a call for the given phase.
pub open spec fn spec_bin_resume(
    vm: Vm,
    lhs: RuntimeValue,
    rhs: RuntimeValue,
    op: BinaryOp,
    phase: OpPhase,
    outcome: CallOutcome,
) -> OpStep<RuntimeValue> {
    match phase {
        OpPhase::Forward => match spec_bin_attempt(vm, outcome) {
            OperatorEvalAttemptOutcome::Value(v) => OpStep::Done(OperatorEvalOutcome::Value(v)),
            OperatorEvalAttemptOutcome::Exception(e) => OpStep::Done(
                OperatorEvalOutcome::Exception(e),
            ),
            OperatorEvalAttemptOutcome::Error(r) => OpStep::Done(OperatorEvalOutcome::Error(r)),
            OperatorEvalAttemptOutcome::NeedTryROperator => spec_bin_step2(vm, lhs, rhs, op),
        },
        OpPhase::Reverse => match spec_bin_attempt(vm, outcome) {
            OperatorEvalAttemptOutcome::Value(v) => OpStep::Done(OperatorEvalOutcome::Value(v)),
            OperatorEvalAttemptOutcome::Exception(e) => OpStep::Done(
                OperatorEvalOutcome::Exception(e),
            ),
            OperatorEvalAttemptOutcome::Error(r) => OpStep::Done(OperatorEvalOutcome::Error(r)),
            OperatorEvalAttemptOutcome::NeedTryROperator => OpStep::Done(
                OperatorEvalOutcome::Error(VmErrorReason::UnexpectedType),
            ),
        },
    }
}

/// State change of the second-phase resolution: one bound function may
/// be allocated while resolving the reverse attribute.
pub open spec fn spec_bin_step2_effect(
    a: Vm,
    b: Vm,
    lhs: RuntimeValue,
    rhs: RuntimeValue,
    op: BinaryOp,
) -> bool {
    if spec_type_key(a, lhs) == spec_type_key(a, rhs) {
        b == a
    } else {
        spec_read_effect(a, b, rhs, op.spec_rev(a.symbols))
    }
}

/// State change of the first step.
pub open spec fn spec_bin_begin_effect(
    a: Vm,
    b: Vm,
    lhs: RuntimeValue,
    rhs: RuntimeValue,
    op: BinaryOp,
) -> bool {
    if spec_attr_ok(a, lhs, op.spec_fwd(a.symbols)) {
        spec_read_effect(a, b, lhs, op.spec_fwd(a.symbols))
    } else {
        spec_bin_step2_effect(a, b, lhs, rhs, op)
    }
}

/// State change of a resume step.
pub open spec fn spec_bin_resume_effect(
    a: Vm,
    b: Vm,
    lhs: RuntimeValue,
    rhs: RuntimeValue,
    op: BinaryOp,
    phase: OpPhase,
    outcome: CallOutcome,
) -> bool {
    if phase == OpPhase::Forward && spec_bin_attempt(a, outcome)
        is NeedTryROperator {
        spec_bin_step2_effect(a, b, lhs, rhs, op)
    } else {
        b == a
    }
}

fn binary_step2(lhs: &RuntimeValue, rhs: &RuntimeValue, op: BinaryOp, vm: &mut Vm) -> (r: OpStep<
    RuntimeValue,
>)
    requires
        old(vm).wf(),
        valid_value(*old(vm), *lhs),
        valid_value(*old(vm), *rhs),
    ensures
        final(vm).wf(),
        r == spec_bin_step2(*old(vm), *lhs, *rhs, op),
        spec_bin_step2_effect(*old(vm), *final(vm), *lhs, *rhs, op),
        valid_step(*final(vm), r),
{
    let lk = vm.type_key_of(lhs);
    let rk = vm.type_key_of(rhs);
    if lk == rk {
        OpStep::Done(OperatorEvalOutcome::Error(VmErrorReason::UnexpectedType))
    } else {
        let rev = op.rev_symbol(vm);
        match rhs.read_attribute(rev, vm) {
            Ok(callable) => OpStep::Call { callable, argument: *lhs, phase: OpPhase::Reverse },
            Err(_) => OpStep::Done(OperatorEvalOutcome::Error(VmErrorReason::UnexpectedType)),
        }
    }
}

impl RuntimeValue {
    /// Start evaluating `lhs op rhs`: resolve the left operand's
    /// forward operator attribute, or fall through to the same-type
    /// check and the reverse side.
    pub fn binary_op_begin(
        lhs: &RuntimeValue,
        rhs: &RuntimeValue,
        op: BinaryOp,
        vm: &mut Vm,
    ) -> (r: OpStep<RuntimeValue>)
        requires
            old(vm).wf(),
            valid_value(*old(vm), *lhs),
            valid_value(*old(vm), *rhs),
        ensures
            final(vm).wf(),
            r == spec_bin_begin(*old(vm), *lhs, *rhs, op),
            spec_bin_begin_effect(*old(vm), *final(vm), *lhs, *rhs, op),
            valid_step(*final(vm), r),
    {
        let fwd = op.fwd_symbol(vm);
        match lhs.read_attribute(fwd, vm) {
            Ok(callable) => OpStep::Call { callable, argument: *rhs, phase: OpPhase::Forward },
            Err(_) => binary_step2(lhs, rhs, op, vm),
        }
    }

    /// Continue after the host performed the call a `Call` step asked
    /// for. A resume of the reverse phase always finishes, so each
    /// invocation attempts at most one forward and at most one reverse
    /// call.
    pub fn binary_op_resume(
        lhs: &RuntimeValue,
        rhs: &RuntimeValue,
        op: BinaryOp,
        phase: OpPhase,
        outcome: &CallOutcome,
        vm: &mut Vm,
    ) -> (r: OpStep<RuntimeValue>)
        requires
            old(vm).wf(),
            valid_value(*old(vm), *lhs),
            valid_value(*old(vm), *rhs),
            valid_outcome(*old(vm), *outcome),
        ensures
            final(vm).wf(),
            r == spec_bin_resume(*old(vm), *lhs, *rhs, op, phase, *outcome),
            spec_bin_resume_effect(*old(vm), *final(vm), *lhs, *rhs, op, phase, *outcome),
            valid_step(*final(vm), r),
            phase == OpPhase::Reverse ==> r is Done,
    {
        match classify_bin(outcome, vm) {
            OperatorEvalAttemptOutcome::Value(v) => OpStep::Done(
                OperatorEvalOutcome::Value(v),
            ),
            OperatorEvalAttemptOutcome::Exception(e) => OpStep::Done(
                OperatorEvalOutcome::Exception(e),
            ),
            OperatorEvalAttemptOutcome::Error(reason) => OpStep::Done(
                OperatorEvalOutcome::Error(reason),
            ),
            OperatorEvalAttemptOutcome::NeedTryROperator => {
                match phase {
                    OpPhase::Forward => binary_step2(lhs, rhs, op, vm),
                    OpPhase::Reverse => OpStep::Done(
                        OperatorEvalOutcome::Error(VmErrorReason::UnexpectedType),
                    ),
                }
            },
        }
    }
}

/// The relational protocol once the forward side is out of the
/// picture.
pub open spec fn spec_rel_step2(
    vm: Vm,
    lhs: RuntimeValue,
    rhs: RuntimeValue,
    op: RelationalOp,
) -> OpStep<bool> {
    if spec_type_key(vm, lhs) == spec_type_key(vm, rhs) {
        OpStep::Done(OperatorEvalOutcome::Error(VmErrorReason::UnexpectedType))
    } else if spec_attr_ok(vm, rhs, op.spec_rev(vm.symbols)) {
        OpStep::Call {
            callable: spec_attr_value(vm, rhs, op.spec_rev(vm.symbols)),
            argument: lhs,
            phase: OpPhase::Reverse,
        }
    } else {
        OpStep::Done(OperatorEvalOutcome::Error(VmErrorReason::UnexpectedType))
    }
}

/// The first step of a relational evaluation; the result, when one
/// arrives, is already coerced to a boolean by the attempt rule.
pub open spec fn spec_rel_begin(
    vm: Vm,
    lhs: RuntimeValue,
    rhs: RuntimeValue,
    op: RelationalOp,
) -> OpStep<bool> {
    if spec_attr_ok(vm, lhs, op.spec_fwd(vm.symbols)) {
        OpStep::Call {
            callable: spec_attr_value(vm, lhs, op.spec_fwd(vm.symbols)),
            argument: rhs,
            phase: OpPhase::Forward,
        }
    } else {
        spec_rel_step2(vm, lhs, rhs, op)
    }
}

/// The relational step after the host performed a call.
pub open spec fn spec_rel_resume(
    vm: Vm,
    lhs: RuntimeValue,
    rhs: RuntimeValue,
    op: RelationalOp,
    phase: OpPhase,
    outcome: CallOutcome,
) -> OpStep<bool> {
    match phase {
        OpPhase::Forward => match spec_rel_attempt(vm, outcome) {
            OperatorEvalAttemptOutcome::Value(b) => OpStep::Done(OperatorEvalOutcome::Value(b)),
            OperatorEvalAttemptOutcome::Exception(e) => OpStep::Done(
                OperatorEvalOutcome::Exception(e),
            ),
            OperatorEvalAttemptOutcome::Error(r) => OpStep::Done(OperatorEvalOutcome::Error(r)),
            OperatorEvalAttemptOutcome::NeedTryROperator => spec_rel_step2(vm, lhs, rhs, op),
        },
        OpPhase::Reverse => match spec_rel_attempt(vm, outcome) {
            OperatorEvalAttemptOutcome::Value(b) => OpStep::Done(OperatorEvalOutcome::Value(b)),
            OperatorEvalAttemptOutcome::Exception(e) => OpStep::Done(
                OperatorEvalOutcome::Exception(e),
            ),
            OperatorEvalAttemptOutcome::Error(r) => OpStep::Done(OperatorEvalOutcome::Error(r)),
            OperatorEvalAttemptOutcome::NeedTryROperator => OpStep::Done(
                OperatorEvalOutcome::Error(VmErrorReason::UnexpectedType),
            ),
        },
    }
}

pub open spec fn spec_rel_step2_effect(
    a: Vm,
    b: Vm,
    lhs: RuntimeValue,
    rhs: RuntimeValue,
    op: RelationalOp,
) -> bool {
    if spec_type_key(a, lhs) == spec_type_key(a, rhs) {
        b == a
    } else {
        spec_read_effect(a, b, rhs, op.spec_rev(a.symbols))
    }
}

pub open spec fn spec_rel_begin_effect(
    a: Vm,
    b: Vm,
    lhs: RuntimeValue,
    rhs: RuntimeValue,
    op: RelationalOp,
) -> bool {
    if spec_attr_ok(a, lhs, op.spec_fwd(a.symbols)) {
        spec_read_effect(a, b, lhs, op.spec_fwd(a.symbols))
    } else {
        spec_rel_step2_effect(a, b, lhs, rhs, op)
    }
}

pub open spec fn spec_rel_resume_effect(
    a: Vm,
    b: Vm,
    lhs: RuntimeValue,
    rhs: RuntimeValue,
    op: RelationalOp,
    phase: OpPhase,
    outcome: CallOutcome,
) -> bool {
    if phase == OpPhase::Forward && spec_rel_attempt(a, outcome)
        is NeedTryROperator {
        spec_rel_step2_effect(a, b, lhs, rhs, op)
    } else {
        b == a
    }
}

fn relational_step2(lhs: &RuntimeValue, rhs: &RuntimeValue, op: RelationalOp, vm: &mut Vm) -> (r:
    OpStep<bool>)
    requires
        old(vm).wf(),
        valid_value(*old(vm), *lhs),
        valid_value(*old(vm), *rhs),
    ensures
        final(vm).wf(),
        r == spec_rel_step2(*old(vm), *lhs, *rhs, op),
        spec_rel_step2_effect(*old(vm), *final(vm), *lhs, *rhs, op),
        valid_step(*final(vm), r),
{
    let lk = vm.type_key_of(lhs);
    let rk = vm.type_key_of(rhs);
    if lk == rk {
        OpStep::Done(OperatorEvalOutcome::Error(VmErrorReason::UnexpectedType))
    } else {
        let rev = op.rev_symbol(vm);
        match rhs.read_attribute(rev, vm) {
            Ok(callable) => OpStep::Call { callable, argument: *lhs, phase: OpPhase::Reverse },
            Err(_) => OpStep::Done(OperatorEvalOutcome::Error(VmErrorReason::UnexpectedType)),
        }
    }
}

impl RuntimeValue {
    /// Start evaluating `lhs op rhs` for a relational operator; the
    /// reverse side resolves the operator's algebraic mirror.
    pub fn relational_op_begin(
        lhs: &RuntimeValue,
        rhs: &RuntimeValue,
        op: RelationalOp,
        vm: &mut Vm,
    ) -> (r: OpStep<bool>)
        requires
            old(vm).wf(),
            valid_value(*old(vm), *lhs),
            valid_value(*old(vm), *rhs),
        ensures
            final(vm).wf(),
            r == spec_rel_begin(*old(vm), *lhs, *rhs, op),
            spec_rel_begin_effect(*old(vm), *final(vm), *lhs, *rhs, op),
            valid_step(*final(vm), r),
    {
        let fwd = op.fwd_symbol(vm);
        match lhs.read_attribute(fwd, vm) {
            Ok(callable) => OpStep::Call { callable, argument: *rhs, phase: OpPhase::Forward },
            Err(_) => relational_step2(lhs, rhs, op, vm),
        }
    }

    /// Continue a relational evaluation after the host performed the
    /// requested call; a non-boolean result sends evaluation to the
    /// other side.
    pub fn relational_op_resume(
        lhs: &RuntimeValue,
        rhs: &RuntimeValue,
        op: RelationalOp,
        phase: OpPhase,
        outcome: &CallOutcome,
        vm: &mut Vm,
    ) -> (r: OpStep<bool>)
        requires
            old(vm).wf(),
            valid_value(*old(vm), *lhs),
            valid_value(*old(vm), *rhs),
            valid_outcome(*old(vm), *outcome),
        ensures
            final(vm).wf(),
            r == spec_rel_resume(*old(vm), *lhs, *rhs, op, phase, *outcome),
            spec_rel_resume_effect(*old(vm), *final(vm), *lhs, *rhs, op, phase, *outcome),
            valid_step(*final(vm), r),
            phase == OpPhase::Reverse ==> r is Done,
    {
        match classify_rel(outcome, vm) {
            OperatorEvalAttemptOutcome::Value(b) => OpStep::Done(OperatorEvalOutcome::Value(b)),
            OperatorEvalAttemptOutcome::Exception(e) => OpStep::Done(
                OperatorEvalOutcome::Exception(e),
            ),
            OperatorEvalAttemptOutcome::Error(reason) => OpStep::Done(
                OperatorEvalOutcome::Error(reason),
            ),
            OperatorEvalAttemptOutcome::NeedTryROperator => {
                match phase {
                    OpPhase::Forward => relational_step2(lhs, rhs, op, vm),
                    OpPhase::Reverse => OpStep::Done(
                        OperatorEvalOutcome::Error(VmErrorReason::UnexpectedType),
                    ),
                }
            },
        }
    }
}

/// One step of a unary evaluation: forward-only, so at most one call.
#[derive(Debug)]
pub enum UnaryStep {
    Call { callable: RuntimeValue },
    Done(OperatorEvalOutcome<RuntimeValue>),
}

pub open spec fn valid_unary_step(vm: Vm, s: UnaryStep) -> bool {
    match s {
        UnaryStep::Call { callable } => valid_value(vm, callable),
        UnaryStep::Done(o) => match o {
            OperatorEvalOutcome::Value(v) => valid_value(vm, v),
            OperatorEvalOutcome::Exception(e) => valid_value(vm, e),
            OperatorEvalOutcome::Error(_) => true,
        },
    }
}

/// The first step of a unary negation: absence of the attribute is
/// already a terminal type error.
pub open spec fn spec_unary_begin(vm: Vm, v: RuntimeValue) -> UnaryStep {
    if spec_attr_ok(vm, v, vm.symbols.op_neg) {
        UnaryStep::Call { callable: spec_attr_value(vm, v, vm.symbols.op_neg) }
    } else {
        UnaryStep::Done(OperatorEvalOutcome::Error(VmErrorReason::UnexpectedType))
    }
}

/// The terminal outcome of a unary evaluation: there is no other side,
/// so the sentinel becomes a type error.
pub open spec fn spec_unary_resume(vm: Vm, outcome: CallOutcome) -> OperatorEvalOutcome<
    RuntimeValue,
> {
    match spec_bin_attempt(vm, outcome) {
        OperatorEvalAttemptOutcome::Value(v) => OperatorEvalOutcome::Value(v),
        OperatorEvalAttemptOutcome::Exception(e) => OperatorEvalOutcome::Exception(e),
        OperatorEvalAttemptOutcome::Error(r) => OperatorEvalOutcome::Error(r),
        OperatorEvalAttemptOutcome::NeedTryROperator => OperatorEvalOutcome::Error(
            VmErrorReason::UnexpectedType,
        ),
    }
}

impl RuntimeValue {
    /// Start evaluating unary negation of this value.
    pub fn unary_op_begin(&self, vm: &mut Vm) -> (r: UnaryStep)
        requires
            old(vm).wf(),
            valid_value(*old(vm), *self),
        ensures
            final(vm).wf(),
            r == spec_unary_begin(*old(vm), *self),
            spec_read_effect(*old(vm), *final(vm), *self, old(vm).symbols.op_neg),
            valid_unary_step(*final(vm), r),
    {
        let neg = vm.symbols.op_neg;
        match self.read_attribute(neg, vm) {
            Ok(callable) => UnaryStep::Call { callable },
            Err(_) => UnaryStep::Done(OperatorEvalOutcome::Error(VmErrorReason::UnexpectedType)),
        }
    }

    /// Finish a unary evaluation after the host performed the call.
    pub fn unary_op_resume(outcome: &CallOutcome, vm: &Vm) -> (r: OperatorEvalOutcome<
        RuntimeValue,
    >)
        requires
            vm.wf(),
            valid_outcome(*vm, *outcome),
        ensures
            r == spec_unary_resume(*vm, *outcome),
    {
        match classify_bin(outcome, vm) {
            OperatorEvalAttemptOutcome::Value(v) => OperatorEvalOutcome::Value(v),
            OperatorEvalAttemptOutcome::Exception(e) => OperatorEvalOutcome::Exception(e),
            OperatorEvalAttemptOutcome::Error(reason) => OperatorEvalOutcome::Error(reason),
            OperatorEvalAttemptOutcome::NeedTryROperator => OperatorEvalOutcome::Error(
                VmErrorReason::UnexpectedType,
            ),
        }
    }
}

/// A call the host must perform: push `stack_pushes` onto the shared
/// call stack in order, then invoke `callable` with `argc` arguments.
#[derive(Debug)]
pub struct CallPlan {
    pub callable: RuntimeValue,
    pub stack_pushes: Vec<RuntimeValue>,
    pub argc: usize,
    pub discard_result: bool,
}

pub open spec fn valid_plan(vm: Vm, p: CallPlan) -> bool {
    &&& valid_value(vm, p.callable)
    &&& forall|i: int|
        0 <= i < p.stack_pushes@.len() ==> valid_value(vm, #[trigger] p.stack_pushes@[i])
}

fn reversed_values(v: &Vec<RuntimeValue>) -> (r: Vec<RuntimeValue>)
    ensures
        r@ == v@.reverse(),
{
    let n = v.len();
    let mut out: Vec<RuntimeValue> = Vec::new();
    let mut i: usize = 0;
    while i < n
        invariant
            n == v@.len(),
            i <= n,
            out@.len() == i,
            forall|j: int| 0 <= j < i ==> out@[j] == v@[n - 1 - j],
        decreases n - i,
    {
        out.push(v[n - 1 - i]);
        i += 1;
    }
    proof {
        assert(out@ =~= v@.reverse());
    }
    out
}

impl RuntimeValue {
    /// Plan an indexed read: indexing is modeled as an operator, so a
    /// value without the read-index attribute is a type error, never
    /// an `AttributeError`. The host pushes the indices as planned
    /// (right-to-left, so the callee pops them left-to-right) and
    /// invokes the callable.
    pub fn read_index(&self, indices: &Vec<RuntimeValue>, vm: &mut Vm) -> (r: Result<
        CallPlan,
        VmErrorReason,
    >)
        requires
            old(vm).wf(),
            valid_value(*old(vm), *self),
            forall|i: int|
                0 <= i < indices@.len() ==> valid_value(*old(vm), #[trigger] indices@[i]),
        ensures
            final(vm).wf(),
            spec_read_effect(*old(vm), *final(vm), *self, old(vm).symbols.op_read_index),
            match spec_read_attribute(*old(vm), *self, old(vm).symbols.op_read_index) {
                Ok(_) => match r {
                    Ok(plan) => {
                        &&& plan.callable == spec_attr_value(
                            *old(vm),
                            *self,
                            old(vm).symbols.op_read_index,
                        )
                        &&& plan.stack_pushes@ == indices@.reverse()
                        &&& plan.argc == indices@.len()
                        &&& !plan.discard_result
                        &&& valid_plan(*final(vm), plan)
                    },
                    Err(_) => false,
                },
                Err(_) => r is Err && (r matches Err(e) ==> e == VmErrorReason::UnexpectedType),
            },
    {
        let sym = vm.symbols.op_read_index;
        match self.read_attribute(sym, vm) {
            Ok(callable) => {
                let pushes = reversed_values(indices);
                proof {
                    assert forall|i: int| 0 <= i < pushes@.len() implies valid_value(
                        *vm,
                        #[trigger] pushes@[i],
                    ) by {
                        assert(pushes@[i] == indices@[indices@.len() - 1 - i]);
                        assert(valid_value(*old(vm), indices@[indices@.len() - 1 - i]));
                        crate::vm::lemma_valid_value_grow(*old(vm), *vm);
                    }
                }
                Ok(
                    CallPlan {
                        callable,
                        stack_pushes: pushes,
                        argc: indices.len(),
                        discard_result: false,
                    },
                )
            },
            Err(_) => Err(VmErrorReason::UnexpectedType),
        }
    }

    /// Plan an indexed write: the host pushes the stored value first,
    /// then the indices right-to-left, so the callee receives the
    /// stored value and all index arguments in original left-to-right
    /// order; the call's result is discarded.
    pub fn write_index(&self, indices: &Vec<RuntimeValue>, val: &RuntimeValue, vm: &mut Vm) -> (r:
        Result<CallPlan, VmErrorReason>)
        requires
            old(vm).wf(),
            valid_value(*old(vm), *self),
            valid_value(*old(vm), *val),
            indices@.len() < usize::MAX,
            forall|i: int|
                0 <= i < indices@.len() ==> valid_value(*old(vm), #[trigger] indices@[i]),
        ensures
            final(vm).wf(),
            spec_read_effect(*old(vm), *final(vm), *self, old(vm).symbols.op_write_index),
            match spec_read_attribute(*old(vm), *self, old(vm).symbols.op_write_index) {
                Ok(_) => match r {
                    Ok(plan) => {
                        &&& plan.callable == spec_attr_value(
                            *old(vm),
                            *self,
                            old(vm).symbols.op_write_index,
                        )
                        &&& plan.stack_pushes@ == seq![*val] + indices@.reverse()
                        &&& plan.argc == indices@.len() + 1
                        &&& plan.discard_result
                        &&& valid_plan(*final(vm), plan)
                    },
                    Err(_) => false,
                },
                Err(_) => r is Err && (r matches Err(e) ==> e == VmErrorReason::UnexpectedType),
            },
    {
        let sym = vm.symbols.op_write_index;
        match self.read_attribute(sym, vm) {
            Ok(callable) => {
                let mut pushes: Vec<RuntimeValue> = Vec::new();
                pushes.push(*val);
                let mut rev = reversed_values(indices);
                pushes.append(&mut rev);
                proof {
                    assert(pushes@ =~= seq![*val] + indices@.reverse());
                    crate::vm::lemma_valid_value_grow(*old(vm), *vm);
                    assert forall|i: int| 0 <= i < pushes@.len() implies valid_value(
                        *vm,
                        #[trigger] pushes@[i],
                    ) by {
                        if i == 0 {
                            assert(valid_value(*old(vm), *val));
                        } else {
                            assert(pushes@[i] == indices@[indices@.len() - i]);
                            assert(valid_value(*old(vm), indices@[indices@.len() - i]));
                        }
                    }
                }
                Ok(
                    CallPlan {
                        callable,
                        stack_pushes: pushes,
                        argc: indices.len() + 1,
                        discard_result: true,
                    },
                )
            },
            Err(_) => Err(VmErrorReason::UnexpectedType),
        }
    }
}

/// Which callable evaluating a value invokes: functions and bound
/// functions evaluate themselves, everything else through its call
/// attribute; a value with neither is a type error.
pub open spec fn spec_eval_target(vm: Vm, v: RuntimeValue) -> Result<
    RuntimeValue,
    VmErrorReason,
> {
    if v is Function || v is BoundFunction {
        Ok(v)
    } else {
        match spec_read_attribute(vm, v, vm.symbols.op_call) {
            Ok(_) => Ok(spec_attr_value(vm, v, vm.symbols.op_call)),
            Err(_) => Err(VmErrorReason::UnexpectedType),
        }
    }
}

pub open spec fn spec_eval_effect(a: Vm, b: Vm, v: RuntimeValue) -> bool {
    if v is Function || v is BoundFunction {
        b == a
    } else {
        spec_read_effect(a, b, v, a.symbols.op_call)
    }
}

impl RuntimeValue {
    /// Resolve the callable that evaluating this value invokes; the
    /// execution engine then runs it against the prepared arguments.
    pub fn eval(&self, vm: &mut Vm) -> (r: Result<RuntimeValue, VmErrorReason>)
        requires
            old(vm).wf(),
            valid_value(*old(vm), *self),
        ensures
            final(vm).wf(),
            r == spec_eval_target(*old(vm), *self),
            spec_eval_effect(*old(vm), *final(vm), *self),
            match r {
                Ok(c) => valid_value(*final(vm), c),
                Err(_) => true,
            },
    {
        match self {
            RuntimeValue::Function(_) => Ok(*self),
            RuntimeValue::BoundFunction(_) => Ok(*self),
            _ => {
                let sym = vm.symbols.op_call;
                match self.read_attribute(sym, vm) {
                    Ok(c) => Ok(c),
                    Err(_) => Err(VmErrorReason::UnexpectedType),
                }
            },
        }
    }

    /// Resolve the pretty-printing callable of this value, if it has
    /// one; the host falls back to its own rendering otherwise.
    pub fn prettyprint(&self, vm: &mut Vm) -> (r: Option<RuntimeValue>)
        requires
            old(vm).wf(),
            valid_value(*old(vm), *self),
        ensures
            final(vm).wf(),
            spec_read_effect(*old(vm), *final(vm), *self, old(vm).symbols.op_prettyprint),
            r == if spec_attr_ok(*old(vm), *self, old(vm).symbols.op_prettyprint) {
                Some(spec_attr_value(*old(vm), *self, old(vm).symbols.op_prettyprint))
            } else {
                None::<RuntimeValue>
            },
            match r {
                Some(c) => valid_value(*final(vm), c),
                None => true,
            },
    {
        let sym = vm.symbols.op_prettyprint;
        match self.read_attribute(sym, vm) {
            Ok(c) => Some(c),
            Err(_) => None,
        }
    }

    /// The text a pretty-printing call produced, if its result was a
    /// string; any other result makes the host fall back.
    pub fn prettyprint_result(val: &RuntimeValue, vm: &Vm) -> (r: Option<String>)
        requires
            vm.wf(),
            valid_value(*vm, *val),
        ensures
            match r {
                Some(s) => *val is Str && s@ == vm.texts@[val->Str_0 as int]@,
                None => !(*val is Str),
            },
    {
        match val {
            RuntimeValue::Str(t, _) => Some(vm.texts[*t].clone()),
            _ => None,
        }
    }
}

} // verus!
