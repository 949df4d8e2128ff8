use haxby_dispatch::operators::{
    BinaryOp, CallOutcome, OpPhase, OpStep, OperatorEvalOutcome, RelationalOp, UnaryStep,
};
use haxby_dispatch::value::{RuntimeValue, VmErrorReason};
use haxby_dispatch::vm::{BuiltinTypeId, FunctionBody, TypeKind, Vm};

fn make_function(vm: &mut Vm, name: &str, type_level: bool) -> RuntimeValue {
    let code = vm.new_code_object(name.to_string(), 1, 0, 4);
    let cid = match code {
        RuntimeValue::CodeObject(i) => i,
        _ => unreachable!(),
    };
    vm.new_function(name.to_string(), type_level, 1, FunctionBody::Code(cid))
}

fn sentinel(vm: &mut Vm) -> RuntimeValue {
    let unimp = vm.get_builtin_type_by_id(BuiltinTypeId::Unimplemented);
    vm.new_object(unimp)
}

#[test]
fn forward_sentinel_then_reverse_succeeds() {
    let mut vm = Vm::new();
    // type A's forward add-operator always raises the sentinel; type B
    // has a working reverse add-operator
    let a_type = vm.new_type("A".to_string(), TypeKind::Struct);
    let b_type = vm.new_type("B".to_string(), TypeKind::Struct);
    let a_add = make_function(&mut vm, "__add", false);
    let b_radd = make_function(&mut vm, "__radd", false);
    vm.register_member(a_type, vm.symbols.op_add, a_add);
    vm.register_member(b_type, vm.symbols.op_radd, b_radd);
    let a = vm.new_object(a_type);
    let b = vm.new_object(b_type);

    // the forward side is consulted first
    let step = RuntimeValue::binary_op_begin(&a, &b, BinaryOp::Add, &mut vm);
    let phase = match step {
        OpStep::Call { callable, argument, phase } => {
            assert!(matches!(callable, RuntimeValue::BoundFunction(_)));
            assert_eq!(argument, b);
            phase
        },
        OpStep::Done(_) => panic!("A's forward operator should be consulted"),
    };
    assert_eq!(phase, OpPhase::Forward);

    // the forward call observes the sentinel: different runtime types,
    // so evaluation skips straight to B's reverse operator
    let s = sentinel(&mut vm);
    let step =
        RuntimeValue::binary_op_resume(&a, &b, BinaryOp::Add, phase, &CallOutcome::Exception(s), &mut vm);
    let phase = match step {
        OpStep::Call { callable, argument, phase } => {
            assert!(matches!(callable, RuntimeValue::BoundFunction(_)));
            assert_eq!(argument, a);
            phase
        },
        OpStep::Done(_) => panic!("B's reverse operator should be consulted"),
    };
    assert_eq!(phase, OpPhase::Reverse);

    // B's reverse operator answers, and that answer is the result
    let answer = vm.new_integer(42);
    let step = RuntimeValue::binary_op_resume(
        &a,
        &b,
        BinaryOp::Add,
        phase,
        &CallOutcome::Value(answer),
        &mut vm,
    );
    match step {
        OpStep::Done(OperatorEvalOutcome::Value(v)) => assert_eq!(v, answer),
        _ => panic!("the reverse result should be terminal"),
    }
}

#[test]
fn same_type_operands_never_retry_in_reverse() {
    let mut vm = Vm::new();
    let a_type = vm.new_type("A".to_string(), TypeKind::Struct);
    let a_add = make_function(&mut vm, "__add", false);
    // a reverse operator exists on the same type, but must not be used
    let a_radd = make_function(&mut vm, "__radd", false);
    vm.register_member(a_type, vm.symbols.op_add, a_add);
    vm.register_member(a_type, vm.symbols.op_radd, a_radd);
    let a1 = vm.new_object(a_type);
    let a2 = vm.new_object(a_type);

    let step = RuntimeValue::binary_op_begin(&a1, &a2, BinaryOp::Add, &mut vm);
    let phase = match step {
        OpStep::Call { phase, .. } => phase,
        OpStep::Done(_) => panic!("the forward operator should be consulted"),
    };
    let s = sentinel(&mut vm);
    let step =
        RuntimeValue::binary_op_resume(&a1, &a2, BinaryOp::Add, phase, &CallOutcome::Exception(s), &mut vm);
    assert!(matches!(
        step,
        OpStep::Done(OperatorEvalOutcome::Error(VmErrorReason::UnexpectedType))
    ));
}

#[test]
fn non_sentinel_exception_propagates_without_reverse() {
    let mut vm = Vm::new();
    let a_type = vm.new_type("A".to_string(), TypeKind::Struct);
    let b_type = vm.new_type("B".to_string(), TypeKind::Struct);
    let a_add = make_function(&mut vm, "__add", false);
    let b_radd = make_function(&mut vm, "__radd", false);
    vm.register_member(a_type, vm.symbols.op_add, a_add);
    vm.register_member(b_type, vm.symbols.op_radd, b_radd);
    let a = vm.new_object(a_type);
    let b = vm.new_object(b_type);

    let step = RuntimeValue::binary_op_begin(&a, &b, BinaryOp::Add, &mut vm);
    let phase = match step {
        OpStep::Call { phase, .. } => phase,
        OpStep::Done(_) => panic!("the forward operator should be consulted"),
    };

    // a user type merely *named* like the sentinel must not trigger
    // the fallback: detection is identity-based
    let fake_type = vm.new_type("Unimplemented".to_string(), TypeKind::Struct);
    let fake = vm.new_object(fake_type);
    assert!(!fake.is_builtin_unimplemented(&vm));
    let step = RuntimeValue::binary_op_resume(
        &a,
        &b,
        BinaryOp::Add,
        phase,
        &CallOutcome::Exception(fake),
        &mut vm,
    );
    match step {
        OpStep::Done(OperatorEvalOutcome::Exception(e)) => assert_eq!(e, fake),
        _ => panic!("an ordinary exception must propagate"),
    }

    // and a fatal error passes through untouched
    let step = RuntimeValue::binary_op_resume(
        &a,
        &b,
        BinaryOp::Add,
        phase,
        &CallOutcome::Error(VmErrorReason::UnexpectedVmState),
        &mut vm,
    );
    assert!(matches!(
        step,
        OpStep::Done(OperatorEvalOutcome::Error(VmErrorReason::UnexpectedVmState))
    ));
}

#[test]
fn missing_both_sides_is_a_type_error() {
    let mut vm = Vm::new();
    let i = vm.new_integer(1);
    let s = vm.new_string("x".to_string());
    let step = RuntimeValue::binary_op_begin(&i, &s, BinaryOp::Mul, &mut vm);
    assert!(matches!(
        step,
        OpStep::Done(OperatorEvalOutcome::Error(VmErrorReason::UnexpectedType))
    ));
}

#[test]
fn reverse_sentinel_is_terminal_type_error() {
    let mut vm = Vm::new();
    let b_type = vm.new_type("B".to_string(), TypeKind::Struct);
    let b_rsub = make_function(&mut vm, "__rsub", false);
    vm.register_member(b_type, vm.symbols.op_rsub, b_rsub);
    let a = vm.new_integer(10);
    let b = vm.new_object(b_type);

    // no forward operator on integers: evaluation starts on the
    // reverse side directly
    let step = RuntimeValue::binary_op_begin(&a, &b, BinaryOp::Sub, &mut vm);
    let phase = match step {
        OpStep::Call { phase, .. } => phase,
        OpStep::Done(_) => panic!("B's reverse operator should be consulted"),
    };
    assert_eq!(phase, OpPhase::Reverse);

    let s = sentinel(&mut vm);
    let step =
        RuntimeValue::binary_op_resume(&a, &b, BinaryOp::Sub, phase, &CallOutcome::Exception(s), &mut vm);
    assert!(matches!(
        step,
        OpStep::Done(OperatorEvalOutcome::Error(VmErrorReason::UnexpectedType))
    ));
}

#[test]
fn relational_reverse_is_the_algebraic_mirror() {
    let mut vm = Vm::new();
    let b_type = vm.new_type("B".to_string(), TypeKind::Struct);
    // the mirror of `lt` is `gt` on the other operand
    let b_gt = make_function(&mut vm, "__gt", false);
    vm.register_member(b_type, vm.symbols.op_gt, b_gt);
    let a = vm.new_integer(1);
    let b = vm.new_object(b_type);

    let step = RuntimeValue::relational_op_begin(&a, &b, RelationalOp::Lt, &mut vm);
    let phase = match step {
        OpStep::Call { callable, argument, phase } => {
            assert!(matches!(callable, RuntimeValue::BoundFunction(_)));
            assert_eq!(argument, a);
            phase
        },
        OpStep::Done(_) => panic!("B's mirrored operator should be consulted"),
    };
    assert_eq!(phase, OpPhase::Reverse);

    let yes = vm.new_boolean(true);
    let step = RuntimeValue::relational_op_resume(
        &a,
        &b,
        RelationalOp::Lt,
        phase,
        &CallOutcome::Value(yes),
        &mut vm,
    );
    match step {
        OpStep::Done(OperatorEvalOutcome::Value(v)) => assert!(v),
        _ => panic!("the mirrored result should be terminal"),
    }
}

#[test]
fn relational_non_boolean_result_tries_other_side() {
    let mut vm = Vm::new();
    let a_type = vm.new_type("A".to_string(), TypeKind::Struct);
    let b_type = vm.new_type("B".to_string(), TypeKind::Struct);
    let a_lt = make_function(&mut vm, "__lt", false);
    let b_gt = make_function(&mut vm, "__gt", false);
    vm.register_member(a_type, vm.symbols.op_lt, a_lt);
    vm.register_member(b_type, vm.symbols.op_gt, b_gt);
    let a = vm.new_object(a_type);
    let b = vm.new_object(b_type);

    let step = RuntimeValue::relational_op_begin(&a, &b, RelationalOp::Lt, &mut vm);
    let phase = match step {
        OpStep::Call { phase, .. } => phase,
        OpStep::Done(_) => panic!("A's operator should be consulted"),
    };
    assert_eq!(phase, OpPhase::Forward);

    // a non-boolean answer is not accepted; the other side is asked
    let odd = vm.new_integer(7);
    let step = RuntimeValue::relational_op_resume(
        &a,
        &b,
        RelationalOp::Lt,
        phase,
        &CallOutcome::Value(odd),
        &mut vm,
    );
    assert!(matches!(
        step,
        OpStep::Call { phase: OpPhase::Reverse, .. }
    ));
}

#[test]
fn unary_negation_is_forward_only() {
    let mut vm = Vm::new();
    let i = vm.new_integer(5);
    // integers have no negation operator registered here
    let step = i.unary_op_begin(&mut vm);
    assert!(matches!(
        step,
        UnaryStep::Done(OperatorEvalOutcome::Error(VmErrorReason::UnexpectedType))
    ));

    let t = vm.new_type("N".to_string(), TypeKind::Struct);
    let neg = make_function(&mut vm, "__neg", false);
    vm.register_member(t, vm.symbols.op_neg, neg);
    let n = vm.new_object(t);
    let step = n.unary_op_begin(&mut vm);
    assert!(matches!(step, UnaryStep::Call { .. }));

    let answer = vm.new_integer(-5);
    let out = RuntimeValue::unary_op_resume(&CallOutcome::Value(answer), &vm);
    match out {
        OperatorEvalOutcome::Value(v) => assert_eq!(v, answer),
        _ => panic!("the negation result should come back"),
    }

    // the sentinel has no other side to try: terminal type error
    let s = sentinel(&mut vm);
    let out = RuntimeValue::unary_op_resume(&CallOutcome::Exception(s), &vm);
    assert!(matches!(
        out,
        OperatorEvalOutcome::Error(VmErrorReason::UnexpectedType)
    ));
}

#[test]
fn indexing_routes_through_reserved_attributes() {
    let mut vm = Vm::new();
    let t = vm.new_type("Grid".to_string(), TypeKind::Struct);
    let reader = make_function(&mut vm, "__read_index", false);
    let writer = make_function(&mut vm, "__write_index", false);
    vm.register_member(t, vm.symbols.op_read_index, reader);
    vm.register_member(t, vm.symbols.op_write_index, writer);
    let g = vm.new_object(t);
    let i0 = vm.new_integer(0);
    let i1 = vm.new_integer(1);
    let indices = vec![i0, i1];

    let plan = g.read_index(&indices, &mut vm).unwrap();
    assert!(matches!(plan.callable, RuntimeValue::BoundFunction(_)));
    assert_eq!(plan.stack_pushes, vec![i1, i0]);
    assert_eq!(plan.argc, 2);
    assert!(!plan.discard_result);

    let val = vm.new_integer(9);
    let plan = g.write_index(&indices, &val, &mut vm).unwrap();
    assert_eq!(plan.stack_pushes, vec![val, i1, i0]);
    assert_eq!(plan.argc, 3);
    assert!(plan.discard_result);

    // absence of the attribute is a type error, not an AttributeError
    let bare = vm.new_integer(3);
    assert_eq!(
        bare.read_index(&indices, &mut vm).map(|_| ()),
        Err(VmErrorReason::UnexpectedType)
    );
    assert_eq!(
        bare.write_index(&indices, &val, &mut vm).map(|_| ()),
        Err(VmErrorReason::UnexpectedType)
    );
}

#[test]
fn eval_resolves_callables_and_call_attributes() {
    let mut vm = Vm::new();
    let f = make_function(&mut vm, "f", false);
    assert_eq!(f.eval(&mut vm), Ok(f));

    let fid = match f {
        RuntimeValue::Function(i) => i,
        _ => unreachable!(),
    };
    let recv = vm.new_integer(0);
    let bf = recv.bind(fid, &mut vm);
    assert_eq!(bf.eval(&mut vm), Ok(bf));

    let t = vm.new_type("Callable".to_string(), TypeKind::Struct);
    let call = make_function(&mut vm, "__call", false);
    vm.register_member(t, vm.symbols.op_call, call);
    let o = vm.new_object(t);
    let target = o.eval(&mut vm).unwrap();
    assert!(matches!(target, RuntimeValue::BoundFunction(_)));

    let plain = vm.new_integer(1);
    assert_eq!(plain.eval(&mut vm), Err(VmErrorReason::UnexpectedType));
}

#[test]
fn prettyprint_plan_and_result() {
    let mut vm = Vm::new();
    let t = vm.new_type("P".to_string(), TypeKind::Struct);
    let pp = make_function(&mut vm, "__prettyprint", false);
    vm.register_member(t, vm.symbols.op_prettyprint, pp);
    let o = vm.new_object(t);
    assert!(o.prettyprint(&mut vm).is_some());

    let plain = vm.new_integer(1);
    assert!(plain.prettyprint(&mut vm).is_none());

    let text = vm.new_string("shown".to_string());
    assert_eq!(
        RuntimeValue::prettyprint_result(&text, &vm),
        Some("shown".to_string())
    );
    assert_eq!(RuntimeValue::prettyprint_result(&plain, &vm), None);
}
