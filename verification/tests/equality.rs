use haxby_dispatch::equality::{EqPhase, EqStep};
use haxby_dispatch::operators::CallOutcome;
use haxby_dispatch::value::RuntimeValue;
use haxby_dispatch::vm::{FunctionBody, TypeKind, Vm};

fn make_function(vm: &mut Vm, name: &str, type_level: bool) -> RuntimeValue {
    let code = vm.new_code_object(name.to_string(), 1, 0, 4);
    let cid = match code {
        RuntimeValue::CodeObject(i) => i,
        _ => unreachable!(),
    };
    vm.new_function(name.to_string(), type_level, 1, FunctionBody::Code(cid))
}

fn done(step: EqStep) -> bool {
    match step {
        EqStep::Done(b) => b,
        EqStep::Call { .. } => panic!("expected the machine to finish"),
    }
}

/// Structural comparison through the machine terminal, for pairs whose
/// payloads carry no overrides.
fn structural(l: &RuntimeValue, r: &RuntimeValue, vm: &mut Vm) -> bool {
    done(l.builtin_equals(r, vm))
}

#[test]
fn integer_equals_float_numerically() {
    let mut vm = Vm::new();
    let i = vm.new_integer(3);
    let f = vm.new_float(3.0f64.to_bits());
    assert!(done(RuntimeValue::equals(&i, &f, &mut vm)));
    assert!(done(RuntimeValue::equals(&f, &i, &mut vm)));

    let g = vm.new_float(3.5f64.to_bits());
    assert!(!done(RuntimeValue::equals(&i, &g, &mut vm)));
}

#[test]
fn float_edge_cases() {
    let mut vm = Vm::new();
    let nan1 = vm.new_float(f64::NAN.to_bits());
    let nan2 = vm.new_float(f64::NAN.to_bits());
    assert!(!structural(&nan1, &nan2, &mut vm));
    assert!(!structural(&nan1, &nan1, &mut vm));

    let pz = vm.new_float(0.0f64.to_bits());
    let nz = vm.new_float((-0.0f64).to_bits());
    assert!(structural(&pz, &nz, &mut vm));
    let zero = vm.new_integer(0);
    assert!(structural(&pz, &zero, &mut vm));
    assert!(structural(&nz, &zero, &mut vm));

    // 2^60 is exactly representable; 2^60 + 1 is not, and the rounded
    // float must not be considered equal to the exact integer
    let big = 1i64 << 60;
    let bigf = vm.new_float(((big as f64)).to_bits());
    let bigi = vm.new_integer(big);
    let bigi1 = vm.new_integer(big + 1);
    assert!(structural(&bigf, &bigi, &mut vm));
    assert!(!structural(&bigf, &bigi1, &mut vm));

    let minf = vm.new_float((i64::MIN as f64).to_bits());
    let mini = vm.new_integer(i64::MIN);
    assert!(structural(&minf, &mini, &mut vm));

    let inf = vm.new_float(f64::INFINITY.to_bits());
    let anyi = vm.new_integer(7);
    assert!(!structural(&inf, &anyi, &mut vm));
}

#[test]
fn strings_compare_by_content() {
    let mut vm = Vm::new();
    let a = vm.new_string("abc".to_string());
    let b = vm.new_string("abc".to_string());
    let c = vm.new_string("abd".to_string());
    assert!(structural(&a, &b, &mut vm));
    assert!(!structural(&a, &c, &mut vm));
    assert!(done(RuntimeValue::equals(&a, &b, &mut vm)));
}

#[test]
fn shared_kinds_compare_by_identity() {
    let mut vm = Vm::new();
    let t = vm.new_type("T".to_string(), TypeKind::Struct);
    let o1 = vm.new_object(t);
    let o2 = vm.new_object(t);
    let o1_alias = o1;
    assert!(structural(&o1, &o1_alias, &mut vm));
    assert!(!structural(&o1, &o2, &mut vm));

    let l1 = vm.new_list(vec![]);
    let l2 = vm.new_list(vec![]);
    assert!(!structural(&l1, &l2, &mut vm));
    assert!(structural(&l1, &l1, &mut vm));
}

#[test]
fn enum_values_compare_structurally() {
    let mut vm = Vm::new();
    let e = vm.new_type("Shape".to_string(), TypeKind::Enum);
    let payload3 = vm.new_integer(3);
    let payload3b = vm.new_integer(3);
    let payload4 = vm.new_integer(4);
    let a = vm.new_enum_value(e, 0, Some(payload3));
    let b = vm.new_enum_value(e, 0, Some(payload3b));
    let c = vm.new_enum_value(e, 0, Some(payload4));
    let d = vm.new_enum_value(e, 1, Some(payload3));
    assert!(structural(&a, &b, &mut vm));
    assert!(!structural(&a, &c, &mut vm));
    assert!(!structural(&a, &d, &mut vm));

    // nested payloads recurse
    let na = vm.new_enum_value(e, 2, Some(a));
    let nb = vm.new_enum_value(e, 2, Some(b));
    let nc = vm.new_enum_value(e, 2, Some(c));
    assert!(structural(&na, &nb, &mut vm));
    assert!(!structural(&na, &nc, &mut vm));
}

#[test]
fn heterogeneous_pairs_are_unequal_not_errors() {
    let mut vm = Vm::new();
    let i = vm.new_integer(1);
    let s = vm.new_string("1".to_string());
    let b = vm.new_boolean(true);
    let l = vm.new_list(vec![]);
    assert!(!done(RuntimeValue::equals(&i, &s, &mut vm)));
    assert!(!done(RuntimeValue::equals(&s, &b, &mut vm)));
    assert!(!done(RuntimeValue::equals(&b, &l, &mut vm)));
}

#[test]
fn raising_override_falls_back_to_structural() {
    let mut vm = Vm::new();
    let t = vm.new_type("Weird".to_string(), TypeKind::Struct);
    let eq_fn = make_function(&mut vm, "__equals", false);
    vm.register_member(t, vm.symbols.op_equals, eq_fn);
    let a = vm.new_object(t);
    let a_alias = a;

    let step = RuntimeValue::equals(&a, &a_alias, &mut vm);
    let phase = match step {
        EqStep::Call { phase, .. } => phase,
        EqStep::Done(_) => panic!("the override should be consulted"),
    };
    assert_eq!(phase, EqPhase::Lhs);

    // the override raises an ordinary (non-sentinel) exception: the
    // answer still resolves to a boolean via structural fallback
    let boom_t = vm.new_type("Boom".to_string(), TypeKind::Struct);
    let boom = vm.new_object(boom_t);
    let step = RuntimeValue::equals_resume(
        &a,
        &a_alias,
        phase,
        &CallOutcome::Exception(boom),
        &mut vm,
    );
    assert!(done(step));

    // a fatal condition at this boundary also falls through
    let step = RuntimeValue::equals_resume(
        &a,
        &a_alias,
        phase,
        &CallOutcome::Error(haxby_dispatch::value::VmErrorReason::UnexpectedType),
        &mut vm,
    );
    assert!(done(step));
}

#[test]
fn boolean_override_result_wins() {
    let mut vm = Vm::new();
    let t = vm.new_type("Liar".to_string(), TypeKind::Struct);
    let eq_fn = make_function(&mut vm, "__equals", false);
    vm.register_member(t, vm.symbols.op_equals, eq_fn);
    let a = vm.new_object(t);
    let b = vm.new_object(t);

    let step = RuntimeValue::equals(&a, &b, &mut vm);
    let phase = match step {
        EqStep::Call { phase, .. } => phase,
        EqStep::Done(_) => panic!("the override should be consulted"),
    };
    let yes = vm.new_boolean(true);
    let step = RuntimeValue::equals_resume(&a, &b, phase, &CallOutcome::Value(yes), &mut vm);
    assert!(done(step));
}

#[test]
fn sentinel_from_override_continues_protocol() {
    let mut vm = Vm::new();
    let t = vm.new_type("Shy".to_string(), TypeKind::Struct);
    let eq_fn = make_function(&mut vm, "__equals", false);
    vm.register_member(t, vm.symbols.op_equals, eq_fn);
    let a = vm.new_object(t);
    let a_alias = a;

    let step = RuntimeValue::equals(&a, &a_alias, &mut vm);
    let phase = match step {
        EqStep::Call { phase, .. } => phase,
        EqStep::Done(_) => panic!("the override should be consulted"),
    };
    let unimp = vm.get_builtin_type_by_id(haxby_dispatch::vm::BuiltinTypeId::Unimplemented);
    let sentinel = vm.new_object(unimp);
    // same runtime type on both sides: structural equality decides
    let step = RuntimeValue::equals_resume(
        &a,
        &a_alias,
        phase,
        &CallOutcome::Exception(sentinel),
        &mut vm,
    );
    assert!(done(step));
}

#[test]
fn enum_payload_override_re_enters_protocol() {
    let mut vm = Vm::new();
    // payloads of type P carry an equality override
    let p_type = vm.new_type("P".to_string(), TypeKind::Struct);
    let eq_fn = make_function(&mut vm, "__equals", false);
    vm.register_member(p_type, vm.symbols.op_equals, eq_fn);
    let pa = vm.new_object(p_type);
    let pb = vm.new_object(p_type);

    let e = vm.new_type("Wrap".to_string(), TypeKind::Enum);
    let wa = vm.new_enum_value(e, 0, Some(pa));
    let wb = vm.new_enum_value(e, 0, Some(pb));

    // same runtime type: the machine goes to the structural terminal,
    // which re-enters the protocol on the payload pair and asks for
    // the payload's override
    let step = RuntimeValue::equals(&wa, &wb, &mut vm);
    let (phase, cl, cr) = match step {
        EqStep::Call { phase, lhs, rhs, .. } => {
            assert_eq!(lhs, pa);
            assert_eq!(rhs, pb);
            (phase, lhs, rhs)
        },
        EqStep::Done(_) => panic!("the payload override should be consulted"),
    };
    assert_eq!(phase, EqPhase::Lhs);

    // the payload override's boolean decides the whole comparison
    let yes = vm.new_boolean(true);
    let step = RuntimeValue::equals_resume(&cl, &cr, phase, &CallOutcome::Value(yes), &mut vm);
    assert!(done(step));
    let step = RuntimeValue::equals(&wa, &wb, &mut vm);
    let (phase, cl, cr) = match step {
        EqStep::Call { phase, lhs, rhs, .. } => (phase, lhs, rhs),
        EqStep::Done(_) => panic!("the payload override should be consulted"),
    };
    let no = vm.new_boolean(false);
    let step = RuntimeValue::equals_resume(&cl, &cr, phase, &CallOutcome::Value(no), &mut vm);
    assert!(!done(step));
}
