use haxby_dispatch::builtins::{hasattr, insert_builtins};
use haxby_dispatch::value::{AttributeError, RuntimeValue};
use haxby_dispatch::vm::{BuiltinTypeId, FunctionBody, TypeKind, Vm};

fn make_function(vm: &mut Vm, name: &str, type_level: bool) -> RuntimeValue {
    let code = vm.new_code_object(name.to_string(), 1, 0, 4);
    let cid = match code {
        RuntimeValue::CodeObject(i) => i,
        _ => unreachable!(),
    };
    vm.new_function(name.to_string(), type_level, 1, FunctionBody::Code(cid))
}

#[test]
fn instance_and_type_level_binding() {
    let mut vm = Vm::new();
    let t = vm.new_type("T".to_string(), TypeKind::Struct);
    let greet_sym = vm.intern_symbol("greet").unwrap();
    let create_sym = vm.intern_symbol("create").unwrap();
    let greet = make_function(&mut vm, "greet", false);
    let create = make_function(&mut vm, "create", true);
    vm.register_member(t, greet_sym, greet);
    vm.register_member(t, create_sym, create);
    let o = vm.new_object(t);

    // instance member off an instance: bound callable
    let bound = o.read_attribute(greet_sym, &mut vm).unwrap();
    assert!(matches!(bound, RuntimeValue::BoundFunction(_)));

    // type-level member off an instance: binding error
    assert_eq!(
        o.read_attribute(create_sym, &mut vm),
        Err(AttributeError::InvalidFunctionBinding)
    );

    // type-level member off the type value: bound callable
    let tv = RuntimeValue::Type(t);
    let bound_t = tv.read_attribute(create_sym, &mut vm).unwrap();
    assert!(matches!(bound_t, RuntimeValue::BoundFunction(_)));

    // instance member off the type value: binding error
    assert_eq!(
        tv.read_attribute(greet_sym, &mut vm),
        Err(AttributeError::InvalidFunctionBinding)
    );
}

#[test]
fn instance_storage_beats_type_members() {
    let mut vm = Vm::new();
    let t = vm.new_type("T".to_string(), TypeKind::Struct);
    let x_sym = vm.intern_symbol("x").unwrap();
    let type_val = vm.new_integer(1);
    vm.register_member(t, x_sym, type_val);
    let o = vm.new_object(t);
    let own = vm.new_integer(2);
    o.write_attribute(x_sym, own, &mut vm).unwrap();
    assert_eq!(o.read_attribute(x_sym, &mut vm), Ok(own));
}

#[test]
fn missing_attribute_is_no_such_attribute() {
    let mut vm = Vm::new();
    let t = vm.new_type("T".to_string(), TypeKind::Struct);
    let o = vm.new_object(t);
    let nope = vm.intern_symbol("nope").unwrap();
    assert_eq!(
        o.read_attribute(nope, &mut vm),
        Err(AttributeError::NoSuchAttribute)
    );
}

#[test]
fn write_on_kinds_without_attributes_fails() {
    let mut vm = Vm::new();
    let sym = vm.intern_symbol("field").unwrap();
    let val = vm.new_integer(1);

    let opaque = vm.new_opaque();
    assert_eq!(
        opaque.write_attribute(sym, val, &mut vm),
        Err(AttributeError::ValueHasNoAttributes)
    );

    let code = vm.new_code_object("co".to_string(), 0, 0, 0);
    assert_eq!(
        code.write_attribute(sym, val, &mut vm),
        Err(AttributeError::ValueHasNoAttributes)
    );

    let check = vm.new_type_check();
    assert_eq!(
        check.write_attribute(sym, val, &mut vm),
        Err(AttributeError::ValueHasNoAttributes)
    );

    // reads on those kinds fail the same way
    assert_eq!(
        opaque.read_attribute(sym, &mut vm),
        Err(AttributeError::ValueHasNoAttributes)
    );
}

#[test]
fn enum_values_resolve_through_container_only() {
    let mut vm = Vm::new();
    let e = vm.new_type("Color".to_string(), TypeKind::Enum);
    let describe_sym = vm.intern_symbol("describe").unwrap();
    let describe = make_function(&mut vm, "describe", false);
    vm.register_member(e, describe_sym, describe);
    let red = vm.new_enum_value(e, 0, None);

    let bound = red.read_attribute(describe_sym, &mut vm).unwrap();
    assert!(matches!(bound, RuntimeValue::BoundFunction(_)));

    // enum instances cannot carry per-instance attributes
    let val = vm.new_integer(7);
    assert_eq!(
        red.write_attribute(describe_sym, val, &mut vm),
        Err(AttributeError::ValueHasNoAttributes)
    );
}

#[test]
fn primitives_carry_independent_extension_storage() {
    let mut vm = Vm::new();
    let a = vm.new_integer(5);
    let b = vm.new_integer(5);
    let tag = vm.intern_symbol("tag").unwrap();
    let val = vm.new_integer(99);
    a.write_attribute(tag, val, &mut vm).unwrap();
    assert_eq!(a.read_attribute(tag, &mut vm), Ok(val));
    assert_eq!(
        b.read_attribute(tag, &mut vm),
        Err(AttributeError::NoSuchAttribute)
    );
}

#[test]
fn primitives_fall_through_to_builtin_type() {
    let mut vm = Vm::new();
    let int_type = vm.get_builtin_type_by_id(BuiltinTypeId::Int);
    let abs_sym = vm.intern_symbol("abs").unwrap();
    let make_sym = vm.intern_symbol("make").unwrap();
    let abs_fn = make_function(&mut vm, "abs", false);
    let make_fn = make_function(&mut vm, "make", true);
    vm.register_member(int_type, abs_sym, abs_fn);
    vm.register_member(int_type, make_sym, make_fn);

    let i = vm.new_integer(-3);
    let bound = i.read_attribute(abs_sym, &mut vm).unwrap();
    assert!(matches!(bound, RuntimeValue::BoundFunction(_)));
    assert_eq!(
        i.read_attribute(make_sym, &mut vm),
        Err(AttributeError::InvalidFunctionBinding)
    );
}

#[test]
fn modules_are_string_addressed() {
    let mut vm = Vm::new();
    let m = vm.new_module("io".to_string());
    let name = vm.intern_symbol("open").unwrap();
    let val = vm.new_integer(4);
    m.write_attribute(name, val, &mut vm).unwrap();
    assert_eq!(m.read_attribute(name, &mut vm), Ok(val));

    // a handle from a foreign interner cannot address a module
    let mut other = Vm::new();
    other.intern_symbol("pad1").unwrap();
    let foreign = other.intern_symbol("pad2").unwrap();
    let foreign = if vm.resolve_symbol(foreign).is_none() {
        foreign
    } else {
        other.intern_symbol("pad3").unwrap()
    };
    assert_eq!(
        m.write_attribute(foreign, val, &mut vm),
        Err(AttributeError::NoSuchAttribute)
    );

    let names = m.list_attributes(&vm);
    assert_eq!(names, vec!["open".to_string()]);
}

#[test]
fn mixins_bind_their_members() {
    let mut vm = Vm::new();
    let mx = vm.new_mixin("Walks".to_string());
    let step_sym = vm.intern_symbol("step").unwrap();
    let step = make_function(&mut vm, "step", false);
    mx.write_attribute(step_sym, step, &mut vm).unwrap();

    // an instance-level member comes back bound to the mixin
    let bound = mx.read_attribute(step_sym, &mut vm).unwrap();
    assert!(matches!(bound, RuntimeValue::BoundFunction(_)));

    // a type-level member cannot bind through a mixin
    let forge_sym = vm.intern_symbol("forge").unwrap();
    let forge = make_function(&mut vm, "forge", true);
    mx.write_attribute(forge_sym, forge, &mut vm).unwrap();
    assert_eq!(
        mx.read_attribute(forge_sym, &mut vm),
        Err(AttributeError::InvalidFunctionBinding)
    );

    // a plain value comes back as stored
    let pace_sym = vm.intern_symbol("pace").unwrap();
    let pace = vm.new_integer(3);
    mx.write_attribute(pace_sym, pace, &mut vm).unwrap();
    assert_eq!(mx.read_attribute(pace_sym, &mut vm), Ok(pace));
}

#[test]
fn object_attributes_are_union_of_fields_and_members() {
    let mut vm = Vm::new();
    let t = vm.new_type("T".to_string(), TypeKind::Struct);
    let greet_sym = vm.intern_symbol("greet").unwrap();
    let greet = make_function(&mut vm, "greet", false);
    vm.register_member(t, greet_sym, greet);
    let o = vm.new_object(t);
    let x_sym = vm.intern_symbol("x").unwrap();
    let val = vm.new_integer(1);
    o.write_attribute(x_sym, val, &mut vm).unwrap();

    let mut names = o.list_attributes(&vm);
    names.sort();
    assert_eq!(names, vec!["greet".to_string(), "x".to_string()]);
}

#[test]
fn function_values_have_instance_storage_only() {
    let mut vm = Vm::new();
    let f = make_function(&mut vm, "f", false);
    let doc_sym = vm.intern_symbol("doc").unwrap();
    let doc = vm.new_string("does things".to_string());
    f.write_attribute(doc_sym, doc, &mut vm).unwrap();
    assert_eq!(f.read_attribute(doc_sym, &mut vm), Ok(doc));
    let names = f.list_attributes(&vm);
    assert_eq!(names, vec!["doc".to_string()]);
}

#[test]
fn hasattr_answers_without_raising() {
    let mut vm = Vm::new();
    let t = vm.new_type("T".to_string(), TypeKind::Struct);
    let greet = make_function(&mut vm, "greet", false);
    let greet_sym = vm.intern_symbol("greet").unwrap();
    vm.register_member(t, greet_sym, greet);
    let o = vm.new_object(t);

    assert_eq!(hasattr(&o, "greet", &mut vm), Ok(true));
    assert_eq!(hasattr(&o, "missing", &mut vm), Ok(false));

    let opaque = vm.new_opaque();
    assert_eq!(hasattr(&opaque, "anything", &mut vm), Ok(false));
}

#[test]
fn insert_builtins_registers_hasattr() {
    let mut vm = Vm::new();
    let before = vm.functions.len();
    insert_builtins(&mut vm);
    assert_eq!(vm.functions.len(), before + 1);
    assert_eq!(vm.functions[before].name, "hasattr");
    assert_eq!(vm.functions[before].required_argc, 2);
    assert!(!vm.functions[before].is_type_method);
}

#[test]
fn type_descriptor_kinds_are_observable() {
    let mut vm = Vm::new();
    let s = vm.new_type("S".to_string(), TypeKind::Struct);
    let e = vm.new_type("E".to_string(), TypeKind::Enum);
    let n = vm.new_type("N".to_string(), TypeKind::RustNative);
    let sv = RuntimeValue::Type(s);
    let ev = RuntimeValue::Type(e);
    let nv = RuntimeValue::Type(n);
    assert!(sv.is_struct(&vm) && !sv.is_enum(&vm));
    assert!(ev.is_enum(&vm) && !ev.is_struct(&vm));
    assert_eq!(nv.as_rust_native(&vm), Some(n));
    assert_eq!(sv.as_struct(&vm), Some(s));
    assert_eq!(ev.as_enum(&vm), Some(e));
    let i = vm.new_integer(0);
    assert!(!i.is_struct(&vm) && !i.is_enum(&vm));
}
