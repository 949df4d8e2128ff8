use haxby_dispatch::symbol::Interner;
use haxby_dispatch::vm::Vm;

#[test]
fn intern_twice_yields_same_symbol() {
    let mut interner = Interner::new();
    let a = interner.intern("greet").unwrap();
    let b = interner.intern("greet").unwrap();
    assert_eq!(a, b);
    assert_eq!(interner.resolve(a).unwrap().as_str(), "greet");
}

#[test]
fn intern_distinct_names_no_collisions() {
    let mut interner = Interner::new();
    let names = [
        "alpha", "beta", "gamma", "delta", "epsilon", "zeta", "eta", "theta", "iota", "kappa",
    ];
    let mut syms = Vec::new();
    for n in names.iter() {
        syms.push(interner.intern(n).unwrap());
    }
    for (i, n) in names.iter().enumerate() {
        assert_eq!(interner.resolve(syms[i]).unwrap().as_str(), *n);
        for j in 0..i {
            assert_ne!(syms[i], syms[j]);
        }
    }
}

#[test]
fn interleaved_interning_is_stable() {
    let mut interner = Interner::new();
    let a1 = interner.intern("a").unwrap();
    let b1 = interner.intern("b").unwrap();
    let a2 = interner.intern("a").unwrap();
    let b2 = interner.intern("b").unwrap();
    assert_eq!(a1, a2);
    assert_eq!(b1, b2);
    assert_ne!(a1, b1);
}

#[test]
fn vm_interner_reuses_reserved_names() {
    let mut vm = Vm::new();
    let add1 = vm.intern_symbol("__add").unwrap();
    assert_eq!(add1, vm.symbols.op_add);
    let fresh = vm.intern_symbol("greet").unwrap();
    let again = vm.intern_symbol("greet").unwrap();
    assert_eq!(fresh, again);
    assert_eq!(vm.resolve_symbol(fresh).unwrap().as_str(), "greet");
}

#[test]
fn foreign_symbol_resolves_to_none() {
    let vm = Vm::new();
    let mut other = Vm::new();
    // mint a handle the first interner has never seen
    let mut foreign = other.intern_symbol("only_here").unwrap();
    for n in ["x1", "x2", "x3"] {
        foreign = other.intern_symbol(n).unwrap();
    }
    assert!(vm.resolve_symbol(foreign).is_none());
}
