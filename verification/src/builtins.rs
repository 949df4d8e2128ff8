//! Language-level builtin callables provided by the dispatch core.

use crate::attributes::{set_in_ntable, spec_attr_ok};
use crate::symbol::{spec_intern_sym, Symbol};
use crate::table::{ntable_at, ntable_contains};
use crate::value::{RuntimeValue, VmErrorReason};
use crate::vm::{valid_value, FunctionBody, NativeFunction, Vm};
use vstd::prelude::*;
use vstd::string::StringExecFns;

verus! {

/// Whether `value` resolves the attribute named `name`: the name is
/// interned and resolution is attempted; any successful resolution —
/// including one that would bind a callable — answers true, and every
/// resolution failure answers false. It fails exactly when the name is
/// new and the interner's handle space is exhausted.
pub fn hasattr(value: &RuntimeValue, name: &str, vm: &mut Vm) -> (r: Result<bool, VmErrorReason>)
    requires
        old(vm).wf(),
        valid_value(*old(vm), *value),
    ensures
        final(vm).wf(),
        *final(vm) == (Vm {
            interner: final(vm).interner,
            bound_functions: final(vm).bound_functions,
            ..*old(vm)
        }),
        old(vm).bound_functions@.is_prefix_of(final(vm).bound_functions@),
        match r {
            Ok(b) => exists|sym: Symbol|
                sym.sid() == spec_intern_sym(old(vm).interner@, name@) && b == spec_attr_ok(
                    *final(vm),
                    *value,
                    sym,
                ),
            Err(e) => {
                &&& e == VmErrorReason::UnexpectedVmState
                &&& *final(vm) == *old(vm)
                &&& old(vm).interner@.len() >= u32::MAX
                &&& !old(vm).interner@.contains(name@)
            },
        },
{
    let sym = match vm.intern_symbol(name) {
        Ok(s) => s,
        Err(_) => {
            proof {
                crate::vm::lemma_self_prefix(vm.bound_functions@);
            }
            return Err(VmErrorReason::UnexpectedVmState);
        },
    };
    let ghost mid = *vm;
    let found = value.read_attribute(sym, vm).is_ok();
    proof {
        if crate::attributes::spec_attr_binds(mid, *value, sym) {
            assert(mid.bound_functions@.is_prefix_of(vm.bound_functions@)) by {
                assert(mid.bound_functions@ =~= vm.bound_functions@.subrange(
                    0,
                    mid.bound_functions@.len() as int,
                ));
            }
        } else {
            crate::vm::lemma_self_prefix(vm.bound_functions@);
        }
        assert(crate::attributes::spec_read_attribute(*vm, *value, sym)
            == crate::attributes::spec_read_attribute(mid, *value, sym));
    }
    Ok(found)
}

/// Install the dispatch core's builtins into the globals' named
/// builtin-function table; today that is `hasattr`, a native callable
/// of two arguments. Everything already registered survives: only the
/// `hasattr` entry is added or replaced.
pub fn insert_builtins(vm: &mut Vm)
    requires
        old(vm).wf(),
    ensures
        final(vm).wf(),
        *final(vm) == (Vm {
            tables: final(vm).tables,
            ntables: final(vm).ntables,
            functions: final(vm).functions,
            ..*old(vm)
        }),
        old(vm).tables@.is_prefix_of(final(vm).tables@),
        final(vm).ntables@.len() == old(vm).ntables@.len(),
        forall|j: int|
            0 <= j < old(vm).ntables@.len() && j != old(vm).builtin_functions
                ==> final(vm).ntables@[j] == old(vm).ntables@[j],
        forall|n: Seq<char>|
            ntable_contains((final(vm).ntables@[old(vm).builtin_functions as int])@, n) <==> (
            ntable_contains((old(vm).ntables@[old(vm).builtin_functions as int])@, n) || n
                == "hasattr"@),
        forall|n: Seq<char>|
            n != "hasattr"@ && ntable_contains(
                (old(vm).ntables@[old(vm).builtin_functions as int])@,
                n,
            ) ==> ntable_at((final(vm).ntables@[old(vm).builtin_functions as int])@, n)
                == ntable_at((old(vm).ntables@[old(vm).builtin_functions as int])@, n),
        final(vm).functions@.len() == old(vm).functions@.len() + 1,
        forall|j: int|
            0 <= j < old(vm).functions@.len() ==> final(vm).functions@[j]
                == old(vm).functions@[j],
        final(vm).functions@[old(vm).functions@.len() as int].name@ == "hasattr"@,
        final(vm).functions@[old(vm).functions@.len() as int].body == FunctionBody::Native(
            NativeFunction::HasAttr,
        ),
        final(vm).functions@[old(vm).functions@.len() as int].required_argc == 2,
        !final(vm).functions@[old(vm).functions@.len() as int].is_type_method,
        final(vm).builtin_functions == old(vm).builtin_functions,
        ntable_contains(
            (final(vm).ntables@[final(vm).builtin_functions as int])@,
            "hasattr"@,
        ),
        ntable_at((final(vm).ntables@[final(vm).builtin_functions as int])@, "hasattr"@)
            == RuntimeValue::Function(old(vm).functions@.len() as usize),
{
    let f = vm.new_function(
        String::from_str("hasattr"),
        false,
        2,
        FunctionBody::Native(NativeFunction::HasAttr),
    );
    let ghost mid = *vm;
    let nid = vm.builtin_functions;
    let key = String::from_str("hasattr");
    let ghost gkey = key;
    set_in_ntable(vm, nid, key, f);
    proof {
        crate::table::lemma_ntable_set(mid.ntables@[nid as int]@, gkey, f);
    }
}

} // verus!
