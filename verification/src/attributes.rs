//! Attribute resolution, method binding, attribute writes, and
//! attribute enumeration — the per-kind dispatch at the heart of the
//! core.
//!
//! Resolution order per kind: objects consult instance storage, then
//! their declaring type's member table; enumerated-case values consult
//! only their container type's shared table; primitives and lists
//! consult per-handle extension storage, then the registered builtin
//! descriptor for their kind; functions have instance storage only;
//! type descriptors consult their member table directly; modules are
//! string-addressed through the interner. Opaque values, code objects,
//! bound functions and type-check values have no attribute concept.
//!
//! The binding rule: a type-level function reached through an instance,
//! or an instance function reached directly off a type descriptor,
//! fails with `InvalidFunctionBinding`; every other resolved function
//! is wrapped as a bound function with the resolving value as receiver.

use crate::symbol::Symbol;
use crate::table::{ntable_at, ntable_contains, ntable_keys, strings_view, table_at, table_contains, table_index, table_keys};
use crate::value::{AttributeError, RuntimeValue};
use crate::vm::{valid_value, BoundFunctionRecord, BuiltinTypeId, Vm};
use vstd::prelude::*;

verus! {

/// How resolution answered: a plain value, or a function that must be
/// bound to the resolving value.
pub enum Resolved {
    Plain(RuntimeValue),
    Binds(usize),
}

impl Vm {
    /// Instance field storage of an object.
    pub open spec fn obj_fields(self, o: int) -> Seq<(Symbol, RuntimeValue)> {
        self.tables@[self.objects@[o].fields as int]@
    }

    /// Member table of a type descriptor.
    pub open spec fn type_members(self, t: int) -> Seq<(Symbol, RuntimeValue)> {
        self.tables@[self.types@[t].members as int]@
    }

    /// Member table registered for a builtin kind.
    pub open spec fn builtin_members(self, id: BuiltinTypeId) -> Seq<(Symbol, RuntimeValue)> {
        self.type_members(self.spec_builtin_type(id) as int)
    }

    /// Instance storage of a function value.
    pub open spec fn fun_fields(self, f: int) -> Seq<(Symbol, RuntimeValue)> {
        self.tables@[self.functions@[f].fields as int]@
    }

    /// Extension storage of a list.
    pub open spec fn list_fields(self, l: int) -> Seq<(Symbol, RuntimeValue)> {
        self.tables@[self.lists@[l].fields as int]@
    }

    /// Member table of a mixin.
    pub open spec fn mixin_members(self, m: int) -> Seq<(Symbol, RuntimeValue)> {
        self.tables@[self.mixins@[m].members as int]@
    }

    /// String-addressed entries of a module.
    pub open spec fn module_entries(self, m: int) -> Seq<(String, RuntimeValue)> {
        self.ntables@[self.modules@[m].entries as int]@
    }

    /// A per-handle extension table.
    pub open spec fn ext_table(self, ext: int) -> Seq<(Symbol, RuntimeValue)> {
        self.tables@[ext]@
    }
}

/// The binding rule on the instance path: a resolved function must be
/// instance-level, and is then bound to the resolving value.
pub open spec fn spec_bind_instance(vm: Vm, val: RuntimeValue) -> Result<
    Resolved,
    AttributeError,
> {
    match val {
        RuntimeValue::Function(f) => if vm.functions@[f as int].is_type_method {
            Err(AttributeError::InvalidFunctionBinding)
        } else {
            Ok(Resolved::Binds(f))
        },
        _ => Ok(Resolved::Plain(val)),
    }
}

/// The binding rule directly off a type descriptor: a resolved
/// function must be type-level, and is then bound to the type value.
pub open spec fn spec_bind_type_level(vm: Vm, val: RuntimeValue) -> Result<
    Resolved,
    AttributeError,
> {
    match val {
        RuntimeValue::Function(f) => if !vm.functions@[f as int].is_type_method {
            Err(AttributeError::InvalidFunctionBinding)
        } else {
            Ok(Resolved::Binds(f))
        },
        _ => Ok(Resolved::Plain(val)),
    }
}

/// Lookup in per-handle storage with fallthrough to a builtin kind's
/// registered member table.
pub open spec fn spec_read_prim(vm: Vm, ext: int, id: BuiltinTypeId, sym: Symbol) -> Result<
    Resolved,
    AttributeError,
> {
    if table_contains(vm.ext_table(ext), sym) {
        Ok(Resolved::Plain(table_at(vm.ext_table(ext), sym)))
    } else if table_contains(vm.builtin_members(id), sym) {
        spec_bind_instance(vm, table_at(vm.builtin_members(id), sym))
    } else {
        Err(AttributeError::NoSuchAttribute)
    }
}

/// What attribute resolution answers for `v.sym`, before the answer is
/// materialized (a `Binds` answer allocates a bound function).
pub open spec fn spec_read_attribute(vm: Vm, v: RuntimeValue, sym: Symbol) -> Result<
    Resolved,
    AttributeError,
> {
    match v {
        RuntimeValue::Object(o) => {
            if table_contains(vm.obj_fields(o as int), sym) {
                Ok(Resolved::Plain(table_at(vm.obj_fields(o as int), sym)))
            } else {
                let t = vm.objects@[o as int].struct_id as int;
                if table_contains(vm.type_members(t), sym) {
                    spec_bind_instance(vm, table_at(vm.type_members(t), sym))
                } else {
                    Err(AttributeError::NoSuchAttribute)
                }
            }
        },
        RuntimeValue::Mixin(m) => {
            if table_contains(vm.mixin_members(m as int), sym) {
                spec_bind_instance(vm, table_at(vm.mixin_members(m as int), sym))
            } else {
                Err(AttributeError::NoSuchAttribute)
            }
        },
        RuntimeValue::EnumValue(e) => {
            let t = vm.enum_values@[e as int].enum_id as int;
            if table_contains(vm.type_members(t), sym) {
                spec_bind_instance(vm, table_at(vm.type_members(t), sym))
            } else {
                Err(AttributeError::NoSuchAttribute)
            }
        },
        RuntimeValue::Integer(_, ext) => spec_read_prim(vm, ext as int, BuiltinTypeId::Int, sym),
        RuntimeValue::Float(_, ext) => spec_read_prim(vm, ext as int, BuiltinTypeId::Float, sym),
        RuntimeValue::Boolean(_, ext) => spec_read_prim(vm, ext as int, BuiltinTypeId::Bool, sym),
        RuntimeValue::Str(_, ext) => spec_read_prim(vm, ext as int, BuiltinTypeId::Str, sym),
        RuntimeValue::List(_) => {
            let l = v->List_0 as int;
            if table_contains(vm.list_fields(l), sym) {
                Ok(Resolved::Plain(table_at(vm.list_fields(l), sym)))
            } else if table_contains(vm.builtin_members(BuiltinTypeId::List), sym) {
                spec_bind_instance(vm, table_at(vm.builtin_members(BuiltinTypeId::List), sym))
            } else {
                Err(AttributeError::NoSuchAttribute)
            }
        },
        RuntimeValue::Function(f) => {
            if table_contains(vm.fun_fields(f as int), sym) {
                Ok(Resolved::Plain(table_at(vm.fun_fields(f as int), sym)))
            } else {
                Err(AttributeError::NoSuchAttribute)
            }
        },
        RuntimeValue::Type(t) => {
            if table_contains(vm.type_members(t as int), sym) {
                spec_bind_type_level(vm, table_at(vm.type_members(t as int), sym))
            } else {
                Err(AttributeError::NoSuchAttribute)
            }
        },
        RuntimeValue::Module(m) => {
            if sym.sid() < vm.interner@.len() {
                let name = vm.interner@[sym.sid() as int];
                if ntable_contains(vm.module_entries(m as int), name) {
                    Ok(Resolved::Plain(ntable_at(vm.module_entries(m as int), name)))
                } else {
                    Err(AttributeError::NoSuchAttribute)
                }
            } else {
                Err(AttributeError::NoSuchAttribute)
            }
        },
        _ => Err(AttributeError::ValueHasNoAttributes),
    }
}

/// Whether resolution succeeds without materializing the answer.
pub open spec fn spec_attr_ok(vm: Vm, v: RuntimeValue, sym: Symbol) -> bool {
    spec_read_attribute(vm, v, sym) is Ok
}

/// The value `read_attribute` hands back on success: the plain stored
/// value, or the bound function allocated at the next free index.
pub open spec fn spec_attr_value(vm: Vm, v: RuntimeValue, sym: Symbol) -> RuntimeValue {
    match spec_read_attribute(vm, v, sym) {
        Ok(Resolved::Plain(x)) => x,
        Ok(Resolved::Binds(f)) => RuntimeValue::BoundFunction(vm.bound_functions@.len() as usize),
        Err(e) => arbitrary(),
    }
}

/// Whether answering the resolution allocates a bound function.
pub open spec fn spec_attr_binds(vm: Vm, v: RuntimeValue, sym: Symbol) -> bool {
    spec_read_attribute(vm, v, sym) matches Ok(Resolved::Binds(_))
}

/// The state `read_attribute` leaves behind, relative to the state it
/// was given: unchanged, except that a `Binds` answer pushes one bound
/// function record.
pub open spec fn spec_read_effect(a: Vm, b: Vm, v: RuntimeValue, sym: Symbol) -> bool {
    if spec_attr_binds(a, v, sym) {
        &&& b == (Vm { bound_functions: b.bound_functions, ..a })
        &&& b.bound_functions@ == a.bound_functions@.push(
            BoundFunctionRecord {
                receiver: v,
                function: spec_read_attribute(a, v, sym)->Ok_0->Binds_0,
            },
        )
    } else {
        b == a
    }
}

/// The state change of one resolution is at most one appended bound
/// function.
pub proof fn lemma_read_effect_growth(a: Vm, b: Vm, v: RuntimeValue, sym: Symbol)
    requires
        spec_read_effect(a, b, v, sym),
    ensures
        crate::vm::bound_only_growth(a, b),
{
    if spec_attr_binds(a, v, sym) {
        crate::vm::lemma_push_prefix(
            a.bound_functions@,
            BoundFunctionRecord {
                receiver: v,
                function: spec_read_attribute(a, v, sym)->Ok_0->Binds_0,
            },
        );
    } else {
        crate::vm::lemma_bound_only_growth_refl(a);
    }
}

impl RuntimeValue {
    /// Resolve `attrib_name` against this value, binding any resolved
    /// callable to it; the per-kind order and the binding rule are in
    /// this module's documentation.
    pub fn read_attribute(&self, attrib_name: Symbol, vm: &mut Vm) -> (r: Result<
        RuntimeValue,
        AttributeError,
    >)
        requires
            old(vm).wf(),
            valid_value(*old(vm), *self),
        ensures
            final(vm).wf(),
            spec_read_effect(*old(vm), *final(vm), *self, attrib_name),
            match spec_read_attribute(*old(vm), *self, attrib_name) {
                Ok(_) => r == Ok::<RuntimeValue, AttributeError>(
                    spec_attr_value(*old(vm), *self, attrib_name),
                ),
                Err(e) => r == Err::<RuntimeValue, AttributeError>(e),
            },
            match r {
                Ok(v) => valid_value(*final(vm), v),
                Err(_) => true,
            },
    {
        match self {
            RuntimeValue::Object(o) => {
                let fid = vm.objects[*o].fields;
                match vm.tables[fid].get(attrib_name) {
                    Some(val) => Ok(val),
                    None => {
                        let t = vm.objects[*o].struct_id;
                        let mid = vm.types[t].members;
                        match vm.tables[mid].get(attrib_name) {
                            Some(val) => self.bind_instance(val, vm),
                            None => Err(AttributeError::NoSuchAttribute),
                        }
                    },
                }
            },
            RuntimeValue::Mixin(m) => {
                let mid = vm.mixins[*m].members;
                match vm.tables[mid].get(attrib_name) {
                    Some(val) => self.bind_instance(val, vm),
                    None => Err(AttributeError::NoSuchAttribute),
                }
            },
            RuntimeValue::EnumValue(e) => {
                let t = vm.enum_values[*e].enum_id;
                let mid = vm.types[t].members;
                match vm.tables[mid].get(attrib_name) {
                    Some(val) => self.bind_instance(val, vm),
                    None => Err(AttributeError::NoSuchAttribute),
                }
            },
            RuntimeValue::Integer(_, ext) => self.read_prim(*ext, BuiltinTypeId::Int, attrib_name, vm),
            RuntimeValue::Float(_, ext) => self.read_prim(*ext, BuiltinTypeId::Float, attrib_name, vm),
            RuntimeValue::Boolean(_, ext) => self.read_prim(*ext, BuiltinTypeId::Bool, attrib_name, vm),
            RuntimeValue::Str(_, ext) => self.read_prim(*ext, BuiltinTypeId::Str, attrib_name, vm),
            RuntimeValue::List(l) => {
                let fid = vm.lists[*l].fields;
                match vm.tables[fid].get(attrib_name) {
                    Some(val) => Ok(val),
                    None => {
                        let bt = vm.get_builtin_type_by_id(BuiltinTypeId::List);
                        let mid = vm.types[bt].members;
                        match vm.tables[mid].get(attrib_name) {
                            Some(val) => self.bind_instance(val, vm),
                            None => Err(AttributeError::NoSuchAttribute),
                        }
                    },
                }
            },
            RuntimeValue::Function(f) => {
                let fid = vm.functions[*f].fields;
                match vm.tables[fid].get(attrib_name) {
                    Some(val) => Ok(val),
                    None => Err(AttributeError::NoSuchAttribute),
                }
            },
            RuntimeValue::Type(t) => {
                let mid = vm.types[*t].members;
                match vm.tables[mid].get(attrib_name) {
                    Some(val) => match val {
                        RuntimeValue::Function(f) => {
                            if !vm.functions[f].is_type_method {
                                Err(AttributeError::InvalidFunctionBinding)
                            } else {
                                Ok(self.bind(f, vm))
                            }
                        },
                        _ => Ok(val),
                    },
                    None => Err(AttributeError::NoSuchAttribute),
                }
            },
            RuntimeValue::Module(m) => {
                let name = match vm.interner.resolve(attrib_name) {
                    Some(n) => n.clone(),
                    None => {
                        return Err(AttributeError::NoSuchAttribute);
                    },
                };
                let eid = vm.modules[*m].entries;
                match vm.ntables[eid].get(&name) {
                    Some(val) => Ok(val),
                    None => Err(AttributeError::NoSuchAttribute),
                }
            },
            _ => Err(AttributeError::ValueHasNoAttributes),
        }
    }

    /// Apply the instance-path binding rule to a value found in a type
    /// or builtin member table.
    fn bind_instance(&self, val: RuntimeValue, vm: &mut Vm) -> (r: Result<
        RuntimeValue,
        AttributeError,
    >)
        requires
            old(vm).wf(),
            valid_value(*old(vm), *self),
            valid_value(*old(vm), val),
        ensures
            final(vm).wf(),
            match spec_bind_instance(*old(vm), val) {
                Ok(Resolved::Plain(x)) => r == Ok::<RuntimeValue, AttributeError>(x) && *final(vm) == *old(vm),
                Ok(Resolved::Binds(f)) => {
                    &&& r == Ok::<RuntimeValue, AttributeError>(
                        RuntimeValue::BoundFunction(old(vm).bound_functions@.len() as usize),
                    )
                    &&& *final(vm) == (Vm {
                        bound_functions: final(vm).bound_functions,
                        ..*old(vm)
                    })
                    &&& final(vm).bound_functions@ == old(vm).bound_functions@.push(
                        BoundFunctionRecord { receiver: *self, function: f },
                    )
                },
                Err(e) => r == Err::<RuntimeValue, AttributeError>(e) && *final(vm) == *old(vm),
            },
            match r {
                Ok(v) => valid_value(*final(vm), v),
                Err(_) => true,
            },
    {
        match val {
            RuntimeValue::Function(f) => {
                if vm.functions[f].is_type_method {
                    Err(AttributeError::InvalidFunctionBinding)
                } else {
                    Ok(self.bind(f, vm))
                }
            },
            _ => Ok(val),
        }
    }

    /// Per-handle storage, then the registered builtin member table.
    fn read_prim(&self, ext: usize, id: BuiltinTypeId, sym: Symbol, vm: &mut Vm) -> (r: Result<
        RuntimeValue,
        AttributeError,
    >)
        requires
            old(vm).wf(),
            valid_value(*old(vm), *self),
            ext < old(vm).tables@.len(),
        ensures
            final(vm).wf(),
            match spec_read_prim(*old(vm), ext as int, id, sym) {
                Ok(Resolved::Plain(x)) => r == Ok::<RuntimeValue, AttributeError>(x) && *final(vm) == *old(vm),
                Ok(Resolved::Binds(f)) => {
                    &&& r == Ok::<RuntimeValue, AttributeError>(
                        RuntimeValue::BoundFunction(old(vm).bound_functions@.len() as usize),
                    )
                    &&& *final(vm) == (Vm {
                        bound_functions: final(vm).bound_functions,
                        ..*old(vm)
                    })
                    &&& final(vm).bound_functions@ == old(vm).bound_functions@.push(
                        BoundFunctionRecord {
                            receiver: *self,
                            function: f,
                        },
                    )
                },
                Err(e) => r == Err::<RuntimeValue, AttributeError>(e) && *final(vm) == *old(vm),
            },
            match r {
                Ok(v) => valid_value(*final(vm), v),
                Err(_) => true,
            },
    {
        match vm.tables[ext].get(sym) {
            Some(val) => Ok(val),
            None => {
                let bt = vm.get_builtin_type_by_id(id);
                let mid = vm.types[bt].members;
                match vm.tables[mid].get(sym) {
                    Some(val) => self.bind_instance(val, vm),
                    None => Err(AttributeError::NoSuchAttribute),
                }
            },
        }
    }
}


/// Which writes succeed: kinds with field or member storage always
/// accept the write; a module accepts it when the symbol resolves; the
/// kinds with no attribute concept fail with `ValueHasNoAttributes`.
pub open spec fn spec_write_result(vm: Vm, v: RuntimeValue, sym: Symbol) -> Result<
    (),
    AttributeError,
> {
    match v {
        RuntimeValue::Object(_) => Ok(()),
        RuntimeValue::Integer(_, _) => Ok(()),
        RuntimeValue::Float(_, _) => Ok(()),
        RuntimeValue::Boolean(_, _) => Ok(()),
        RuntimeValue::Str(_, _) => Ok(()),
        RuntimeValue::Function(_) => Ok(()),
        RuntimeValue::List(_) => Ok(()),
        RuntimeValue::Type(_) => Ok(()),
        RuntimeValue::Mixin(_) => Ok(()),
        RuntimeValue::Module(_) => if sym.sid() < vm.interner@.len() {
            Ok(())
        } else {
            Err(AttributeError::NoSuchAttribute)
        },
        _ => Err(AttributeError::ValueHasNoAttributes),
    }
}

/// The table a successful symbol-keyed write updates.
pub open spec fn spec_write_table_id(vm: Vm, v: RuntimeValue) -> int {
    match v {
        RuntimeValue::Object(o) => vm.objects@[o as int].fields as int,
        RuntimeValue::Integer(_, ext) => ext as int,
        RuntimeValue::Float(_, ext) => ext as int,
        RuntimeValue::Boolean(_, ext) => ext as int,
        RuntimeValue::Str(_, ext) => ext as int,
        RuntimeValue::Function(f) => vm.functions@[f as int].fields as int,
        RuntimeValue::List(l) => vm.lists@[l as int].fields as int,
        RuntimeValue::Type(t) => vm.types@[t as int].members as int,
        RuntimeValue::Mixin(m) => vm.mixins@[m as int].members as int,
        _ => 0,
    }
}

/// Whether a write to this value goes to a symbol-keyed table.
pub open spec fn spec_write_is_table(v: RuntimeValue) -> bool {
    match v {
        RuntimeValue::Object(_) => true,
        RuntimeValue::Integer(_, _) => true,
        RuntimeValue::Float(_, _) => true,
        RuntimeValue::Boolean(_, _) => true,
        RuntimeValue::Str(_, _) => true,
        RuntimeValue::Function(_) => true,
        RuntimeValue::List(_) => true,
        RuntimeValue::Type(_) => true,
        RuntimeValue::Mixin(_) => true,
        _ => false,
    }
}

/// The state a write leaves behind: exactly one table replaced by its
/// updated version, or (for a failed write) nothing at all.
pub open spec fn spec_write_effect(
    a: Vm,
    b: Vm,
    v: RuntimeValue,
    sym: Symbol,
    val: RuntimeValue,
) -> bool {
    if spec_write_is_table(v) {
        let tid = spec_write_table_id(a, v);
        &&& b == (Vm { tables: b.tables, ..a })
        &&& b.tables@.len() == a.tables@.len()
        &&& forall|j: int|
            0 <= j < a.tables@.len() && j != tid ==> b.tables@[j] == a.tables@[j]
        &&& (b.tables@[tid])@ == crate::table::spec_table_set((a.tables@[tid])@, sym, val)
    } else if v is Module && sym.sid() < a.interner@.len() {
        let eid = a.modules@[v->Module_0 as int].entries as int;
        let name = a.interner@[sym.sid() as int];
        &&& b == (Vm { ntables: b.ntables, ..a })
        &&& b.ntables@.len() == a.ntables@.len()
        &&& forall|j: int|
            0 <= j < a.ntables@.len() && j != eid ==> b.ntables@[j] == a.ntables@[j]
        &&& exists|k: String|
            k@ == name && (b.ntables@[eid])@ == crate::table::spec_ntable_set(
                (a.ntables@[eid])@,
                k,
                val,
            )
    } else {
        b == a
    }
}

/// Replace one entry of one symbol-keyed table.
fn set_in_table(vm: &mut Vm, tid: usize, key: Symbol, val: RuntimeValue)
    requires
        old(vm).wf(),
        tid < old(vm).tables@.len(),
        valid_value(*old(vm), val),
    ensures
        final(vm).wf(),
        *final(vm) == (Vm { tables: final(vm).tables, ..*old(vm) }),
        final(vm).tables@.len() == old(vm).tables@.len(),
        forall|j: int|
            0 <= j < old(vm).tables@.len() && j != tid ==> final(vm).tables@[j] == old(
                vm,
            ).tables@[j],
        (final(vm).tables@[tid as int])@ == crate::table::spec_table_set(
            (old(vm).tables@[tid as int])@,
            key,
            val,
        ),
{
    proof {
        assert(old(vm).table_valid(old(vm).tables@[tid as int]@));
    }
    vm.tables[tid].set(key, val);
    proof {
        crate::table::lemma_table_set(old(vm).tables@[tid as int]@, key, val);
        crate::vm::lemma_valid_value_grow(*old(vm), *vm);
        assert forall|i: int| 0 <= i < vm.tables@[tid as int]@.len() implies valid_value(
            *vm,
            (#[trigger] vm.tables@[tid as int]@[i]).1,
        ) by {
            let s0 = old(vm).tables@[tid as int]@;
            let s1 = vm.tables@[tid as int]@;
            if table_contains(s0, key) {
                if i == crate::table::table_index(s0, key) {
                } else {
                    assert(s1[i] == s0[i]);
                    assert(valid_value(*old(vm), s0[i].1));
                }
            } else {
                if i < s0.len() {
                    assert(s1[i] == s0[i]);
                    assert(valid_value(*old(vm), s0[i].1));
                }
            }
        }
        crate::vm::lemma_wf_update_table(*old(vm), *vm, tid as int);
    }
}

/// Replace one entry of one string-keyed table.
pub(crate) fn set_in_ntable(vm: &mut Vm, nid: usize, key: String, val: RuntimeValue)
    requires
        old(vm).wf(),
        nid < old(vm).ntables@.len(),
        valid_value(*old(vm), val),
    ensures
        final(vm).wf(),
        *final(vm) == (Vm { ntables: final(vm).ntables, ..*old(vm) }),
        final(vm).ntables@.len() == old(vm).ntables@.len(),
        forall|j: int|
            0 <= j < old(vm).ntables@.len() && j != nid ==> final(vm).ntables@[j] == old(
                vm,
            ).ntables@[j],
        (final(vm).ntables@[nid as int])@ == crate::table::spec_ntable_set(
            (old(vm).ntables@[nid as int])@,
            key,
            val,
        ),
{
    proof {
        assert(old(vm).ntable_valid(old(vm).ntables@[nid as int]@));
    }
    let ghost gkey = key;
    vm.ntables[nid].set(key, val);
    proof {
        crate::table::lemma_ntable_set(old(vm).ntables@[nid as int]@, gkey, val);
        crate::vm::lemma_valid_value_grow(*old(vm), *vm);
        assert forall|i: int| 0 <= i < vm.ntables@[nid as int]@.len() implies valid_value(
            *vm,
            (#[trigger] vm.ntables@[nid as int]@[i]).1,
        ) by {
            let s0 = old(vm).ntables@[nid as int]@;
            let s1 = vm.ntables@[nid as int]@;
            if ntable_contains(s0, gkey@) {
                if i == crate::table::ntable_index(s0, gkey@) {
                } else {
                    assert(s1[i] == s0[i]);
                    assert(valid_value(*old(vm), s0[i].1));
                }
            } else {
                if i < s0.len() {
                    assert(s1[i] == s0[i]);
                    assert(valid_value(*old(vm), s0[i].1));
                }
            }
        }
        crate::vm::lemma_wf_update_ntable(*old(vm), *vm, nid as int);
    }
}

impl RuntimeValue {
    /// Store `val` under `attr_name` on this value: same per-kind
    /// dispatch as resolution, with no fallthrough to the declaring
    /// type; a kind with no attribute concept fails with
    /// `ValueHasNoAttributes` and changes nothing.
    pub fn write_attribute(&self, attr_name: Symbol, val: RuntimeValue, vm: &mut Vm) -> (r:
        Result<(), AttributeError>)
        requires
            old(vm).wf(),
            valid_value(*old(vm), *self),
            valid_value(*old(vm), val),
        ensures
            final(vm).wf(),
            r == spec_write_result(*old(vm), *self, attr_name),
            spec_write_effect(*old(vm), *final(vm), *self, attr_name, val),
    {
        match self {
            RuntimeValue::Object(o) => {
                let tid = vm.objects[*o].fields;
                set_in_table(vm, tid, attr_name, val);
                Ok(())
            },
            RuntimeValue::Integer(_, ext) => {
                set_in_table(vm, *ext, attr_name, val);
                Ok(())
            },
            RuntimeValue::Float(_, ext) => {
                set_in_table(vm, *ext, attr_name, val);
                Ok(())
            },
            RuntimeValue::Boolean(_, ext) => {
                set_in_table(vm, *ext, attr_name, val);
                Ok(())
            },
            RuntimeValue::Str(_, ext) => {
                set_in_table(vm, *ext, attr_name, val);
                Ok(())
            },
            RuntimeValue::Function(f) => {
                let tid = vm.functions[*f].fields;
                set_in_table(vm, tid, attr_name, val);
                Ok(())
            },
            RuntimeValue::List(l) => {
                let tid = vm.lists[*l].fields;
                set_in_table(vm, tid, attr_name, val);
                Ok(())
            },
            RuntimeValue::Type(t) => {
                let tid = vm.types[*t].members;
                set_in_table(vm, tid, attr_name, val);
                Ok(())
            },
            RuntimeValue::Mixin(m) => {
                let tid = vm.mixins[*m].members;
                set_in_table(vm, tid, attr_name, val);
                Ok(())
            },
            RuntimeValue::Module(m) => {
                let name = match vm.interner.resolve(attr_name) {
                    Some(n) => n.clone(),
                    None => {
                        return Err(AttributeError::NoSuchAttribute);
                    },
                };
                let eid = vm.modules[*m].entries;
                set_in_ntable(vm, eid, name, val);
                Ok(())
            },
            _ => Err(AttributeError::ValueHasNoAttributes),
        }
    }
}


/// The names of the given symbols in interning order, dropping those
/// the interner cannot resolve (diagnostics-only loss).
pub open spec fn spec_resolve_all(vm: Vm, syms: Seq<Symbol>) -> Seq<Seq<char>>
    decreases syms.len(),
{
    if syms.len() == 0 {
        Seq::empty()
    } else {
        let rest = spec_resolve_all(vm, syms.drop_first());
        if syms[0].sid() < vm.interner@.len() {
            seq![vm.interner@[syms[0].sid() as int]] + rest
        } else {
            rest
        }
    }
}

/// The attribute symbols a value enumerates: instance storage first,
/// then (where applicable) the declaring type's or builtin registry's
/// member names.
pub open spec fn spec_attr_symbols(vm: Vm, v: RuntimeValue) -> Seq<Symbol> {
    match v {
        RuntimeValue::Object(o) => table_keys(vm.obj_fields(o as int)) + table_keys(
            vm.type_members(vm.objects@[o as int].struct_id as int),
        ),
        RuntimeValue::Mixin(m) => table_keys(vm.mixin_members(m as int)),
        RuntimeValue::EnumValue(e) => table_keys(
            vm.type_members(vm.enum_values@[e as int].enum_id as int),
        ),
        RuntimeValue::Integer(_, ext) => table_keys(vm.ext_table(ext as int)) + table_keys(
            vm.builtin_members(BuiltinTypeId::Int),
        ),
        RuntimeValue::Float(_, ext) => table_keys(vm.ext_table(ext as int)) + table_keys(
            vm.builtin_members(BuiltinTypeId::Float),
        ),
        RuntimeValue::Str(_, ext) => table_keys(vm.ext_table(ext as int)) + table_keys(
            vm.builtin_members(BuiltinTypeId::Str),
        ),
        RuntimeValue::Boolean(_, ext) => table_keys(vm.ext_table(ext as int)) + table_keys(
            vm.builtin_members(BuiltinTypeId::Bool),
        ),
        RuntimeValue::List(l) => table_keys(vm.list_fields(l as int)) + table_keys(
            vm.builtin_members(BuiltinTypeId::List),
        ),
        RuntimeValue::Function(f) => table_keys(vm.fun_fields(f as int)),
        _ => Seq::empty(),
    }
}

/// What attribute enumeration returns, as strings: module names come
/// straight from string-addressed storage, everything else resolves
/// its symbols through the interner.
pub open spec fn spec_list_attributes(vm: Vm, v: RuntimeValue) -> Seq<Seq<char>> {
    match v {
        RuntimeValue::Module(m) => ntable_keys(vm.module_entries(m as int)),
        _ => spec_resolve_all(vm, spec_attr_symbols(vm, v)),
    }
}

/// Appending a symbol appends its name (or nothing, if unresolvable).
pub proof fn lemma_resolve_all_push(vm: Vm, syms: Seq<Symbol>, x: Symbol)
    ensures
        spec_resolve_all(vm, syms.push(x)) == spec_resolve_all(vm, syms) + (
        if x.sid() < vm.interner@.len() {
            seq![vm.interner@[x.sid() as int]]
        } else {
            Seq::<Seq<char>>::empty()
        }),
    decreases syms.len(),
{
    let tail = if x.sid() < vm.interner@.len() {
        seq![vm.interner@[x.sid() as int]]
    } else {
        Seq::<Seq<char>>::empty()
    };
    if syms.len() == 0 {
        assert(syms.push(x).drop_first() =~= syms);
        assert(syms.push(x)[0] == x);
        assert(spec_resolve_all(vm, syms.push(x)) =~= spec_resolve_all(vm, syms) + tail);
    } else {
        assert(syms.push(x).drop_first() =~= syms.drop_first().push(x));
        lemma_resolve_all_push(vm, syms.drop_first(), x);
        assert(syms.push(x)[0] == syms[0]);
        if syms[0].sid() < vm.interner@.len() {
            assert(seq![vm.interner@[syms[0].sid() as int]] + (spec_resolve_all(
                vm,
                syms.drop_first(),
            ) + tail) =~= (seq![vm.interner@[syms[0].sid() as int]] + spec_resolve_all(
                vm,
                syms.drop_first(),
            )) + tail);
        }
    }
}

/// A name appears among the resolved names exactly when one of the
/// symbols resolves to it.
pub proof fn lemma_resolve_all_membership(vm: Vm, syms: Seq<Symbol>, name: Seq<char>)
    ensures
        spec_resolve_all(vm, syms).contains(name) <==> exists|i: int|
            0 <= i < syms.len() && (#[trigger] syms[i]).sid() < vm.interner@.len()
                && vm.interner@[syms[i].sid() as int] == name,
    decreases syms.len(),
{
    if syms.len() == 0 {
    } else {
        lemma_resolve_all_membership(vm, syms.drop_first(), name);
        let rest = spec_resolve_all(vm, syms.drop_first());
        if syms[0].sid() < vm.interner@.len() {
            let head = seq![vm.interner@[syms[0].sid() as int]];
            let whole = head + rest;
            if vm.interner@[syms[0].sid() as int] == name {
                assert(whole[0] == name);
                assert(whole.contains(name));
            }
            if whole.contains(name) {
                let w = choose|w: int| 0 <= w < whole.len() && whole[w] == name;
                if w == 0 {
                    assert(syms[0].sid() < vm.interner@.len() && vm.interner@[syms[0].sid()
                        as int] == name);
                } else {
                    assert(rest[w - 1] == name);
                    assert(rest.contains(name));
                    let i = choose|i: int|
                        0 <= i < syms.drop_first().len() && (#[trigger] syms.drop_first()[i]).sid()
                            < vm.interner@.len() && vm.interner@[syms.drop_first()[i].sid()
                            as int] == name;
                    assert(syms[i + 1] == syms.drop_first()[i]);
                }
            } else {
                assert(!rest.contains(name)) by {
                    if rest.contains(name) {
                        let w = choose|w: int| 0 <= w < rest.len() && rest[w] == name;
                        assert(whole[w + 1] == name);
                    }
                }
            }
            if exists|i: int|
                0 <= i < syms.len() && (#[trigger] syms[i]).sid() < vm.interner@.len()
                    && vm.interner@[syms[i].sid() as int] == name {
                let i = choose|i: int|
                    0 <= i < syms.len() && (#[trigger] syms[i]).sid() < vm.interner@.len()
                        && vm.interner@[syms[i].sid() as int] == name;
                if i == 0 {
                    assert(whole[0] == name);
                } else {
                    assert(syms.drop_first()[i - 1] == syms[i]);
                    assert(rest.contains(name));
                    let w = choose|w: int| 0 <= w < rest.len() && rest[w] == name;
                    assert(whole[w + 1] == name);
                }
            }
        } else {
            assert forall|i: int|
                0 <= i < syms.len() && (#[trigger] syms[i]).sid() < vm.interner@.len()
                    && vm.interner@[syms[i].sid() as int] == name implies rest.contains(name) by {
                if i > 0 {
                    assert(syms.drop_first()[i - 1] == syms[i]);
                }
            }
            if rest.contains(name) {
                let i = choose|i: int|
                    0 <= i < syms.drop_first().len() && (#[trigger] syms.drop_first()[i]).sid()
                        < vm.interner@.len() && vm.interner@[syms.drop_first()[i].sid()
                        as int] == name;
                assert(syms[i + 1] == syms.drop_first()[i]);
            }
        }
    }
}

/// Resolve a batch of symbols to names, dropping unresolvable ones.
fn resolve_attrs(vm: &Vm, syms: &Vec<Symbol>) -> (r: Vec<String>)
    ensures
        strings_view(r@) == spec_resolve_all(*vm, syms@),
{
    let n = syms.len();
    let mut out: Vec<String> = Vec::new();
    let mut i: usize = 0;
    while i < n
        invariant
            n == syms@.len(),
            i <= n,
            strings_view(out@) =~= spec_resolve_all(*vm, syms@.take(i as int)),
        decreases n - i,
    {
        proof {
            assert(syms@.take(i as int).push(syms@[i as int]) =~= syms@.take(i as int + 1));
            lemma_resolve_all_push(*vm, syms@.take(i as int), syms@[i as int]);
        }
        match vm.interner.resolve(syms[i]) {
            Some(name) => {
                let cl = name.clone();
                proof {
                    assert(cl@ == vm.interner@[syms@[i as int].sid() as int]);
                }
                let ghost prev = out@;
                out.push(cl);
                proof {
                    assert(out@ == prev.push(cl));
                    assert(strings_view(prev).len() == prev.len());
                    assert forall|j: int| 0 <= j <= prev.len() implies strings_view(out@)[j]
                        == spec_resolve_all(*vm, syms@.take(i as int + 1))[j] by {
                        if j < prev.len() {
                            assert(out@[j] == prev[j]);
                            assert(strings_view(prev)[j] == spec_resolve_all(
                                *vm,
                                syms@.take(i as int),
                            )[j]);
                        } else {
                            assert(out@[j] == cl);
                        }
                    }
                    assert(strings_view(out@) =~= spec_resolve_all(
                        *vm,
                        syms@.take(i as int + 1),
                    ));
                }
            },
            None => {
                proof {
                    assert(strings_view(out@) =~= spec_resolve_all(
                        *vm,
                        syms@.take(i as int + 1),
                    ));
                }
            },
        }
        i += 1;
    }
    proof {
        assert(syms@.take(n as int) =~= syms@);
    }
    out
}

impl RuntimeValue {
    /// Enumerate this value's attribute names as strings: instance
    /// names joined with the declaring type's or builtin registry's
    /// member names, resolved through the interner; names that fail to
    /// resolve are silently dropped.
    pub fn list_attributes(&self, vm: &Vm) -> (r: Vec<String>)
        requires
            vm.wf(),
            valid_value(*vm, *self),
        ensures
            strings_view(r@) == spec_list_attributes(*vm, *self),
    {
        match self {
            RuntimeValue::Object(o) => {
                let fid = vm.objects[*o].fields;
                let mid = vm.types[vm.objects[*o].struct_id].members;
                let mut syms = vm.tables[fid].keys();
                let mut more = vm.tables[mid].keys();
                syms.append(&mut more);
                resolve_attrs(vm, &syms)
            },
            RuntimeValue::Mixin(m) => {
                let mid = vm.mixins[*m].members;
                let syms = vm.tables[mid].keys();
                resolve_attrs(vm, &syms)
            },
            RuntimeValue::EnumValue(e) => {
                let mid = vm.types[vm.enum_values[*e].enum_id].members;
                let syms = vm.tables[mid].keys();
                resolve_attrs(vm, &syms)
            },
            RuntimeValue::Integer(_, ext) => {
                let bt = vm.get_builtin_type_by_id(BuiltinTypeId::Int);
                let mut syms = vm.tables[*ext].keys();
                let mut more = vm.tables[vm.types[bt].members].keys();
                syms.append(&mut more);
                resolve_attrs(vm, &syms)
            },
            RuntimeValue::Float(_, ext) => {
                let bt = vm.get_builtin_type_by_id(BuiltinTypeId::Float);
                let mut syms = vm.tables[*ext].keys();
                let mut more = vm.tables[vm.types[bt].members].keys();
                syms.append(&mut more);
                resolve_attrs(vm, &syms)
            },
            RuntimeValue::Str(_, ext) => {
                let bt = vm.get_builtin_type_by_id(BuiltinTypeId::Str);
                let mut syms = vm.tables[*ext].keys();
                let mut more = vm.tables[vm.types[bt].members].keys();
                syms.append(&mut more);
                resolve_attrs(vm, &syms)
            },
            RuntimeValue::Boolean(_, ext) => {
                let bt = vm.get_builtin_type_by_id(BuiltinTypeId::Bool);
                let mut syms = vm.tables[*ext].keys();
                let mut more = vm.tables[vm.types[bt].members].keys();
                syms.append(&mut more);
                resolve_attrs(vm, &syms)
            },
            RuntimeValue::List(l) => {
                let bt = vm.get_builtin_type_by_id(BuiltinTypeId::List);
                let fid = vm.lists[*l].fields;
                let mut syms = vm.tables[fid].keys();
                let mut more = vm.tables[vm.types[bt].members].keys();
                syms.append(&mut more);
                resolve_attrs(vm, &syms)
            },
            RuntimeValue::Function(f) => {
                let fid = vm.functions[*f].fields;
                let syms = vm.tables[fid].keys();
                resolve_attrs(vm, &syms)
            },
            RuntimeValue::Module(m) => {
                let eid = vm.modules[*m].entries;
                vm.ntables[eid].keys()
            },
            _ => Vec::new(),
        }
    }
}

/// Listing an object's attributes yields the union of its written
/// field names and its declaring type's member names, as strings, with
/// no omissions from either source: a name is in the result exactly
/// when some symbol from one of the two tables resolves to it.
pub proof fn lemma_object_attributes_union(vm: Vm, o: usize, name: Seq<char>)
    requires
        vm.wf(),
        (o as int) < vm.objects@.len(),
    ensures
        spec_list_attributes(vm, RuntimeValue::Object(o)).contains(name) <==> exists|s: Symbol|
            #![auto]
            (table_keys(vm.obj_fields(o as int)).contains(s) || table_keys(
                vm.type_members(vm.objects@[o as int].struct_id as int),
            ).contains(s)) && s.sid() < vm.interner@.len() && vm.interner@[s.sid() as int]
                == name,
{
    let syms = spec_attr_symbols(vm, RuntimeValue::Object(o));
    let inst = table_keys(vm.obj_fields(o as int));
    let tmem = table_keys(vm.type_members(vm.objects@[o as int].struct_id as int));
    lemma_resolve_all_membership(vm, syms, name);
    assert(syms == inst + tmem);
    if exists|i: int|
        0 <= i < syms.len() && (#[trigger] syms[i]).sid() < vm.interner@.len()
            && vm.interner@[syms[i].sid() as int] == name {
        let i = choose|i: int|
            0 <= i < syms.len() && (#[trigger] syms[i]).sid() < vm.interner@.len()
                && vm.interner@[syms[i].sid() as int] == name;
        if i < inst.len() {
            assert(inst[i] == syms[i]);
            assert(inst.contains(syms[i]));
        } else {
            assert(tmem[i - inst.len()] == syms[i]);
            assert(tmem.contains(syms[i]));
        }
    }
    if exists|s: Symbol|
        #![auto]
        (inst.contains(s) || tmem.contains(s)) && s.sid() < vm.interner@.len()
            && vm.interner@[s.sid() as int] == name {
        let s = choose|s: Symbol|
            #![auto]
            (inst.contains(s) || tmem.contains(s)) && s.sid() < vm.interner@.len()
                && vm.interner@[s.sid() as int] == name;
        if inst.contains(s) {
            let i = choose|i: int| 0 <= i < inst.len() && inst[i] == s;
            assert(syms[i] == s);
        } else {
            let i = choose|i: int| 0 <= i < tmem.len() && tmem[i] == s;
            assert(syms[inst.len() + i] == s);
        }
    }
}



/// The binding rule as an invariant of resolution: whenever resolution
/// answers with a function to bind, an instance path only ever binds an
/// instance-level function, and the direct path off a type descriptor
/// only ever binds a type-level function — the violations surface as
/// `InvalidFunctionBinding`, never as a mis-bound callable.
pub proof fn lemma_binding_rule(vm: Vm, v: RuntimeValue, sym: Symbol)
    requires
        vm.wf(),
        valid_value(vm, v),
    ensures
        match spec_read_attribute(vm, v, sym) {
            Ok(Resolved::Binds(f)) => f < vm.functions@.len() && (if v is Type {
                vm.functions@[f as int].is_type_method
            } else {
                !vm.functions@[f as int].is_type_method
            }),
            _ => true,
        },
{
    match spec_read_attribute(vm, v, sym) {
        Ok(Resolved::Binds(f)) => {
            match v {
                RuntimeValue::Object(o) => {
                    let t = vm.objects@[o as int].struct_id as int;
                    assert(vm.table_valid(vm.type_members(t)));
                    assert(table_contains(vm.type_members(t), sym));
                    let w = table_index(vm.type_members(t), sym);
                    assert(valid_value(vm, vm.type_members(t)[w].1));
                },
                RuntimeValue::EnumValue(e) => {
                    let t = vm.enum_values@[e as int].enum_id as int;
                    assert(vm.table_valid(vm.type_members(t)));
                    let w = table_index(vm.type_members(t), sym);
                    assert(valid_value(vm, vm.type_members(t)[w].1));
                },
                RuntimeValue::Integer(_, ext) => {
                    let t = vm.spec_builtin_type(BuiltinTypeId::Int) as int;
                    assert(vm.table_valid(vm.type_members(t)));
                    let w = table_index(vm.type_members(t), sym);
                    assert(valid_value(vm, vm.type_members(t)[w].1));
                },
                RuntimeValue::Float(_, ext) => {
                    let t = vm.spec_builtin_type(BuiltinTypeId::Float) as int;
                    assert(vm.table_valid(vm.type_members(t)));
                    let w = table_index(vm.type_members(t), sym);
                    assert(valid_value(vm, vm.type_members(t)[w].1));
                },
                RuntimeValue::Boolean(_, ext) => {
                    let t = vm.spec_builtin_type(BuiltinTypeId::Bool) as int;
                    assert(vm.table_valid(vm.type_members(t)));
                    let w = table_index(vm.type_members(t), sym);
                    assert(valid_value(vm, vm.type_members(t)[w].1));
                },
                RuntimeValue::Str(_, ext) => {
                    let t = vm.spec_builtin_type(BuiltinTypeId::Str) as int;
                    assert(vm.table_valid(vm.type_members(t)));
                    let w = table_index(vm.type_members(t), sym);
                    assert(valid_value(vm, vm.type_members(t)[w].1));
                },
                RuntimeValue::List(l) => {
                    let t = vm.spec_builtin_type(BuiltinTypeId::List) as int;
                    assert(vm.table_valid(vm.type_members(t)));
                    let w = table_index(vm.type_members(t), sym);
                    assert(valid_value(vm, vm.type_members(t)[w].1));
                },
                RuntimeValue::Type(t) => {
                    assert(vm.table_valid(vm.type_members(t as int)));
                    let w = table_index(vm.type_members(t as int), sym);
                    assert(valid_value(vm, vm.type_members(t as int)[w].1));
                },
                RuntimeValue::Mixin(m) => {
                    assert(vm.table_valid(vm.mixin_members(m as int)));
                    let w = table_index(vm.mixin_members(m as int), sym);
                    assert(valid_value(vm, vm.mixin_members(m as int)[w].1));
                },
                _ => {},
            }
        },
        _ => {},
    }
}

/// A write to a kind with no attribute concept — an opaque value, a
/// code object, a bound function, an enumerated-case value or a
/// type-check value — fails with `ValueHasNoAttributes` and leaves the
/// state untouched, whatever the symbol and value.
pub proof fn lemma_write_no_attribute_concept(
    vm: Vm,
    b: Vm,
    v: RuntimeValue,
    sym: Symbol,
    val: RuntimeValue,
)
    requires
        v is Opaque || v is CodeObject || v is BoundFunction || v is EnumValue || v
            is TypeCheck,
    ensures
        spec_write_result(vm, v, sym) == Err::<(), AttributeError>(
            AttributeError::ValueHasNoAttributes,
        ),
        spec_write_effect(vm, b, v, sym, val) ==> b == vm,
{
}

} // verus!
