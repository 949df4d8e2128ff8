//! The virtual-machine state: append-only arenas holding the shared
//! payloads of every value kind, the symbol interner, the builtin-type
//! registry, and the reserved operator symbols.
//!
//! Handles ([`RuntimeValue`]) index into these arenas; aliasing a handle
//! aliases the record, which gives the "mutate through one handle,
//! visible through all handles" semantics of shared values. Every field
//! table lives in the `tables` arena (string-addressed module storage in
//! `ntables`) and records refer to tables by index, so the only in-place
//! mutation anywhere is the replacement of one table. All other arenas
//! only ever grow, and an enum-case record can only refer to records
//! created before it, which bounds recursion through enum payloads.

use crate::symbol::{spec_intern_strs, spec_intern_sym, InternError, Interner, Symbol};
use crate::table::{lemma_table_set, ntable_wf, spec_table_set, table_contains, table_index, table_wf, FieldTable, NameTable};
use crate::value::RuntimeValue;
use vstd::prelude::*;
use vstd::string::StringExecFns;

verus! {

/// A user-defined object: its declaring type and its private fields.
pub struct ObjectRecord {
    pub struct_id: usize,
    pub fields: usize,
}

/// The three flavors of type descriptor.
#[derive(Clone, Copy, Debug, PartialEq, Eq, Structural)]
pub enum TypeKind {
    Struct,
    Enum,
    RustNative,
}

/// A type descriptor: member table shared by every instance, populated
/// at module load and extended (append-only) by extension registration.
pub struct TypeRecord {
    pub name: String,
    pub kind: TypeKind,
    pub members: usize,
}

/// Builtin callables implemented by the host rather than by bytecode.
#[derive(Clone, Copy, Debug, PartialEq, Eq, Structural)]
pub enum NativeFunction {
    HasAttr,
}

/// What runs when a function is called: a code object executed by the
/// engine, or a native builtin.
#[derive(Clone, Copy, Debug, PartialEq, Eq, Structural)]
pub enum FunctionBody {
    Code(usize),
    Native(NativeFunction),
}

/// A first-class function: the flag distinguishes type-level methods
/// from instance methods for the binding rule.
pub struct FunctionRecord {
    pub name: String,
    pub is_type_method: bool,
    pub required_argc: u8,
    pub fields: usize,
    pub body: FunctionBody,
}

/// Executable-code descriptor. Two handles are the same code object
/// exactly when they share an arena record, mirroring shared-body
/// identity.
pub struct CodeObject {
    pub name: String,
    pub required_argc: u8,
    pub default_argc: u8,
    pub frame_size: u8,
}

/// A callable paired with a fixed receiver; produced only by attribute
/// resolution.
pub struct BoundFunctionRecord {
    pub receiver: RuntimeValue,
    pub function: usize,
}

/// A named-value container addressed by string, reflecting its
/// cross-module nature.
pub struct ModuleRecord {
    pub name: String,
    pub entries: usize,
}

pub struct MixinRecord {
    pub name: String,
    pub members: usize,
}

/// One case of an enumerated type, with an optional payload. The
/// payload is fixed at construction, so it can only reference records
/// older than this one.
pub struct EnumValueRecord {
    pub enum_id: usize,
    pub case_index: usize,
    pub payload: Option<RuntimeValue>,
}

pub struct ListRecord {
    pub items: Vec<RuntimeValue>,
    pub fields: usize,
}

/// The fixed set of kinds the builtin-type registry maps to shared
/// descriptors, used for operator-fallback lookup and for the
/// "Unimplemented" sentinel identity check.
#[derive(Clone, Copy, Debug, PartialEq, Eq, Structural)]
pub enum BuiltinTypeId {
    Int,
    Float,
    Bool,
    Str,
    List,
    Unimplemented,
}

/// Shared type descriptors for the builtin kinds, created once per VM.
pub struct BuiltinTypes {
    pub int_id: usize,
    pub float_id: usize,
    pub bool_id: usize,
    pub str_id: usize,
    pub list_id: usize,
    pub unimplemented_id: usize,
}

/// The reserved attribute names the operator protocol resolves,
/// interned once at VM initialization.
pub struct ReservedSymbols {
    pub op_add: Symbol,
    pub op_radd: Symbol,
    pub op_sub: Symbol,
    pub op_rsub: Symbol,
    pub op_mul: Symbol,
    pub op_rmul: Symbol,
    pub op_div: Symbol,
    pub op_rdiv: Symbol,
    pub op_rem: Symbol,
    pub op_rrem: Symbol,
    pub op_lshift: Symbol,
    pub op_rlshift: Symbol,
    pub op_rshift: Symbol,
    pub op_rrshift: Symbol,
    pub op_bwand: Symbol,
    pub op_rbwand: Symbol,
    pub op_bwor: Symbol,
    pub op_rbwor: Symbol,
    pub op_xor: Symbol,
    pub op_rxor: Symbol,
    pub op_lt: Symbol,
    pub op_gt: Symbol,
    pub op_lteq: Symbol,
    pub op_gteq: Symbol,
    pub op_neg: Symbol,
    pub op_equals: Symbol,
    pub op_call: Symbol,
    pub op_prettyprint: Symbol,
    pub op_read_index: Symbol,
    pub op_write_index: Symbol,
}

/// The whole VM state that dispatch works against.
pub struct Vm {
    pub interner: Interner,
    pub texts: Vec<String>,
    pub tables: Vec<FieldTable>,
    pub ntables: Vec<NameTable>,
    pub objects: Vec<ObjectRecord>,
    pub types: Vec<TypeRecord>,
    pub functions: Vec<FunctionRecord>,
    pub code_objects: Vec<CodeObject>,
    pub bound_functions: Vec<BoundFunctionRecord>,
    pub lists: Vec<ListRecord>,
    pub mixins: Vec<MixinRecord>,
    pub modules: Vec<ModuleRecord>,
    pub enum_values: Vec<EnumValueRecord>,
    pub opaque_count: usize,
    pub type_check_count: usize,
    pub symbols: ReservedSymbols,
    pub builtin_types: BuiltinTypes,
    pub builtin_functions: usize,
}

/// Every index a handle carries points inside the owning arena. For a
/// primitive the second index is its per-handle extension-storage table.
pub open spec fn valid_value(vm: Vm, v: RuntimeValue) -> bool {
    match v {
        RuntimeValue::Integer(_, ext) => ext < vm.tables@.len(),
        RuntimeValue::Float(_, ext) => ext < vm.tables@.len(),
        RuntimeValue::Boolean(_, ext) => ext < vm.tables@.len(),
        RuntimeValue::Str(t, ext) => t < vm.texts@.len() && ext < vm.tables@.len(),
        RuntimeValue::Object(o) => o < vm.objects@.len(),
        RuntimeValue::EnumValue(e) => e < vm.enum_values@.len(),
        RuntimeValue::CodeObject(c) => c < vm.code_objects@.len(),
        RuntimeValue::Function(f) => f < vm.functions@.len(),
        RuntimeValue::BoundFunction(b) => b < vm.bound_functions@.len(),
        RuntimeValue::List(l) => l < vm.lists@.len(),
        RuntimeValue::Mixin(m) => m < vm.mixins@.len(),
        RuntimeValue::Type(t) => t < vm.types@.len(),
        RuntimeValue::Module(m) => m < vm.modules@.len(),
        RuntimeValue::Opaque(o) => o < vm.opaque_count,
        RuntimeValue::TypeCheck(t) => t < vm.type_check_count,
    }
}

impl Vm {
    /// A symbol-keyed table whose stored values are all valid handles.
    pub open spec fn table_valid(self, t: Seq<(Symbol, RuntimeValue)>) -> bool {
        &&& table_wf(t)
        &&& forall|i: int| 0 <= i < t.len() ==> valid_value(self, (#[trigger] t[i]).1)
    }

    /// A string-keyed table whose stored values are all valid handles.
    pub open spec fn ntable_valid(self, t: Seq<(String, RuntimeValue)>) -> bool {
        &&& ntable_wf(t)
        &&& forall|i: int| 0 <= i < t.len() ==> valid_value(self, (#[trigger] t[i]).1)
    }

    /// Well-formedness of the whole VM state: every stored handle is
    /// valid, declaring types have the right kind, enum-case payloads
    /// only point backwards, and the builtin registry names six
    /// distinct struct descriptors.
    pub open spec fn wf(self) -> bool {
        &&& self.interner.wf()
        &&& forall|i: int|
            0 <= i < self.tables@.len() ==> self.table_valid((#[trigger] self.tables@[i])@)
        &&& forall|i: int|
            0 <= i < self.ntables@.len() ==> self.ntable_valid((#[trigger] self.ntables@[i])@)
        &&& forall|i: int|
            0 <= i < self.objects@.len() ==> {
                let o = #[trigger] self.objects@[i];
                &&& o.struct_id < self.types@.len()
                &&& self.types@[o.struct_id as int].kind is Struct
                &&& o.fields < self.tables@.len()
            }
        &&& forall|i: int|
            0 <= i < self.types@.len() ==> (#[trigger] self.types@[i]).members
                < self.tables@.len()
        &&& forall|i: int|
            0 <= i < self.functions@.len() ==> {
                let f = #[trigger] self.functions@[i];
                &&& f.fields < self.tables@.len()
                &&& match f.body {
                    FunctionBody::Code(c) => c < self.code_objects@.len(),
                    FunctionBody::Native(_) => true,
                }
            }
        &&& forall|i: int|
            0 <= i < self.bound_functions@.len() ==> {
                let b = #[trigger] self.bound_functions@[i];
                &&& valid_value(self, b.receiver)
                &&& b.function < self.functions@.len()
            }
        &&& forall|i: int|
            0 <= i < self.lists@.len() ==> {
                let l = #[trigger] self.lists@[i];
                &&& l.fields < self.tables@.len()
                &&& forall|j: int|
                    0 <= j < l.items@.len() ==> valid_value(self, #[trigger] l.items@[j])
            }
        &&& forall|i: int|
            0 <= i < self.mixins@.len() ==> (#[trigger] self.mixins@[i]).members
                < self.tables@.len()
        &&& forall|i: int|
            0 <= i < self.modules@.len() ==> (#[trigger] self.modules@[i]).entries
                < self.ntables@.len()
        &&& forall|i: int|
            0 <= i < self.enum_values@.len() ==> {
                let e = #[trigger] self.enum_values@[i];
                &&& e.enum_id < self.types@.len()
                &&& self.types@[e.enum_id as int].kind is Enum
                &&& match e.payload {
                    Some(p) => valid_value(self, p) && match p {
                        RuntimeValue::EnumValue(j) => j < i,
                        _ => true,
                    },
                    None => true,
                }
            }
        &&& self.builtin_registry_wf()
        &&& self.builtin_functions < self.ntables@.len()
    }

    /// The builtin registry names six distinct struct descriptors.
    pub open spec fn builtin_registry_wf(self) -> bool {
        &&& self.builtin_types.int_id < self.types@.len()
        &&& self.builtin_types.float_id < self.types@.len()
        &&& self.builtin_types.bool_id < self.types@.len()
        &&& self.builtin_types.str_id < self.types@.len()
        &&& self.builtin_types.list_id < self.types@.len()
        &&& self.builtin_types.unimplemented_id < self.types@.len()
        &&& self.types@[self.builtin_types.int_id as int].kind is Struct
        &&& self.types@[self.builtin_types.float_id as int].kind is Struct
        &&& self.types@[self.builtin_types.bool_id as int].kind is Struct
        &&& self.types@[self.builtin_types.str_id as int].kind is Struct
        &&& self.types@[self.builtin_types.list_id as int].kind is Struct
        &&& self.types@[self.builtin_types.unimplemented_id as int].kind is Struct
        &&& self.builtin_types.int_id != self.builtin_types.float_id
        &&& self.builtin_types.int_id != self.builtin_types.bool_id
        &&& self.builtin_types.int_id != self.builtin_types.str_id
        &&& self.builtin_types.int_id != self.builtin_types.list_id
        &&& self.builtin_types.int_id != self.builtin_types.unimplemented_id
        &&& self.builtin_types.float_id != self.builtin_types.bool_id
        &&& self.builtin_types.float_id != self.builtin_types.str_id
        &&& self.builtin_types.float_id != self.builtin_types.list_id
        &&& self.builtin_types.float_id != self.builtin_types.unimplemented_id
        &&& self.builtin_types.bool_id != self.builtin_types.str_id
        &&& self.builtin_types.bool_id != self.builtin_types.list_id
        &&& self.builtin_types.bool_id != self.builtin_types.unimplemented_id
        &&& self.builtin_types.str_id != self.builtin_types.list_id
        &&& self.builtin_types.str_id != self.builtin_types.unimplemented_id
        &&& self.builtin_types.list_id != self.builtin_types.unimplemented_id
    }
}

/// Arena sizes never shrink from `a` to `b`.
pub open spec fn grows(a: Vm, b: Vm) -> bool {
    &&& a.texts@.len() <= b.texts@.len()
    &&& a.tables@.len() <= b.tables@.len()
    &&& a.ntables@.len() <= b.ntables@.len()
    &&& a.objects@.len() <= b.objects@.len()
    &&& a.types@.len() <= b.types@.len()
    &&& a.functions@.len() <= b.functions@.len()
    &&& a.code_objects@.len() <= b.code_objects@.len()
    &&& a.bound_functions@.len() <= b.bound_functions@.len()
    &&& a.lists@.len() <= b.lists@.len()
    &&& a.mixins@.len() <= b.mixins@.len()
    &&& a.modules@.len() <= b.modules@.len()
    &&& a.enum_values@.len() <= b.enum_values@.len()
    &&& a.opaque_count <= b.opaque_count
    &&& a.type_check_count <= b.type_check_count
}

/// A handle valid in a smaller state stays valid after the arenas grow.
pub proof fn lemma_valid_value_grow(a: Vm, b: Vm)
    requires
        grows(a, b),
    ensures
        forall|v: RuntimeValue| valid_value(a, v) ==> #[trigger] valid_value(b, v),
{
}

/// `b` is `a` with records appended: every existing record unchanged,
/// the reserved symbols and registry as they were.
pub open spec fn extends(b: Vm, a: Vm) -> bool {
    &&& b.symbols == a.symbols
    &&& b.builtin_types == a.builtin_types
    &&& b.builtin_functions == a.builtin_functions
    &&& a.texts@.is_prefix_of(b.texts@)
    &&& a.tables@.is_prefix_of(b.tables@)
    &&& a.ntables@.is_prefix_of(b.ntables@)
    &&& a.objects@.is_prefix_of(b.objects@)
    &&& a.types@.is_prefix_of(b.types@)
    &&& a.functions@.is_prefix_of(b.functions@)
    &&& a.code_objects@.is_prefix_of(b.code_objects@)
    &&& a.bound_functions@.is_prefix_of(b.bound_functions@)
    &&& a.lists@.is_prefix_of(b.lists@)
    &&& a.mixins@.is_prefix_of(b.mixins@)
    &&& a.modules@.is_prefix_of(b.modules@)
    &&& a.enum_values@.is_prefix_of(b.enum_values@)
    &&& a.opaque_count <= b.opaque_count
    &&& a.type_check_count <= b.type_check_count
}

pub proof fn lemma_prefix_index<T>(a: Seq<T>, b: Seq<T>)
    requires
        a.is_prefix_of(b),
    ensures
        a.len() <= b.len(),
        forall|i: int| 0 <= i < a.len() ==> a[i] == #[trigger] b[i],
{
    assert(a =~= b.subrange(0, a.len() as int));
    assert forall|i: int| 0 <= i < a.len() implies a[i] == b[i] by {
        assert(b.subrange(0, a.len() as int)[i] == b[i]);
    }
}

pub proof fn lemma_table_valid_grow(a: Vm, b: Vm, t: Seq<(Symbol, RuntimeValue)>)
    requires
        a.table_valid(t),
        grows(a, b),
    ensures
        b.table_valid(t),
{
    lemma_valid_value_grow(a, b);
    assert forall|i: int| 0 <= i < t.len() implies valid_value(b, (#[trigger] t[i]).1) by {
        assert(valid_value(a, t[i].1));
    }
}

pub proof fn lemma_ntable_valid_grow(a: Vm, b: Vm, t: Seq<(String, RuntimeValue)>)
    requires
        a.ntable_valid(t),
        grows(a, b),
    ensures
        b.ntable_valid(t),
{
    lemma_valid_value_grow(a, b);
    assert forall|i: int| 0 <= i < t.len() implies valid_value(b, (#[trigger] t[i]).1) by {
        assert(valid_value(a, t[i].1));
    }
}

/// The prefixes of `extends` grow every arena.
pub proof fn lemma_extends_grows(a: Vm, b: Vm)
    requires
        extends(b, a),
    ensures
        grows(a, b),
{
}

/// Appending well-formed records to a well-formed state keeps it
/// well-formed: the workhorse behind every allocation.
pub proof fn lemma_wf_extends(a: Vm, b: Vm)
    requires
        a.wf(),
        b.interner.wf(),
        extends(b, a),
        forall|i: int|
            a.tables@.len() <= i < b.tables@.len() ==> b.table_valid(
                (#[trigger] b.tables@[i])@,
            ),
        forall|i: int|
            a.ntables@.len() <= i < b.ntables@.len() ==> b.ntable_valid(
                (#[trigger] b.ntables@[i])@,
            ),
        forall|i: int|
            a.objects@.len() <= i < b.objects@.len() ==> {
                let o = #[trigger] b.objects@[i];
                &&& o.struct_id < b.types@.len()
                &&& b.types@[o.struct_id as int].kind is Struct
                &&& o.fields < b.tables@.len()
            },
        forall|i: int|
            a.types@.len() <= i < b.types@.len() ==> (#[trigger] b.types@[i]).members
                < b.tables@.len(),
        forall|i: int|
            a.functions@.len() <= i < b.functions@.len() ==> {
                let f = #[trigger] b.functions@[i];
                &&& f.fields < b.tables@.len()
                &&& match f.body {
                    FunctionBody::Code(c) => c < b.code_objects@.len(),
                    FunctionBody::Native(_) => true,
                }
            },
        forall|i: int|
            a.bound_functions@.len() <= i < b.bound_functions@.len() ==> {
                let r = #[trigger] b.bound_functions@[i];
                &&& valid_value(b, r.receiver)
                &&& r.function < b.functions@.len()
            },
        forall|i: int|
            a.lists@.len() <= i < b.lists@.len() ==> {
                let l = #[trigger] b.lists@[i];
                &&& l.fields < b.tables@.len()
                &&& forall|j: int|
                    0 <= j < l.items@.len() ==> valid_value(b, #[trigger] l.items@[j])
            },
        forall|i: int|
            a.mixins@.len() <= i < b.mixins@.len() ==> (#[trigger] b.mixins@[i]).members
                < b.tables@.len(),
        forall|i: int|
            a.modules@.len() <= i < b.modules@.len() ==> (#[trigger] b.modules@[i]).entries
                < b.ntables@.len(),
        forall|i: int|
            a.enum_values@.len() <= i < b.enum_values@.len() ==> {
                let e = #[trigger] b.enum_values@[i];
                &&& e.enum_id < b.types@.len()
                &&& b.types@[e.enum_id as int].kind is Enum
                &&& match e.payload {
                    Some(p) => valid_value(b, p) && match p {
                        RuntimeValue::EnumValue(j) => j < i,
                        _ => true,
                    },
                    None => true,
                }
            },
    ensures
        b.wf(),
{
    lemma_extends_grows(a, b);
    lemma_valid_value_grow(a, b);
    lemma_prefix_index(a.texts@, b.texts@);
    lemma_prefix_index(a.tables@, b.tables@);
    lemma_prefix_index(a.ntables@, b.ntables@);
    lemma_prefix_index(a.objects@, b.objects@);
    lemma_prefix_index(a.types@, b.types@);
    lemma_prefix_index(a.functions@, b.functions@);
    lemma_prefix_index(a.code_objects@, b.code_objects@);
    lemma_prefix_index(a.bound_functions@, b.bound_functions@);
    lemma_prefix_index(a.lists@, b.lists@);
    lemma_prefix_index(a.mixins@, b.mixins@);
    lemma_prefix_index(a.modules@, b.modules@);
    lemma_prefix_index(a.enum_values@, b.enum_values@);
    assert forall|i: int| 0 <= i < b.tables@.len() implies b.table_valid(
        (#[trigger] b.tables@[i])@,
    ) by {
        if i < a.tables@.len() {
            assert(a.table_valid(a.tables@[i]@));
            lemma_table_valid_grow(a, b, a.tables@[i]@);
        }
    }
    assert forall|i: int| 0 <= i < b.ntables@.len() implies b.ntable_valid(
        (#[trigger] b.ntables@[i])@,
    ) by {
        if i < a.ntables@.len() {
            assert(a.ntable_valid(a.ntables@[i]@));
            lemma_ntable_valid_grow(a, b, a.ntables@[i]@);
        }
    }
    assert forall|i: int| 0 <= i < b.bound_functions@.len() implies {
        let r = #[trigger] b.bound_functions@[i];
        &&& valid_value(b, r.receiver)
        &&& r.function < b.functions@.len()
    } by {
        if i < a.bound_functions@.len() {
            assert(valid_value(a, a.bound_functions@[i].receiver));
        }
    }
    assert forall|i: int| 0 <= i < b.lists@.len() implies {
        let l = #[trigger] b.lists@[i];
        &&& l.fields < b.tables@.len()
        &&& forall|j: int| 0 <= j < l.items@.len() ==> valid_value(b, #[trigger] l.items@[j])
    } by {
        if i < a.lists@.len() {
            let l = a.lists@[i];
            assert forall|j: int| 0 <= j < l.items@.len() implies valid_value(
                b,
                #[trigger] l.items@[j],
            ) by {
                assert(valid_value(a, l.items@[j]));
            }
        }
    }
    assert forall|i: int| 0 <= i < b.enum_values@.len() implies {
        let e = #[trigger] b.enum_values@[i];
        &&& e.enum_id < b.types@.len()
        &&& b.types@[e.enum_id as int].kind is Enum
        &&& match e.payload {
            Some(p) => valid_value(b, p) && match p {
                RuntimeValue::EnumValue(j) => j < i,
                _ => true,
            },
            None => true,
        }
    } by {
        if i < a.enum_values@.len() {
            let e = a.enum_values@[i];
            match e.payload {
                Some(p) => {
                    assert(valid_value(a, p));
                },
                None => {},
            }
        }
    }
}

/// Replacing one symbol-keyed table with a well-formed table of valid
/// values keeps the state well-formed: the workhorse behind every
/// attribute write.
pub proof fn lemma_wf_update_table(a: Vm, b: Vm, i: int)
    requires
        a.wf(),
        0 <= i < a.tables@.len(),
        b.interner == a.interner,
        b.symbols == a.symbols,
        b.builtin_types == a.builtin_types,
        b.builtin_functions == a.builtin_functions,
        b.texts == a.texts,
        b.ntables == a.ntables,
        b.objects == a.objects,
        b.types == a.types,
        b.functions == a.functions,
        b.code_objects == a.code_objects,
        b.bound_functions == a.bound_functions,
        b.lists == a.lists,
        b.mixins == a.mixins,
        b.modules == a.modules,
        b.enum_values == a.enum_values,
        b.opaque_count == a.opaque_count,
        b.type_check_count == a.type_check_count,
        b.tables@.len() == a.tables@.len(),
        forall|j: int| 0 <= j < a.tables@.len() && j != i ==> b.tables@[j] == a.tables@[j],
        b.table_valid((b.tables@[i])@),
    ensures
        b.wf(),
{
    lemma_valid_value_grow(a, b);
    assert forall|j: int| 0 <= j < b.tables@.len() implies b.table_valid(
        (#[trigger] b.tables@[j])@,
    ) by {
        if j != i {
            assert(a.table_valid(a.tables@[j]@));
            lemma_table_valid_grow(a, b, a.tables@[j]@);
        }
    }
    assert forall|j: int| 0 <= j < b.ntables@.len() implies b.ntable_valid(
        (#[trigger] b.ntables@[j])@,
    ) by {
        assert(a.ntable_valid(a.ntables@[j]@));
        lemma_ntable_valid_grow(a, b, a.ntables@[j]@);
    }
    assert forall|j: int| 0 <= j < b.bound_functions@.len() implies {
        let r = #[trigger] b.bound_functions@[j];
        &&& valid_value(b, r.receiver)
        &&& r.function < b.functions@.len()
    } by {
        assert(valid_value(a, a.bound_functions@[j].receiver));
    }
    assert forall|j: int| 0 <= j < b.lists@.len() implies {
        let l = #[trigger] b.lists@[j];
        &&& l.fields < b.tables@.len()
        &&& forall|k: int| 0 <= k < l.items@.len() ==> valid_value(b, #[trigger] l.items@[k])
    } by {
        let l = a.lists@[j];
        assert forall|k: int| 0 <= k < l.items@.len() implies valid_value(
            b,
            #[trigger] l.items@[k],
        ) by {
            assert(valid_value(a, l.items@[k]));
        }
    }
    assert forall|j: int| 0 <= j < b.enum_values@.len() implies {
        let e = #[trigger] b.enum_values@[j];
        &&& e.enum_id < b.types@.len()
        &&& b.types@[e.enum_id as int].kind is Enum
        &&& match e.payload {
            Some(p) => valid_value(b, p) && match p {
                RuntimeValue::EnumValue(k) => k < j,
                _ => true,
            },
            None => true,
        }
    } by {
        let e = a.enum_values@[j];
        match e.payload {
            Some(p) => {
                assert(valid_value(a, p));
            },
            None => {},
        }
    }
}

/// Replacing one string-keyed table with a well-formed table of valid
/// values keeps the state well-formed.
pub proof fn lemma_wf_update_ntable(a: Vm, b: Vm, i: int)
    requires
        a.wf(),
        0 <= i < a.ntables@.len(),
        b.interner == a.interner,
        b.symbols == a.symbols,
        b.builtin_types == a.builtin_types,
        b.builtin_functions == a.builtin_functions,
        b.texts == a.texts,
        b.tables == a.tables,
        b.objects == a.objects,
        b.types == a.types,
        b.functions == a.functions,
        b.code_objects == a.code_objects,
        b.bound_functions == a.bound_functions,
        b.lists == a.lists,
        b.mixins == a.mixins,
        b.modules == a.modules,
        b.enum_values == a.enum_values,
        b.opaque_count == a.opaque_count,
        b.type_check_count == a.type_check_count,
        b.ntables@.len() == a.ntables@.len(),
        forall|j: int| 0 <= j < a.ntables@.len() && j != i ==> b.ntables@[j] == a.ntables@[j],
        b.ntable_valid((b.ntables@[i])@),
    ensures
        b.wf(),
{
    lemma_valid_value_grow(a, b);
    assert forall|j: int| 0 <= j < b.tables@.len() implies b.table_valid(
        (#[trigger] b.tables@[j])@,
    ) by {
        assert(a.table_valid(a.tables@[j]@));
        lemma_table_valid_grow(a, b, a.tables@[j]@);
    }
    assert forall|j: int| 0 <= j < b.ntables@.len() implies b.ntable_valid(
        (#[trigger] b.ntables@[j])@,
    ) by {
        if j != i {
            assert(a.ntable_valid(a.ntables@[j]@));
            lemma_ntable_valid_grow(a, b, a.ntables@[j]@);
        }
    }
    assert forall|j: int| 0 <= j < b.bound_functions@.len() implies {
        let r = #[trigger] b.bound_functions@[j];
        &&& valid_value(b, r.receiver)
        &&& r.function < b.functions@.len()
    } by {
        assert(valid_value(a, a.bound_functions@[j].receiver));
    }
    assert forall|j: int| 0 <= j < b.lists@.len() implies {
        let l = #[trigger] b.lists@[j];
        &&& l.fields < b.tables@.len()
        &&& forall|k: int| 0 <= k < l.items@.len() ==> valid_value(b, #[trigger] l.items@[k])
    } by {
        let l = a.lists@[j];
        assert forall|k: int| 0 <= k < l.items@.len() implies valid_value(
            b,
            #[trigger] l.items@[k],
        ) by {
            assert(valid_value(a, l.items@[k]));
        }
    }
    assert forall|j: int| 0 <= j < b.enum_values@.len() implies {
        let e = #[trigger] b.enum_values@[j];
        &&& e.enum_id < b.types@.len()
        &&& b.types@[e.enum_id as int].kind is Enum
        &&& match e.payload {
            Some(p) => valid_value(b, p) && match p {
                RuntimeValue::EnumValue(k) => k < j,
                _ => true,
            },
            None => true,
        }
    } by {
        let e = a.enum_values@[j];
        match e.payload {
            Some(p) => {
                assert(valid_value(a, p));
            },
            None => {},
        }
    }
}

/// Nothing changed but bound-function records appended: the only side
/// effect attribute resolution, and the protocols built on it, can
/// have.
pub open spec fn bound_only_growth(a: Vm, b: Vm) -> bool {
    &&& b == (Vm { bound_functions: b.bound_functions, ..a })
    &&& a.bound_functions@.is_prefix_of(b.bound_functions@)
}

pub proof fn lemma_bound_only_growth_refl(a: Vm)
    ensures
        bound_only_growth(a, a),
{
    lemma_self_prefix(a.bound_functions@);
}

pub proof fn lemma_bound_only_growth_trans(a: Vm, b: Vm, c: Vm)
    requires
        bound_only_growth(a, b),
        bound_only_growth(b, c),
    ensures
        bound_only_growth(a, c),
{
    lemma_prefix_index(a.bound_functions@, b.bound_functions@);
    lemma_prefix_index(b.bound_functions@, c.bound_functions@);
    assert(a.bound_functions@ =~= c.bound_functions@.subrange(
        0,
        a.bound_functions@.len() as int,
    ));
}

pub proof fn lemma_push_prefix<T>(a: Seq<T>, x: T)
    ensures
        a.is_prefix_of(a.push(x)),
{
    assert(a =~= a.push(x).subrange(0, a.len() as int));
}

pub proof fn lemma_self_prefix<T>(a: Seq<T>)
    ensures
        a.is_prefix_of(a),
{
    assert(a =~= a.subrange(0, a.len() as int));
}

/// All the prefix facts an allocation needs when it pushed nothing.
pub proof fn lemma_extends_refl(a: Vm)
    ensures
        extends(a, a),
{
    lemma_self_prefix(a.texts@);
    lemma_self_prefix(a.tables@);
    lemma_self_prefix(a.ntables@);
    lemma_self_prefix(a.objects@);
    lemma_self_prefix(a.types@);
    lemma_self_prefix(a.functions@);
    lemma_self_prefix(a.code_objects@);
    lemma_self_prefix(a.bound_functions@);
    lemma_self_prefix(a.lists@);
    lemma_self_prefix(a.mixins@);
    lemma_self_prefix(a.modules@);
    lemma_self_prefix(a.enum_values@);
}

/// The thirty reserved operator attribute names, in interning order.
pub open spec fn reserved_names() -> Seq<Seq<char>> {
    seq![
        "__add"@,
        "__radd"@,
        "__sub"@,
        "__rsub"@,
        "__mul"@,
        "__rmul"@,
        "__div"@,
        "__rdiv"@,
        "__rem"@,
        "__rrem"@,
        "__lshift"@,
        "__rlshift"@,
        "__rshift"@,
        "__rrshift"@,
        "__bwand"@,
        "__rbwand"@,
        "__bwor"@,
        "__rbwor"@,
        "__xor"@,
        "__rxor"@,
        "__lt"@,
        "__gt"@,
        "__lteq"@,
        "__gteq"@,
        "__neg"@,
        "__equals"@,
        "__call"@,
        "__prettyprint"@,
        "__read_index"@,
        "__write_index"@,
    ]
}

/// No two reserved names are the same string: names of equal length
/// differ at a witnessed character, the rest differ in length alone.
#[verifier::rlimit(100)]
proof fn lemma_reserved_names_distinct()
    ensures
        reserved_names().len() == 30,
        crate::symbol::distinct_seq(reserved_names()),
{
    reveal_strlit("__add");
    reveal_strlit("__radd");
    reveal_strlit("__sub");
    reveal_strlit("__rsub");
    reveal_strlit("__mul");
    reveal_strlit("__rmul");
    reveal_strlit("__div");
    reveal_strlit("__rdiv");
    reveal_strlit("__rem");
    reveal_strlit("__rrem");
    reveal_strlit("__lshift");
    reveal_strlit("__rlshift");
    reveal_strlit("__rshift");
    reveal_strlit("__rrshift");
    reveal_strlit("__bwand");
    reveal_strlit("__rbwand");
    reveal_strlit("__bwor");
    reveal_strlit("__rbwor");
    reveal_strlit("__xor");
    reveal_strlit("__rxor");
    reveal_strlit("__lt");
    reveal_strlit("__gt");
    reveal_strlit("__lteq");
    reveal_strlit("__gteq");
    reveal_strlit("__neg");
    reveal_strlit("__equals");
    reveal_strlit("__call");
    reveal_strlit("__prettyprint");
    reveal_strlit("__read_index");
    reveal_strlit("__write_index");
    assert("__add"@.len() == 5);
    assert("__radd"@.len() == 6);
    assert("__sub"@.len() == 5);
    assert("__rsub"@.len() == 6);
    assert("__mul"@.len() == 5);
    assert("__rmul"@.len() == 6);
    assert("__div"@.len() == 5);
    assert("__rdiv"@.len() == 6);
    assert("__rem"@.len() == 5);
    assert("__rrem"@.len() == 6);
    assert("__lshift"@.len() == 8);
    assert("__rlshift"@.len() == 9);
    assert("__rshift"@.len() == 8);
    assert("__rrshift"@.len() == 9);
    assert("__bwand"@.len() == 7);
    assert("__rbwand"@.len() == 8);
    assert("__bwor"@.len() == 6);
    assert("__rbwor"@.len() == 7);
    assert("__xor"@.len() == 5);
    assert("__rxor"@.len() == 6);
    assert("__lt"@.len() == 4);
    assert("__gt"@.len() == 4);
    assert("__lteq"@.len() == 6);
    assert("__gteq"@.len() == 6);
    assert("__neg"@.len() == 5);
    assert("__equals"@.len() == 8);
    assert("__call"@.len() == 6);
    assert("__prettyprint"@.len() == 13);
    assert("__read_index"@.len() == 12);
    assert("__write_index"@.len() == 13);
    assert("__lt"@[2] != "__gt"@[2]);
    assert("__lt"@ != "__gt"@);
    assert("__add"@[2] != "__sub"@[2]);
    assert("__add"@ != "__sub"@);
    assert("__add"@[2] != "__mul"@[2]);
    assert("__add"@ != "__mul"@);
    assert("__add"@[2] != "__div"@[2]);
    assert("__add"@ != "__div"@);
    assert("__add"@[2] != "__rem"@[2]);
    assert("__add"@ != "__rem"@);
    assert("__add"@[2] != "__xor"@[2]);
    assert("__add"@ != "__xor"@);
    assert("__add"@[2] != "__neg"@[2]);
    assert("__add"@ != "__neg"@);
    assert("__sub"@[2] != "__mul"@[2]);
    assert("__sub"@ != "__mul"@);
    assert("__sub"@[2] != "__div"@[2]);
    assert("__sub"@ != "__div"@);
    assert("__sub"@[2] != "__rem"@[2]);
    assert("__sub"@ != "__rem"@);
    assert("__sub"@[2] != "__xor"@[2]);
    assert("__sub"@ != "__xor"@);
    assert("__sub"@[2] != "__neg"@[2]);
    assert("__sub"@ != "__neg"@);
    assert("__mul"@[2] != "__div"@[2]);
    assert("__mul"@ != "__div"@);
    assert("__mul"@[2] != "__rem"@[2]);
    assert("__mul"@ != "__rem"@);
    assert("__mul"@[2] != "__xor"@[2]);
    assert("__mul"@ != "__xor"@);
    assert("__mul"@[2] != "__neg"@[2]);
    assert("__mul"@ != "__neg"@);
    assert("__div"@[2] != "__rem"@[2]);
    assert("__div"@ != "__rem"@);
    assert("__div"@[2] != "__xor"@[2]);
    assert("__div"@ != "__xor"@);
    assert("__div"@[2] != "__neg"@[2]);
    assert("__div"@ != "__neg"@);
    assert("__rem"@[2] != "__xor"@[2]);
    assert("__rem"@ != "__xor"@);
    assert("__rem"@[2] != "__neg"@[2]);
    assert("__rem"@ != "__neg"@);
    assert("__xor"@[2] != "__neg"@[2]);
    assert("__xor"@ != "__neg"@);
    assert("__radd"@[3] != "__rsub"@[3]);
    assert("__radd"@ != "__rsub"@);
    assert("__radd"@[3] != "__rmul"@[3]);
    assert("__radd"@ != "__rmul"@);
    assert("__radd"@[3] != "__rdiv"@[3]);
    assert("__radd"@ != "__rdiv"@);
    assert("__radd"@[3] != "__rrem"@[3]);
    assert("__radd"@ != "__rrem"@);
    assert("__radd"@[2] != "__bwor"@[2]);
    assert("__radd"@ != "__bwor"@);
    assert("__radd"@[3] != "__rxor"@[3]);
    assert("__radd"@ != "__rxor"@);
    assert("__radd"@[2] != "__lteq"@[2]);
    assert("__radd"@ != "__lteq"@);
    assert("__radd"@[2] != "__gteq"@[2]);
    assert("__radd"@ != "__gteq"@);
    assert("__radd"@[2] != "__call"@[2]);
    assert("__radd"@ != "__call"@);
    assert("__rsub"@[3] != "__rmul"@[3]);
    assert("__rsub"@ != "__rmul"@);
    assert("__rsub"@[3] != "__rdiv"@[3]);
    assert("__rsub"@ != "__rdiv"@);
    assert("__rsub"@[3] != "__rrem"@[3]);
    assert("__rsub"@ != "__rrem"@);
    assert("__rsub"@[2] != "__bwor"@[2]);
    assert("__rsub"@ != "__bwor"@);
    assert("__rsub"@[3] != "__rxor"@[3]);
    assert("__rsub"@ != "__rxor"@);
    assert("__rsub"@[2] != "__lteq"@[2]);
    assert("__rsub"@ != "__lteq"@);
    assert("__rsub"@[2] != "__gteq"@[2]);
    assert("__rsub"@ != "__gteq"@);
    assert("__rsub"@[2] != "__call"@[2]);
    assert("__rsub"@ != "__call"@);
    assert("__rmul"@[3] != "__rdiv"@[3]);
    assert("__rmul"@ != "__rdiv"@);
    assert("__rmul"@[3] != "__rrem"@[3]);
    assert("__rmul"@ != "__rrem"@);
    assert("__rmul"@[2] != "__bwor"@[2]);
    assert("__rmul"@ != "__bwor"@);
    assert("__rmul"@[3] != "__rxor"@[3]);
    assert("__rmul"@ != "__rxor"@);
    assert("__rmul"@[2] != "__lteq"@[2]);
    assert("__rmul"@ != "__lteq"@);
    assert("__rmul"@[2] != "__gteq"@[2]);
    assert("__rmul"@ != "__gteq"@);
    assert("__rmul"@[2] != "__call"@[2]);
    assert("__rmul"@ != "__call"@);
    assert("__rdiv"@[3] != "__rrem"@[3]);
    assert("__rdiv"@ != "__rrem"@);
    assert("__rdiv"@[2] != "__bwor"@[2]);
    assert("__rdiv"@ != "__bwor"@);
    assert("__rdiv"@[3] != "__rxor"@[3]);
    assert("__rdiv"@ != "__rxor"@);
    assert("__rdiv"@[2] != "__lteq"@[2]);
    assert("__rdiv"@ != "__lteq"@);
    assert("__rdiv"@[2] != "__gteq"@[2]);
    assert("__rdiv"@ != "__gteq"@);
    assert("__rdiv"@[2] != "__call"@[2]);
    assert("__rdiv"@ != "__call"@);
    assert("__rrem"@[2] != "__bwor"@[2]);
    assert("__rrem"@ != "__bwor"@);
    assert("__rrem"@[3] != "__rxor"@[3]);
    assert("__rrem"@ != "__rxor"@);
    assert("__rrem"@[2] != "__lteq"@[2]);
    assert("__rrem"@ != "__lteq"@);
    assert("__rrem"@[2] != "__gteq"@[2]);
    assert("__rrem"@ != "__gteq"@);
    assert("__rrem"@[2] != "__call"@[2]);
    assert("__rrem"@ != "__call"@);
    assert("__bwor"@[2] != "__rxor"@[2]);
    assert("__bwor"@ != "__rxor"@);
    assert("__bwor"@[2] != "__lteq"@[2]);
    assert("__bwor"@ != "__lteq"@);
    assert("__bwor"@[2] != "__gteq"@[2]);
    assert("__bwor"@ != "__gteq"@);
    assert("__bwor"@[2] != "__call"@[2]);
    assert("__bwor"@ != "__call"@);
    assert("__rxor"@[2] != "__lteq"@[2]);
    assert("__rxor"@ != "__lteq"@);
    assert("__rxor"@[2] != "__gteq"@[2]);
    assert("__rxor"@ != "__gteq"@);
    assert("__rxor"@[2] != "__call"@[2]);
    assert("__rxor"@ != "__call"@);
    assert("__lteq"@[2] != "__gteq"@[2]);
    assert("__lteq"@ != "__gteq"@);
    assert("__lteq"@[2] != "__call"@[2]);
    assert("__lteq"@ != "__call"@);
    assert("__gteq"@[2] != "__call"@[2]);
    assert("__gteq"@ != "__call"@);
    assert("__bwand"@[2] != "__rbwor"@[2]);
    assert("__bwand"@ != "__rbwor"@);
    assert("__lshift"@[2] != "__rshift"@[2]);
    assert("__lshift"@ != "__rshift"@);
    assert("__lshift"@[2] != "__rbwand"@[2]);
    assert("__lshift"@ != "__rbwand"@);
    assert("__lshift"@[2] != "__equals"@[2]);
    assert("__lshift"@ != "__equals"@);
    assert("__rshift"@[3] != "__rbwand"@[3]);
    assert("__rshift"@ != "__rbwand"@);
    assert("__rshift"@[2] != "__equals"@[2]);
    assert("__rshift"@ != "__equals"@);
    assert("__rbwand"@[2] != "__equals"@[2]);
    assert("__rbwand"@ != "__equals"@);
    assert("__rlshift"@[3] != "__rrshift"@[3]);
    assert("__rlshift"@ != "__rrshift"@);
    assert("__prettyprint"@[2] != "__write_index"@[2]);
    assert("__prettyprint"@ != "__write_index"@);
    assert forall|i: int, j: int| 0 <= i < j < reserved_names().len() implies
        reserved_names()[i] != reserved_names()[j] by {}
}

/// The reserved handles in interning order, for stating their
/// pairwise distinctness.
pub open spec fn reserved_symbol(s: ReservedSymbols, k: int) -> Symbol {
    if k == 0 {
        s.op_add
    } else if k == 1 {
        s.op_radd
    } else if k == 2 {
        s.op_sub
    } else if k == 3 {
        s.op_rsub
    } else if k == 4 {
        s.op_mul
    } else if k == 5 {
        s.op_rmul
    } else if k == 6 {
        s.op_div
    } else if k == 7 {
        s.op_rdiv
    } else if k == 8 {
        s.op_rem
    } else if k == 9 {
        s.op_rrem
    } else if k == 10 {
        s.op_lshift
    } else if k == 11 {
        s.op_rlshift
    } else if k == 12 {
        s.op_rshift
    } else if k == 13 {
        s.op_rrshift
    } else if k == 14 {
        s.op_bwand
    } else if k == 15 {
        s.op_rbwand
    } else if k == 16 {
        s.op_bwor
    } else if k == 17 {
        s.op_rbwor
    } else if k == 18 {
        s.op_xor
    } else if k == 19 {
        s.op_rxor
    } else if k == 20 {
        s.op_lt
    } else if k == 21 {
        s.op_gt
    } else if k == 22 {
        s.op_lteq
    } else if k == 23 {
        s.op_gteq
    } else if k == 24 {
        s.op_neg
    } else if k == 25 {
        s.op_equals
    } else if k == 26 {
        s.op_call
    } else if k == 27 {
        s.op_prettyprint
    } else if k == 28 {
        s.op_read_index
    } else {
        s.op_write_index
    }
}

/// Intern reserved names 0 through 4, extending the store
/// in order; each is new, so the handles are sequential.
#[verifier::rlimit(50)]
fn reserve_group_a(interner: &mut Interner) -> (r: (Symbol, Symbol, Symbol, Symbol, Symbol))
    requires
        old(interner).wf(),
        old(interner)@ == reserved_names().take(0),
    ensures
        final(interner).wf(),
        final(interner)@ == reserved_names().take(5),
        r.0.sid() == 0,
        r.1.sid() == 1,
        r.2.sid() == 2,
        r.3.sid() == 3,
        r.4.sid() == 4,
{
    proof {
        lemma_reserved_names_distinct();
    }
    let s0 = interner.must_intern("__add");
    proof {
        crate::symbol::lemma_distinct_prefix_fresh(reserved_names(), 0);
        assert(reserved_names()[0] == "__add"@);
        assert(reserved_names().take(0).push(reserved_names()[0])
            =~= reserved_names().take(1));
        assert(interner@ == reserved_names().take(1));
        assert(s0.sid() == 0);
    }
    let s1 = interner.must_intern("__radd");
    proof {
        crate::symbol::lemma_distinct_prefix_fresh(reserved_names(), 1);
        assert(reserved_names()[1] == "__radd"@);
        assert(reserved_names().take(1).push(reserved_names()[1])
            =~= reserved_names().take(2));
        assert(interner@ == reserved_names().take(2));
        assert(s1.sid() == 1);
    }
    let s2 = interner.must_intern("__sub");
    proof {
        crate::symbol::lemma_distinct_prefix_fresh(reserved_names(), 2);
        assert(reserved_names()[2] == "__sub"@);
        assert(reserved_names().take(2).push(reserved_names()[2])
            =~= reserved_names().take(3));
        assert(interner@ == reserved_names().take(3));
        assert(s2.sid() == 2);
    }
    let s3 = interner.must_intern("__rsub");
    proof {
        crate::symbol::lemma_distinct_prefix_fresh(reserved_names(), 3);
        assert(reserved_names()[3] == "__rsub"@);
        assert(reserved_names().take(3).push(reserved_names()[3])
            =~= reserved_names().take(4));
        assert(interner@ == reserved_names().take(4));
        assert(s3.sid() == 3);
    }
    let s4 = interner.must_intern("__mul");
    proof {
        crate::symbol::lemma_distinct_prefix_fresh(reserved_names(), 4);
        assert(reserved_names()[4] == "__mul"@);
        assert(reserved_names().take(4).push(reserved_names()[4])
            =~= reserved_names().take(5));
        assert(interner@ == reserved_names().take(5));
        assert(s4.sid() == 4);
    }
    (s0, s1, s2, s3, s4)
}

/// Intern reserved names 5 through 9, extending the store
/// in order; each is new, so the handles are sequential.
#[verifier::rlimit(50)]
fn reserve_group_b(interner: &mut Interner) -> (r: (Symbol, Symbol, Symbol, Symbol, Symbol))
    requires
        old(interner).wf(),
        old(interner)@ == reserved_names().take(5),
    ensures
        final(interner).wf(),
        final(interner)@ == reserved_names().take(10),
        r.0.sid() == 5,
        r.1.sid() == 6,
        r.2.sid() == 7,
        r.3.sid() == 8,
        r.4.sid() == 9,
{
    proof {
        lemma_reserved_names_distinct();
    }
    let s0 = interner.must_intern("__rmul");
    proof {
        crate::symbol::lemma_distinct_prefix_fresh(reserved_names(), 5);
        assert(reserved_names()[5] == "__rmul"@);
        assert(reserved_names().take(5).push(reserved_names()[5])
            =~= reserved_names().take(6));
        assert(interner@ == reserved_names().take(6));
        assert(s0.sid() == 5);
    }
    let s1 = interner.must_intern("__div");
    proof {
        crate::symbol::lemma_distinct_prefix_fresh(reserved_names(), 6);
        assert(reserved_names()[6] == "__div"@);
        assert(reserved_names().take(6).push(reserved_names()[6])
            =~= reserved_names().take(7));
        assert(interner@ == reserved_names().take(7));
        assert(s1.sid() == 6);
    }
    let s2 = interner.must_intern("__rdiv");
    proof {
        crate::symbol::lemma_distinct_prefix_fresh(reserved_names(), 7);
        assert(reserved_names()[7] == "__rdiv"@);
        assert(reserved_names().take(7).push(reserved_names()[7])
            =~= reserved_names().take(8));
        assert(interner@ == reserved_names().take(8));
        assert(s2.sid() == 7);
    }
    let s3 = interner.must_intern("__rem");
    proof {
        crate::symbol::lemma_distinct_prefix_fresh(reserved_names(), 8);
        assert(reserved_names()[8] == "__rem"@);
        assert(reserved_names().take(8).push(reserved_names()[8])
            =~= reserved_names().take(9));
        assert(interner@ == reserved_names().take(9));
        assert(s3.sid() == 8);
    }
    let s4 = interner.must_intern("__rrem");
    proof {
        crate::symbol::lemma_distinct_prefix_fresh(reserved_names(), 9);
        assert(reserved_names()[9] == "__rrem"@);
        assert(reserved_names().take(9).push(reserved_names()[9])
            =~= reserved_names().take(10));
        assert(interner@ == reserved_names().take(10));
        assert(s4.sid() == 9);
    }
    (s0, s1, s2, s3, s4)
}

/// Intern reserved names 10 through 14, extending the store
/// in order; each is new, so the handles are sequential.
#[verifier::rlimit(50)]
fn reserve_group_c(interner: &mut Interner) -> (r: (Symbol, Symbol, Symbol, Symbol, Symbol))
    requires
        old(interner).wf(),
        old(interner)@ == reserved_names().take(10),
    ensures
        final(interner).wf(),
        final(interner)@ == reserved_names().take(15),
        r.0.sid() == 10,
        r.1.sid() == 11,
        r.2.sid() == 12,
        r.3.sid() == 13,
        r.4.sid() == 14,
{
    proof {
        lemma_reserved_names_distinct();
    }
    let s0 = interner.must_intern("__lshift");
    proof {
        crate::symbol::lemma_distinct_prefix_fresh(reserved_names(), 10);
        assert(reserved_names()[10] == "__lshift"@);
        assert(reserved_names().take(10).push(reserved_names()[10])
            =~= reserved_names().take(11));
        assert(interner@ == reserved_names().take(11));
        assert(s0.sid() == 10);
    }
    let s1 = interner.must_intern("__rlshift");
    proof {
        crate::symbol::lemma_distinct_prefix_fresh(reserved_names(), 11);
        assert(reserved_names()[11] == "__rlshift"@);
        assert(reserved_names().take(11).push(reserved_names()[11])
            =~= reserved_names().take(12));
        assert(interner@ == reserved_names().take(12));
        assert(s1.sid() == 11);
    }
    let s2 = interner.must_intern("__rshift");
    proof {
        crate::symbol::lemma_distinct_prefix_fresh(reserved_names(), 12);
        assert(reserved_names()[12] == "__rshift"@);
        assert(reserved_names().take(12).push(reserved_names()[12])
            =~= reserved_names().take(13));
        assert(interner@ == reserved_names().take(13));
        assert(s2.sid() == 12);
    }
    let s3 = interner.must_intern("__rrshift");
    proof {
        crate::symbol::lemma_distinct_prefix_fresh(reserved_names(), 13);
        assert(reserved_names()[13] == "__rrshift"@);
        assert(reserved_names().take(13).push(reserved_names()[13])
            =~= reserved_names().take(14));
        assert(interner@ == reserved_names().take(14));
        assert(s3.sid() == 13);
    }
    let s4 = interner.must_intern("__bwand");
    proof {
        crate::symbol::lemma_distinct_prefix_fresh(reserved_names(), 14);
        assert(reserved_names()[14] == "__bwand"@);
        assert(reserved_names().take(14).push(reserved_names()[14])
            =~= reserved_names().take(15));
        assert(interner@ == reserved_names().take(15));
        assert(s4.sid() == 14);
    }
    (s0, s1, s2, s3, s4)
}

/// Intern reserved names 15 through 19, extending the store
/// in order; each is new, so the handles are sequential.
#[verifier::rlimit(50)]
fn reserve_group_d(interner: &mut Interner) -> (r: (Symbol, Symbol, Symbol, Symbol, Symbol))
    requires
        old(interner).wf(),
        old(interner)@ == reserved_names().take(15),
    ensures
        final(interner).wf(),
        final(interner)@ == reserved_names().take(20),
        r.0.sid() == 15,
        r.1.sid() == 16,
        r.2.sid() == 17,
        r.3.sid() == 18,
        r.4.sid() == 19,
{
    proof {
        lemma_reserved_names_distinct();
    }
    let s0 = interner.must_intern("__rbwand");
    proof {
        crate::symbol::lemma_distinct_prefix_fresh(reserved_names(), 15);
        assert(reserved_names()[15] == "__rbwand"@);
        assert(reserved_names().take(15).push(reserved_names()[15])
            =~= reserved_names().take(16));
        assert(interner@ == reserved_names().take(16));
        assert(s0.sid() == 15);
    }
    let s1 = interner.must_intern("__bwor");
    proof {
        crate::symbol::lemma_distinct_prefix_fresh(reserved_names(), 16);
        assert(reserved_names()[16] == "__bwor"@);
        assert(reserved_names().take(16).push(reserved_names()[16])
            =~= reserved_names().take(17));
        assert(interner@ == reserved_names().take(17));
        assert(s1.sid() == 16);
    }
    let s2 = interner.must_intern("__rbwor");
    proof {
        crate::symbol::lemma_distinct_prefix_fresh(reserved_names(), 17);
        assert(reserved_names()[17] == "__rbwor"@);
        assert(reserved_names().take(17).push(reserved_names()[17])
            =~= reserved_names().take(18));
        assert(interner@ == reserved_names().take(18));
        assert(s2.sid() == 17);
    }
    let s3 = interner.must_intern("__xor");
    proof {
        crate::symbol::lemma_distinct_prefix_fresh(reserved_names(), 18);
        assert(reserved_names()[18] == "__xor"@);
        assert(reserved_names().take(18).push(reserved_names()[18])
            =~= reserved_names().take(19));
        assert(interner@ == reserved_names().take(19));
        assert(s3.sid() == 18);
    }
    let s4 = interner.must_intern("__rxor");
    proof {
        crate::symbol::lemma_distinct_prefix_fresh(reserved_names(), 19);
        assert(reserved_names()[19] == "__rxor"@);
        assert(reserved_names().take(19).push(reserved_names()[19])
            =~= reserved_names().take(20));
        assert(interner@ == reserved_names().take(20));
        assert(s4.sid() == 19);
    }
    (s0, s1, s2, s3, s4)
}

/// Intern reserved names 20 through 24, extending the store
/// in order; each is new, so the handles are sequential.
#[verifier::rlimit(50)]
fn reserve_group_e(interner: &mut Interner) -> (r: (Symbol, Symbol, Symbol, Symbol, Symbol))
    requires
        old(interner).wf(),
        old(interner)@ == reserved_names().take(20),
    ensures
        final(interner).wf(),
        final(interner)@ == reserved_names().take(25),
        r.0.sid() == 20,
        r.1.sid() == 21,
        r.2.sid() == 22,
        r.3.sid() == 23,
        r.4.sid() == 24,
{
    proof {
        lemma_reserved_names_distinct();
    }
    let s0 = interner.must_intern("__lt");
    proof {
        crate::symbol::lemma_distinct_prefix_fresh(reserved_names(), 20);
        assert(reserved_names()[20] == "__lt"@);
        assert(reserved_names().take(20).push(reserved_names()[20])
            =~= reserved_names().take(21));
        assert(interner@ == reserved_names().take(21));
        assert(s0.sid() == 20);
    }
    let s1 = interner.must_intern("__gt");
    proof {
        crate::symbol::lemma_distinct_prefix_fresh(reserved_names(), 21);
        assert(reserved_names()[21] == "__gt"@);
        assert(reserved_names().take(21).push(reserved_names()[21])
            =~= reserved_names().take(22));
        assert(interner@ == reserved_names().take(22));
        assert(s1.sid() == 21);
    }
    let s2 = interner.must_intern("__lteq");
    proof {
        crate::symbol::lemma_distinct_prefix_fresh(reserved_names(), 22);
        assert(reserved_names()[22] == "__lteq"@);
        assert(reserved_names().take(22).push(reserved_names()[22])
            =~= reserved_names().take(23));
        assert(interner@ == reserved_names().take(23));
        assert(s2.sid() == 22);
    }
    let s3 = interner.must_intern("__gteq");
    proof {
        crate::symbol::lemma_distinct_prefix_fresh(reserved_names(), 23);
        assert(reserved_names()[23] == "__gteq"@);
        assert(reserved_names().take(23).push(reserved_names()[23])
            =~= reserved_names().take(24));
        assert(interner@ == reserved_names().take(24));
        assert(s3.sid() == 23);
    }
    let s4 = interner.must_intern("__neg");
    proof {
        crate::symbol::lemma_distinct_prefix_fresh(reserved_names(), 24);
        assert(reserved_names()[24] == "__neg"@);
        assert(reserved_names().take(24).push(reserved_names()[24])
            =~= reserved_names().take(25));
        assert(interner@ == reserved_names().take(25));
        assert(s4.sid() == 24);
    }
    (s0, s1, s2, s3, s4)
}

/// Intern reserved names 25 through 29, extending the store
/// in order; each is new, so the handles are sequential.
#[verifier::rlimit(50)]
fn reserve_group_f(interner: &mut Interner) -> (r: (Symbol, Symbol, Symbol, Symbol, Symbol))
    requires
        old(interner).wf(),
        old(interner)@ == reserved_names().take(25),
    ensures
        final(interner).wf(),
        final(interner)@ == reserved_names().take(30),
        r.0.sid() == 25,
        r.1.sid() == 26,
        r.2.sid() == 27,
        r.3.sid() == 28,
        r.4.sid() == 29,
{
    proof {
        lemma_reserved_names_distinct();
    }
    let s0 = interner.must_intern("__equals");
    proof {
        crate::symbol::lemma_distinct_prefix_fresh(reserved_names(), 25);
        assert(reserved_names()[25] == "__equals"@);
        assert(reserved_names().take(25).push(reserved_names()[25])
            =~= reserved_names().take(26));
        assert(interner@ == reserved_names().take(26));
        assert(s0.sid() == 25);
    }
    let s1 = interner.must_intern("__call");
    proof {
        crate::symbol::lemma_distinct_prefix_fresh(reserved_names(), 26);
        assert(reserved_names()[26] == "__call"@);
        assert(reserved_names().take(26).push(reserved_names()[26])
            =~= reserved_names().take(27));
        assert(interner@ == reserved_names().take(27));
        assert(s1.sid() == 26);
    }
    let s2 = interner.must_intern("__prettyprint");
    proof {
        crate::symbol::lemma_distinct_prefix_fresh(reserved_names(), 27);
        assert(reserved_names()[27] == "__prettyprint"@);
        assert(reserved_names().take(27).push(reserved_names()[27])
            =~= reserved_names().take(28));
        assert(interner@ == reserved_names().take(28));
        assert(s2.sid() == 27);
    }
    let s3 = interner.must_intern("__read_index");
    proof {
        crate::symbol::lemma_distinct_prefix_fresh(reserved_names(), 28);
        assert(reserved_names()[28] == "__read_index"@);
        assert(reserved_names().take(28).push(reserved_names()[28])
            =~= reserved_names().take(29));
        assert(interner@ == reserved_names().take(29));
        assert(s3.sid() == 28);
    }
    let s4 = interner.must_intern("__write_index");
    proof {
        crate::symbol::lemma_distinct_prefix_fresh(reserved_names(), 29);
        assert(reserved_names()[29] == "__write_index"@);
        assert(reserved_names().take(29).push(reserved_names()[29])
            =~= reserved_names().take(30));
        assert(interner@ == reserved_names().take(30));
        assert(s4.sid() == 29);
    }
    (s0, s1, s2, s3, s4)
}

/// Intern the reserved operator attribute names into a fresh
/// interner: they become the store's first thirty entries, in order,
/// so the handles are sequential — pairwise distinct, and each
/// resolving to its name.
fn reserve_symbols(interner: &mut Interner) -> (r: ReservedSymbols)
    requires
        old(interner).wf(),
        old(interner)@.len() == 0,
    ensures
        final(interner).wf(),
        final(interner)@ == reserved_names(),
        r.op_add.sid() == 0,
        r.op_radd.sid() == 1,
        r.op_sub.sid() == 2,
        r.op_rsub.sid() == 3,
        r.op_mul.sid() == 4,
        r.op_rmul.sid() == 5,
        r.op_div.sid() == 6,
        r.op_rdiv.sid() == 7,
        r.op_rem.sid() == 8,
        r.op_rrem.sid() == 9,
        r.op_lshift.sid() == 10,
        r.op_rlshift.sid() == 11,
        r.op_rshift.sid() == 12,
        r.op_rrshift.sid() == 13,
        r.op_bwand.sid() == 14,
        r.op_rbwand.sid() == 15,
        r.op_bwor.sid() == 16,
        r.op_rbwor.sid() == 17,
        r.op_xor.sid() == 18,
        r.op_rxor.sid() == 19,
        r.op_lt.sid() == 20,
        r.op_gt.sid() == 21,
        r.op_lteq.sid() == 22,
        r.op_gteq.sid() == 23,
        r.op_neg.sid() == 24,
        r.op_equals.sid() == 25,
        r.op_call.sid() == 26,
        r.op_prettyprint.sid() == 27,
        r.op_read_index.sid() == 28,
        r.op_write_index.sid() == 29,
{
    proof {
        lemma_reserved_names_distinct();
        assert(old(interner)@ =~= reserved_names().take(0));
    }
    let (op_add, op_radd, op_sub, op_rsub, op_mul) = reserve_group_a(interner);
    let (op_rmul, op_div, op_rdiv, op_rem, op_rrem) = reserve_group_b(interner);
    let (op_lshift, op_rlshift, op_rshift, op_rrshift, op_bwand) = reserve_group_c(interner);
    let (op_rbwand, op_bwor, op_rbwor, op_xor, op_rxor) = reserve_group_d(interner);
    let (op_lt, op_gt, op_lteq, op_gteq, op_neg) = reserve_group_e(interner);
    let (op_equals, op_call, op_prettyprint, op_read_index, op_write_index) = reserve_group_f(interner);
    proof {
        assert(reserved_names().take(30) =~= reserved_names());
    }
    ReservedSymbols {
        op_add,
        op_radd,
        op_sub,
        op_rsub,
        op_mul,
        op_rmul,
        op_div,
        op_rdiv,
        op_rem,
        op_rrem,
        op_lshift,
        op_rlshift,
        op_rshift,
        op_rrshift,
        op_bwand,
        op_rbwand,
        op_bwor,
        op_rbwor,
        op_xor,
        op_rxor,
        op_lt,
        op_gt,
        op_lteq,
        op_gteq,
        op_neg,
        op_equals,
        op_call,
        op_prettyprint,
        op_read_index,
        op_write_index,
    }
}

impl Vm {
    /// The registry entry for a builtin kind.
    pub open spec fn spec_builtin_type(self, id: BuiltinTypeId) -> usize {
        match id {
            BuiltinTypeId::Int => self.builtin_types.int_id,
            BuiltinTypeId::Float => self.builtin_types.float_id,
            BuiltinTypeId::Bool => self.builtin_types.bool_id,
            BuiltinTypeId::Str => self.builtin_types.str_id,
            BuiltinTypeId::List => self.builtin_types.list_id,
            BuiltinTypeId::Unimplemented => self.builtin_types.unimplemented_id,
        }
    }

    /// The shared descriptor registered for a builtin kind.
    pub fn get_builtin_type_by_id(&self, id: BuiltinTypeId) -> (r: usize)
        ensures
            r == self.spec_builtin_type(id),
            self.wf() ==> r < self.types@.len() && self.types@[r as int].kind is Struct,
    {
        match id {
            BuiltinTypeId::Int => self.builtin_types.int_id,
            BuiltinTypeId::Float => self.builtin_types.float_id,
            BuiltinTypeId::Bool => self.builtin_types.bool_id,
            BuiltinTypeId::Str => self.builtin_types.str_id,
            BuiltinTypeId::List => self.builtin_types.list_id,
            BuiltinTypeId::Unimplemented => self.builtin_types.unimplemented_id,
        }
    }

    /// Intern a name through the VM-wide interner.
    pub fn intern_symbol(&mut self, name: &str) -> (r: Result<Symbol, InternError>)
        requires
            old(self).wf(),
        ensures
            final(self).wf(),
            *final(self) == (Vm { interner: final(self).interner, ..*old(self) }),
            match r {
                Ok(sym) => {
                    &&& final(self).interner@ == spec_intern_strs(old(self).interner@, name@)
                    &&& sym.sid() == spec_intern_sym(old(self).interner@, name@)
                    &&& sym.sid() < final(self).interner@.len()
                    &&& final(self).interner@[sym.sid() as int] == name@
                },
                Err(e) => {
                    &&& e == InternError::TooManySymbols
                    &&& *final(self) == *old(self)
                    &&& old(self).interner@.len() >= u32::MAX
                    &&& !old(self).interner@.contains(name@)
                },
            },
    {
        let r = self.interner.intern(name);
        proof {
            lemma_extends_refl(*self);
            lemma_wf_extends(*old(self), *self);
        }
        r
    }

    /// Resolve a symbol back to its name, for diagnostics.
    pub fn resolve_symbol(&self, sym: Symbol) -> (r: Option<&String>)
        ensures
            match r {
                Some(s) => sym.sid() < self.interner@.len() && s@ == self.interner@[sym.sid()
                    as int],
                None => sym.sid() >= self.interner@.len(),
            },
    {
        self.interner.resolve(sym)
    }

    /// A fresh VM: the reserved operator names interned as the store's
    /// first thirty entries — so the reserved handles are pairwise
    /// distinct and each resolves to its name — the builtin type
    /// registry created with empty member tables, every other arena
    /// empty.
    pub fn new() -> (r: Vm)
        ensures
            r.wf(),
            r.interner@ == reserved_names(),
            r.symbols.op_add.sid() == 0,
            r.symbols.op_radd.sid() == 1,
            r.symbols.op_sub.sid() == 2,
            r.symbols.op_rsub.sid() == 3,
            r.symbols.op_mul.sid() == 4,
            r.symbols.op_rmul.sid() == 5,
            r.symbols.op_div.sid() == 6,
            r.symbols.op_rdiv.sid() == 7,
            r.symbols.op_rem.sid() == 8,
            r.symbols.op_rrem.sid() == 9,
            r.symbols.op_lshift.sid() == 10,
            r.symbols.op_rlshift.sid() == 11,
            r.symbols.op_rshift.sid() == 12,
            r.symbols.op_rrshift.sid() == 13,
            r.symbols.op_bwand.sid() == 14,
            r.symbols.op_rbwand.sid() == 15,
            r.symbols.op_bwor.sid() == 16,
            r.symbols.op_rbwor.sid() == 17,
            r.symbols.op_xor.sid() == 18,
            r.symbols.op_rxor.sid() == 19,
            r.symbols.op_lt.sid() == 20,
            r.symbols.op_gt.sid() == 21,
            r.symbols.op_lteq.sid() == 22,
            r.symbols.op_gteq.sid() == 23,
            r.symbols.op_neg.sid() == 24,
            r.symbols.op_equals.sid() == 25,
            r.symbols.op_call.sid() == 26,
            r.symbols.op_prettyprint.sid() == 27,
            r.symbols.op_read_index.sid() == 28,
            r.symbols.op_write_index.sid() == 29,
            forall|i: int, j: int|
                0 <= i < j < 30 ==> reserved_symbol(r.symbols, i) != reserved_symbol(
                    r.symbols,
                    j,
                ),
            r.types@.len() == 6,
            forall|i: int| 0 <= i < r.types@.len() ==> (#[trigger] r.types@[i]).members < 6,
            forall|i: int| 0 <= i < r.tables@.len() ==> (#[trigger] r.tables@[i])@.len() == 0,
            r.tables@.len() == 6,
            r.ntables@.len() == 1,
            r.objects@.len() == 0,
            r.functions@.len() == 0,
            r.code_objects@.len() == 0,
            r.bound_functions@.len() == 0,
            r.lists@.len() == 0,
            r.mixins@.len() == 0,
            r.modules@.len() == 0,
            r.enum_values@.len() == 0,
            r.opaque_count == 0,
            r.type_check_count == 0,
    {
        let mut interner = Interner::new();
        proof {
            assert(interner@.len() == 0);
        }
        let symbols = reserve_symbols(&mut interner);
        proof {
            assert forall|i: int, j: int| 0 <= i < j < 30 implies reserved_symbol(symbols, i)
                != reserved_symbol(symbols, j) by {
                assert(reserved_symbol(symbols, i).sid() == i);
                assert(reserved_symbol(symbols, j).sid() == j);
            }
        }
        let mut tables: Vec<FieldTable> = Vec::new();
        tables.push(FieldTable::new());
        tables.push(FieldTable::new());
        tables.push(FieldTable::new());
        tables.push(FieldTable::new());
        tables.push(FieldTable::new());
        tables.push(FieldTable::new());
        let mut types: Vec<TypeRecord> = Vec::new();
        types.push(
            TypeRecord { name: String::from_str("Int"), kind: TypeKind::Struct, members: 0 },
        );
        types.push(
            TypeRecord { name: String::from_str("Float"), kind: TypeKind::Struct, members: 1 },
        );
        types.push(
            TypeRecord { name: String::from_str("Bool"), kind: TypeKind::Struct, members: 2 },
        );
        types.push(
            TypeRecord { name: String::from_str("String"), kind: TypeKind::Struct, members: 3 },
        );
        types.push(
            TypeRecord { name: String::from_str("List"), kind: TypeKind::Struct, members: 4 },
        );
        types.push(
            TypeRecord {
                name: String::from_str("Unimplemented"),
                kind: TypeKind::Struct,
                members: 5,
            },
        );
        let builtin_types = BuiltinTypes {
            int_id: 0,
            float_id: 1,
            bool_id: 2,
            str_id: 3,
            list_id: 4,
            unimplemented_id: 5,
        };
        let mut ntables: Vec<NameTable> = Vec::new();
        ntables.push(NameTable::new());
        let vm = Vm {
            interner,
            texts: Vec::new(),
            tables,
            ntables,
            objects: Vec::new(),
            types,
            functions: Vec::new(),
            code_objects: Vec::new(),
            bound_functions: Vec::new(),
            lists: Vec::new(),
            mixins: Vec::new(),
            modules: Vec::new(),
            enum_values: Vec::new(),
            opaque_count: 0,
            type_check_count: 0,
            symbols,
            builtin_types,
            builtin_functions: 0,
        };
        proof {
            assert forall|i: int| 0 <= i < vm.tables@.len() implies vm.table_valid(
                (#[trigger] vm.tables@[i])@,
            ) by {
                assert(vm.tables@[i]@.len() == 0);
            }
            assert forall|i: int| 0 <= i < vm.ntables@.len() implies vm.ntable_valid(
                (#[trigger] vm.ntables@[i])@,
            ) by {
                assert(vm.ntables@[i]@.len() == 0);
            }
            assert(vm.types@.len() == 6);
            assert(vm.types@[0].kind is Struct);
            assert(vm.types@[1].kind is Struct);
            assert(vm.types@[2].kind is Struct);
            assert(vm.types@[3].kind is Struct);
            assert(vm.types@[4].kind is Struct);
            assert(vm.types@[5].kind is Struct);
            assert forall|i: int| 0 <= i < vm.types@.len() implies (
            #[trigger] vm.types@[i]).members < vm.tables@.len() by {}
        }
        vm
    }

    /// Register (or replace) a member on a type descriptor: the
    /// append-only extension surface used by module loaders.
    pub fn register_member(&mut self, type_id: usize, key: Symbol, val: RuntimeValue)
        requires
            old(self).wf(),
            type_id < old(self).types@.len(),
            valid_value(*old(self), val),
        ensures
            final(self).wf(),
            *final(self) == (Vm { tables: final(self).tables, ..*old(self) }),
            final(self).tables@.len() == old(self).tables@.len(),
            forall|j: int|
                0 <= j < old(self).tables@.len() && j != old(self).types@[type_id as int].members
                    ==> final(self).tables@[j] == old(self).tables@[j],
            (final(self).tables@[old(self).types@[type_id as int].members as int])@
                == spec_table_set(
                (old(self).tables@[old(self).types@[type_id as int].members as int])@,
                key,
                val,
            ),
    {
        let mid = self.types[type_id].members;
        proof {
            assert(self.table_valid(self.tables@[mid as int]@));
        }
        self.tables[mid].set(key, val);
        proof {
            lemma_table_set(old(self).tables@[mid as int]@, key, val);
            lemma_valid_value_grow(*old(self), *self);
            assert forall|i: int| 0 <= i < self.tables@[mid as int]@.len() implies valid_value(
                *self,
                (#[trigger] self.tables@[mid as int]@[i]).1,
            ) by {
                let s0 = old(self).tables@[mid as int]@;
                let s1 = self.tables@[mid as int]@;
                if table_contains(s0, key) {
                    if i == table_index(s0, key) {
                    } else {
                        assert(s1[i] == s0[i]);
                        assert(valid_value(*old(self), s0[i].1));
                    }
                } else {
                    if i < s0.len() {
                        assert(s1[i] == s0[i]);
                        assert(valid_value(*old(self), s0[i].1));
                    }
                }
            }
            lemma_wf_update_table(*old(self), *self, mid as int);
        }
    }

    /// Allocate a fresh, empty field table.
    fn alloc_table(&mut self) -> (r: usize)
        requires
            old(self).wf(),
        ensures
            final(self).wf(),
            *final(self) == (Vm { tables: final(self).tables, ..*old(self) }),
            final(self).tables@.len() == old(self).tables@.len() + 1,
            old(self).tables@.is_prefix_of(final(self).tables@),
            r == old(self).tables@.len(),
            (final(self).tables@[r as int])@ =~= Seq::<(Symbol, RuntimeValue)>::empty(),
    {
        let r = self.tables.len();
        self.tables.push(FieldTable::new());
        proof {
            assert(old(self).tables@ =~= self.tables@.subrange(
                0,
                old(self).tables@.len() as int,
            ));
            lemma_extends_refl(*old(self));
            assert(extends(*self, *old(self)));
            assert forall|i: int|
                old(self).tables@.len() <= i < self.tables@.len() implies self.table_valid(
                (#[trigger] self.tables@[i])@,
            ) by {
                assert(self.tables@[i]@.len() == 0);
            }
            lemma_wf_extends(*old(self), *self);
        }
        r
    }

    /// Allocate a fresh, empty string-keyed table.
    fn alloc_ntable(&mut self) -> (r: usize)
        requires
            old(self).wf(),
        ensures
            final(self).wf(),
            *final(self) == (Vm { ntables: final(self).ntables, ..*old(self) }),
            final(self).ntables@.len() == old(self).ntables@.len() + 1,
            old(self).ntables@.is_prefix_of(final(self).ntables@),
            r == old(self).ntables@.len(),
            (final(self).ntables@[r as int])@ =~= Seq::<(String, RuntimeValue)>::empty(),
    {
        let r = self.ntables.len();
        self.ntables.push(NameTable::new());
        proof {
            assert(old(self).ntables@ =~= self.ntables@.subrange(
                0,
                old(self).ntables@.len() as int,
            ));
            lemma_extends_refl(*old(self));
            assert(extends(*self, *old(self)));
            assert forall|i: int|
                old(self).ntables@.len() <= i < self.ntables@.len() implies self.ntable_valid(
                (#[trigger] self.ntables@[i])@,
            ) by {
                assert(self.ntables@[i]@.len() == 0);
            }
            lemma_wf_extends(*old(self), *self);
        }
        r
    }

    /// Create an object of the given declaring struct type, with empty
    /// field storage.
    pub fn new_object(&mut self, struct_id: usize) -> (r: RuntimeValue)
        requires
            old(self).wf(),
            struct_id < old(self).types@.len(),
            old(self).types@[struct_id as int].kind is Struct,
        ensures
            final(self).wf(),
            *final(self) == (Vm {
                tables: final(self).tables,
                objects: final(self).objects,
                ..*old(self)
            }),
            old(self).tables@.is_prefix_of(final(self).tables@),
            final(self).objects@ == old(self).objects@.push(
                ObjectRecord {
                    struct_id,
                    fields: old(self).tables@.len() as usize,
                },
            ),
            (final(self).tables@[old(self).tables@.len() as int])@ =~= Seq::<(
                Symbol,
                RuntimeValue,
            )>::empty(),
            r == RuntimeValue::Object(old(self).objects@.len() as usize),
            valid_value(*final(self), r),
    {
        let fields_id = self.alloc_table();
        let ghost mid = *self;
        let id = self.objects.len();
        self.objects.push(ObjectRecord { struct_id, fields: fields_id });
        proof {
            assert(mid.objects@ =~= self.objects@.subrange(0, mid.objects@.len() as int));
            lemma_extends_refl(mid);
            assert(extends(*self, mid));
            lemma_wf_extends(mid, *self);
        }
        RuntimeValue::Object(id)
    }

    /// Create a type descriptor with an empty member table; returns its
    /// arena index, used as the type's identity.
    pub fn new_type(&mut self, name: String, kind: TypeKind) -> (r: usize)
        requires
            old(self).wf(),
        ensures
            final(self).wf(),
            *final(self) == (Vm {
                tables: final(self).tables,
                types: final(self).types,
                ..*old(self)
            }),
            old(self).tables@.is_prefix_of(final(self).tables@),
            final(self).types@.len() == old(self).types@.len() + 1,
            final(self).types@ == old(self).types@.push(
                TypeRecord { name, kind, members: old(self).tables@.len() as usize },
            ),
            (final(self).tables@[old(self).tables@.len() as int])@ =~= Seq::<(
                Symbol,
                RuntimeValue,
            )>::empty(),
            r == old(self).types@.len(),
    {
        let members = self.alloc_table();
        let ghost mid = *self;
        let id = self.types.len();
        self.types.push(TypeRecord { name, kind, members });
        proof {
            assert(mid.types@ =~= self.types@.subrange(0, mid.types@.len() as int));
            lemma_extends_refl(mid);
            assert(extends(*self, mid));
            lemma_wf_extends(mid, *self);
        }
        id
    }

    /// Create an opaque foreign value: identity and nothing else.
    pub fn new_opaque(&mut self) -> (r: RuntimeValue)
        requires
            old(self).wf(),
            old(self).opaque_count < usize::MAX,
        ensures
            final(self).wf(),
            *final(self) == (Vm {
                opaque_count: (old(self).opaque_count + 1) as usize,
                ..*old(self)
            }),
            r == RuntimeValue::Opaque(old(self).opaque_count),
            valid_value(*final(self), r),
    {
        let id = self.opaque_count;
        self.opaque_count = self.opaque_count + 1;
        proof {
            lemma_extends_refl(*old(self));
            assert(extends(*self, *old(self)));
            lemma_wf_extends(*old(self), *self);
        }
        RuntimeValue::Opaque(id)
    }

    /// Create an "is-a" predicate value; like opaque values, it carries
    /// only identity at this layer.
    pub fn new_type_check(&mut self) -> (r: RuntimeValue)
        requires
            old(self).wf(),
            old(self).type_check_count < usize::MAX,
        ensures
            final(self).wf(),
            *final(self) == (Vm {
                type_check_count: (old(self).type_check_count + 1) as usize,
                ..*old(self)
            }),
            r == RuntimeValue::TypeCheck(old(self).type_check_count),
            valid_value(*final(self), r),
    {
        let id = self.type_check_count;
        self.type_check_count = self.type_check_count + 1;
        proof {
            lemma_extends_refl(*old(self));
            assert(extends(*self, *old(self)));
            lemma_wf_extends(*old(self), *self);
        }
        RuntimeValue::TypeCheck(id)
    }

    /// Create an integer value with fresh extension storage.
    pub fn new_integer(&mut self, value: i64) -> (r: RuntimeValue)
        requires
            old(self).wf(),
        ensures
            final(self).wf(),
            *final(self) == (Vm { tables: final(self).tables, ..*old(self) }),
            old(self).tables@.is_prefix_of(final(self).tables@),
            r == RuntimeValue::Integer(value, old(self).tables@.len() as usize),
            (final(self).tables@[old(self).tables@.len() as int])@ =~= Seq::<(
                Symbol,
                RuntimeValue,
            )>::empty(),
            valid_value(*final(self), r),
    {
        let ext = self.alloc_table();
        RuntimeValue::Integer(value, ext)
    }

    /// Create a float value from raw IEEE-754 bits, with fresh
    /// extension storage.
    pub fn new_float(&mut self, bits: u64) -> (r: RuntimeValue)
        requires
            old(self).wf(),
        ensures
            final(self).wf(),
            *final(self) == (Vm { tables: final(self).tables, ..*old(self) }),
            old(self).tables@.is_prefix_of(final(self).tables@),
            r == RuntimeValue::Float(bits, old(self).tables@.len() as usize),
            (final(self).tables@[old(self).tables@.len() as int])@ =~= Seq::<(
                Symbol,
                RuntimeValue,
            )>::empty(),
            valid_value(*final(self), r),
    {
        let ext = self.alloc_table();
        RuntimeValue::Float(bits, ext)
    }

    /// Create a boolean value with fresh extension storage.
    pub fn new_boolean(&mut self, value: bool) -> (r: RuntimeValue)
        requires
            old(self).wf(),
        ensures
            final(self).wf(),
            *final(self) == (Vm { tables: final(self).tables, ..*old(self) }),
            old(self).tables@.is_prefix_of(final(self).tables@),
            r == RuntimeValue::Boolean(value, old(self).tables@.len() as usize),
            (final(self).tables@[old(self).tables@.len() as int])@ =~= Seq::<(
                Symbol,
                RuntimeValue,
            )>::empty(),
            valid_value(*final(self), r),
    {
        let ext = self.alloc_table();
        RuntimeValue::Boolean(value, ext)
    }

    /// Create a string value with fresh extension storage. The text is
    /// shared: copies of the handle alias it.
    pub fn new_string(&mut self, text: String) -> (r: RuntimeValue)
        requires
            old(self).wf(),
        ensures
            final(self).wf(),
            *final(self) == (Vm {
                texts: final(self).texts,
                tables: final(self).tables,
                ..*old(self)
            }),
            old(self).tables@.is_prefix_of(final(self).tables@),
            final(self).texts@ == old(self).texts@.push(text),
            r == RuntimeValue::Str(
                old(self).texts@.len() as usize,
                old(self).tables@.len() as usize,
            ),
            valid_value(*final(self), r),
    {
        let ext = self.alloc_table();
        let ghost mid = *self;
        let tid = self.texts.len();
        self.texts.push(text);
        proof {
            assert(mid.texts@ =~= self.texts@.subrange(0, mid.texts@.len() as int));
            lemma_extends_refl(mid);
            assert(extends(*self, mid));
            lemma_wf_extends(mid, *self);
        }
        RuntimeValue::Str(tid, ext)
    }

    /// Create a first-class function value.
    pub fn new_function(
        &mut self,
        name: String,
        is_type_method: bool,
        required_argc: u8,
        body: FunctionBody,
    ) -> (r: RuntimeValue)
        requires
            old(self).wf(),
            match body {
                FunctionBody::Code(c) => c < old(self).code_objects@.len(),
                FunctionBody::Native(_) => true,
            },
        ensures
            final(self).wf(),
            *final(self) == (Vm {
                tables: final(self).tables,
                functions: final(self).functions,
                ..*old(self)
            }),
            old(self).tables@.is_prefix_of(final(self).tables@),
            final(self).functions@ == old(self).functions@.push(
                FunctionRecord {
                    name,
                    is_type_method,
                    required_argc,
                    fields: old(self).tables@.len() as usize,
                    body,
                },
            ),
            r == RuntimeValue::Function(old(self).functions@.len() as usize),
            valid_value(*final(self), r),
    {
        let fields = self.alloc_table();
        let ghost mid = *self;
        let id = self.functions.len();
        self.functions.push(
            FunctionRecord { name, is_type_method, required_argc, fields, body },
        );
        proof {
            assert(mid.functions@ =~= self.functions@.subrange(0, mid.functions@.len() as int));
            lemma_extends_refl(mid);
            assert(extends(*self, mid));
            lemma_wf_extends(mid, *self);
        }
        RuntimeValue::Function(id)
    }

    /// Create a code-object descriptor; the record's index is its
    /// shared-body identity.
    pub fn new_code_object(
        &mut self,
        name: String,
        required_argc: u8,
        default_argc: u8,
        frame_size: u8,
    ) -> (r: RuntimeValue)
        requires
            old(self).wf(),
        ensures
            final(self).wf(),
            *final(self) == (Vm { code_objects: final(self).code_objects, ..*old(self) }),
            final(self).code_objects@ == old(self).code_objects@.push(
                CodeObject { name, required_argc, default_argc, frame_size },
            ),
            r == RuntimeValue::CodeObject(old(self).code_objects@.len() as usize),
            valid_value(*final(self), r),
    {
        let id = self.code_objects.len();
        self.code_objects.push(CodeObject { name, required_argc, default_argc, frame_size });
        proof {
            assert(old(self).code_objects@ =~= self.code_objects@.subrange(
                0,
                old(self).code_objects@.len() as int,
            ));
            lemma_extends_refl(*old(self));
            assert(extends(*self, *old(self)));
            lemma_wf_extends(*old(self), *self);
        }
        RuntimeValue::CodeObject(id)
    }

    /// Create a list holding the given items, with empty extension
    /// storage.
    pub fn new_list(&mut self, items: Vec<RuntimeValue>) -> (r: RuntimeValue)
        requires
            old(self).wf(),
            forall|j: int|
                0 <= j < items@.len() ==> valid_value(*old(self), #[trigger] items@[j]),
        ensures
            final(self).wf(),
            *final(self) == (Vm {
                tables: final(self).tables,
                lists: final(self).lists,
                ..*old(self)
            }),
            old(self).tables@.is_prefix_of(final(self).tables@),
            final(self).lists@.len() == old(self).lists@.len() + 1,
            final(self).lists@[old(self).lists@.len() as int].items@ == items@,
            r == RuntimeValue::List(old(self).lists@.len() as usize),
            valid_value(*final(self), r),
    {
        let fields = self.alloc_table();
        let ghost mid = *self;
        let id = self.lists.len();
        self.lists.push(ListRecord { items, fields });
        proof {
            assert(mid.lists@ =~= self.lists@.subrange(0, mid.lists@.len() as int));
            lemma_extends_refl(mid);
            assert(extends(*self, mid));
            lemma_valid_value_grow(*old(self), *self);
            assert forall|i: int| mid.lists@.len() <= i < self.lists@.len() implies {
                let l = #[trigger] self.lists@[i];
                &&& l.fields < self.tables@.len()
                &&& forall|j: int|
                    0 <= j < l.items@.len() ==> valid_value(*self, #[trigger] l.items@[j])
            } by {
                let l = self.lists@[i];
                assert forall|j: int| 0 <= j < l.items@.len() implies valid_value(
                    *self,
                    #[trigger] l.items@[j],
                ) by {
                    assert(valid_value(*old(self), l.items@[j]));
                }
            }
            lemma_wf_extends(mid, *self);
        }
        RuntimeValue::List(id)
    }

    /// Create a mixin with an empty member table.
    pub fn new_mixin(&mut self, name: String) -> (r: RuntimeValue)
        requires
            old(self).wf(),
        ensures
            final(self).wf(),
            *final(self) == (Vm {
                tables: final(self).tables,
                mixins: final(self).mixins,
                ..*old(self)
            }),
            old(self).tables@.is_prefix_of(final(self).tables@),
            final(self).mixins@.len() == old(self).mixins@.len() + 1,
            final(self).mixins@[old(self).mixins@.len() as int].members == old(
                self,
            ).tables@.len(),
            (final(self).tables@[old(self).tables@.len() as int])@ =~= Seq::<(
                Symbol,
                RuntimeValue,
            )>::empty(),
            r == RuntimeValue::Mixin(old(self).mixins@.len() as usize),
            valid_value(*final(self), r),
    {
        let members = self.alloc_table();
        let ghost mid = *self;
        let id = self.mixins.len();
        self.mixins.push(MixinRecord { name, members });
        proof {
            assert(mid.mixins@ =~= self.mixins@.subrange(0, mid.mixins@.len() as int));
            lemma_extends_refl(mid);
            assert(extends(*self, mid));
            lemma_wf_extends(mid, *self);
        }
        RuntimeValue::Mixin(id)
    }

    /// Create a module with empty string-addressed storage.
    pub fn new_module(&mut self, name: String) -> (r: RuntimeValue)
        requires
            old(self).wf(),
        ensures
            final(self).wf(),
            *final(self) == (Vm {
                ntables: final(self).ntables,
                modules: final(self).modules,
                ..*old(self)
            }),
            old(self).ntables@.is_prefix_of(final(self).ntables@),
            final(self).modules@.len() == old(self).modules@.len() + 1,
            final(self).modules@[old(self).modules@.len() as int].entries == old(
                self,
            ).ntables@.len(),
            (final(self).ntables@[old(self).ntables@.len() as int])@ =~= Seq::<(
                String,
                RuntimeValue,
            )>::empty(),
            r == RuntimeValue::Module(old(self).modules@.len() as usize),
            valid_value(*final(self), r),
    {
        let entries = self.alloc_ntable();
        let ghost mid = *self;
        let id = self.modules.len();
        self.modules.push(ModuleRecord { name, entries });
        proof {
            assert(mid.modules@ =~= self.modules@.subrange(0, mid.modules@.len() as int));
            lemma_extends_refl(mid);
            assert(extends(*self, mid));
            lemma_wf_extends(mid, *self);
        }
        RuntimeValue::Module(id)
    }

    /// Create an enumerated-case value of the given enum type. The
    /// payload is fixed here and never mutated afterwards.
    pub fn new_enum_value(
        &mut self,
        enum_id: usize,
        case_index: usize,
        payload: Option<RuntimeValue>,
    ) -> (r: RuntimeValue)
        requires
            old(self).wf(),
            enum_id < old(self).types@.len(),
            old(self).types@[enum_id as int].kind is Enum,
            match payload {
                Some(p) => valid_value(*old(self), p),
                None => true,
            },
        ensures
            final(self).wf(),
            *final(self) == (Vm { enum_values: final(self).enum_values, ..*old(self) }),
            final(self).enum_values@ == old(self).enum_values@.push(
                EnumValueRecord { enum_id, case_index, payload },
            ),
            r == RuntimeValue::EnumValue(old(self).enum_values@.len() as usize),
            valid_value(*final(self), r),
    {
        let id = self.enum_values.len();
        self.enum_values.push(EnumValueRecord { enum_id, case_index, payload });
        proof {
            assert(old(self).enum_values@ =~= self.enum_values@.subrange(
                0,
                old(self).enum_values@.len() as int,
            ));
            lemma_extends_refl(*old(self));
            assert(extends(*self, *old(self)));
            lemma_valid_value_grow(*old(self), *self);
            assert forall|i: int|
                old(self).enum_values@.len() <= i < self.enum_values@.len() implies {
                let e = #[trigger] self.enum_values@[i];
                &&& e.enum_id < self.types@.len()
                &&& self.types@[e.enum_id as int].kind is Enum
                &&& match e.payload {
                    Some(p) => valid_value(*self, p) && match p {
                        RuntimeValue::EnumValue(j) => j < i,
                        _ => true,
                    },
                    None => true,
                }
            } by {
                match payload {
                    Some(p) => {
                        assert(valid_value(*old(self), p));
                    },
                    None => {},
                }
            }
            lemma_wf_extends(*old(self), *self);
        }
        RuntimeValue::EnumValue(id)
    }
}

impl RuntimeValue {
    /// Wrap a function as a bound callable with `self` as receiver.
    /// Attribute resolution is the only caller that should need this.
    pub fn bind(&self, function: usize, vm: &mut Vm) -> (r: RuntimeValue)
        requires
            old(vm).wf(),
            valid_value(*old(vm), *self),
            function < old(vm).functions@.len(),
        ensures
            final(vm).wf(),
            *final(vm) == (Vm { bound_functions: final(vm).bound_functions, ..*old(vm) }),
            final(vm).bound_functions@ == old(vm).bound_functions@.push(
                BoundFunctionRecord { receiver: *self, function },
            ),
            r == RuntimeValue::BoundFunction(old(vm).bound_functions@.len() as usize),
            valid_value(*final(vm), r),
    {
        let id = vm.bound_functions.len();
        vm.bound_functions.push(BoundFunctionRecord { receiver: *self, function });
        proof {
            assert(old(vm).bound_functions@ =~= vm.bound_functions@.subrange(
                0,
                old(vm).bound_functions@.len() as int,
            ));
            lemma_extends_refl(*old(vm));
            assert(extends(*vm, *old(vm)));
            lemma_valid_value_grow(*old(vm), *vm);
            assert forall|i: int|
                old(vm).bound_functions@.len() <= i < vm.bound_functions@.len() implies {
                let rec = #[trigger] vm.bound_functions@[i];
                &&& valid_value(*vm, rec.receiver)
                &&& rec.function < vm.functions@.len()
            } by {
                assert(valid_value(*old(vm), *self));
            }
            lemma_wf_extends(*old(vm), *vm);
        }
        RuntimeValue::BoundFunction(id)
    }
}

} // verus!
