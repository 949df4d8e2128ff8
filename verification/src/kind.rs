//! Runtime type identity: what "both operands report the identical
//! runtime type" means for the operator protocol's same-type rule.

use crate::value::RuntimeValue;
use crate::vm::{valid_value, Vm};
use vstd::prelude::*;

verus! {

/// The runtime type a value reports. Kinds whose instances share one
/// registered descriptor report that descriptor; objects and
/// enumerated-case values report their declaring descriptor; the
/// remaining kinds are each their own type.
#[derive(Clone, Copy, Debug, PartialEq, Eq, Structural)]
pub enum TypeKey {
    Descriptor(usize),
    Function,
    BoundFunction,
    CodeObject,
    Module,
    Mixin,
    Opaque,
    TypeCheck,
    Meta,
}

/// The runtime type of a value; two values are same-typed for the
/// operator protocol exactly when their keys are equal.
pub open spec fn spec_type_key(vm: Vm, v: RuntimeValue) -> TypeKey {
    match v {
        RuntimeValue::Integer(_, _) => TypeKey::Descriptor(vm.builtin_types.int_id),
        RuntimeValue::Float(_, _) => TypeKey::Descriptor(vm.builtin_types.float_id),
        RuntimeValue::Boolean(_, _) => TypeKey::Descriptor(vm.builtin_types.bool_id),
        RuntimeValue::Str(_, _) => TypeKey::Descriptor(vm.builtin_types.str_id),
        RuntimeValue::List(_) => TypeKey::Descriptor(vm.builtin_types.list_id),
        RuntimeValue::Object(o) => TypeKey::Descriptor(vm.objects@[o as int].struct_id),
        RuntimeValue::EnumValue(e) => TypeKey::Descriptor(vm.enum_values@[e as int].enum_id),
        RuntimeValue::Function(_) => TypeKey::Function,
        RuntimeValue::BoundFunction(_) => TypeKey::BoundFunction,
        RuntimeValue::CodeObject(_) => TypeKey::CodeObject,
        RuntimeValue::Module(_) => TypeKey::Module,
        RuntimeValue::Mixin(_) => TypeKey::Mixin,
        RuntimeValue::Opaque(_) => TypeKey::Opaque,
        RuntimeValue::TypeCheck(_) => TypeKey::TypeCheck,
        RuntimeValue::Type(_) => TypeKey::Meta,
    }
}

impl Vm {
    /// The runtime type of a value.
    pub fn type_key_of(&self, v: &RuntimeValue) -> (r: TypeKey)
        requires
            self.wf(),
            valid_value(*self, *v),
        ensures
            r == spec_type_key(*self, *v),
    {
        match v {
            RuntimeValue::Integer(_, _) => TypeKey::Descriptor(self.builtin_types.int_id),
            RuntimeValue::Float(_, _) => TypeKey::Descriptor(self.builtin_types.float_id),
            RuntimeValue::Boolean(_, _) => TypeKey::Descriptor(self.builtin_types.bool_id),
            RuntimeValue::Str(_, _) => TypeKey::Descriptor(self.builtin_types.str_id),
            RuntimeValue::List(_) => TypeKey::Descriptor(self.builtin_types.list_id),
            RuntimeValue::Object(o) => TypeKey::Descriptor(self.objects[*o].struct_id),
            RuntimeValue::EnumValue(e) => TypeKey::Descriptor(self.enum_values[*e].enum_id),
            RuntimeValue::Function(_) => TypeKey::Function,
            RuntimeValue::BoundFunction(_) => TypeKey::BoundFunction,
            RuntimeValue::CodeObject(_) => TypeKey::CodeObject,
            RuntimeValue::Module(_) => TypeKey::Module,
            RuntimeValue::Mixin(_) => TypeKey::Mixin,
            RuntimeValue::Opaque(_) => TypeKey::Opaque,
            RuntimeValue::TypeCheck(_) => TypeKey::TypeCheck,
            RuntimeValue::Type(_) => TypeKey::Meta,
        }
    }
}

impl RuntimeValue {
    /// The declaring struct descriptor, when this value is a type
    /// handle of struct kind.
    pub fn as_struct(&self, vm: &Vm) -> (r: Option<usize>)
        requires
            vm.wf(),
            valid_value(*vm, *self),
        ensures
            match r {
                Some(t) => *self == RuntimeValue::Type(t) && vm.types@[t as int].kind
                    is Struct,
                None => !(*self is Type) || !(vm.types@[self->Type_0 as int].kind is Struct),
            },
    {
        match self {
            RuntimeValue::Type(t) => {
                if matches!(vm.types[*t].kind, crate::vm::TypeKind::Struct) {
                    Some(*t)
                } else {
                    None
                }
            },
            _ => None,
        }
    }

    /// The declaring enum descriptor, when this value is a type handle
    /// of enum kind.
    pub fn as_enum(&self, vm: &Vm) -> (r: Option<usize>)
        requires
            vm.wf(),
            valid_value(*vm, *self),
        ensures
            match r {
                Some(t) => *self == RuntimeValue::Type(t) && vm.types@[t as int].kind is Enum,
                None => !(*self is Type) || !(vm.types@[self->Type_0 as int].kind is Enum),
            },
    {
        match self {
            RuntimeValue::Type(t) => {
                if matches!(vm.types[*t].kind, crate::vm::TypeKind::Enum) {
                    Some(*t)
                } else {
                    None
                }
            },
            _ => None,
        }
    }

    /// The foreign-native type descriptor, when this value is a type
    /// handle of that kind.
    pub fn as_rust_native(&self, vm: &Vm) -> (r: Option<usize>)
        requires
            vm.wf(),
            valid_value(*vm, *self),
        ensures
            match r {
                Some(t) => *self == RuntimeValue::Type(t) && vm.types@[t as int].kind
                    is RustNative,
                None => !(*self is Type) || !(vm.types@[self->Type_0 as int].kind
                    is RustNative),
            },
    {
        match self {
            RuntimeValue::Type(t) => {
                if matches!(vm.types[*t].kind, crate::vm::TypeKind::RustNative) {
                    Some(*t)
                } else {
                    None
                }
            },
            _ => None,
        }
    }

    /// Whether this value is a struct type descriptor.
    pub fn is_struct(&self, vm: &Vm) -> (r: bool)
        requires
            vm.wf(),
            valid_value(*vm, *self),
        ensures
            r == (*self is Type && vm.types@[self->Type_0 as int].kind is Struct),
    {
        self.as_struct(vm).is_some()
    }

    /// Whether this value is an enum type descriptor.
    pub fn is_enum(&self, vm: &Vm) -> (r: bool)
        requires
            vm.wf(),
            valid_value(*vm, *self),
        ensures
            r == (*self is Type && vm.types@[self->Type_0 as int].kind is Enum),
    {
        self.as_enum(vm).is_some()
    }
}

} // verus!
