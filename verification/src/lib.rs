//! Dynamic-dispatch core of a small scripting-language virtual machine.
//!
//! Runtime values form a closed tagged union ([`value::RuntimeValue`]) whose
//! payloads live in an append-only arena ([`vm::Vm`]); handles alias arena
//! records, so a mutation through one handle is visible through every alias.
//! On top of the value model sit attribute resolution with method binding,
//! structural and cross-kind equality, and the two-sided operator-overload
//! protocol with its "operator not implemented" sentinel.
//!
//! The bytecode execution engine is an external collaborator: whenever
//! dispatch needs a user-defined callable to run, it hands the host an
//! explicit step ([`operators::OpStep::Call`]) naming the callable and its
//! arguments, and the host reports back a [`operators::CallOutcome`]. Every
//! decision between those calls is made, and verified, here.

pub mod attributes;
pub mod builtins;
pub mod equality;
pub mod float_repr;
pub mod kind;
pub mod operators;
pub mod symbol;
pub mod table;
pub mod value;
pub mod vm;

use vstd::prelude::*;

verus! {

} // verus!
