//! An embedded, stack-based bytecode virtual machine.
//!
//! The machine is built from four pieces: an intern table for short
//! immutable strings ([`atoms`]), a fixed-size tagged value with a packed
//! numeric payload ([`value`]), a heap of shared mutable object cells
//! ([`object`]), and a single-process executor that interprets one
//! [`opcodes::Operation`] at a time against an operand stack
//! ([`process`]).

pub mod arith;
pub mod atoms;
pub mod error;
pub mod object;
pub mod opcodes;
pub mod process;
pub mod value;

pub use atoms::{atoms_count, Atom, AtomStore};
pub use error::{VmError, VmResult};
pub use object::{Heap, PVObject, PVObjectType, PVString, PVUserData};
pub use opcodes::{IntOpImmediate, Operation, PrimOpKind};
pub use process::{Process, ProcessSpawner};
pub use value::{Aligned, Value};
