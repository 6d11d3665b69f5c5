//! The error taxonomy of the virtual machine.

use vstd::prelude::*;

verus! {

/// The result type returned by every fallible step of the machine.
pub type VmResult<T> = Result<T, VmError>;

/// Everything that can go wrong while executing one operation.
///
/// Each `run_op` call either completes or reports exactly one of these;
/// on an error the operand stack is left exactly as it was.
#[derive(Clone, Copy, Debug, PartialEq, Eq, Structural)]
pub enum VmError {
    /// An operation demanded more operands than the stack holds.
    StackUnderflow(),
    /// A popped value was not the integer the operation required.
    PopExpectedType(),
    /// A popped value was not an object handle.
    PopExpectedObject(),
    /// A popped value was not a handle to an array cell.
    PopExpectedArray(),
    /// A popped value was not a handle to a user-data cell.
    PopExpectedUserData(),
    /// Growing a collection failed; the collection is unchanged.
    MemoryReserveFailed(),
    /// Building a fresh cell failed; nothing was allocated.
    MemoryAllocFailed(),
    /// `Trap` or a reserved, not yet implemented operation was executed.
    Unimplemented(),
}

impl VmError {
    /// The fixed text that describes this error.
    pub open spec fn spec_message(self) -> Seq<char> {
        match self {
            VmError::StackUnderflow() => "Process stack underflow."@,
            VmError::PopExpectedType() => "VM expected value on pop."@,
            VmError::PopExpectedObject() => "VM expected object on pop."@,
            VmError::PopExpectedArray() => "VM expected array on pop."@,
            VmError::PopExpectedUserData() => "VM expected userdata on pop."@,
            VmError::MemoryReserveFailed() => "VM failed to reserve memory."@,
            VmError::MemoryAllocFailed() => "VM failed to allocate memory."@,
            VmError::Unimplemented() => "VM executed an unimplemented operation."@,
        }
    }

    /// A short human-readable description of the error.
    pub fn message(&self) -> (r: &'static str)
        ensures
            r@ == self.spec_message(),
    {
        match self {
            VmError::StackUnderflow() => "Process stack underflow.",
            VmError::PopExpectedType() => "VM expected value on pop.",
            VmError::PopExpectedObject() => "VM expected object on pop.",
            VmError::PopExpectedArray() => "VM expected array on pop.",
            VmError::PopExpectedUserData() => "VM expected userdata on pop.",
            VmError::MemoryReserveFailed() => "VM failed to reserve memory.",
            VmError::MemoryAllocFailed() => "VM failed to allocate memory.",
            VmError::Unimplemented() => "VM executed an unimplemented operation.",
        }
    }
}

} // verus!
