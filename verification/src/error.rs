//! The ways in which the engine stops short of running an instruction.

use vstd::prelude::*;

verus! {

/// Why a step ended without running an instruction to completion.
///
/// `Breakpoint` is not a fault: it reports that a hook asked for a halt.
/// All the others are faults; none of them is fatal, and the machine can be
/// inspected, repaired and stepped again after any of them.
#[derive(Clone, Copy, Debug, Hash, PartialEq, Eq, Structural)]
pub enum DwarfVmError {
    /// The bytes at the program counter do not form an instruction.
    Decode,
    /// A breakpoint hook asked for a halt.
    Breakpoint,
    /// No region holds the bytes that a read asked for.
    AddressFault,
    /// An instruction popped more words than the stack holds.
    StackUnderflow,
    /// An instruction looked deeper into the stack than it reaches.
    IndexOutOfRange,
    /// The instruction is not implemented, or asks for a read of a width
    /// other than 1, 2, 4 or 8 bytes.
    UnsupportedOperation,
    /// A division or remainder by zero.
    DivideByZero,
}

impl DwarfVmError {
    /// The name of the variant, as text.
    pub open spec fn name_spec(self) -> Seq<char> {
        match self {
            DwarfVmError::Decode => "Decode"@,
            DwarfVmError::Breakpoint => "Breakpoint"@,
            DwarfVmError::AddressFault => "AddressFault"@,
            DwarfVmError::StackUnderflow => "StackUnderflow"@,
            DwarfVmError::IndexOutOfRange => "IndexOutOfRange"@,
            DwarfVmError::UnsupportedOperation => "UnsupportedOperation"@,
            DwarfVmError::DivideByZero => "DivideByZero"@,
        }
    }

    /// The name of the variant.
    pub fn name(&self) -> (r: &'static str)
        ensures
            r@ == self.name_spec(),
    {
        match self {
            DwarfVmError::Decode => "Decode",
            DwarfVmError::Breakpoint => "Breakpoint",
            DwarfVmError::AddressFault => "AddressFault",
            DwarfVmError::StackUnderflow => "StackUnderflow",
            DwarfVmError::IndexOutOfRange => "IndexOutOfRange",
            DwarfVmError::UnsupportedOperation => "UnsupportedOperation",
            DwarfVmError::DivideByZero => "DivideByZero",
        }
    }

    /// The error as a line of text: the name of its variant.
    pub fn to_string(&self) -> (r: String)
        ensures
            r@ == self.name_spec(),
    {
        self.name().to_owned()
    }

    /// Whether the error is a fault, as opposed to a halt that a hook asked
    /// for.
    pub open spec fn is_fault(self) -> bool {
        self != DwarfVmError::Breakpoint
    }
}

} // verus!
