use vstd::prelude::*;

verus! {

/// Every way an operation of the machine can fail.
#[derive(Debug, Clone, Copy, PartialEq, Eq, Structural)]
pub enum VmError {
    /// The byte has no instruction assigned to it.
    InvalidOpcode(u8),
    /// The instruction is known but has no behaviour on this machine.
    UnimplementedOpcode(u8),
    /// A register index that names no register.
    InvalidRegister(u8),
    /// The range `start .. start + size` leaves the memory image.
    OutOfBounds { start: usize, size: usize },
    /// A block write whose data is not as long as the block.
    SizeMismatch { expected: usize, found: usize },
    DivideByZero,
    StackUnderflow,
    StackOverflow,
    /// The input stream had no byte left to read.
    IOError,
}

} // verus!
