use vstd::prelude::*;

verus! {

/// Everything that can go wrong while the interpreter runs.
///
/// Errors are plain values returned from each fallible operation.  I/O
/// failures while obtaining ROM bytes are the host's concern: the core is
/// handed the bytes themselves, so no I/O variant appears here.
#[derive(Clone, Copy, Debug, PartialEq, Eq, Structural)]
pub enum EmulatorError {
    /// The stack is full and cannot push any more items.
    StackOverFlow,
    /// The stack is empty and cannot pop any more items.
    StackUnderFlow,
    /// The value violates the 12-bit address constraint.
    InvalidAddress(u16),
    /// A memory range would touch an address past the 4 KiB of RAM; the
    /// payload is the end of the offending range.
    OutOfBounds(u16),
    /// The value is not a register index in `[0x0, 0xF]`.
    InvalidRegister(u8),
}

} // verus!
