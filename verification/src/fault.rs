//! The fatal conditions that stop an instruction.

use vstd::prelude::*;

verus! {

/// Why an instruction could not be executed. A faulting step changes nothing:
/// the machine is left as it was, with the offending instruction still under
/// the program counter.
#[derive(Clone, Copy, Debug, PartialEq, Eq)]
pub enum Fault {
    /// The instruction fetch, or the instruction itself, touches an address
    /// at or past the end of memory.
    OutOfBounds,
    /// A call was made with sixteen return addresses already on the stack.
    StackOverflow,
    /// A return was made with no return address on the stack.
    StackUnderflow,
    /// A key instruction named a key that the keypad does not have.
    KeyOutOfRange,
    /// The opcode matches no instruction. Carries the raw opcode and its four
    /// nibbles, most significant first.
    Unimplemented { opcode: u16, digits: (u16, u16, u16, u16) },
}

} // verus!
