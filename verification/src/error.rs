use vstd::prelude::*;

verus! {

/// Everything that can stop an engine, a decoder or a loader.
#[derive(Debug, Clone, Copy, PartialEq, Eq, Structural)]
pub enum VmError {
    /// The first word of an instruction is no opcode; carries that word.
    UnknownOpcode(u16),
    /// An operand word names neither a number nor a register, or names a
    /// number where only a register can stand; carries that word.
    BadOperand(u16),
    /// Fewer words are left than the opcode has operands.
    TruncatedInstruction,
    /// `pop` on an empty stack.
    StackUnderflow,
    /// `mod` with a divisor of zero.
    DivisionByZero,
    /// A jump target, a return address or the following instruction lies
    /// beyond the last memory cell.
    AddressOutOfRange,
    /// The other end of the character channel is gone.
    Disconnected,
    /// The operation counter cannot count one more instruction.
    CounterExhausted,
    /// A snapshot's memory does not hold exactly 32768 words.
    MemoryLength,
    /// A program image has an odd number of bytes.
    OddImageLength,
    /// A program image holds more words than memory has cells.
    ImageTooLong,
}

} // verus!
