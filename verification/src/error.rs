use vstd::prelude::*;

verus! {

/// The fatal conditions the interpreter can report. Every one of them marks a
/// malformed or unsupported program, or a caller contract violation; the host
/// decides whether to halt, reset, or report.
#[derive(Debug, Clone, Copy, PartialEq, Eq, Structural)]
pub enum ChipError {
    /// A call instruction arrived while the call stack already held 16 return
    /// addresses.
    StackOverflow,
    /// A return instruction arrived while the call stack was empty.
    StackUnderflow,
    /// A key index outside 0..16 was handed to the keypad latch.
    InvalidKey(u8),
    /// The decoder fell through to its catch-all variant; the raw word is kept.
    UnknownOpcode(u16),
    /// A machine-routine (system call) instruction, which this interpreter does
    /// not support; the 12-bit address field is kept.
    SysOpcodeNotSupported(u16),
}

} // verus!
