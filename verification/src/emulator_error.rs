use vstd::prelude::*;

verus! {

/// Why the emulated CPU stopped executing an instruction.
#[derive(Debug, Copy, Clone, PartialEq, Eq, Structural)]
pub enum EmulatorError {
    OutOfBounds,
    Exit,
    InvalidOpcode,
    DivideError,
    /// An instruction, system call or procedure that is not emulated.
    Unsupported,
}

} // verus!
