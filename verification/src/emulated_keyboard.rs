use vstd::prelude::*;
use crate::api_helpers::ReturnValue;
use crate::emulator_accessor::EmulatorAccessor;
use crate::emulator_error::EmulatorError;

verus! {

/// The emulated keyboard module: none of its procedures is emulated.
pub struct EmulatedKeyboard {}

impl EmulatedKeyboard {
    pub fn new() -> (r: Self) {
        Self {}
    }

    /// Every keyboard procedure is `Unsupported`; the machine is not changed.
    pub fn syscall(&self, nr: u16, accessor: &mut EmulatorAccessor) -> (r: Result<ReturnValue, EmulatorError>)
        ensures
            r == Err::<ReturnValue, EmulatorError>(EmulatorError::Unsupported),
            *final(accessor) == *old(accessor),
    {
        Err(EmulatorError::Unsupported)
    }
}

} // verus!
