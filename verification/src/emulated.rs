use vstd::prelude::*;

verus! {

/// What the loader needs to know of an emulated component.
pub trait EmulatedComponentInformationProvider {
    /// Number of argument bytes that the procedure pops off the stack on return.
    fn argument_bytes_of_procedure(&self, procedure: u16) -> u16;
}

} // verus!
