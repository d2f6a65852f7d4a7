use vstd::prelude::*;

verus! {

/// A flat address handed to an emulated API function.
#[derive(Debug, Copy, Clone, PartialEq, Eq, Structural)]
pub struct Pointer(pub u32);

impl Pointer {
    pub fn from(data: u32) -> (r: Pointer)
        ensures
            r.0 == data,
    {
        Pointer(data)
    }

    /// The pointer `amount` bytes further.
    pub fn advanced(&self, amount: u32) -> (r: Pointer)
        requires
            self.0 + amount <= u32::MAX,
        ensures
            r.0 == self.0 + amount,
    {
        Pointer(self.0 + amount)
    }
}

/// What an emulated API function hands back to the program.
#[derive(Debug, Copy, Clone, PartialEq, Eq, Structural)]
pub enum ReturnValue {
    /// A word, returned in AX.
    U16(u16),
    /// A double word, returned in DX:AX.
    U32(u32),
    /// A word that reaches the program only after a window procedure it called returns.
    DelayedU16(u16),
    /// Nothing.
    Empty,
}

} // verus!
