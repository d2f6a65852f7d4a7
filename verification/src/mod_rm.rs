use vstd::prelude::*;

verus! {

/// The ModR/M byte of an x86 instruction.
#[derive(Debug, Clone, Copy)]
pub struct ModRMByte(pub u8);

impl ModRMByte {
    /// Bits 3-5: the register operand (or the opcode extension).
    #[inline]
    pub fn register_destination(&self) -> (r: u8)
        ensures
            r == (self.0 / 8) % 8,
            r < 8,
    {
        let b = self.0;
        assert((b >> 3) & 7 == (b / 8) % 8) by (bit_vector);
        (b >> 3) & 7
    }

    /// Bits 6-7: the addressing mode.
    #[inline]
    pub fn addressing_mode(&self) -> (r: u8)
        ensures
            r == self.0 / 64,
            r < 4,
    {
        let b = self.0;
        assert(b >> 6 == b / 64) by (bit_vector);
        b >> 6
    }

    /// Bits 0-2: the register or memory operand.
    #[inline]
    pub fn rm(&self) -> (r: u8)
        ensures
            r == self.0 % 8,
            r < 8,
    {
        let b = self.0;
        assert(b & 7 == b % 8) by (bit_vector);
        b & 7
    }
}

/// A decoded ModR/M operand: the byte and the effective address computed from it.
#[derive(Debug, Clone, Copy)]
pub struct ModRM {
    pub mod_rm_byte: ModRMByte,
    pub computed: u16,
}

} // verus!
