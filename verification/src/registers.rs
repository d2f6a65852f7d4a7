use vstd::prelude::*;
use crate::memory::flat_of;

verus! {

/// The register file of the emulated 16-bit CPU.
pub struct Registers {
    pub ip: u16,
    gpr: [u16; 8],
    segments: [u16; 8],
    flags: u16,
}

/// What the register file holds.
pub struct RegistersView {
    pub ip: u16,
    pub gpr: Seq<u16>,
    pub segments: Seq<u16>,
    pub flags: u16,
}

impl View for Registers {
    type V = RegistersView;

    closed spec fn view(&self) -> RegistersView {
        RegistersView { ip: self.ip, gpr: self.gpr@, segments: self.segments@, flags: self.flags }
    }
}

/// Number of set bits of `v`.
pub open spec fn bit_count(v: nat) -> nat
    decreases v,
{
    if v == 0 {
        0
    } else {
        (v % 2) + bit_count(v / 2)
    }
}

/// The low byte of a 16-bit register.
pub open spec fn low_byte(v: u16) -> u8 {
    (v % 256) as u8
}

/// The high byte of a 16-bit register.
pub open spec fn high_byte(v: u16) -> u8 {
    (v / 256) as u8
}

/// The value of the 8-bit register `index` (AL, CL, DL, BL, AH, CH, DH, BH) in `gpr`.
pub open spec fn gpr8_of(gpr: Seq<u16>, index: int) -> u8 {
    if index <= 3 {
        low_byte(gpr[index])
    } else {
        high_byte(gpr[index - 4])
    }
}

/// `gpr` after writing the 8-bit register `index`.
pub open spec fn with_gpr8(gpr: Seq<u16>, index: int, data: u8) -> Seq<u16> {
    if index <= 3 {
        gpr.update(index, (high_byte(gpr[index]) * 256 + data) as u16)
    } else {
        gpr.update(index - 4, (data * 256 + low_byte(gpr[index - 4])) as u16)
    }
}

/// The mask of the sign bit of an `N`-bit result.
pub open spec fn sign_bit(n: usize) -> u16 {
    if n == 8 {
        0x80
    } else {
        0x8000
    }
}

/// The flag bits that the zero, sign and parity rules set for an `N`-bit result: ZF and PF
/// for zero; SF for a result with its sign bit set, and PF too if that result (all 16 bits)
/// has an even number of set bits; nothing otherwise.
pub open spec fn zf_pf_sf_bits(n: usize, result: u16) -> u16 {
    if result == 0 {
        Registers::FLAG_ZF | Registers::FLAG_PF
    } else if result & sign_bit(n) > 0 {
        if bit_count(result as nat) % 2 == 0 {
            Registers::FLAG_SF | Registers::FLAG_PF
        } else {
            Registers::FLAG_SF
        }
    } else {
        0
    }
}

/// Flags after a bitwise operation: CF, OF, SF, ZF and PF cleared, then the zero/sign/parity
/// bits of the result set, and CF set if the operation carried.
pub open spec fn bitwise_flags(n: usize, flags: u16, carry: bool, result: u16) -> u16 {
    let cleared = flags & !(Registers::FLAG_CF | Registers::FLAG_OF | Registers::FLAG_SF
        | Registers::FLAG_ZF | Registers::FLAG_PF);
    let with_zps = cleared | zf_pf_sf_bits(n, result);
    if carry {
        with_zps | Registers::FLAG_CF
    } else {
        with_zps
    }
}

/// Flags after an arithmetic operation: when `affect_cf`, CF becomes the carry; OF, SF, ZF, PF
/// and AF are cleared and the zero/sign/parity bits of the result are set.
pub open spec fn arithmetic_flags(
    n: usize,
    flags: u16,
    result: u16,
    carry: bool,
    affect_cf: bool,
) -> u16 {
    let with_cf = if affect_cf {
        if carry {
            (flags & !Registers::FLAG_CF) | Registers::FLAG_CF
        } else {
            flags & !Registers::FLAG_CF
        }
    } else {
        flags
    };
    let cleared = with_cf & !(Registers::FLAG_OF | Registers::FLAG_SF | Registers::FLAG_ZF
        | Registers::FLAG_PF | Registers::FLAG_AF);
    cleared | zf_pf_sf_bits(n, result)
}

/// `v` with 16-bit wrap-around.
pub open spec fn wrap16(v: int) -> u16 {
    (((v % 0x10000) + 0x10000) % 0x10000) as u16
}

proof fn lemma_mask7(index: u8)
    ensures
        (index & 7) as int == index % 8,
        (index & 7) < 8,
{
    assert((index & 7) as int == index % 8 && (index & 7) < 8) by (bit_vector);
}

/// Shifting a word left by four multiplies it by 16.
pub proof fn lemma_shift4(v: u16)
    ensures
        (v as u32) << 4u32 == v * 16,
{
    assert((v as u32) << 4u32 == (v as u32) * 16) by (bit_vector);
}

impl Registers {
    pub const FLAG_CF: u16 = 0x800;
    pub const FLAG_OF: u16 = 0x1;
    pub const FLAG_SF: u16 = 0x80;
    pub const FLAG_ZF: u16 = 0x40;
    pub const FLAG_PF: u16 = 0x4;
    pub const FLAG_AF: u16 = 0x10;
    pub const FLAG_DF: u16 = 0x400;

    pub const REG_AX: u8 = 0;
    pub const REG_CX: u8 = 1;
    pub const REG_DX: u8 = 2;
    pub const REG_BX: u8 = 3;
    pub const REG_SP: u8 = 4;
    pub const REG_BP: u8 = 5;
    pub const REG_SI: u8 = 6;
    pub const REG_DI: u8 = 7;
    pub const REG_AL: u8 = 0;
    pub const REG_CL: u8 = 1;
    pub const REG_DL: u8 = 2;
    pub const REG_BL: u8 = 3;
    pub const REG_AH: u8 = 0;
    pub const REG_CH: u8 = 1;
    pub const REG_DH: u8 = 2;
    pub const REG_BH: u8 = 3;

    pub const REG_ES: u8 = 0;
    pub const REG_CS: u8 = 1;
    pub const REG_SS: u8 = 2;
    pub const REG_DS: u8 = 3;
    pub const REG_FS: u8 = 4;
    pub const REG_GS: u8 = 5;

    /// Registers at program start: SP at 0xF000, CS given, DS and SS both the given data
    /// segment, everything else zero, and only the interrupt flag set.
    pub fn new(ds: u16, cs: u16, ip: u16) -> (r: Self)
        ensures
            r@.ip == ip,
            r@.gpr == seq![0u16, 0u16, 0u16, 0u16, 0xF000u16, 0u16, 0u16, 0u16],
            r@.segments == seq![0u16, cs, ds, ds, 0u16, 0u16, 0u16, 0u16],
            r@.flags == 0x200,
    {
        let mut gpr = [0u16; 8];
        gpr[Self::REG_SP as usize] = 0xF000;
        let mut segments = [0u16; 8];
        segments[Self::REG_CS as usize] = cs;
        segments[Self::REG_DS as usize] = ds;
        segments[Self::REG_SS as usize] = ds;
        let r = Self { ip, gpr, segments, flags: 0x200 };
        assert(r@.gpr =~= seq![0u16, 0u16, 0u16, 0u16, 0xF000u16, 0u16, 0u16, 0u16]);
        assert(r@.segments =~= seq![0u16, cs, ds, ds, 0u16, 0u16, 0u16, 0u16]);
        r
    }

    /// Flat address of CS:IP.
    pub fn flat_ip(&self) -> (r: u32)
        ensures
            r == flat_of(self@.segments[Self::REG_CS as int], self@.ip),
    {
        let cs = self.read_segment(Registers::REG_CS);
        proof {
            lemma_shift4(cs);
        }
        self.ip as u32 + ((cs as u32) << 4)
    }

    /// Flat address of SS:SP.
    pub fn flat_sp(&self) -> (r: u32)
        ensures
            r == flat_of(self@.segments[Self::REG_SS as int], self@.gpr[Self::REG_SP as int]),
    {
        self.flat_reg(Registers::REG_SS, Registers::REG_SP)
    }

    /// Flat address of `segment`:`reg` (both indices taken modulo 8).
    pub fn flat_reg(&self, segment: u8, reg: u8) -> (r: u32)
        ensures
            r == flat_of(self@.segments[(segment % 8) as int], self@.gpr[(reg % 8) as int]),
    {
        self.flat_address(segment, self.read_gpr_16(reg))
    }

    /// Flat address of `segment`:`offset` (the segment index taken modulo 8).
    pub fn flat_address(&self, segment: u8, offset: u16) -> (r: u32)
        ensures
            r == flat_of(self@.segments[(segment % 8) as int], offset),
    {
        let s = self.read_segment(segment);
        proof {
            lemma_shift4(s);
        }
        offset as u32 + ((s as u32) << 4)
    }

    /// Eight general registers and eight segment registers.
    pub proof fn lemma_lengths(&self)
        ensures
            self@.gpr.len() == 8,
            self@.segments.len() == 8,
    {
    }

    /// The instruction pointer.
    pub fn ip(&self) -> (r: u16)
        ensures
            r == self@.ip,
    {
        self.ip
    }

    /// Sets the instruction pointer; nothing else changes.
    pub fn set_ip(&mut self, ip: u16)
        ensures
            final(self)@ == (RegistersView { ip, ..old(self)@ }),
    {
        self.ip = ip;
    }

    #[inline]
    pub fn flags(&self) -> (r: u16)
        ensures
            r == self@.flags,
    {
        self.flags
    }

    /// Sets or clears DF; nothing else changes.
    #[inline]
    pub fn set_direction_flag(&mut self, flag: bool)
        ensures
            final(self)@.flags == (if flag {
                old(self)@.flags | Self::FLAG_DF
            } else {
                old(self)@.flags & !Self::FLAG_DF
            }),
            final(self)@.ip == old(self)@.ip,
            final(self)@.gpr == old(self)@.gpr,
            final(self)@.segments == old(self)@.segments,
    {
        if flag {
            self.flags = self.flags | Self::FLAG_DF;
        } else {
            self.flags = self.flags & !Self::FLAG_DF;
        }
    }

    /// SP -= amount, wrapping.
    pub fn dec_sp(&mut self, amount: u16)
        ensures
            final(self)@.gpr == old(self)@.gpr.update(
                Self::REG_SP as int,
                wrap16(old(self)@.gpr[Self::REG_SP as int] - amount),
            ),
            final(self)@.ip == old(self)@.ip,
            final(self)@.segments == old(self)@.segments,
            final(self)@.flags == old(self)@.flags,
    {
        let sp = self.gpr[Self::REG_SP as usize].wrapping_sub(amount);
        self.gpr[Self::REG_SP as usize] = sp;
        assert(self@.gpr =~= old(self)@.gpr.update(
            Self::REG_SP as int,
            wrap16(old(self)@.gpr[Self::REG_SP as int] - amount),
        ));
    }

    /// SP += amount, wrapping.
    pub fn inc_sp(&mut self, amount: u16)
        ensures
            final(self)@.gpr == old(self)@.gpr.update(
                Self::REG_SP as int,
                wrap16(old(self)@.gpr[Self::REG_SP as int] + amount),
            ),
            final(self)@.ip == old(self)@.ip,
            final(self)@.segments == old(self)@.segments,
            final(self)@.flags == old(self)@.flags,
    {
        let sp = self.gpr[Self::REG_SP as usize].wrapping_add(amount);
        self.gpr[Self::REG_SP as usize] = sp;
        assert(self@.gpr =~= old(self)@.gpr.update(
            Self::REG_SP as int,
            wrap16(old(self)@.gpr[Self::REG_SP as int] + amount),
        ));
    }

    /// The 16-bit register `index` (taken modulo 8).
    #[inline]
    pub fn read_gpr_16(&self, index: u8) -> (r: u16)
        ensures
            r == self@.gpr[(index % 8) as int],
    {
        proof {
            lemma_mask7(index);
        }
        self.gpr[(index & 7) as usize]
    }

    /// Writes the 16-bit register `index` (taken modulo 8).
    #[inline]
    pub fn write_gpr_16(&mut self, index: u8, data: u16)
        ensures
            final(self)@.gpr == old(self)@.gpr.update((index % 8) as int, data),
            final(self)@.ip == old(self)@.ip,
            final(self)@.segments == old(self)@.segments,
            final(self)@.flags == old(self)@.flags,
    {
        proof {
            lemma_mask7(index);
        }
        self.gpr[(index & 7) as usize] = data;
        assert(self@.gpr =~= old(self)@.gpr.update((index % 8) as int, data));
    }

    /// The segment register `index` (taken modulo 8).
    #[inline]
    pub fn read_segment(&self, index: u8) -> (r: u16)
        ensures
            r == self@.segments[(index % 8) as int],
    {
        proof {
            lemma_mask7(index);
        }
        self.segments[(index & 7) as usize]
    }

    /// Writes the segment register `index` (taken modulo 8).
    #[inline]
    pub fn write_segment(&mut self, index: u8, data: u16)
        ensures
            final(self)@.segments == old(self)@.segments.update((index % 8) as int, data),
            final(self)@.ip == old(self)@.ip,
            final(self)@.gpr == old(self)@.gpr,
            final(self)@.flags == old(self)@.flags,
    {
        proof {
            lemma_mask7(index);
        }
        self.segments[(index & 7) as usize] = data;
        assert(self@.segments =~= old(self)@.segments.update((index % 8) as int, data));
    }

    /// The low byte of the 16-bit register `index` (AL, CL, DL or BL).
    #[inline]
    pub fn read_gpr_lo_8(&self, index: u8) -> (r: u8)
        requires
            index < 4,
        ensures
            r == low_byte(self@.gpr[index as int]),
    {
        proof {
            lemma_mask7(index);
        }
        let v = self.gpr[(index & 7) as usize];
        proof {
            crate::memory::lemma_byte_split(v);
        }
        v as u8
    }

    /// The high byte of the 16-bit register `index` (AH, CH, DH or BH).
    #[inline]
    pub fn read_gpr_hi_8(&self, index: u8) -> (r: u8)
        requires
            index < 4,
        ensures
            r == high_byte(self@.gpr[index as int]),
    {
        proof {
            lemma_mask7(index);
        }
        let v = self.gpr[(index & 7) as usize];
        proof {
            crate::memory::lemma_byte_split(v);
        }
        (v >> 8) as u8
    }

    /// The 8-bit register `register_destination` in x86 numbering: 0-3 are AL, CL, DL, BL;
    /// 4-7 are AH, CH, DH, BH.
    pub fn read_gpr_8(&self, register_destination: u8) -> (r: u8)
        requires
            register_destination < 8,
        ensures
            r == gpr8_of(self@.gpr, register_destination as int),
    {
        if register_destination <= 3 {
            self.read_gpr_lo_8(register_destination)
        } else {
            self.read_gpr_hi_8(register_destination - 4)
        }
    }

    /// The `N`-bit register `index` (`N` is 8 or 16), zero-extended.
    pub fn read_gpr<const N: usize>(&self, index: u8) -> (r: u16)
        requires
            N == 8 ==> index < 8,
            N == 8 || N == 16,
        ensures
            N == 8 ==> r == gpr8_of(self@.gpr, index as int),
            N == 16 ==> r == self@.gpr[(index % 8) as int],
    {
        if N == 8 {
            self.read_gpr_8(index) as u16
        } else {
            self.read_gpr_16(index)
        }
    }

    /// Writes the low `N` bits of `data` to the `N`-bit register `index` (`N` is 8 or 16).
    pub fn write_gpr<const N: usize>(&mut self, index: u8, data: u16)
        requires
            N == 8 ==> index < 8,
            N == 8 || N == 16,
        ensures
            N == 8 ==> final(self)@.gpr == with_gpr8(old(self)@.gpr, index as int, low_byte(data)),
            N == 16 ==> final(self)@.gpr == old(self)@.gpr.update((index % 8) as int, data),
            final(self)@.ip == old(self)@.ip,
            final(self)@.segments == old(self)@.segments,
            final(self)@.flags == old(self)@.flags,
    {
        if N == 8 {
            proof {
                crate::memory::lemma_byte_split(data);
            }
            self.write_gpr_8(index, data as u8);
        } else {
            self.write_gpr_16(index, data);
        }
    }

    /// Replaces the low byte of the 16-bit register `index`.
    #[inline]
    pub fn write_gpr_lo_8(&mut self, index: u8, data: u8)
        requires
            index < 4,
        ensures
            final(self)@.gpr == with_gpr8(old(self)@.gpr, index as int, data),
            final(self)@.ip == old(self)@.ip,
            final(self)@.segments == old(self)@.segments,
            final(self)@.flags == old(self)@.flags,
    {
        proof {
            lemma_mask7(index);
        }
        let index = (index & 7) as usize;
        let old_value = self.gpr[index];
        let new_value = (old_value & 0xff00) | (data as u16);
        assert(new_value == (old_value / 256) * 256 + data) by (bit_vector)
            requires
                new_value == (old_value & 0xff00) | (data as u16),
        ;
        self.gpr[index] = new_value;
        assert(self@.gpr =~= with_gpr8(old(self)@.gpr, index as int, data));
    }

    /// Replaces the high byte of the 16-bit register `index`.
    #[inline]
    pub fn write_gpr_hi_8(&mut self, index: u8, data: u8)
        requires
            index < 4,
        ensures
            final(self)@.gpr == with_gpr8(old(self)@.gpr, index + 4, data),
            final(self)@.ip == old(self)@.ip,
            final(self)@.segments == old(self)@.segments,
            final(self)@.flags == old(self)@.flags,
    {
        proof {
            lemma_mask7(index);
        }
        let index = (index & 7) as usize;
        let old_value = self.gpr[index];
        let new_value = (old_value & 0x00ff) | ((data as u16) << 8);
        assert(new_value == data * 256 + old_value % 256) by (bit_vector)
            requires
                new_value == (old_value & 0x00ff) | ((data as u16) << 8),
        ;
        self.gpr[index] = new_value;
        assert(self@.gpr =~= with_gpr8(old(self)@.gpr, index + 4, data));
    }

    /// Writes the 8-bit register `register_destination` in x86 numbering.
    pub fn write_gpr_8(&mut self, register_destination: u8, data: u8)
        requires
            register_destination < 8,
        ensures
            final(self)@.gpr == with_gpr8(old(self)@.gpr, register_destination as int, data),
            final(self)@.ip == old(self)@.ip,
            final(self)@.segments == old(self)@.segments,
            final(self)@.flags == old(self)@.flags,
    {
        if register_destination <= 3 {
            self.write_gpr_lo_8(register_destination, data);
        } else {
            self.write_gpr_hi_8(register_destination - 4, data);
        }
    }

    fn count_ones_is_even(result: u16) -> (r: bool)
        ensures
            r == (bit_count(result as nat) % 2 == 0),
    {
        let mut v: u16 = result;
        let mut count: u32 = 0;
        proof {
            lemma_bit_count_bound(result as nat);
        }
        while v != 0
            invariant
                count + bit_count(v as nat) == bit_count(result as nat),
                count <= 16 - bit_count(v as nat),
                bit_count(v as nat) <= 16,
            decreases v,
        {
            proof {
                lemma_bit_count_bound(v as nat);
            }
            count = count + (v % 2) as u32;
            v = v / 2;
        }
        count % 2 == 0
    }

    /// Set SF, ZF, PF flags according to result
    fn set_zf_pf_sf<const N: usize>(&mut self, result: u16)
        requires
            N == 8 || N == 16,
        ensures
            final(self)@.flags == old(self)@.flags | zf_pf_sf_bits(N, result),
            final(self)@.ip == old(self)@.ip,
            final(self)@.gpr == old(self)@.gpr,
            final(self)@.segments == old(self)@.segments,
    {
        let highest_bit_flag: u16 = if N == 8 {
            0x80
        } else {
            0x8000
        };
        if result == 0 {
            self.flags = self.flags | (Self::FLAG_ZF | Self::FLAG_PF);
        } else if result & highest_bit_flag > 0 {
            if Self::count_ones_is_even(result) {
                self.flags = self.flags | Self::FLAG_SF;
                self.flags = self.flags | Self::FLAG_PF;
                let ghost f = old(self)@.flags;
                assert((f | 0x80u16) | 0x4u16 == f | (0x80u16 | 0x4u16)) by (bit_vector);
            } else {
                self.flags = self.flags | Self::FLAG_SF;
            }
        } else {
            let ghost f = old(self)@.flags;
            assert(f | 0u16 == f) by (bit_vector);
        }
    }

    /// Flag update after a bitwise operation (see `bitwise_flags`).
    pub fn handle_bitwise_result_u_generic<const N: usize>(
        &mut self,
        result_did_carry: bool,
        result: u16,
    )
        requires
            N == 8 || N == 16,
        ensures
            final(self)@.flags == bitwise_flags(N, old(self)@.flags, result_did_carry, result),
            final(self)@.ip == old(self)@.ip,
            final(self)@.gpr == old(self)@.gpr,
            final(self)@.segments == old(self)@.segments,
    {
        // Clear OF & CF, and the flags we can set here
        self.flags = self.flags & !(Self::FLAG_CF | Self::FLAG_OF | Self::FLAG_SF | Self::FLAG_ZF
            | Self::FLAG_PF);
        self.set_zf_pf_sf::<N>(result);
        if result_did_carry {
            self.flags = self.flags | Self::FLAG_CF;
        }
    }

    pub fn handle_bitwise_result_u16(&mut self, result_did_carry: bool, result: u16)
        ensures
            final(self)@.flags == bitwise_flags(16, old(self)@.flags, result_did_carry, result),
            final(self)@.ip == old(self)@.ip,
            final(self)@.gpr == old(self)@.gpr,
            final(self)@.segments == old(self)@.segments,
    {
        self.handle_bitwise_result_u_generic::<16>(result_did_carry, result)
    }

    pub fn handle_bitwise_result_u8(&mut self, result_did_carry: bool, result: u16)
        ensures
            final(self)@.flags == bitwise_flags(8, old(self)@.flags, result_did_carry, result),
            final(self)@.ip == old(self)@.ip,
            final(self)@.gpr == old(self)@.gpr,
            final(self)@.segments == old(self)@.segments,
    {
        self.handle_bitwise_result_u_generic::<8>(result_did_carry, result)
    }

    /// Flag update after an arithmetic operation (see `arithmetic_flags`).
    pub fn handle_arithmetic_result_u_generic<const N: usize>(
        &mut self,
        result: u16,
        result_did_carry: bool,
        affect_cf: bool,
    )
        requires
            N == 8 || N == 16,
        ensures
            final(self)@.flags == arithmetic_flags(
                N,
                old(self)@.flags,
                result,
                result_did_carry,
                affect_cf,
            ),
            final(self)@.ip == old(self)@.ip,
            final(self)@.gpr == old(self)@.gpr,
            final(self)@.segments == old(self)@.segments,
    {
        // Clear the flags we can set here
        if affect_cf {
            self.flags = self.flags & !Self::FLAG_CF;
            if result_did_carry {
                self.flags = self.flags | Self::FLAG_CF;
            }
        }
        self.flags = self.flags & !(Self::FLAG_OF | Self::FLAG_SF | Self::FLAG_ZF | Self::FLAG_PF
            | Self::FLAG_AF);
        self.set_zf_pf_sf::<N>(result);
    }

    /// After a 16-bit multiplication: OF and CF both set when the result carried, both
    /// cleared otherwise.
    pub fn handle_imul_result_u16(&mut self, result_did_carry: bool)
        ensures
            final(self)@.flags == (if result_did_carry {
                old(self)@.flags | (Self::FLAG_OF | Self::FLAG_CF)
            } else {
                old(self)@.flags & !(Self::FLAG_OF | Self::FLAG_CF)
            }),
            final(self)@.ip == old(self)@.ip,
            final(self)@.gpr == old(self)@.gpr,
            final(self)@.segments == old(self)@.segments,
    {
        if result_did_carry {
            self.flags = self.flags | (Self::FLAG_OF | Self::FLAG_CF);
        } else {
            self.flags = self.flags & !(Self::FLAG_OF | Self::FLAG_CF);
        }
    }

    pub fn handle_arithmetic_result_u16(
        &mut self,
        result: u16,
        result_did_carry: bool,
        affect_cf: bool,
    )
        ensures
            final(self)@.flags == arithmetic_flags(
                16,
                old(self)@.flags,
                result,
                result_did_carry,
                affect_cf,
            ),
            final(self)@.ip == old(self)@.ip,
            final(self)@.gpr == old(self)@.gpr,
            final(self)@.segments == old(self)@.segments,
    {
        self.handle_arithmetic_result_u_generic::<16>(result, result_did_carry, affect_cf)
    }

    pub fn handle_arithmetic_result_u8(&mut self, result: u8, result_did_carry: bool, affect_cf: bool)
        ensures
            final(self)@.flags == arithmetic_flags(
                8,
                old(self)@.flags,
                result as u16,
                result_did_carry,
                affect_cf,
            ),
            final(self)@.ip == old(self)@.ip,
            final(self)@.gpr == old(self)@.gpr,
            final(self)@.segments == old(self)@.segments,
    {
        self.handle_arithmetic_result_u_generic::<8>(result as u16, result_did_carry, affect_cf)
    }

    pub fn flag_zero(&self) -> (r: bool)
        ensures
            r == (self@.flags & Self::FLAG_ZF > 0),
    {
        (self.flags & Self::FLAG_ZF) > 0
    }

    pub fn flag_carry(&self) -> (r: bool)
        ensures
            r == (self@.flags & Self::FLAG_CF > 0),
    {
        (self.flags & Self::FLAG_CF) > 0
    }

    pub fn flag_overflow(&self) -> (r: bool)
        ensures
            r == (self@.flags & Self::FLAG_OF > 0),
    {
        (self.flags & Self::FLAG_OF) > 0
    }

    pub fn flag_sign(&self) -> (r: bool)
        ensures
            r == (self@.flags & Self::FLAG_SF > 0),
    {
        (self.flags & Self::FLAG_SF) > 0
    }
}

proof fn lemma_bit_count_bound(v: nat)
    requires
        v < 0x10000,
    ensures
        bit_count(v) <= 16,
        v > 0 ==> bit_count(v / 2) <= 15,
{
    vstd::arithmetic::power2::lemma2_to64();
    lemma_bit_count_le_log(v, 16);
}

proof fn lemma_bit_count_le_log(v: nat, k: nat)
    requires
        v < vstd::arithmetic::power2::pow2(k),
    ensures
        bit_count(v) <= k,
        v > 0 ==> k > 0 && bit_count(v / 2) + 1 <= k,
    decreases k,
{
    if k == 0 {
        vstd::arithmetic::power2::lemma2_to64();
        assert(v == 0);
    } else {
        vstd::arithmetic::power2::lemma_pow2_unfold(k);
        lemma_bit_count_le_log(v / 2, (k - 1) as nat);
    }
}

} // verus!
