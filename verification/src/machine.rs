//! The instruction semantics of the emulated CPU, as functions from a machine state to an
//! outcome and the state that follows.
use vstd::prelude::*;
use crate::emulator_accessor::{sp_lowered, stack_top};
use crate::emulator_error::EmulatorError;
use crate::memory::{flat_of, with_word, word_at};
use crate::registers::{
    arithmetic_flags, bitwise_flags, gpr8_of, low_byte, with_gpr8, wrap16, Registers,
    RegistersView,
};
use crate::util::{add_flags_spec, sub_flags_spec};

verus! {

/// Registers and memory.
pub struct Machine {
    pub regs: RegistersView,
    pub mem: Seq<u8>,
}

/// The outcome of a step: a value or an error, and the machine afterwards.
pub type Outcome<T> = (Result<T, EmulatorError>, Machine);

/// The register index of a ModR/M byte.
pub open spec fn reg_of(modrm: u8) -> u8 {
    ((modrm / 8) % 8) as u8
}

/// The addressing mode of a ModR/M byte.
pub open spec fn mode_of(modrm: u8) -> u8 {
    (modrm / 64) as u8
}

/// The r/m field of a ModR/M byte.
pub open spec fn rm_of(modrm: u8) -> u8 {
    (modrm % 8) as u8
}

pub open spec fn with_regs(m: Machine, regs: RegistersView) -> Machine {
    Machine { regs, ..m }
}

pub open spec fn with_ip(m: Machine, ip: u16) -> Machine {
    with_regs(m, RegistersView { ip, ..m.regs })
}

pub open spec fn with_flags(m: Machine, flags: u16) -> Machine {
    with_regs(m, RegistersView { flags, ..m.regs })
}

pub open spec fn with_gpr16(m: Machine, index: u8, data: u16) -> Machine {
    with_regs(m, RegistersView { gpr: m.regs.gpr.update((index % 8) as int, data), ..m.regs })
}

pub open spec fn with_segment(m: Machine, index: u8, data: u16) -> Machine {
    with_regs(m, RegistersView { segments: m.regs.segments.update((index % 8) as int, data), ..m.regs })
}

/// Flat address of CS:IP.
pub open spec fn code_address(m: Machine) -> int {
    flat_of(m.regs.segments[Registers::REG_CS as int], m.regs.ip)
}

/// Flat address of DS:`offset`.
pub open spec fn data_address(m: Machine, offset: u16) -> int {
    flat_of(m.regs.segments[Registers::REG_DS as int], offset)
}

/// The byte at CS:IP; IP moves past it.
pub open spec fn fetch_u8(m: Machine) -> Outcome<u8> {
    let a = code_address(m);
    if a < m.mem.len() {
        (Ok(m.mem[a]), with_ip(m, wrap16(m.regs.ip + 1)))
    } else {
        (Err(EmulatorError::OutOfBounds), m)
    }
}

/// The word at CS:IP; IP moves past it.
pub open spec fn fetch_u16(m: Machine) -> Outcome<u16> {
    let a = code_address(m);
    if a + 2 <= m.mem.len() {
        (Ok(word_at(m.mem, a)), with_ip(m, wrap16(m.regs.ip + 2)))
    } else {
        (Err(EmulatorError::OutOfBounds), m)
    }
}

/// A byte sign-extended to 16 bits.
pub open spec fn sign_extend(b: u8) -> u16 {
    if b < 128 {
        b as u16
    } else {
        (b + 0xFF00) as u16
    }
}

/// An immediate of `n` bits (8 or 16) at CS:IP, zero-extended.
pub open spec fn fetch_imm(m: Machine, n: usize) -> Outcome<u16> {
    if n == 16 {
        fetch_u16(m)
    } else {
        let (r, m1) = fetch_u8(m);
        match r {
            Ok(b) => (Ok(b as u16), m1),
            Err(e) => (Err(e), m1),
        }
    }
}

/// The `n`-bit register `index`.
pub open spec fn gpr_n(m: Machine, n: usize, index: u8) -> u16 {
    if n == 8 {
        gpr8_of(m.regs.gpr, index as int) as u16
    } else {
        m.regs.gpr[(index % 8) as int]
    }
}

/// The machine with the low `n` bits of `data` in the `n`-bit register `index`.
pub open spec fn set_gpr_n(m: Machine, n: usize, index: u8, data: u16) -> Machine {
    if n == 8 {
        with_regs(
            m,
            RegistersView { gpr: with_gpr8(m.regs.gpr, index as int, low_byte(data)), ..m.regs },
        )
    } else {
        with_gpr16(m, index, data)
    }
}

/// An `n`-bit read of memory.
pub open spec fn read_mem(mem: Seq<u8>, n: usize, a: int) -> Result<u16, EmulatorError> {
    if n == 8 {
        if a < mem.len() {
            Ok(mem[a] as u16)
        } else {
            Err(EmulatorError::OutOfBounds)
        }
    } else {
        if a + 2 <= mem.len() {
            Ok(word_at(mem, a))
        } else {
            Err(EmulatorError::OutOfBounds)
        }
    }
}

/// An `n`-bit write of memory.
pub open spec fn write_mem(mem: Seq<u8>, n: usize, a: int, data: u16) -> (Result<(), EmulatorError>, Seq<u8>) {
    if n == 8 {
        if a < mem.len() {
            (Ok(()), mem.update(a, low_byte(data)))
        } else {
            (Err(EmulatorError::OutOfBounds), mem)
        }
    } else {
        if a + 1 < mem.len() {
            (Ok(()), with_word(mem, a, data))
        } else {
            (Err(EmulatorError::OutOfBounds), mem)
        }
    }
}

/// The base of an effective address for the r/m field (without displacement); for
/// r/m 6 it is BP.
pub open spec fn address_base(regs: RegistersView, rm: u8) -> int {
    let g = regs.gpr;
    if rm == 0 {
        g[Registers::REG_BX as int] + g[Registers::REG_SI as int]
    } else if rm == 1 {
        g[Registers::REG_BX as int] + g[Registers::REG_DI as int]
    } else if rm == 2 {
        g[Registers::REG_BP as int] + g[Registers::REG_SI as int]
    } else if rm == 3 {
        g[Registers::REG_BP as int] + g[Registers::REG_DI as int]
    } else if rm == 4 {
        g[Registers::REG_SI as int] as int
    } else if rm == 5 {
        g[Registers::REG_DI as int] as int
    } else if rm == 6 {
        g[Registers::REG_BP as int] as int
    } else {
        g[Registers::REG_BX as int] as int
    }
}

/// The offset that a memory operand names: mode 0 takes the base (r/m 6: a 16-bit
/// immediate instead), mode 1 adds a sign-extended byte, mode 2 a word; mode 3 is not a
/// memory operand.
pub open spec fn modrm_address(m: Machine, modrm: u8) -> Outcome<u16> {
    let mode = mode_of(modrm);
    let rm = rm_of(modrm);
    if mode == 0 {
        if rm == 6 {
            fetch_u16(m)
        } else {
            (Ok(wrap16(address_base(m.regs, rm))), m)
        }
    } else if mode == 1 || mode == 2 {
        let (rd, m1) = if mode == 1 {
            let (r, m0) = fetch_u8(m);
            (
                match r {
                    Ok(b) => Ok(sign_extend(b)),
                    Err(e) => Err(e),
                },
                m0,
            )
        } else {
            fetch_u16(m)
        };
        match rd {
            Ok(d) => (Ok(wrap16(address_base(m1.regs, rm) + d)), m1),
            Err(e) => (Err(e), m1),
        }
    } else {
        (Err(EmulatorError::InvalidOpcode), m)
    }
}

/// Reads the `n`-bit operand that a ModR/M byte names: memory at DS for modes 0-2, the
/// register `rm` for mode 3.
pub open spec fn read_rm(m: Machine, n: usize, modrm: u8) -> Outcome<u16> {
    if mode_of(modrm) == 3 {
        (Ok(gpr_n(m, n, rm_of(modrm))), m)
    } else {
        let (ra, m1) = modrm_address(m, modrm);
        match ra {
            Ok(off) => (read_mem(m1.mem, n, data_address(m1, off)), m1),
            Err(e) => (Err(e), m1),
        }
    }
}

/// Writes the `n`-bit operand that a ModR/M byte names.
pub open spec fn write_rm(m: Machine, n: usize, modrm: u8, data: u16) -> Outcome<()> {
    if mode_of(modrm) == 3 {
        (Ok(()), set_gpr_n(m, n, rm_of(modrm), data))
    } else {
        let (ra, m1) = modrm_address(m, modrm);
        match ra {
            Ok(off) => {
                let (rw, mem) = write_mem(m1.mem, n, data_address(m1, off), data);
                (rw, Machine { mem, ..m1 })
            },
            Err(e) => (Err(e), m1),
        }
    }
}

/// Pushes a word: SP -= 2 (even if the write then fails), the word at SS:SP.
pub open spec fn push16(m: Machine, data: u16) -> Outcome<()> {
    let regs = sp_lowered(m.regs);
    let a = stack_top(regs);
    if a + 1 < m.mem.len() {
        (Ok(()), Machine { regs, mem: with_word(m.mem, a, data) })
    } else {
        (Err(EmulatorError::OutOfBounds), Machine { regs, ..m })
    }
}

/// Pops a word: the word at SS:SP, then SP += 2.
pub open spec fn pop16(m: Machine) -> Outcome<u16> {
    let a = stack_top(m.regs);
    if a + 2 <= m.mem.len() {
        (
            Ok(word_at(m.mem, a)),
            with_regs(
                m,
                RegistersView {
                    gpr: m.regs.gpr.update(
                        Registers::REG_SP as int,
                        wrap16(m.regs.gpr[Registers::REG_SP as int] + 2),
                    ),
                    ..m.regs
                },
            ),
        )
    } else {
        (Err(EmulatorError::OutOfBounds), m)
    }
}

/// SP += `amount`, wrapping.
pub open spec fn sp_raised(m: Machine, amount: u16) -> Machine {
    with_gpr16(m, Registers::REG_SP, wrap16(m.regs.gpr[Registers::REG_SP as int] + amount))
}

/// Which two-operand operation an instruction performs.
#[derive(Clone, Copy)]
pub enum BinaryOp {
    Add,
    Sub,
    Or,
    Xor,
}

/// The result of a two-operand operation on `n`-bit operands and the flags after it.
pub open spec fn binary_result(op: BinaryOp, n: usize, flags: u16, a: u16, b: u16) -> (u16, u16) {
    match op {
        BinaryOp::Add => {
            let (r, c, _) = add_flags_spec(n, a as int, b as int);
            (r, arithmetic_flags(n, flags, r, c, true))
        },
        BinaryOp::Sub => {
            let (r, c, _) = sub_flags_spec(n, a as int, b as int);
            (r, arithmetic_flags(n, flags, r, c, true))
        },
        BinaryOp::Or => (a | b, bitwise_flags(n, flags, false, a | b)),
        BinaryOp::Xor => (a ^ b, bitwise_flags(n, flags, false, a ^ b)),
    }
}

/// `reg = reg op r/m` with ModR/M byte `modrm` already fetched; with `write_back` false
/// only the flags change (a comparison).
pub open spec fn reg_rm_op(m: Machine, n: usize, modrm: u8, op: BinaryOp, write_back: bool) -> Outcome<()> {
    let reg = reg_of(modrm);
    let (rv, m1) = read_rm(m, n, modrm);
    match rv {
        Err(e) => (Err(e), m1),
        Ok(v) => {
            let (res, flags) = match op {
                BinaryOp::Or => binary_result(op, n, m1.regs.flags, v, gpr_n(m1, n, reg)),
                BinaryOp::Xor => binary_result(op, n, m1.regs.flags, v, gpr_n(m1, n, reg)),
                _ => binary_result(op, n, m1.regs.flags, gpr_n(m1, n, reg), v),
            };
            let m2 = if write_back {
                set_gpr_n(m1, n, reg, res)
            } else {
                m1
            };
            (Ok(()), with_flags(m2, flags))
        },
    }
}

/// `r/m = r/m op reg` with ModR/M byte `modrm` already fetched: the operand is read, IP
/// put back, the operand written, then the flags set.
pub open spec fn rm_reg_op(m: Machine, n: usize, modrm: u8, op: BinaryOp) -> Outcome<()> {
    let reg = reg_of(modrm);
    let old_ip = m.regs.ip;
    let (rv, m1) = read_rm(m, n, modrm);
    match rv {
        Err(e) => (Err(e), m1),
        Ok(v) => {
            let (res, flags) = match op {
                BinaryOp::Or => binary_result(op, n, m1.regs.flags, v, gpr_n(m1, n, reg)),
                _ => binary_result(op, n, m1.regs.flags, gpr_n(m1, n, reg), v),
            };
            let (rw, m2) = write_rm(with_ip(m1, old_ip), n, modrm, res);
            match rw {
                Err(e) => (Err(e), m2),
                Ok(_) => (Ok(()), with_flags(m2, flags)),
            }
        },
    }
}

/// A jump by a sign-extended byte (taken when `condition` holds).
pub open spec fn jump_short(m: Machine, condition: bool) -> Outcome<()> {
    let (rb, m1) = fetch_u8(m);
    match rb {
        Err(e) => (Err(e), m1),
        Ok(b) => if condition {
            (Ok(()), with_ip(m1, wrap16(m1.regs.ip + sign_extend(b))))
        } else {
            (Ok(()), m1)
        },
    }
}

/// IP becomes the popped word.
pub open spec fn ret_near(m: Machine) -> Outcome<()> {
    let (r, m1) = pop16(m);
    match r {
        Ok(ip) => (Ok(()), with_ip(m1, ip)),
        Err(e) => (Err(e), m1),
    }
}

/// IP, then CS, become the popped words.
pub open spec fn ret_far(m: Machine) -> Outcome<()> {
    let (r, m1) = pop16(m);
    match r {
        Err(e) => (Err(e), m1),
        Ok(ip) => {
            let m2 = with_ip(m1, ip);
            let (r2, m3) = pop16(m2);
            match r2 {
                Err(e) => (Err(e), m3),
                Ok(cs) => (Ok(()), with_segment(m3, Registers::REG_CS, cs)),
            }
        },
    }
}

/// Pushes CS, then IP, and jumps to `segment`:`offset`.
pub open spec fn call_far(m: Machine, segment: u16, offset: u16) -> Outcome<()> {
    let (r1, m1) = push16(m, m.regs.segments[Registers::REG_CS as int]);
    match r1 {
        Err(e) => (Err(e), m1),
        Ok(_) => {
            let (r2, m2) = push16(m1, m1.regs.ip);
            match r2 {
                Err(e) => (Err(e), m2),
                Ok(_) => (Ok(()), with_ip(with_segment(m2, Registers::REG_CS, segment), offset)),
            }
        },
    }
}

/// The effect of one instruction other than `int` (opcode 0xCD), whose opcode is already
/// fetched: `m` is the machine after the opcode byte.
pub open spec fn execute(m: Machine, opcode: u8) -> Outcome<()> {
    let cs = Registers::REG_CS;
    if opcode == 0x06 {
        push16(m, m.regs.segments[Registers::REG_ES as int])
    } else if opcode == 0x07 {
        pop_segment(m, Registers::REG_ES)
    } else if opcode == 0x0E {
        push16(m, m.regs.segments[cs as int])
    } else if opcode == 0x16 {
        push16(m, m.regs.segments[Registers::REG_SS as int])
    } else if opcode == 0x1E {
        push16(m, m.regs.segments[Registers::REG_DS as int])
    } else if 0x50 <= opcode <= 0x55 {
        push16(m, m.regs.gpr[(opcode - 0x50) as int])
    } else if opcode == 0x56 || opcode == 0x57 || opcode == 0x58 || opcode == 0x5D || opcode == 0x5E
        || opcode == 0x5F {
        pop_gpr(
            m,
            if opcode == 0x56 || opcode == 0x5E {
                Registers::REG_SI
            } else if opcode == 0x57 || opcode == 0x5F {
                Registers::REG_DI
            } else if opcode == 0x58 {
                Registers::REG_AX
            } else {
                Registers::REG_BP
            },
        )
    } else if opcode == 0x68 {
        let (r, m1) = fetch_u16(m);
        match r {
            Ok(w) => push16(m1, w),
            Err(e) => (Err(e), m1),
        }
    } else if opcode == 0x6a {
        let (r, m1) = fetch_u8(m);
        match r {
            Ok(b) => push16(m1, b as u16),
            Err(e) => (Err(e), m1),
        }
    } else if opcode == 0x72 {
        jump_short(m, m.regs.flags & Registers::FLAG_CF > 0)
    } else if opcode == 0x73 {
        jump_short(m, !(m.regs.flags & Registers::FLAG_CF > 0))
    } else if opcode == 0x74 {
        jump_short(m, m.regs.flags & Registers::FLAG_ZF > 0)
    } else if opcode == 0x75 {
        jump_short(m, !(m.regs.flags & Registers::FLAG_ZF > 0))
    } else if opcode == 0x7E {
        jump_short(
            m,
            (m.regs.flags & Registers::FLAG_ZF > 0) || ((m.regs.flags & Registers::FLAG_SF > 0) != (
            m.regs.flags & Registers::FLAG_OF > 0)),
        )
    } else if opcode == 0x90 {
        (Ok(()), m)
    } else if opcode == 0x99 {
        (Ok(()), with_gpr16(m, Registers::REG_DX, m.regs.gpr[Registers::REG_AX as int] / 0x8000))
    } else if opcode == 0x9A {
        let (r1, m1) = fetch_u16(m);
        match r1 {
            Err(e) => (Err(e), m1),
            Ok(offset) => {
                let (r2, m2) = fetch_u16(m1);
                match r2 {
                    Err(e) => (Err(e), m2),
                    Ok(segment) => call_far(m2, segment, offset),
                }
            },
        }
    } else if opcode == 0xA1 {
        let (r, m1) = fetch_u16(m);
        match r {
            Err(e) => (Err(e), m1),
            Ok(off) => match read_mem(m1.mem, 16, data_address(m1, off)) {
                Ok(v) => (Ok(()), with_gpr16(m1, Registers::REG_AX, v)),
                Err(e) => (Err(e), m1),
            },
        }
    } else if opcode == 0xA2 || opcode == 0xA3 {
        let (r, m1) = fetch_u16(m);
        let n: usize = if opcode == 0xA2 {
            8
        } else {
            16
        };
        let ax = m1.regs.gpr[Registers::REG_AX as int];
        match r {
            Err(e) => (Err(e), m1),
            Ok(off) => {
                let (rw, mem) = write_mem(
                    m1.mem,
                    n,
                    data_address(m1, off),
                    if n == 8 {
                        low_byte(ax) as u16
                    } else {
                        ax
                    },
                );
                (rw, Machine { mem, ..m1 })
            },
        }
    } else if opcode == 0xB0 || opcode == 0xB4 {
        let (r, m1) = fetch_u8(m);
        match r {
            Err(e) => (Err(e), m1),
            Ok(b) => (
                Ok(()),
                with_regs(
                    m1,
                    RegistersView {
                        gpr: with_gpr8(
                            m1.regs.gpr,
                            if opcode == 0xB0 {
                                0
                            } else {
                                4
                            },
                            b,
                        ),
                        ..m1.regs
                    },
                ),
            ),
        }
    } else if opcode == 0xB8 || opcode == 0xB9 || opcode == 0xBA || opcode == 0xBF {
        let (r, m1) = fetch_u16(m);
        match r {
            Err(e) => (Err(e), m1),
            Ok(w) => (Ok(()), with_gpr16(m1, (opcode - 0xB8) as u8, w)),
        }
    } else if opcode == 0xC2 {
        let (r, m1) = fetch_u16(m);
        match r {
            Err(e) => (Err(e), m1),
            Ok(amount) => {
                let (r2, m2) = ret_near(m1);
                match r2 {
                    Err(e) => (Err(e), m2),
                    Ok(_) => (Ok(()), sp_raised(m2, amount)),
                }
            },
        }
    } else if opcode == 0xC3 {
        ret_near(m)
    } else if opcode == 0xCA {
        let (r, m1) = fetch_u16(m);
        match r {
            Err(e) => (Err(e), m1),
            Ok(amount) => {
                let (r2, m2) = ret_far(m1);
                match r2 {
                    Err(e) => (Err(e), m2),
                    Ok(_) => (Ok(()), sp_raised(m2, amount)),
                }
            },
        }
    } else if opcode == 0xCB {
        ret_far(m)
    } else if opcode == 0xE9 {
        let (r, m1) = fetch_u16(m);
        match r {
            Err(e) => (Err(e), m1),
            Ok(d) => (Ok(()), with_ip(m1, wrap16(m1.regs.ip + d))),
        }
    } else if opcode == 0xEB {
        jump_short(m, true)
    } else if opcode == 0xE8 {
        let (r, m1) = fetch_u16(m);
        match r {
            Err(e) => (Err(e), m1),
            Ok(d) => {
                let (r2, m2) = push16(m1, m1.regs.ip);
                match r2 {
                    Err(e) => (Err(e), m2),
                    Ok(_) => (Ok(()), with_ip(m2, wrap16(m2.regs.ip + d))),
                }
            },
        }
    } else if opcode == 0xFC {
        (Ok(()), with_flags(m, m.regs.flags & !Registers::FLAG_DF))
    } else if opcode == 0x3D {
        let (r, m1) = fetch_u16(m);
        match r {
            Err(e) => (Err(e), m1),
            Ok(imm) => {
                let (res, c, _) = sub_flags_spec(16, m1.regs.gpr[0] as int, imm as int);
                (Ok(()), with_flags(m1, arithmetic_flags(16, m1.regs.flags, res, c, true)))
            },
        }
    } else if opcode == 0xAA || opcode == 0xF3 {
        (Err(EmulatorError::Unsupported), m)
    } else if is_modrm_opcode(opcode) {
        let (rb, m1) = fetch_u8(m);
        match rb {
            Err(e) => (Err(e), m1),
            Ok(modrm) => execute_modrm(m1, opcode, modrm),
        }
    } else {
        (Err(EmulatorError::InvalidOpcode), m)
    }
}

/// Pops a word into a segment register.
pub open spec fn pop_segment(m: Machine, segment: u8) -> Outcome<()> {
    let (r, m1) = pop16(m);
    match r {
        Ok(v) => (Ok(()), with_segment(m1, segment, v)),
        Err(e) => (Err(e), m1),
    }
}

/// Pops a word into a general register.
pub open spec fn pop_gpr(m: Machine, reg: u8) -> Outcome<()> {
    let (r, m1) = pop16(m);
    match r {
        Ok(v) => (Ok(()), with_gpr16(m1, reg, v)),
        Err(e) => (Err(e), m1),
    }
}

/// Opcodes followed by a ModR/M byte (and those that are not supported).
pub open spec fn is_modrm_opcode(opcode: u8) -> bool {
    opcode == 0x01 || opcode == 0x09 || opcode == 0x0B || opcode == 0x2A || opcode == 0x2B
        || opcode == 0x3B || opcode == 0x3C || opcode == 0x31 || opcode == 0x32 || opcode == 0x33
        || opcode == 0x83 || opcode == 0x8B || opcode == 0x89 || opcode == 0x88 || opcode == 0x8A
        || opcode == 0x8C || opcode == 0x8D || opcode == 0xC6 || opcode == 0xC7 || opcode == 0xF6
        || opcode == 0xF7 || opcode == 0xFF
}

/// The effect of an instruction with a ModR/M byte, both already fetched.
pub open spec fn execute_modrm(m: Machine, opcode: u8, modrm: u8) -> Outcome<()> {
    let reg = reg_of(modrm);
    if opcode == 0x01 {
        rm_reg_op(m, 16, modrm, BinaryOp::Add)
    } else if opcode == 0x09 {
        rm_reg_op(m, 16, modrm, BinaryOp::Or)
    } else if opcode == 0x0B {
        reg_rm_op(m, 16, modrm, BinaryOp::Or, true)
    } else if opcode == 0x2A {
        reg_rm_op(m, 8, modrm, BinaryOp::Sub, true)
    } else if opcode == 0x2B {
        reg_rm_op(m, 16, modrm, BinaryOp::Sub, true)
    } else if opcode == 0x3B {
        reg_rm_op(m, 16, modrm, BinaryOp::Sub, false)
    } else if opcode == 0x3C {
        reg_rm_op(m, 8, modrm, BinaryOp::Sub, false)
    } else if opcode == 0x31 || opcode == 0x32 {
        reg_rm_op(m, 8, modrm, BinaryOp::Xor, true)
    } else if opcode == 0x33 {
        reg_rm_op(m, 16, modrm, BinaryOp::Xor, true)
    } else if opcode == 0x8B || opcode == 0x8A {
        let n: usize = if opcode == 0x8B {
            16
        } else {
            8
        };
        let (rv, m1) = read_rm(m, n, modrm);
        match rv {
            Ok(v) => (Ok(()), set_gpr_n(m1, n, reg, v)),
            Err(e) => (Err(e), m1),
        }
    } else if opcode == 0x89 || opcode == 0x88 {
        let n: usize = if opcode == 0x89 {
            16
        } else {
            8
        };
        write_rm(m, n, modrm, gpr_n(m, n, reg))
    } else if opcode == 0x8C {
        write_rm(m, 16, modrm, m.regs.segments[(reg % 8) as int])
    } else if opcode == 0x8D {
        let (ra, m1) = modrm_address(m, modrm);
        match ra {
            Ok(a) => (Ok(()), with_gpr16(m1, reg, a)),
            Err(e) => (Err(e), m1),
        }
    } else if opcode == 0xC6 || opcode == 0xC7 {
        let n: usize = if opcode == 0xC7 {
            16
        } else {
            8
        };
        let (ri, m1) = fetch_imm(m, n);
        match ri {
            Ok(imm) => write_rm(m1, n, modrm, imm),
            Err(e) => (Err(e), m1),
        }
    } else if opcode == 0xF6 || opcode == 0xF7 {
        let n: usize = if opcode == 0xF7 {
            16
        } else {
            8
        };
        if reg == 0 {
            let (rv, m1) = read_rm(m, 16, modrm);
            match rv {
                Err(e) => (Err(e), m1),
                Ok(v) => {
                    let (ri, m2) = fetch_imm(m1, n);
                    match ri {
                        Err(e) => (Err(e), m2),
                        Ok(imm) => (
                            Ok(()),
                            with_flags(m2, bitwise_flags(n, m2.regs.flags, false, v & imm)),
                        ),
                    }
                },
            }
        } else {
            (Err(EmulatorError::Unsupported), m)
        }
    } else if opcode == 0x83 {
        execute_0x83(m, modrm)
    } else {
        execute_0xff(m, modrm)
    }
}

/// Opcode 0x83: add (reg 0), sub (reg 5) or compare (reg 7) a sign-extended byte to a
/// 16-bit r/m operand. For add and sub the byte is read before the operand.
pub open spec fn execute_0x83(m: Machine, modrm: u8) -> Outcome<()> {
    let reg = reg_of(modrm);
    if reg == 0 || reg == 5 {
        let (rb, m1) = fetch_u8(m);
        match rb {
            Err(e) => (Err(e), m1),
            Ok(b) => {
                let (rv, m2) = read_rm(m1, 16, modrm);
                match rv {
                    Err(e) => (Err(e), m2),
                    Ok(v) => {
                        let (res, flags) = binary_result(
                            if reg == 0 {
                                BinaryOp::Add
                            } else {
                                BinaryOp::Sub
                            },
                            16,
                            m2.regs.flags,
                            v,
                            sign_extend(b),
                        );
                        let (rw, m3) = write_rm(m2, 16, modrm, res);
                        match rw {
                            Err(e) => (Err(e), m3),
                            Ok(_) => (Ok(()), with_flags(m3, flags)),
                        }
                    },
                }
            },
        }
    } else if reg == 7 {
        let (rv, m1) = read_rm(m, 16, modrm);
        match rv {
            Err(e) => (Err(e), m1),
            Ok(v) => {
                let (rb, m2) = fetch_u8(m1);
                match rb {
                    Err(e) => (Err(e), m2),
                    Ok(b) => {
                        let (_, flags) = binary_result(
                            BinaryOp::Sub,
                            16,
                            m2.regs.flags,
                            v,
                            sign_extend(b),
                        );
                        (Ok(()), with_flags(m2, flags))
                    },
                }
            },
        }
    } else {
        (Err(EmulatorError::Unsupported), m)
    }
}

/// Opcode 0xFF: increment (reg 0), far call through memory (reg 3) or push (reg 6) of a
/// 16-bit r/m operand.
pub open spec fn execute_0xff(m: Machine, modrm: u8) -> Outcome<()> {
    let reg = reg_of(modrm);
    if reg == 0 {
        let old_ip = m.regs.ip;
        let (rv, m1) = read_rm(m, 16, modrm);
        match rv {
            Err(e) => (Err(e), m1),
            Ok(v) => {
                let result = wrap16(v + 1);
                let m2 = with_ip(m1, old_ip);
                let m3 = with_flags(m2, arithmetic_flags(16, m2.regs.flags, result, false, false));
                write_rm(m3, 16, modrm, result)
            },
        }
    } else if reg == 3 {
        if mode_of(modrm) == 3 {
            (Err(EmulatorError::InvalidOpcode), m)
        } else {
            let (ra, m1) = modrm_address(m, modrm);
            match ra {
                Err(e) => (Err(e), m1),
                Ok(off) => match read_mem(m1.mem, 16, data_address(m1, wrap16(off + 2))) {
                    Err(e) => (Err(e), m1),
                    Ok(segment) => match read_mem(m1.mem, 16, data_address(m1, off)) {
                        Err(e) => (Err(e), m1),
                        Ok(offset) => call_far(m1, segment, offset),
                    },
                },
            }
        }
    } else if reg == 6 {
        let (rv, m1) = read_rm(m, 16, modrm);
        match rv {
            Err(e) => (Err(e), m1),
            Ok(v) => push16(m1, v),
        }
    } else {
        (Err(EmulatorError::Unsupported), m)
    }
}

} // verus!
