use vstd::prelude::*;
use crate::api_helpers::ReturnValue;
use crate::constants::{
    GDI_INT_VECTOR, KERNEL_INT_VECTOR, KEYBOARD_INT_VECTOR, LOWEST_SYSCALL_INT_VECTOR,
    USER_INT_VECTOR,
};
use crate::emulated_gdi::{gdi_call, gdi_handles, EmulatedGdi};
use crate::emulated_kernel::{kernel_call, kernel_handles, EmulatedKernel};
use crate::emulated_keyboard::EmulatedKeyboard;
use crate::emulated_user::{user_call, user_handles, EmulatedUser};
use crate::emulator_accessor::EmulatorAccessor;
use crate::emulator_error::EmulatorError;
use crate::machine::{
    address_base, binary_result, call_far, code_address, data_address, execute, execute_0x83,
    execute_0xff, execute_modrm, fetch_imm, fetch_u16, fetch_u8, gpr_n, is_modrm_opcode,
    jump_short, mode_of, modrm_address, pop16, pop_gpr, pop_segment, push16, read_mem, read_rm,
    reg_of, reg_rm_op, ret_far, ret_near, rm_of, rm_reg_op, set_gpr_n, sign_extend, sp_raised,
    with_flags, with_gpr16, with_ip, with_regs, with_segment, write_mem, write_rm, BinaryOp,
    Machine, Outcome,
};
use crate::memory::{Memory, MEMORY_SIZE};
use crate::mod_rm::ModRMByte;
use crate::object_environment::ObjectEnvironment;
use crate::registers::{
    arithmetic_flags, bitwise_flags, gpr8_of, high_byte, low_byte, wrap16, Registers,
    RegistersView,
};
use crate::util::{add_flags_spec, add_with_flags, sub_flags_spec, sub_with_flags};

verus! {

/// The emulated machine: CPU registers and memory, and the emulated system modules with
/// the objects they share.
pub struct Emulator {
    accessor: EmulatorAccessor,
    emulated_kernel: EmulatedKernel,
    emulated_user: EmulatedUser,
    emulated_gdi: EmulatedGdi,
    emulated_keyboard: EmulatedKeyboard,
    objects: ObjectEnvironment,
}

/// `v` with 16-bit wrap-around, for `v` within one wrap of the range.
proof fn lemma_wrap16(v: int)
    requires
        -0x10000 <= v < 0x20000,
    ensures
        wrap16(v) == if v < 0 {
            v + 0x10000
        } else if v >= 0x10000 {
            v - 0x10000
        } else {
            v
        },
{
}

/// Wrapping twice is wrapping once.
proof fn lemma_wrap16_add(a: int, b: int)
    requires
        0 <= a < 0x20000,
        0 <= b < 0x10000,
    ensures
        wrap16(wrap16(a) + b) == wrap16(a + b),
{
    lemma_wrap16(a);
    lemma_wrap16(wrap16(a) + b);
    if a + b < 0x20000 {
        lemma_wrap16(a + b);
    } else {
        assert((a + b) % 0x10000 == a + b - 0x20000);
        assert(((a + b) % 0x10000 + 0x10000) % 0x10000 == a + b - 0x20000);
    }
}

/// The flags after a two-operand operation that gave `result` and `carry`.
pub open spec fn op_flags(op: BinaryOp, n: usize, flags: u16, result: u16, carry: bool) -> u16 {
    match op {
        BinaryOp::Add => arithmetic_flags(n, flags, result, carry, true),
        BinaryOp::Sub => arithmetic_flags(n, flags, result, carry, true),
        BinaryOp::Or => bitwise_flags(n, flags, false, result),
        BinaryOp::Xor => bitwise_flags(n, flags, false, result),
    }
}

/// Where a system call's value goes: a word to AX, a double word to DX:AX (low word in
/// AX), a word for later to the reserved stack slot (to AX when no procedure call was
/// set up), and nothing for `Empty`.
pub open spec fn delivered(m: Machine, slot: Option<u32>, v: ReturnValue) -> Outcome<()> {
    match v {
        ReturnValue::U16(x) => (Ok(()), with_gpr16(m, Registers::REG_AX, x)),
        ReturnValue::U32(x) => (
            Ok(()),
            with_gpr16(
                with_gpr16(m, Registers::REG_AX, (x % 65536) as u16),
                Registers::REG_DX,
                (x / 65536) as u16,
            ),
        ),
        ReturnValue::DelayedU16(x) => match slot {
            Some(a) => {
                let (rw, mem) = write_mem(m.mem, 16, a as int, x);
                (rw, Machine { mem, ..m })
            },
            None => (Ok(()), with_gpr16(m, Registers::REG_AX, x)),
        },
        ReturnValue::Empty => (Ok(()), m),
    }
}

/// Registers and memory of an accessor.
pub open spec fn machine_of(acc: EmulatorAccessor) -> Machine {
    Machine { regs: acc.regs@, mem: acc.memory@ }
}

/// The end of a system call that left `acc`: an error stops the program there; a value is
/// delivered (see `delivered`).
pub open spec fn call_finished(v: Result<ReturnValue, EmulatorError>, acc: EmulatorAccessor) -> Outcome<()> {
    match v {
        Err(e) => (Err(e), machine_of(acc)),
        Ok(x) => delivered(machine_of(acc), acc.delayed_return_slot, x),
    }
}

/// The module that vector `nr` calls ran function `ax` from `acc0` to `acc2` with the
/// value `v`, taking `before`'s modules to `after`'s; the keyboard module supports no
/// function.
pub open spec fn module_called(
    nr: u8,
    ax: u16,
    before: Emulator,
    after: Emulator,
    acc0: EmulatorAccessor,
    acc2: EmulatorAccessor,
    v: Result<ReturnValue, EmulatorError>,
) -> bool {
    if nr == KERNEL_INT_VECTOR {
        &&& kernel_call(ax, before.kernel(), after.kernel(), acc0, acc2, v)
        &&& after.user() == before.user()
        &&& after.objects() == before.objects()
    } else if nr == USER_INT_VECTOR {
        &&& user_call(ax, before.user(), after.user(), acc0, acc2, before.objects(), after.objects(), v)
        &&& after.kernel() == before.kernel()
    } else if nr == GDI_INT_VECTOR {
        &&& gdi_call(ax, acc0, before.objects(), after.objects(), v)
        &&& acc2 == acc0
        &&& after.kernel() == before.kernel()
        &&& after.user() == before.user()
    } else {
        &&& v == Err::<ReturnValue, EmulatorError>(EmulatorError::Unsupported)
        &&& acc2 == acc0
        &&& after.kernel() == before.kernel()
        &&& after.user() == before.user()
        &&& after.objects() == before.objects()
    }
}

/// `int nr` for a system call vector (0xFC to 0xFF), once the vector is fetched and the
/// machine is `m1`: the module runs the function in AX on the state of `m1` with no call
/// set up, and its value is delivered (see `call_finished`).
pub open spec fn system_called(nr: u8, before: Emulator, after: Emulator, m1: Machine, r: Result<(), EmulatorError>) -> bool {
    exists|acc0: EmulatorAccessor, acc2: EmulatorAccessor, v: Result<ReturnValue, EmulatorError>|
        #[trigger] module_called(nr, m1.regs.gpr[Registers::REG_AX as int], before, after, acc0, acc2, v) && {
            &&& machine_of(acc0) == m1
            &&& acc0.delayed_return_slot is None
            &&& after.delayed_return_slot() == acc2.delayed_return_slot
            &&& (r, after.machine()) == call_finished(v, acc2)
        }
}

/// The `int` instruction from the machine `m` (its opcode read) of `before`: the vector is
/// fetched; `int 0x21` answers the DOS version query (AH 0x30) with MS-DOS 5.0 (AL 5,
/// AH 0) and otherwise ends the program (`Exit`); vectors 0xFC to 0xFF are system calls (see
/// `system_called`); any other vector is `Exit`.
pub open spec fn interrupted(before: Emulator, after: Emulator, m: Machine, r: Result<(), EmulatorError>) -> bool {
    let (rn, m1) = fetch_u8(m);
    let ax = m1.regs.gpr[Registers::REG_AX as int];
    match rn {
        Err(e) => r == Err::<(), EmulatorError>(e) && after.machine() == m1 && after.same_modules(&before),
        Ok(nr) => if nr == 0x21 {
            &&& after.same_modules(&before)
            &&& if high_byte(ax) == 0x30 {
                r == Ok::<(), EmulatorError>(()) && after.machine() == with_gpr16(m1, Registers::REG_AX, 0x0005)
            } else {
                r == Err::<(), EmulatorError>(EmulatorError::Exit) && after.machine() == m1
            }
        } else if nr < 0xFC {
            r == Err::<(), EmulatorError>(EmulatorError::Exit) && after.machine() == m1 && after.same_modules(&before)
        } else {
            system_called(nr, before, after, m1, r)
        },
    }
}

/// What `int` does depends on the machine it starts from and on the modules alone.
proof fn lemma_interrupted_by_modules(b1: Emulator, b2: Emulator, after: Emulator, m: Machine, r: Result<(), EmulatorError>)
    requires
        b1.same_modules(&b2),
        interrupted(b1, after, m, r),
    ensures
        interrupted(b2, after, m, r),
{
    let (rn, m1) = fetch_u8(m);
    if let Ok(nr) = rn {
        if nr >= 0xFC {
            let (acc0, acc2, v) = choose|acc0: EmulatorAccessor, acc2: EmulatorAccessor, v: Result<ReturnValue, EmulatorError>|
                #[trigger] module_called(nr, m1.regs.gpr[Registers::REG_AX as int], b1, after, acc0, acc2, v) && {
                    &&& machine_of(acc0) == m1
                    &&& acc0.delayed_return_slot is None
                    &&& after.delayed_return_slot() == acc2.delayed_return_slot
                    &&& (r, after.machine()) == call_finished(v, acc2)
                };
            assert(module_called(nr, m1.regs.gpr[Registers::REG_AX as int], b2, after, acc0, acc2, v));
        }
    }
}

/// The result of a two-operand operation on `N`-bit operands, and its carry.
fn binary_value<const N: usize>(op: BinaryOp, a: u16, b: u16) -> (r: (u16, bool))
    requires
        N == 8 || N == 16,
    ensures
        forall|flags: u16|
            #[trigger] binary_result(op, N, flags, a, b) == (r.0, op_flags(op, N, flags, r.0, r.1)),
{
    match op {
        BinaryOp::Add => {
            let (res, carry, _) = add_with_flags::<N>(a, b);
            (res, carry)
        },
        BinaryOp::Sub => {
            let (res, carry, _) = sub_with_flags::<N>(a, b);
            (res, carry)
        },
        BinaryOp::Or => (a | b, false),
        BinaryOp::Xor => (a ^ b, false),
    }
}

impl Emulator {
    /// Registers and memory.
    pub closed spec fn machine(&self) -> Machine {
        Machine { regs: self.accessor.regs@, mem: self.accessor.memory@ }
    }

    /// The kernel module.
    pub closed spec fn kernel(&self) -> EmulatedKernel {
        self.emulated_kernel
    }

    /// The user module.
    pub closed spec fn user(&self) -> EmulatedUser {
        self.emulated_user
    }

    /// The objects shared by the user and GDI modules.
    pub closed spec fn objects(&self) -> ObjectEnvironment {
        self.objects
    }

    /// Where a value delivered later goes, if a procedure call was set up.
    pub closed spec fn delayed_return_slot(&self) -> Option<u32> {
        self.accessor.delayed_return_slot
    }

    /// Memory has its full size and a reserved return slot lies in reach.
    pub closed spec fn accessor_sound(&self) -> bool {
        self.accessor.wf()
    }

    /// Memory has its full size and every module is sound.
    pub open spec fn wf(&self) -> bool {
        &&& self.machine().mem.len() == MEMORY_SIZE
        &&& self.accessor_sound()
        &&& self.kernel().wf()
        &&& self.user().wf()
        &&& self.objects().wf()
    }

    /// The machine always has eight general and eight segment registers.
    pub proof fn lemma_machine_registers(&self)
        ensures
            self.machine().regs.gpr.len() == 8,
            self.machine().regs.segments.len() == 8,
    {
        self.accessor.regs.lemma_lengths();
    }

    /// Everything but the registers and memory is as in `other`.
    pub open spec fn same_modules(&self, other: &Emulator) -> bool {
        &&& self.kernel() == other.kernel()
        &&& self.user() == other.user()
        &&& self.objects() == other.objects()
        &&& self.delayed_return_slot() == other.delayed_return_slot()
    }

    /// A machine at `cs`:`ip` with `ds` as data and stack segment (see `Registers::new`),
    /// the given memory and modules.
    pub fn new(
        memory: Memory,
        ds: u16,
        cs: u16,
        ip: u16,
        emulated_kernel: EmulatedKernel,
        emulated_user: EmulatedUser,
        emulated_gdi: EmulatedGdi,
        emulated_keyboard: EmulatedKeyboard,
        objects: ObjectEnvironment,
    ) -> (r: Self)
        ensures
            r.machine().mem == memory@,
            r.machine().regs.ip == ip,
            r.machine().regs.gpr == seq![0u16, 0u16, 0u16, 0u16, 0xF000u16, 0u16, 0u16, 0u16],
            r.machine().regs.segments == seq![0u16, cs, ds, ds, 0u16, 0u16, 0u16, 0u16],
            r.machine().regs.flags == 0x200,
            r.kernel() == emulated_kernel,
            r.user() == emulated_user,
            r.objects() == objects,
            r.delayed_return_slot() is None,
            r.accessor_sound() == (memory@.len() == MEMORY_SIZE),
    {
        Self {
            accessor: EmulatorAccessor::new(memory, Registers::new(ds, cs, ip)),
            emulated_kernel,
            emulated_user,
            emulated_gdi,
            emulated_keyboard,
            objects,
        }
    }

    /// The registers and memory, for whoever drives the machine.
    pub fn accessor(&self) -> (r: &EmulatorAccessor)
        ensures
            r.regs@ == self.machine().regs,
            r.memory@ == self.machine().mem,
            r.delayed_return_slot == self.delayed_return_slot(),
    {
        &self.accessor
    }

    /// The shared objects, for whoever shows the windows.
    pub fn objects_ref(&self) -> (r: &ObjectEnvironment)
        ensures
            *r == self.objects(),
    {
        &self.objects
    }

    fn push_value_16(&mut self, data: u16) -> (r: Result<(), EmulatorError>)
        requires
            old(self).wf(),
        ensures
            final(self).wf(),
            final(self).same_modules(&*old(self)),
            (r, final(self).machine()) == push16(old(self).machine(), data),
    {
        match self.accessor.push_16(data) {
            Ok(()) => Ok(()),
            Err(e) => Err(e),
        }
    }

    fn pop_value_16(&mut self) -> (r: Result<u16, EmulatorError>)
        requires
            old(self).wf(),
        ensures
            final(self).wf(),
            final(self).same_modules(&*old(self)),
            (r, final(self).machine()) == pop16(old(self).machine()),
    {
        let address = self.accessor.regs.flat_reg(Registers::REG_SS, Registers::REG_SP);
        let data = self.accessor.memory.read_u16(address)?;
        self.accessor.regs.inc_sp(2);
        Ok(data)
    }

    fn push_gpr_16(&mut self, register: u8) -> (r: Result<(), EmulatorError>)
        requires
            old(self).wf(),
        ensures
            final(self).wf(),
            final(self).same_modules(&*old(self)),
            (r, final(self).machine()) == push16(
                old(self).machine(),
                old(self).machine().regs.gpr[(register % 8) as int],
            ),
    {
        let data = self.accessor.regs.read_gpr_16(register);
        self.push_value_16(data)
    }

    fn pop_gpr_16(&mut self, register: u8) -> (r: Result<(), EmulatorError>)
        requires
            old(self).wf(),
        ensures
            final(self).wf(),
            final(self).same_modules(&*old(self)),
            (r, final(self).machine()) == pop_gpr(old(self).machine(), register),
    {
        let data = self.pop_value_16()?;
        self.accessor.regs.write_gpr_16(register, data);
        Ok(())
    }

    fn push_segment_16(&mut self, segment: u8) -> (r: Result<(), EmulatorError>)
        requires
            old(self).wf(),
        ensures
            final(self).wf(),
            final(self).same_modules(&*old(self)),
            (r, final(self).machine()) == push16(
                old(self).machine(),
                old(self).machine().regs.segments[(segment % 8) as int],
            ),
    {
        let data = self.accessor.regs.read_segment(segment);
        self.push_value_16(data)
    }

    fn pop_segment_16(&mut self, segment: u8) -> (r: Result<(), EmulatorError>)
        requires
            old(self).wf(),
        ensures
            final(self).wf(),
            final(self).same_modules(&*old(self)),
            (r, final(self).machine()) == pop_segment(old(self).machine(), segment),
    {
        let data = self.pop_value_16()?;
        self.accessor.regs.write_segment(segment, data);
        Ok(())
    }

    /// The byte at CS:IP; IP moves past it (see `fetch_u8`).
    pub fn read_ip_u8(&mut self) -> (r: Result<u8, EmulatorError>)
        requires
            old(self).wf(),
        ensures
            final(self).wf(),
            final(self).same_modules(&*old(self)),
            (r, final(self).machine()) == fetch_u8(old(self).machine()),
    {
        let address = self.accessor.regs.flat_ip();
        let byte = self.accessor.memory.read_8(address)?;
        let ip = self.accessor.regs.ip();
        proof {
            lemma_wrap16(ip + 1);
        }
        self.accessor.regs.set_ip(ip.wrapping_add(1));
        Ok(byte)
    }

    /// The byte at CS:IP read as signed; IP moves past it.
    pub fn read_ip_i8(&mut self) -> (r: Result<i8, EmulatorError>)
        requires
            old(self).wf(),
        ensures
            final(self).wf(),
            final(self).same_modules(&*old(self)),
            final(self).machine() == fetch_u8(old(self).machine()).1,
            match fetch_u8(old(self).machine()).0 {
                Ok(b) => r matches Ok(v) && v as int == (if b < 128 { b as int } else { b - 256 }),
                Err(e) => r == Err::<i8, EmulatorError>(e),
            },
    {
        let b = self.read_ip_u8()?;
        assert(b as i8 as int == (if b < 128 { b as int } else { b - 256 })) by (bit_vector);
        Ok(b as i8)
    }

    /// The ModR/M byte at CS:IP; IP moves past it.
    pub fn read_ip_mod_rm(&mut self) -> (r: Result<ModRMByte, EmulatorError>)
        requires
            old(self).wf(),
        ensures
            final(self).wf(),
            final(self).same_modules(&*old(self)),
            final(self).machine() == fetch_u8(old(self).machine()).1,
            match fetch_u8(old(self).machine()).0 {
                Ok(b) => r == Ok::<ModRMByte, EmulatorError>(ModRMByte(b)),
                Err(e) => r == Err::<ModRMByte, EmulatorError>(e),
            },
    {
        let b = self.read_ip_u8()?;
        Ok(ModRMByte(b))
    }

    /// The word at CS:IP; IP moves past it (see `fetch_u16`).
    pub fn read_ip_u16(&mut self) -> (r: Result<u16, EmulatorError>)
        requires
            old(self).wf(),
        ensures
            final(self).wf(),
            final(self).same_modules(&*old(self)),
            (r, final(self).machine()) == fetch_u16(old(self).machine()),
    {
        let address = self.accessor.regs.flat_ip();
        let word = self.accessor.memory.read_u16(address)?;
        let ip = self.accessor.regs.ip();
        proof {
            lemma_wrap16(ip + 2);
        }
        self.accessor.regs.set_ip(ip.wrapping_add(2));
        Ok(word)
    }

    /// An immediate of `N` bits (8 or 16) at CS:IP, zero-extended; another width is
    /// `OutOfBounds` and reads nothing.
    pub fn read_ip_u_generic<const N: usize>(&mut self) -> (r: Result<u16, EmulatorError>)
        requires
            old(self).wf(),
        ensures
            final(self).wf(),
            final(self).same_modules(&*old(self)),
            N == 8 || N == 16 ==> (r, final(self).machine()) == fetch_imm(old(self).machine(), N),
            !(N == 8 || N == 16) ==> r == Err::<u16, EmulatorError>(EmulatorError::OutOfBounds)
                && final(self).machine() == old(self).machine(),
    {
        if N == 16 {
            self.read_ip_u16()
        } else if N == 8 {
            let b = self.read_ip_u8()?;
            Ok(b as u16)
        } else {
            Err(EmulatorError::OutOfBounds)
        }
    }

    fn write_memory_ds<const N: usize>(&mut self, offset: u16, data: u16) -> (r: Result<(), EmulatorError>)
        requires
            old(self).wf(),
            N == 8 || N == 16,
        ensures
            final(self).wf(),
            final(self).same_modules(&*old(self)),
            ({
                let m = old(self).machine();
                let (rw, mem) = write_mem(m.mem, N, data_address(m, offset), data);
                r == rw && final(self).machine() == (Machine { mem, ..m })
            }),
    {
        let address = self.accessor.regs.flat_address(Registers::REG_DS, offset);
        match self.accessor.memory.write::<N>(address, data) {
            Ok(()) => Ok(()),
            Err(e) => Err(e),
        }
    }

    fn read_memory_ds<const N: usize>(&self, offset: u16) -> (r: Result<u16, EmulatorError>)
        requires
            self.wf(),
            N == 8 || N == 16,
        ensures
            r == read_mem(self.machine().mem, N, data_address(self.machine(), offset)),
    {
        let address = self.accessor.regs.flat_address(Registers::REG_DS, offset);
        self.accessor.memory.read::<N>(address)
    }

    /// The base register sum that the r/m field `rm` names, wrapped to 16 bits.
    fn register_base(&self, rm: u8) -> (r: u16)
        requires
            rm < 8,
        ensures
            r == wrap16(address_base(self.machine().regs, rm)),
    {
        let bx = self.accessor.regs.read_gpr_16(Registers::REG_BX);
        let si = self.accessor.regs.read_gpr_16(Registers::REG_SI);
        let di = self.accessor.regs.read_gpr_16(Registers::REG_DI);
        let bp = self.accessor.regs.read_gpr_16(Registers::REG_BP);
        if rm == 0 {
            proof { lemma_wrap16(bx + si); }
            bx.wrapping_add(si)
        } else if rm == 1 {
            proof { lemma_wrap16(bx + di); }
            bx.wrapping_add(di)
        } else if rm == 2 {
            proof { lemma_wrap16(bp + si); }
            bp.wrapping_add(si)
        } else if rm == 3 {
            proof { lemma_wrap16(bp + di); }
            bp.wrapping_add(di)
        } else if rm == 4 {
            proof { lemma_wrap16(si as int); }
            si
        } else if rm == 5 {
            proof { lemma_wrap16(di as int); }
            di
        } else if rm == 6 {
            proof { lemma_wrap16(bp as int); }
            bp
        } else {
            proof { lemma_wrap16(bx as int); }
            bx
        }
    }

    /// The offset that the memory operand of `mod_rm` names (see `modrm_address`),
    /// reading its displacement; register operands are `InvalidOpcode`.
    fn calculate_mod_rm_address(&mut self, mod_rm: ModRMByte) -> (r: Result<u16, EmulatorError>)
        requires
            old(self).wf(),
        ensures
            final(self).wf(),
            final(self).same_modules(&*old(self)),
            (r, final(self).machine()) == modrm_address(old(self).machine(), mod_rm.0),
    {
        let mode = mod_rm.addressing_mode();
        let rm = mod_rm.rm();
        if mode == 0 {
            if rm == 6 {
                self.read_ip_u16()
            } else {
                Ok(self.register_base(rm))
            }
        } else if mode == 1 || mode == 2 {
            let base = self.register_base(rm);
            let displacement = if mode == 1 {
                let b = self.read_ip_u8()?;
                Self::sign_extend_byte(b)
            } else {
                self.read_ip_u16()?
            };
            proof {
                let g = old(self).machine().regs.gpr;
                assert(0 <= address_base(old(self).machine().regs, rm) < 0x20000);
                lemma_wrap16_add(address_base(old(self).machine().regs, rm), displacement as int);
                lemma_wrap16(base + displacement);
            }
            Ok(base.wrapping_add(displacement))
        } else {
            Err(EmulatorError::InvalidOpcode)
        }
    }

    /// A byte sign-extended to a word.
    fn sign_extend_byte(b: u8) -> (r: u16)
        ensures
            r == sign_extend(b),
    {
        if b < 128 {
            b as u16
        } else {
            b as u16 + 0xFF00
        }
    }

    /// Reads the `N`-bit operand that `mod_rm` names (see `read_rm`).
    fn read_mod_rm<const N: usize>(&mut self, mod_rm: ModRMByte) -> (r: Result<u16, EmulatorError>)
        requires
            old(self).wf(),
            N == 8 || N == 16,
        ensures
            final(self).wf(),
            final(self).same_modules(&*old(self)),
            (r, final(self).machine()) == read_rm(old(self).machine(), N, mod_rm.0),
    {
        if mod_rm.addressing_mode() == 3 {
            Ok(self.accessor.regs.read_gpr::<N>(mod_rm.rm()))
        } else {
            let offset = self.calculate_mod_rm_address(mod_rm)?;
            self.read_memory_ds::<N>(offset)
        }
    }

    /// Writes the `N`-bit operand that `mod_rm` names (see `write_rm`).
    fn write_mod_rm<const N: usize>(&mut self, mod_rm: ModRMByte, data: u16) -> (r: Result<(), EmulatorError>)
        requires
            old(self).wf(),
            N == 8 || N == 16,
        ensures
            final(self).wf(),
            final(self).same_modules(&*old(self)),
            (r, final(self).machine()) == write_rm(old(self).machine(), N, mod_rm.0, data),
    {
        if mod_rm.addressing_mode() == 3 {
            self.accessor.regs.write_gpr::<N>(mod_rm.rm(), data);
            Ok(())
        } else {
            let offset = self.calculate_mod_rm_address(mod_rm)?;
            self.write_memory_ds::<N>(offset, data)
        }
    }

    /// Sets the flags that an operation with this result and carry leaves.
    fn set_op_flags<const N: usize>(&mut self, op: BinaryOp, result: u16, carry: bool)
        requires
            old(self).wf(),
            N == 8 || N == 16,
        ensures
            final(self).wf(),
            final(self).same_modules(&*old(self)),
            final(self).machine() == with_flags(
                old(self).machine(),
                op_flags(op, N, old(self).machine().regs.flags, result, carry),
            ),
    {
        match op {
            BinaryOp::Add => self.accessor.regs.handle_arithmetic_result_u_generic::<N>(result, carry, true),
            BinaryOp::Sub => self.accessor.regs.handle_arithmetic_result_u_generic::<N>(result, carry, true),
            BinaryOp::Or => self.accessor.regs.handle_bitwise_result_u_generic::<N>(false, result),
            BinaryOp::Xor => self.accessor.regs.handle_bitwise_result_u_generic::<N>(false, result),
        }
    }

    /// `reg = reg op r/m` (or, for `Or` and `Xor`, `r/m op reg`), the ModR/M byte already
    /// read; with `write_back` false only the flags change (see `reg_rm_op`).
    fn reg_rm_operation<const N: usize>(&mut self, mod_rm: ModRMByte, op: BinaryOp, write_back: bool) -> (r: Result<(), EmulatorError>)
        requires
            old(self).wf(),
            N == 8 || N == 16,
        ensures
            final(self).wf(),
            final(self).same_modules(&*old(self)),
            (r, final(self).machine()) == reg_rm_op(old(self).machine(), N, mod_rm.0, op, write_back),
    {
        let reg = mod_rm.register_destination();
        let v = self.read_mod_rm::<N>(mod_rm)?;
        let reg_value = self.accessor.regs.read_gpr::<N>(reg);
        let (a, b) = match op {
            BinaryOp::Or => (v, reg_value),
            BinaryOp::Xor => (v, reg_value),
            _ => (reg_value, v),
        };
        let (result, carry) = binary_value::<N>(op, a, b);
        if write_back {
            self.accessor.regs.write_gpr::<N>(reg, result);
        }
        self.set_op_flags::<N>(op, result, carry);
        Ok(())
    }

    /// `r/m = r/m op reg` (operands in that order for `Or`, the other way round for the
    /// rest), the ModR/M byte already read: IP is put back between the read and the
    /// write, and the flags are set after the write (see `rm_reg_op`).
    fn rm_reg_operation<const N: usize>(&mut self, mod_rm: ModRMByte, op: BinaryOp) -> (r: Result<(), EmulatorError>)
        requires
            old(self).wf(),
            N == 8 || N == 16,
        ensures
            final(self).wf(),
            final(self).same_modules(&*old(self)),
            (r, final(self).machine()) == rm_reg_op(old(self).machine(), N, mod_rm.0, op),
    {
        let reg = mod_rm.register_destination();
        let old_ip = self.accessor.regs.ip();
        let v = self.read_mod_rm::<N>(mod_rm)?;
        let reg_value = self.accessor.regs.read_gpr::<N>(reg);
        let (a, b) = match op {
            BinaryOp::Or => (v, reg_value),
            _ => (reg_value, v),
        };
        let (result, carry) = binary_value::<N>(op, a, b);
        // Because src = dest for MOD/RM
        self.accessor.regs.set_ip(old_ip);
        self.write_mod_rm::<N>(mod_rm, result)?;
        self.set_op_flags::<N>(op, result, carry);
        Ok(())
    }

    fn mov_r_rm<const N: usize>(&mut self, mod_rm: ModRMByte) -> (r: Result<(), EmulatorError>)
        requires
            old(self).wf(),
            N == 8 || N == 16,
        ensures
            final(self).wf(),
            final(self).same_modules(&*old(self)),
            ({
                let (rv, m1) = read_rm(old(self).machine(), N, mod_rm.0);
                (r, final(self).machine()) == match rv {
                    Ok(v) => (Ok(()), set_gpr_n(m1, N, reg_of(mod_rm.0), v)),
                    Err(e) => (Err(e), m1),
                }
            }),
    {
        let result = self.read_mod_rm::<N>(mod_rm)?;
        self.accessor.regs.write_gpr::<N>(mod_rm.register_destination(), result);
        Ok(())
    }

    fn mov_rm_r<const N: usize>(&mut self, mod_rm: ModRMByte) -> (r: Result<(), EmulatorError>)
        requires
            old(self).wf(),
            N == 8 || N == 16,
        ensures
            final(self).wf(),
            final(self).same_modules(&*old(self)),
            (r, final(self).machine()) == write_rm(
                old(self).machine(),
                N,
                mod_rm.0,
                gpr_n(old(self).machine(), N, reg_of(mod_rm.0)),
            ),
    {
        let data = self.accessor.regs.read_gpr::<N>(mod_rm.register_destination());
        self.write_mod_rm::<N>(mod_rm, data)
    }

    fn mov_segment(&mut self, mod_rm: ModRMByte) -> (r: Result<(), EmulatorError>)
        requires
            old(self).wf(),
        ensures
            final(self).wf(),
            final(self).same_modules(&*old(self)),
            (r, final(self).machine()) == write_rm(
                old(self).machine(),
                16,
                mod_rm.0,
                old(self).machine().regs.segments[(reg_of(mod_rm.0) % 8) as int],
            ),
    {
        let data = self.accessor.regs.read_segment(mod_rm.register_destination());
        self.write_mod_rm::<16>(mod_rm, data)
    }

    fn lea(&mut self, mod_rm: ModRMByte) -> (r: Result<(), EmulatorError>)
        requires
            old(self).wf(),
        ensures
            final(self).wf(),
            final(self).same_modules(&*old(self)),
            ({
                let (ra, m1) = modrm_address(old(self).machine(), mod_rm.0);
                (r, final(self).machine()) == match ra {
                    Ok(a) => (Ok(()), with_gpr16(m1, reg_of(mod_rm.0), a)),
                    Err(e) => (Err(e), m1),
                }
            }),
    {
        let data = self.calculate_mod_rm_address(mod_rm)?;
        self.accessor.regs.write_gpr_16(mod_rm.register_destination(), data);
        Ok(())
    }

    fn mov_rm_imm_generic<const N: usize>(&mut self, mod_rm: ModRMByte) -> (r: Result<(), EmulatorError>)
        requires
            old(self).wf(),
            N == 8 || N == 16,
        ensures
            final(self).wf(),
            final(self).same_modules(&*old(self)),
            ({
                let (ri, m1) = fetch_imm(old(self).machine(), N);
                (r, final(self).machine()) == match ri {
                    Ok(imm) => write_rm(m1, N, mod_rm.0, imm),
                    Err(e) => (Err(e), m1),
                }
            }),
    {
        let data = self.read_ip_u_generic::<N>()?;
        self.write_mod_rm::<N>(mod_rm, data)
    }

    /// Opcodes 0xF6 and 0xF7: test (reg 0) of a word r/m operand against an `N`-bit
    /// immediate; other extensions are `Unsupported`.
    fn op_0xf6_0xf7_generic<const N: usize>(&mut self, mod_rm: ModRMByte) -> (r: Result<(), EmulatorError>)
        requires
            old(self).wf(),
            N == 8 || N == 16,
        ensures
            final(self).wf(),
            final(self).same_modules(&*old(self)),
            (r, final(self).machine()) == execute_modrm(
                old(self).machine(),
                if N == 16 { 0xF7u8 } else { 0xF6u8 },
                mod_rm.0,
            ),
    {
        if mod_rm.register_destination() == 0 {
            let data = self.read_mod_rm::<16>(mod_rm)?;
            let imm = self.read_ip_u_generic::<N>()?;
            self.accessor.regs.handle_bitwise_result_u_generic::<N>(false, data & imm);
            Ok(())
        } else {
            Err(EmulatorError::Unsupported)
        }
    }

    /// Opcode 0x83 (see `execute_0x83`).
    fn op_0x83(&mut self, mod_rm: ModRMByte) -> (r: Result<(), EmulatorError>)
        requires
            old(self).wf(),
        ensures
            final(self).wf(),
            final(self).same_modules(&*old(self)),
            (r, final(self).machine()) == execute_0x83(old(self).machine(), mod_rm.0),
    {
        let reg = mod_rm.register_destination();
        if reg == 0 || reg == 5 {
            let b = self.read_ip_u8()?;
            let data = Self::sign_extend_byte(b);
            let v = self.read_mod_rm::<16>(mod_rm)?;
            let op = if reg == 0 {
                BinaryOp::Add
            } else {
                BinaryOp::Sub
            };
            let (result, carry) = binary_value::<16>(op, v, data);
            self.write_mod_rm::<16>(mod_rm, result)?;
            self.set_op_flags::<16>(op, result, carry);
            Ok(())
        } else if reg == 7 {
            let v = self.read_mod_rm::<16>(mod_rm)?;
            let b = self.read_ip_u8()?;
            let data = Self::sign_extend_byte(b);
            let (result, carry) = binary_value::<16>(BinaryOp::Sub, v, data);
            self.set_op_flags::<16>(BinaryOp::Sub, result, carry);
            Ok(())
        } else {
            Err(EmulatorError::Unsupported)
        }
    }

    /// Opcode 0xFF (see `execute_0xff`).
    fn op_0xff(&mut self, mod_rm: ModRMByte) -> (r: Result<(), EmulatorError>)
        requires
            old(self).wf(),
        ensures
            final(self).wf(),
            final(self).same_modules(&*old(self)),
            (r, final(self).machine()) == execute_0xff(old(self).machine(), mod_rm.0),
    {
        let reg = mod_rm.register_destination();
        if reg == 0 {
            // inc ...
            let old_ip = self.accessor.regs.ip();
            let data = self.read_mod_rm::<16>(mod_rm)?;
            // Because src = dest for MOD/RM
            self.accessor.regs.set_ip(old_ip);
            proof {
                lemma_wrap16(data + 1);
            }
            let result = data.wrapping_add(1);
            self.accessor.regs.handle_arithmetic_result_u16(result, false, false);
            self.write_mod_rm::<16>(mod_rm, result)
        } else if reg == 3 {
            // call far ...
            if mod_rm.addressing_mode() == 3 {
                Err(EmulatorError::InvalidOpcode)
            } else {
                let offset = self.calculate_mod_rm_address(mod_rm)?;
                proof {
                    lemma_wrap16(offset + 2);
                }
                let segment = self.read_memory_ds::<16>(offset.wrapping_add(2))?;
                let offset_within_segment = self.read_memory_ds::<16>(offset)?;
                self.call_far(segment, offset_within_segment)
            }
        } else if reg == 6 {
            // push ...
            let data = self.read_mod_rm::<16>(mod_rm)?;
            self.push_value_16(data)
        } else {
            Err(EmulatorError::Unsupported)
        }
    }

    /// Pushes CS, then IP, and jumps to `segment`:`offset` (see `call_far`).
    fn call_far(&mut self, segment: u16, offset: u16) -> (r: Result<(), EmulatorError>)
        requires
            old(self).wf(),
        ensures
            final(self).wf(),
            final(self).same_modules(&*old(self)),
            (r, final(self).machine()) == call_far(old(self).machine(), segment, offset),
    {
        let cs = self.accessor.regs.read_segment(Registers::REG_CS);
        self.push_value_16(cs)?;
        let ip = self.accessor.regs.ip();
        self.push_value_16(ip)?;
        self.accessor.regs.write_segment(Registers::REG_CS, segment);
        self.accessor.regs.set_ip(offset);
        Ok(())
    }

    /// A far call to the address that follows the opcode (offset, then segment).
    pub fn call_far_with_32b_displacement(&mut self) -> (r: Result<(), EmulatorError>)
        requires
            old(self).wf(),
        ensures
            final(self).wf(),
            final(self).same_modules(&*old(self)),
            (r, final(self).machine()) == execute(old(self).machine(), 0x9A),
    {
        let address = self.read_ip_u16()?;
        let segment = self.read_ip_u16()?;
        self.call_far(segment, address)
    }

    /// An instruction with a ModR/M byte, opcode and ModR/M byte already read (see
    /// `execute_modrm`).
    #[verifier::rlimit(40)]
    fn execute_modrm_instruction(&mut self, opcode: u8, mod_rm: ModRMByte) -> (r: Result<(), EmulatorError>)
        requires
            old(self).wf(),
            is_modrm_opcode(opcode),
        ensures
            final(self).wf(),
            final(self).same_modules(&*old(self)),
            (r, final(self).machine()) == execute_modrm(old(self).machine(), opcode, mod_rm.0),
    {
        match opcode {
            0x01 => self.rm_reg_operation::<16>(mod_rm, BinaryOp::Add),
            0x09 => self.rm_reg_operation::<16>(mod_rm, BinaryOp::Or),
            0x0B => self.reg_rm_operation::<16>(mod_rm, BinaryOp::Or, true),
            0x2A => self.reg_rm_operation::<8>(mod_rm, BinaryOp::Sub, true),
            0x2B => self.reg_rm_operation::<16>(mod_rm, BinaryOp::Sub, true),
            0x3B => self.reg_rm_operation::<16>(mod_rm, BinaryOp::Sub, false),
            0x3C => self.reg_rm_operation::<8>(mod_rm, BinaryOp::Sub, false),
            0x31 => self.reg_rm_operation::<8>(mod_rm, BinaryOp::Xor, true),
            0x32 => self.reg_rm_operation::<8>(mod_rm, BinaryOp::Xor, true),
            0x33 => self.reg_rm_operation::<16>(mod_rm, BinaryOp::Xor, true),
            0x8B => self.mov_r_rm::<16>(mod_rm),
            0x8A => self.mov_r_rm::<8>(mod_rm),
            0x89 => self.mov_rm_r::<16>(mod_rm),
            0x88 => self.mov_rm_r::<8>(mod_rm),
            0x8C => self.mov_segment(mod_rm),
            0x8D => self.lea(mod_rm),
            0xC6 => self.mov_rm_imm_generic::<8>(mod_rm),
            0xC7 => self.mov_rm_imm_generic::<16>(mod_rm),
            0xF6 => self.op_0xf6_0xf7_generic::<8>(mod_rm),
            0xF7 => self.op_0xf6_0xf7_generic::<16>(mod_rm),
            0x83 => self.op_0x83(mod_rm),
            _ => self.op_0xff(mod_rm),
        }
    }

    fn jcc(&mut self, condition: bool) -> (r: Result<(), EmulatorError>)
        requires
            old(self).wf(),
        ensures
            final(self).wf(),
            final(self).same_modules(&*old(self)),
            (r, final(self).machine()) == jump_short(old(self).machine(), condition),
    {
        let b = self.read_ip_u8()?;
        if condition {
            let destination_offset = Self::sign_extend_byte(b);
            let ip = self.accessor.regs.ip();
            proof {
                lemma_wrap16(ip + destination_offset);
            }
            self.accessor.regs.set_ip(ip.wrapping_add(destination_offset));
        }
        Ok(())
    }

    fn jmp_rel16(&mut self) -> (r: Result<(), EmulatorError>)
        requires
            old(self).wf(),
        ensures
            final(self).wf(),
            final(self).same_modules(&*old(self)),
            (r, final(self).machine()) == execute(old(self).machine(), 0xE9),
    {
        let destination_offset = self.read_ip_u16()?;
        let ip = self.accessor.regs.ip();
        proof {
            lemma_wrap16(ip + destination_offset);
        }
        self.accessor.regs.set_ip(ip.wrapping_add(destination_offset));
        Ok(())
    }

    fn call_near_rel16(&mut self) -> (r: Result<(), EmulatorError>)
        requires
            old(self).wf(),
        ensures
            final(self).wf(),
            final(self).same_modules(&*old(self)),
            (r, final(self).machine()) == execute(old(self).machine(), 0xE8),
    {
        let destination_offset = self.read_ip_u16()?;
        let ip = self.accessor.regs.ip();
        self.push_value_16(ip)?;
        proof {
            lemma_wrap16(ip + destination_offset);
        }
        self.accessor.regs.set_ip(ip.wrapping_add(destination_offset));
        Ok(())
    }

    fn ret_near_without_pop(&mut self) -> (r: Result<(), EmulatorError>)
        requires
            old(self).wf(),
        ensures
            final(self).wf(),
            final(self).same_modules(&*old(self)),
            (r, final(self).machine()) == ret_near(old(self).machine()),
    {
        let ip = self.pop_value_16()?;
        self.accessor.regs.set_ip(ip);
        Ok(())
    }

    fn ret_far_without_pop(&mut self) -> (r: Result<(), EmulatorError>)
        requires
            old(self).wf(),
        ensures
            final(self).wf(),
            final(self).same_modules(&*old(self)),
            (r, final(self).machine()) == ret_far(old(self).machine()),
    {
        let ip = self.pop_value_16()?;
        self.accessor.regs.set_ip(ip);
        let cs = self.pop_value_16()?;
        self.accessor.regs.write_segment(Registers::REG_CS, cs);
        Ok(())
    }

    fn ret_with_pop(&mut self, far: bool) -> (r: Result<(), EmulatorError>)
        requires
            old(self).wf(),
        ensures
            final(self).wf(),
            final(self).same_modules(&*old(self)),
            (r, final(self).machine()) == execute(old(self).machine(), if far { 0xCAu8 } else { 0xC2u8 }),
    {
        let amount = self.read_ip_u16()?;
        if far {
            self.ret_far_without_pop()?;
        } else {
            self.ret_near_without_pop()?;
        }
        self.accessor.regs.inc_sp(amount);
        Ok(())
    }

    fn mov_ax_moffs16(&mut self) -> (r: Result<(), EmulatorError>)
        requires
            old(self).wf(),
        ensures
            final(self).wf(),
            final(self).same_modules(&*old(self)),
            (r, final(self).machine()) == execute(old(self).machine(), 0xA1),
    {
        let offset = self.read_ip_u16()?;
        let data = self.read_memory_ds::<16>(offset)?;
        self.accessor.regs.write_gpr_16(Registers::REG_AX, data);
        Ok(())
    }

    fn mov_moffs_ax<const N: usize>(&mut self) -> (r: Result<(), EmulatorError>)
        requires
            old(self).wf(),
            N == 8 || N == 16,
        ensures
            final(self).wf(),
            final(self).same_modules(&*old(self)),
            (r, final(self).machine()) == execute(old(self).machine(), if N == 8 { 0xA2u8 } else { 0xA3u8 }),
    {
        let offset = self.read_ip_u16()?;
        let data = if N == 8 {
            self.accessor.regs.read_gpr_lo_8(Registers::REG_AL) as u16
        } else {
            self.accessor.regs.read_gpr_16(Registers::REG_AX)
        };
        self.write_memory_ds::<N>(offset, data)
    }

    fn cwd(&mut self) -> (r: Result<(), EmulatorError>)
        requires
            old(self).wf(),
        ensures
            final(self).wf(),
            final(self).same_modules(&*old(self)),
            (r, final(self).machine()) == execute(old(self).machine(), 0x99),
    {
        let ax = self.accessor.regs.read_gpr_16(Registers::REG_AX);
        assert(ax >> 15u16 == ax / 0x8000) by (bit_vector);
        self.accessor.regs.write_gpr_16(Registers::REG_DX, ax >> 15);
        Ok(())
    }

    fn compare_ax_imm16(&mut self) -> (r: Result<(), EmulatorError>)
        requires
            old(self).wf(),
        ensures
            final(self).wf(),
            final(self).same_modules(&*old(self)),
            (r, final(self).machine()) == execute(old(self).machine(), 0x3D),
    {
        let immediate = self.read_ip_u_generic::<16>()?;
        let ax = self.accessor.regs.read_gpr_16(Registers::REG_AX);
        let (result, carry, _) = sub_with_flags::<16>(ax, immediate);
        self.accessor.regs.handle_arithmetic_result_u_generic::<16>(result, carry, true);
        Ok(())
    }

    /// One instruction other than `int`, its opcode already read (see `execute`).
    #[verifier::rlimit(80)]
    fn execute_opcode(&mut self, opcode: u8) -> (r: Result<(), EmulatorError>)
        requires
            old(self).wf(),
        ensures
            final(self).wf(),
            final(self).same_modules(&*old(self)),
            (r, final(self).machine()) == execute(old(self).machine(), opcode),
    {
        proof {
            self.accessor.regs.lemma_lengths();
        }
        match opcode {
            0x06 => self.push_segment_16(Registers::REG_ES),
            0x07 => self.pop_segment_16(Registers::REG_ES),
            0x0E => self.push_segment_16(Registers::REG_CS),
            0x16 => self.push_segment_16(Registers::REG_SS),
            0x1E => self.push_segment_16(Registers::REG_DS),
            0x3D => self.compare_ax_imm16(),
            0x50 => self.push_gpr_16(Registers::REG_AX),
            0x51 => self.push_gpr_16(Registers::REG_CX),
            0x52 => self.push_gpr_16(Registers::REG_DX),
            0x53 => self.push_gpr_16(Registers::REG_BX),
            0x54 => self.push_gpr_16(Registers::REG_SP),
            0x55 => self.push_gpr_16(Registers::REG_BP),
            0x56 => self.pop_gpr_16(Registers::REG_SI),
            0x57 => self.pop_gpr_16(Registers::REG_DI),
            0x58 => self.pop_gpr_16(Registers::REG_AX),
            0x5D => self.pop_gpr_16(Registers::REG_BP),
            0x5E => self.pop_gpr_16(Registers::REG_SI),
            0x5F => self.pop_gpr_16(Registers::REG_DI),
            0x68 => {
                let data = self.read_ip_u16()?;
                self.push_value_16(data)
            },
            0x6a => {
                let data = self.read_ip_u8()?;
                self.push_value_16(data as u16)
            },
            0x72 => {
                let condition = self.accessor.regs.flag_carry();
                self.jcc(condition)
            },
            0x73 => {
                let condition = !self.accessor.regs.flag_carry();
                self.jcc(condition)
            },
            0x74 => {
                let condition = self.accessor.regs.flag_zero();
                self.jcc(condition)
            },
            0x75 => {
                let condition = !self.accessor.regs.flag_zero();
                self.jcc(condition)
            },
            0x7E => {
                let condition = self.accessor.regs.flag_zero() || (self.accessor.regs.flag_sign()
                    != self.accessor.regs.flag_overflow());
                self.jcc(condition)
            },
            0x90 => Ok(()),
            0x99 => self.cwd(),
            0x9A => self.call_far_with_32b_displacement(),
            0xA1 => self.mov_ax_moffs16(),
            0xA2 => self.mov_moffs_ax::<8>(),
            0xA3 => self.mov_moffs_ax::<16>(),
            0xB0 => {
                let data = self.read_ip_u8()?;
                self.accessor.regs.write_gpr_lo_8(Registers::REG_AL, data);
                Ok(())
            },
            0xB4 => {
                let data = self.read_ip_u8()?;
                self.accessor.regs.write_gpr_hi_8(Registers::REG_AH, data);
                Ok(())
            },
            0xB8 | 0xB9 | 0xBA | 0xBF => {
                let data = self.read_ip_u16()?;
                self.accessor.regs.write_gpr_16(opcode - 0xB8, data);
                Ok(())
            },
            0xC2 => self.ret_with_pop(false),
            0xC3 => self.ret_near_without_pop(),
            0xCA => self.ret_with_pop(true),
            0xCB => self.ret_far_without_pop(),
            0xE9 => self.jmp_rel16(),
            0xEB => self.jcc(true),
            0xE8 => self.call_near_rel16(),
            0xFC => {
                self.accessor.regs.set_direction_flag(false);
                Ok(())
            },
            // STOSB and REP are not emulated
            0xAA | 0xF3 => Err(EmulatorError::Unsupported),
            _ => {
                if Self::has_mod_rm(opcode) {
                    let mod_rm = self.read_ip_mod_rm()?;
                    self.execute_modrm_instruction(opcode, mod_rm)
                } else {
                    Err(EmulatorError::InvalidOpcode)
                }
            },
        }
    }

    /// Whether a ModR/M byte follows the opcode.
    fn has_mod_rm(opcode: u8) -> (r: bool)
        ensures
            r == is_modrm_opcode(opcode),
    {
        opcode == 0x01 || opcode == 0x09 || opcode == 0x0B || opcode == 0x2A || opcode == 0x2B
            || opcode == 0x3B || opcode == 0x3C || opcode == 0x31 || opcode == 0x32 || opcode == 0x33
            || opcode == 0x83 || opcode == 0x8B || opcode == 0x89 || opcode == 0x88 || opcode == 0x8A
            || opcode == 0x8C || opcode == 0x8D || opcode == 0xC6 || opcode == 0xC7 || opcode == 0xF6
            || opcode == 0xF7 || opcode == 0xFF
    }

    /// Hands a system call's value to the program (see `delivered`).
    pub fn deliver_return_value(&mut self, value: ReturnValue) -> (r: Result<(), EmulatorError>)
        requires
            old(self).wf(),
        ensures
            final(self).wf(),
            final(self).same_modules(&*old(self)),
            (r, final(self).machine()) == delivered(
                old(self).machine(),
                old(self).delayed_return_slot(),
                value,
            ),
    {
        match value {
            ReturnValue::U16(x) => {
                self.accessor.regs.write_gpr_16(Registers::REG_AX, x);
                Ok(())
            },
            ReturnValue::U32(x) => {
                assert(x as u16 == (x % 65536) as u16) by (bit_vector);
                assert((x >> 16u32) as u16 == (x / 65536) as u16) by (bit_vector);
                self.accessor.regs.write_gpr_16(Registers::REG_AX, x as u16);
                self.accessor.regs.write_gpr_16(Registers::REG_DX, (x >> 16) as u16);
                Ok(())
            },
            ReturnValue::DelayedU16(x) => match self.accessor.delayed_return_slot {
                Some(address) => match self.accessor.memory.write_u16(address, x) {
                    Ok(()) => Ok(()),
                    Err(e) => Err(e),
                },
                None => {
                    self.accessor.regs.write_gpr_16(Registers::REG_AX, x);
                    Ok(())
                },
            },
            ReturnValue::Empty => Ok(()),
        }
    }

    /// The `int` instruction, opcode already read: `int 0x21` answers the DOS version
    /// query (AH 0x30) with MS-DOS 5.0: AL 5 (major), AH 0 (minor); otherwise it ends the program (`Exit`); vectors
    /// 0xFC to 0xFF call the emulated keyboard, GDI, user and kernel modules with the
    /// function in AX and deliver their value (see `delivered`); any other vector is
    /// `Exit`.
    #[verifier::spinoff_prover]
    fn interrupt(&mut self) -> (r: Result<(), EmulatorError>)
        requires
            old(self).wf(),
        ensures
            final(self).wf(),
            interrupted(*old(self), *final(self), old(self).machine(), r),
    {
        let nr = self.read_ip_u8()?;
        proof {
            self.accessor.regs.lemma_lengths();
        }
        if nr == 0x21 {
            let ah = self.accessor.regs.read_gpr_hi_8(Registers::REG_AH);
            if ah == 0x30 {
                // Get DOS version, fake MS-DOS 5.0: AL the major, AH the minor version (only
                // AL and AH are set)
                self.accessor.regs.write_gpr_16(Registers::REG_AX, 0x0005);
                return Ok(());
            }
            // AH 0x4C and 0 end the program with a code; every other function ends it too
            Err(EmulatorError::Exit)
        } else if nr >= LOWEST_SYSCALL_INT_VECTOR {
            // System call handler
            let ghost m1 = fetch_u8(old(self).machine()).1;
            let function = self.accessor.regs.read_gpr_16(Registers::REG_AX);
            self.accessor.delayed_return_slot = None;
            let ghost called = self.accessor;
            proof {
                assert(machine_of(called) == m1);
                assert(function == m1.regs.gpr[Registers::REG_AX as int]);
            }
            let result = if nr == KERNEL_INT_VECTOR {
                self.emulated_kernel.syscall(function, &mut self.accessor)
            } else if nr == USER_INT_VECTOR {
                self.emulated_user.syscall(function, &mut self.accessor, &mut self.objects)
            } else if nr == GDI_INT_VECTOR {
                self.emulated_gdi.syscall(function, &mut self.accessor, &mut self.objects)
            } else {
                self.emulated_keyboard.syscall(function, &mut self.accessor)
            };
            let ghost left = self.accessor;
            match result {
                Err(e) => {
                    proof {
                        assert(module_called(nr, function, *old(self), *self, called, left, result));
                        assert(call_finished(result, left) == (Err::<(), EmulatorError>(e), self.machine()));
                        assert(self.delayed_return_slot() == left.delayed_return_slot);
                        assert(called.delayed_return_slot is None);
                        assert(system_called(nr, *old(self), *self, m1, Err::<(), EmulatorError>(e)));
                    }
                    Err(e)
                },
                Ok(value) => {
                    let r = self.deliver_return_value(value);
                    proof {
                        assert(module_called(nr, function, *old(self), *self, called, left, result));
                        assert(call_finished(result, left) == (r, self.machine()));
                        assert(self.delayed_return_slot() == left.delayed_return_slot);
                        assert(system_called(nr, *old(self), *self, m1, r));
                    }
                    r
                },
            }
        } else {
            Err(EmulatorError::Exit)
        }
    }

    /// Reads and runs one instruction: `int` (see `interrupt`), or any other (see `execute`).
    pub fn read_opcode(&mut self) -> (r: Result<(), EmulatorError>)
        requires
            old(self).wf(),
        ensures
            final(self).wf(),
            ({
                let (ro, m1) = fetch_u8(old(self).machine());
                match ro {
                    Err(e) => r == Err::<(), EmulatorError>(e) && final(self).machine() == m1
                        && final(self).same_modules(&*old(self)),
                    Ok(opcode) => if opcode == 0xCD {
                        interrupted(*old(self), *final(self), m1, r)
                    } else {
                        (r, final(self).machine()) == execute(m1, opcode) && final(self).same_modules(&*old(self))
                    },
                }
            }),
    {
        let opcode = self.read_ip_u8()?;
        if opcode == 0xCD {
            let ghost fetched = *self;
            let r = self.interrupt();
            proof {
                lemma_interrupted_by_modules(fetched, *old(self), *self, fetched.machine(), r);
            }
            r
        } else {
            self.execute_opcode(opcode)
        }
    }

    /// One step of the machine: one instruction.
    pub fn step(&mut self) -> (r: Result<(), EmulatorError>)
        requires
            old(self).wf(),
        ensures
            final(self).wf(),
            ({
                let (ro, m1) = fetch_u8(old(self).machine());
                match ro {
                    Err(e) => r == Err::<(), EmulatorError>(e) && final(self).machine() == m1
                        && final(self).same_modules(&*old(self)),
                    Ok(opcode) => if opcode == 0xCD {
                        interrupted(*old(self), *final(self), m1, r)
                    } else {
                        (r, final(self).machine()) == execute(m1, opcode) && final(self).same_modules(&*old(self))
                    },
                }
            }),
    {
        self.read_opcode()
    }
}

} // verus!
