use vstd::prelude::*;
use crate::constants::{GDI_INT_VECTOR, KERNEL_INT_VECTOR, KEYBOARD_INT_VECTOR, USER_INT_VECTOR};
use crate::emulator_error::EmulatorError;
use crate::memory::{Memory, SegmentAndOffset};

verus! {

/// Where an emulated module writes its system call stubs.
pub struct BaseModule {
    flat_address: u32,
    last_write_offset: u32,
    int_vector: u8,
}

/// A module whose procedures are emulated.
pub trait Module {
    /// Number of argument bytes that `procedure` pops on return; `None` for a procedure
    /// the module does not know.
    fn argument_bytes_of_procedure(&self, procedure: u16) -> Option<u16>;

    fn base_module(&self) -> &BaseModule;

    fn base_module_mut(&mut self) -> &mut BaseModule;
}

/// `mem` with `bytes` written from `start`, as far as memory reaches.
pub open spec fn written(mem: Seq<u8>, start: int, bytes: Seq<u8>) -> Seq<u8> {
    Seq::new(
        mem.len(),
        |i: int|
            if start <= i < start + bytes.len() {
                bytes[i - start]
            } else {
                mem[i]
            },
    )
}

/// Number of byte writes made when writing `n` bytes from `start` and stopping at the
/// first that falls outside memory.
pub open spec fn attempted_writes(mem_len: int, start: int, n: int) -> int {
    if start + n <= mem_len {
        n
    } else if start >= mem_len {
        if n == 0 {
            0
        } else {
            1
        }
    } else {
        mem_len - start + 1
    }
}

/// The stub that returns from a procedure called back from a system call: `pop ax; ret`.
pub open spec fn trampoline_code() -> Seq<u8> {
    seq![0x58u8, 0xC3u8]
}

/// The stub of a system call: `mov ax, procedure; int vector; retf [argument_bytes]`.
pub open spec fn dispatch_code(ax: u16, vector: u8, argument_bytes: u16) -> Seq<u8> {
    seq![0xB8u8, (ax % 256) as u8, (ax / 256) as u8, 0xCDu8, vector] + if argument_bytes == 0 {
        seq![0xCBu8]
    } else {
        seq![0xCAu8, (argument_bytes % 256) as u8, (argument_bytes / 256) as u8]
    }
}

/// Argument bytes of the kernel's procedures.
pub open spec fn kernel_argument_bytes(procedure: u16) -> Option<u16> {
    match procedure {
        91 | 102 => Some(0),
        7 | 18 | 19 | 23 | 24 | 30 => Some(2),
        5 | 61 | 90 => Some(4),
        50 | 51 => Some(6),
        54 | 89 => Some(8),
        57 | 60 => Some(10),
        127 => Some(14),
        129 => Some(16),
        58 => Some(18),
        128 => Some(22),
        178 => Some(0),
        _ => None,
    }
}

/// Argument bytes of the user module's procedures.
pub open spec fn user_argument_bytes(procedure: u16) -> Option<u16> {
    match procedure {
        19 | 243 => Some(0),
        5 | 6 | 18 | 31 | 59 | 66 | 69 | 124 | 157 | 179 | 180 | 249 | 272 | 287 => Some(2),
        12 | 42 | 57 | 68 | 113 | 114 | 135 | 156 => Some(4),
        32 | 33 | 37 | 39 | 40 | 134 | 154 | 155 | 173 | 174 => Some(6),
        77 | 78 | 81 | 125 | 136 => Some(8),
        0xFFFF | 10 | 107 | 108 | 110 | 176 | 411 => Some(10),
        1 | 72 | 87 => Some(12),
        232 => Some(14),
        41 => Some(30),
        420 => Some(0),
        _ => None,
    }
}

/// Argument bytes of the GDI module's procedures.
pub open spec fn gdi_argument_bytes(procedure: u16) -> Option<u16> {
    match procedure {
        52 | 68 | 69 | 87 => Some(2),
        2 | 4 | 45 | 57 | 66 | 80 | 119 | 346 => Some(4),
        1 | 9 | 19 | 20 | 128 | 154 => Some(6),
        61 | 91 => Some(8),
        27 => Some(10),
        156 => Some(12),
        29 => Some(14),
        53 => Some(16),
        34 => Some(20),
        351 => Some(22),
        _ => None,
    }
}

impl BaseModule {
    pub closed spec fn flat_address(&self) -> u32 {
        self.flat_address
    }

    /// Bytes written so far.
    pub closed spec fn last_write_offset(&self) -> u32 {
        self.last_write_offset
    }

    pub closed spec fn int_vector(&self) -> u8 {
        self.int_vector
    }

    /// Where the next stub byte goes.
    pub open spec fn next_address(&self) -> int {
        self.flat_address() + self.last_write_offset()
    }

    /// Where the stub area starts.
    pub fn flat_address_value(&self) -> (r: u32)
        ensures
            r == self.flat_address(),
    {
        self.flat_address
    }

    /// Bytes of stubs written so far.
    pub fn last_write_offset_value(&self) -> (r: u32)
        ensures
            r == self.last_write_offset(),
    {
        self.last_write_offset
    }

    fn new(flat_address: u32, int_vector: u8) -> (r: Self)
        ensures
            r.flat_address() == flat_address,
            r.last_write_offset() == 0,
            r.int_vector() == int_vector,
    {
        Self {
            // make sure the written bytes all stay within the same segment!
            flat_address,
            last_write_offset: 0,
            int_vector,
        }
    }

    fn write_syscall_dispatch_byte(&mut self, memory: &mut Memory, data: u8) -> (r: Result<
        (),
        EmulatorError,
    >)
        requires
            old(self).next_address() + 1 <= u32::MAX,
        ensures
            final(self).flat_address() == old(self).flat_address(),
            final(self).int_vector() == old(self).int_vector(),
            final(self).last_write_offset() == old(self).last_write_offset() + 1,
            old(self).next_address() < old(memory)@.len() <==> r.is_ok(),
            final(memory)@ == written(old(memory)@, old(self).next_address(), seq![data]),
            r.is_err() ==> r == Err::<(), EmulatorError>(EmulatorError::OutOfBounds),
    {
        proof {
            use_type_invariant(&*memory);
        }
        let index = self.flat_address + self.last_write_offset;
        self.last_write_offset = self.last_write_offset + 1;
        let r = memory.write_8(index, data);
        assert(memory@ =~= written(old(memory)@, old(self).next_address(), seq![data]));
        r
    }

    /// Writes `bytes` one after another, stopping at the first that falls outside memory.
    fn write_syscall_dispatch_bytes(&mut self, memory: &mut Memory, bytes: &[u8]) -> (r: Result<
        (),
        EmulatorError,
    >)
        requires
            old(self).next_address() + bytes@.len() + 1 <= u32::MAX,
            bytes@.len() > 0,
        ensures
            final(self).flat_address() == old(self).flat_address(),
            final(self).int_vector() == old(self).int_vector(),
            final(self).last_write_offset() == old(self).last_write_offset() + attempted_writes(
                old(memory)@.len() as int,
                old(self).next_address(),
                bytes@.len() as int,
            ),
            old(self).next_address() + bytes@.len() <= old(memory)@.len() <==> r.is_ok(),
            final(memory)@ == written(old(memory)@, old(self).next_address(), bytes@),
            r.is_err() ==> r == Err::<(), EmulatorError>(EmulatorError::OutOfBounds),
    {
        let ghost start = self.next_address();
        let ghost mem_len = memory@.len() as int;
        let mut i: usize = 0;
        while i < bytes.len()
            invariant
                0 <= i <= bytes@.len(),
                start + i <= mem_len || i == 0,
                start == old(self).next_address(),
                mem_len == old(memory)@.len(),
                memory@.len() == mem_len,
                self.flat_address() == old(self).flat_address(),
                self.int_vector() == old(self).int_vector(),
                self.last_write_offset() == old(self).last_write_offset() + i,
                start + bytes@.len() + 1 <= u32::MAX,
                memory@ == written(old(memory)@, start, bytes@.subrange(0, i as int)),
            decreases bytes@.len() - i,
        {
            let ghost before = memory@;
            let result = self.write_syscall_dispatch_byte(memory, bytes[i]);
            assert(memory@ =~= written(old(memory)@, start, bytes@.subrange(0, i + 1)));
            if result.is_err() {
                assert(written(old(memory)@, start, bytes@) =~= memory@);
                return result;
            }
            i = i + 1;
        }
        assert(bytes@.subrange(0, bytes@.len() as int) =~= bytes@);
        Ok(())
    }

    /// Writes the return stub at the next stub address.
    pub fn write_syscall_proc_return_trampoline(&mut self, memory: &mut Memory) -> (r: Result<
        (),
        EmulatorError,
    >)
        requires
            old(self).next_address() + 3 <= u32::MAX,
        ensures
            final(self).flat_address() == old(self).flat_address(),
            final(self).int_vector() == old(self).int_vector(),
            final(self).last_write_offset() == old(self).last_write_offset() + attempted_writes(
                old(memory)@.len() as int,
                old(self).next_address(),
                2,
            ),
            old(self).next_address() + 2 <= old(memory)@.len() <==> r.is_ok(),
            final(memory)@ == written(old(memory)@, old(self).next_address(), trampoline_code()),
            r.is_err() ==> r == Err::<(), EmulatorError>(EmulatorError::OutOfBounds),
    {
        // pop ax, then ret
        let code: [u8; 2] = [0x58, 0xC3];
        assert(code@ =~= trampoline_code());
        self.write_syscall_dispatch_bytes(memory, &code)
    }

    fn write_syscall_dispatch(&mut self, memory: &mut Memory, ax: u16, argument_bytes: u16) -> (r:
        Result<u32, EmulatorError>)
        requires
            old(self).next_address() + 9 <= u32::MAX,
        ensures
            ({
                let code = dispatch_code(ax, old(self).int_vector(), argument_bytes);
                &&& final(self).flat_address() == old(self).flat_address()
                &&& final(self).int_vector() == old(self).int_vector()
                &&& final(self).last_write_offset() == old(self).last_write_offset()
                    + attempted_writes(
                    old(memory)@.len() as int,
                    old(self).next_address(),
                    code.len() as int,
                )
                &&& old(self).next_address() + code.len() <= old(memory)@.len() <==> r.is_ok()
                &&& final(memory)@ == written(old(memory)@, old(self).next_address(), code)
                &&& r matches Ok(a) ==> a == old(self).next_address()
                &&& r.is_err() ==> r == Err::<u32, EmulatorError>(EmulatorError::OutOfBounds)
            }),
    {
        let offset = self.flat_address + self.last_write_offset;
        assert((ax as u8) as int == ax % 256) by (bit_vector);
        assert(((ax >> 8) as u8) as int == ax / 256) by (bit_vector);
        assert((argument_bytes as u8) as int == argument_bytes % 256) by (bit_vector);
        assert(((argument_bytes >> 8) as u8) as int == argument_bytes / 256) by (bit_vector);
        let result = if argument_bytes == 0 {
            // mov ax, *value of ax*; int *vector*; retf
            let code: [u8; 6] = [0xB8, ax as u8, (ax >> 8) as u8, 0xCD, self.int_vector, 0xCB];
            assert(code@ =~= dispatch_code(ax, self.int_vector, argument_bytes));
            self.write_syscall_dispatch_bytes(memory, &code)
        } else {
            // mov ax, *value of ax*; int *vector*; retf *argument bytes*
            let code: [u8; 8] = [
                0xB8,
                ax as u8,
                (ax >> 8) as u8,
                0xCD,
                self.int_vector,
                0xCA,
                argument_bytes as u8,
                (argument_bytes >> 8) as u8,
            ];
            assert(code@ =~= dispatch_code(ax, self.int_vector, argument_bytes));
            self.write_syscall_dispatch_bytes(memory, &code)
        };
        match result {
            Ok(()) => Ok(offset),
            Err(e) => Err(e),
        }
    }

    /// Writes a system call stub for `procedure` and returns its far address.
    pub fn procedure(&mut self, memory: &mut Memory, procedure: u16, argument_bytes: u16) -> (r:
        Result<SegmentAndOffset, EmulatorError>)
        requires
            old(self).next_address() + 9 <= u32::MAX,
        ensures
            ({
                let code = dispatch_code(procedure, old(self).int_vector(), argument_bytes);
                let start = old(self).next_address();
                &&& final(self).flat_address() == old(self).flat_address()
                &&& final(self).int_vector() == old(self).int_vector()
                &&& final(self).last_write_offset() == old(self).last_write_offset()
                    + attempted_writes(old(memory)@.len() as int, start, code.len() as int)
                &&& start + code.len() <= old(memory)@.len() <==> r.is_ok()
                &&& final(memory)@ == written(old(memory)@, start, code)
                &&& r matches Ok(so) ==> so.offset == start % 65536 && so.segment == ((start
                    / 65536) * 4096) % 65536
                &&& r.is_err() ==> r == Err::<SegmentAndOffset, EmulatorError>(
                    EmulatorError::OutOfBounds,
                )
            }),
    {
        // deduplicate them?
        let flat_address = self.write_syscall_dispatch(memory, procedure, argument_bytes)?;
        Ok(memory.segment_and_offset(flat_address))
    }
}

/// The emulated kernel.
pub struct KernelModule {
    base_module: BaseModule,
}

/// The emulated user module.
pub struct UserModule {
    base_module: BaseModule,
}

/// The emulated GDI module.
pub struct GdiModule {
    base_module: BaseModule,
}

/// The emulated keyboard driver.
pub struct KeyboardModule {
    base_module: BaseModule,
}

/// A module with no procedures of its own.
pub struct DummyModule {
    base_module: BaseModule,
}

impl KernelModule {
    pub closed spec fn base(&self) -> BaseModule {
        self.base_module
    }

    pub fn new(flat_address: u32) -> (r: Self)
        ensures
            r.base().flat_address() == flat_address,
            r.base().last_write_offset() == 0,
            r.base().int_vector() == KERNEL_INT_VECTOR,
    {
        Self { base_module: BaseModule::new(flat_address, KERNEL_INT_VECTOR) }
    }
}

impl Module for KernelModule {
    fn argument_bytes_of_procedure(&self, procedure: u16) -> (r: Option<u16>)
        ensures
            r == kernel_argument_bytes(procedure),
    {
        match procedure {
            91 | 102 => Some(0),
            7 | 18 | 19 | 23 | 24 | 30 => Some(2),
            5 | 61 | 90 => Some(4),
            50 | 51 => Some(6),
            54 | 89 => Some(8),
            57 | 60 => Some(10),
            127 => Some(14),
            129 => Some(16),
            58 => Some(18),
            128 => Some(22),
            178 => Some(0),  /* don't know! */
            _ => None,
        }
    }

    fn base_module(&self) -> (r: &BaseModule)
        ensures
            *r == self.base(),
    {
        &self.base_module
    }

    fn base_module_mut(&mut self) -> (r: &mut BaseModule)
        ensures
            *r == old(self).base(),
            final(self).base() == *final(r),
    {
        &mut self.base_module
    }
}

impl UserModule {
    pub closed spec fn base(&self) -> BaseModule {
        self.base_module
    }

    pub fn new(flat_address: u32) -> (r: Self)
        ensures
            r.base().flat_address() == flat_address,
            r.base().last_write_offset() == 0,
            r.base().int_vector() == USER_INT_VECTOR,
    {
        Self { base_module: BaseModule::new(flat_address, USER_INT_VECTOR) }
    }
}

impl Module for UserModule {
    fn argument_bytes_of_procedure(&self, procedure: u16) -> (r: Option<u16>)
        ensures
            r == user_argument_bytes(procedure),
    {
        match procedure {
            19 | 243 => Some(0),
            5 | 6 | 18 | 31 | 59 | 66 | 69 | 124 | 157 | 179 | 180 | 249 | 272 | 287 => Some(2),
            12 | 42 | 57 | 68 | 113 | 114 | 135 | 156 => Some(4),
            32 | 33 | 37 | 39 | 40 | 134 | 154 | 155 | 173 | 174 => Some(6),
            77 | 78 | 81 | 125 | 136 => Some(8),
            0xFFFF | 10 | 107 | 108 | 110 | 176 | 411 => Some(10),
            1 | 72 | 87 => Some(12),
            232 => Some(14),
            41 => Some(30),
            420 => Some(0),  // WSPRINTF's caller cleans up the arguments
            _ => None,
        }
    }

    fn base_module(&self) -> (r: &BaseModule)
        ensures
            *r == self.base(),
    {
        &self.base_module
    }

    fn base_module_mut(&mut self) -> (r: &mut BaseModule)
        ensures
            *r == old(self).base(),
            final(self).base() == *final(r),
    {
        &mut self.base_module
    }
}

impl GdiModule {
    pub closed spec fn base(&self) -> BaseModule {
        self.base_module
    }

    pub fn new(flat_address: u32) -> (r: Self)
        ensures
            r.base().flat_address() == flat_address,
            r.base().last_write_offset() == 0,
            r.base().int_vector() == GDI_INT_VECTOR,
    {
        Self { base_module: BaseModule::new(flat_address, GDI_INT_VECTOR) }
    }
}

impl Module for GdiModule {
    fn argument_bytes_of_procedure(&self, procedure: u16) -> (r: Option<u16>)
        ensures
            r == gdi_argument_bytes(procedure),
    {
        match procedure {
            52 | 68 | 69 | 87 => Some(2),
            2 | 4 | 45 | 57 | 66 | 80 | 119 | 346 => Some(4),
            1 | 9 | 19 | 20 | 128 | 154 => Some(6),
            61 | 91 => Some(8),
            27 => Some(10),
            156 => Some(12),
            29 => Some(14),
            53 => Some(16),
            34 => Some(20),
            351 => Some(22),
            _ => None,
        }
    }

    fn base_module(&self) -> (r: &BaseModule)
        ensures
            *r == self.base(),
    {
        &self.base_module
    }

    fn base_module_mut(&mut self) -> (r: &mut BaseModule)
        ensures
            *r == old(self).base(),
            final(self).base() == *final(r),
    {
        &mut self.base_module
    }
}

impl KeyboardModule {
    pub closed spec fn base(&self) -> BaseModule {
        self.base_module
    }

    pub fn new(flat_address: u32) -> (r: Self)
        ensures
            r.base().flat_address() == flat_address,
            r.base().last_write_offset() == 0,
            r.base().int_vector() == KEYBOARD_INT_VECTOR,
    {
        Self { base_module: BaseModule::new(flat_address, KEYBOARD_INT_VECTOR) }
    }
}

impl Module for KeyboardModule {
    fn argument_bytes_of_procedure(&self, procedure: u16) -> (r: Option<u16>)
        ensures
            r == Some(0u16),
    {
        Some(0)
    }

    fn base_module(&self) -> (r: &BaseModule)
        ensures
            *r == self.base(),
    {
        &self.base_module
    }

    fn base_module_mut(&mut self) -> (r: &mut BaseModule)
        ensures
            *r == old(self).base(),
            final(self).base() == *final(r),
    {
        &mut self.base_module
    }
}

impl DummyModule {
    pub closed spec fn base(&self) -> BaseModule {
        self.base_module
    }

    pub fn new(flat_address: u32) -> (r: Self)
        ensures
            r.base().flat_address() == flat_address,
            r.base().last_write_offset() == 0,
            r.base().int_vector() == KEYBOARD_INT_VECTOR,
    {
        Self { base_module: BaseModule::new(flat_address, KEYBOARD_INT_VECTOR) }
    }
}

impl Module for DummyModule {
    fn argument_bytes_of_procedure(&self, procedure: u16) -> (r: Option<u16>)
        ensures
            r == Some(0u16),
    {
        Some(0)
    }

    fn base_module(&self) -> (r: &BaseModule)
        ensures
            *r == self.base(),
    {
        &self.base_module
    }

    fn base_module_mut(&mut self) -> (r: &mut BaseModule)
        ensures
            *r == old(self).base(),
            final(self).base() == *final(r),
    {
        &mut self.base_module
    }
}

} // verus!
