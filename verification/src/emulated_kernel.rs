use vstd::prelude::*;
use crate::api_helpers::{Pointer, ReturnValue};
use crate::constants::WinFlags;
use crate::emulator_accessor::{
    copy_string_run, dword_arg, has_string_end, is_string_end, pointer_arg, word_arg,
    EmulatorAccessor,
};
use crate::emulator_error::EmulatorError;
use crate::handle_table::Handle;
use crate::heap::{heap_allocation, Heap, HeapAllocationError};
use crate::memory::{flat_of, spliced, MEMORY_SIZE};
use crate::registers::{Registers, RegistersView};

verus! {

/// Offset, in the data segment, of the local heap.
pub const LOCAL_HEAP_BASE: u16 = 0x8000;

/// Size in bytes of the local heap.
pub const LOCAL_HEAP_SIZE: u16 = 0x4000;

/// The emulated kernel: its local heap.
pub struct EmulatedKernel {
    local_heap: Heap,
}

/// The kernel procedures that are emulated.
pub open spec fn kernel_handles(nr: u16) -> bool {
    nr == 3 || nr == 5 || nr == 7 || nr == 18 || nr == 19 || nr == 23 || nr == 24 || nr == 30
        || nr == 50 || nr == 51 || nr == 57 || nr == 58 || nr == 60 || nr == 61 || nr == 89
        || nr == 90 || nr == 91 || nr == 127 || nr == 128 || nr == 132
}

/// The string that forces the analog clock option.
pub open spec fn clock_option() -> Seq<u8> {
    seq![0x31u8, 0x2cu8, 0x30u8, 0x2cu8, 0x30u8, 0x2cu8, 0x30u8, 0x2cu8, 0x30u8, 0x2cu8, 0x30u8]
}

/// LocalAlloc: a block of `size` bytes from the local heap (see `heap_allocation`), fixed
/// unless flag 0x2 is set; its handle or pointer is the value, 0 when the heap refuses.
/// With flag 0x40 the block is zeroed at DS:pointer, and a block that leaves memory is
/// `OutOfBounds` (the allocation stays).
pub open spec fn locally_allocated(
    k: EmulatedKernel,
    k2: EmulatedKernel,
    acc: EmulatorAccessor,
    acc2: EmulatorAccessor,
    flags: u16,
    size: u16,
    r: Result<ReturnValue, EmulatorError>,
) -> bool {
    let fixed = flags & 2u16 == 0;
    let zeroed = flags & 0x40u16 != 0;
    &&& acc2.regs == acc.regs
    &&& acc2.delayed_return_slot == acc.delayed_return_slot
    &&& exists|hr: Result<(u16, u16), HeapAllocationError>|
        #[trigger] heap_allocation(k.heap(), k2.heap(), fixed, size, hr) && match hr {
            Err(_) => r == Ok::<ReturnValue, EmulatorError>(ReturnValue::U16(0)) && acc2.memory@ == acc.memory@,
            Ok((v, p)) => {
                let start = flat_of(acc.regs@.segments[Registers::REG_DS as int], p);
                if !zeroed {
                    r == Ok::<ReturnValue, EmulatorError>(ReturnValue::U16(v)) && acc2.memory@ == acc.memory@
                } else if start + size <= MEMORY_SIZE {
                    r == Ok::<ReturnValue, EmulatorError>(ReturnValue::U16(v)) && acc2.memory@ == spliced(
                        acc.memory@,
                        start,
                        Seq::new(size as nat, |i: int| 0u8),
                    )
                } else {
                    r == Err::<ReturnValue, EmulatorError>(EmulatorError::OutOfBounds) && acc2.memory@ == acc.memory@
                }
            },
        }
}

/// GetProfileString: the default string at `default` is copied to `returned` (see
/// `copy_string_run`); the number of bytes copied, or `OutOfBounds`.
pub open spec fn profile_string_copied(acc: EmulatorAccessor, acc2: EmulatorAccessor, default: u32, returned: u32, r: Result<ReturnValue, EmulatorError>) -> bool {
    let (count, copied) = copy_string_run(acc.memory@, default as int, returned as int, 0);
    &&& acc2.regs == acc.regs
    &&& acc2.delayed_return_slot == acc.delayed_return_slot
    &&& acc2.memory@ == copied
    &&& r == match count {
        Some(n) => Ok::<ReturnValue, EmulatorError>(ReturnValue::U16(n)),
        None => Err::<ReturnValue, EmulatorError>(EmulatorError::OutOfBounds),
    }
}

/// GetPrivateProfileString: as GetProfileString, and for the key at 0x52A38 the analog
/// clock option is written over the copy.
pub open spec fn private_profile_string_copied(
    acc: EmulatorAccessor,
    acc2: EmulatorAccessor,
    key: u32,
    default: u32,
    returned: u32,
    r: Result<ReturnValue, EmulatorError>,
) -> bool {
    let (count, copied) = copy_string_run(acc.memory@, default as int, returned as int, 0);
    &&& acc2.regs == acc.regs
    &&& acc2.delayed_return_slot == acc.delayed_return_slot
    &&& match count {
        None => r == Err::<ReturnValue, EmulatorError>(EmulatorError::OutOfBounds) && acc2.memory@ == copied,
        Some(n) => if key != 0x52a38 {
            r == Ok::<ReturnValue, EmulatorError>(ReturnValue::U16(n)) && acc2.memory@ == copied
        } else if returned + 11 <= MEMORY_SIZE {
            r == Ok::<ReturnValue, EmulatorError>(ReturnValue::U16(n)) && acc2.memory@ == crate::module::written(
                copied,
                returned as int,
                clock_option(),
            )
        } else {
            r == Err::<ReturnValue, EmulatorError>(EmulatorError::OutOfBounds)
        },
    }
}

/// lstrcat: the string at `str2` is copied to the end of the one at `str1` (its length
/// taken modulo 65536); `str1` is the value. A string that does not end in memory is
/// `OutOfBounds`.
pub open spec fn strings_joined(acc: EmulatorAccessor, acc2: EmulatorAccessor, str1: u32, str2: u32, r: Result<ReturnValue, EmulatorError>) -> bool {
    &&& acc2.regs == acc.regs
    &&& acc2.delayed_return_slot == acc.delayed_return_slot
    &&& if !has_string_end(acc.memory@, str1 as int) {
        r == Err::<ReturnValue, EmulatorError>(EmulatorError::OutOfBounds) && acc2.memory == acc.memory
    } else {
        exists|k: int|
            #[trigger] is_string_end(acc.memory@, str1 as int, k) && {
                let (count, copied) = copy_string_run(acc.memory@, str2 as int, str1 + (k - str1) % 65536, 0);
                &&& acc2.memory@ == copied
                &&& r == match count {
                    Some(_) => Ok::<ReturnValue, EmulatorError>(ReturnValue::U32(str1)),
                    None => Err::<ReturnValue, EmulatorError>(EmulatorError::OutOfBounds),
                }
            }
    }
}

/// lstrlen: the length of the string at `str`, modulo 65536; `OutOfBounds` when it does
/// not end in memory.
pub open spec fn string_measured(acc: EmulatorAccessor, str: u32, r: Result<ReturnValue, EmulatorError>) -> bool {
    if has_string_end(acc.memory@, str as int) {
        exists|k: int|
            #[trigger] is_string_end(acc.memory@, str as int, k) && r == Ok::<ReturnValue, EmulatorError>(
                ReturnValue::U16(((k - str) % 65536) as u16),
            )
    } else {
        r == Err::<ReturnValue, EmulatorError>(EmulatorError::OutOfBounds)
    }
}

/// InitTask: BX 0x1234, CX, DX and SI 0, DI 0xBEEF, BP the stack pointer and ES the data
/// segment, which is the value.
pub open spec fn task_started(acc: EmulatorAccessor, acc2: EmulatorAccessor, r: Result<ReturnValue, EmulatorError>) -> bool {
    let o = acc.regs@;
    let ds = o.segments[Registers::REG_DS as int];
    &&& acc2.memory == acc.memory
    &&& acc2.delayed_return_slot == acc.delayed_return_slot
    &&& r == Ok::<ReturnValue, EmulatorError>(ReturnValue::U16(ds))
    &&& acc2.regs@ == (RegistersView {
        gpr: o.gpr.update(Registers::REG_BX as int, 0x1234).update(Registers::REG_CX as int, 0).update(
            Registers::REG_DX as int,
            0,
        ).update(Registers::REG_SI as int, 0).update(Registers::REG_DI as int, 0xBEEF).update(
            Registers::REG_BP as int,
            o.gpr[Registers::REG_SP as int],
        ),
        segments: o.segments.update(Registers::REG_ES as int, ds),
        ..o
    })
}

/// Kernel procedure `nr` run by `k` with the arguments on the stack of `acc`: its value
/// `r` and the state after (`k2`, `acc2`). An argument that cannot be read gives
/// `OutOfBounds` and changes nothing; an unknown procedure gives `Unsupported` and
/// changes nothing.
pub open spec fn kernel_call(
    nr: u16,
    k: EmulatedKernel,
    k2: EmulatedKernel,
    acc: EmulatorAccessor,
    acc2: EmulatorAccessor,
    r: Result<ReturnValue, EmulatorError>,
) -> bool {
    let a = |i: int| word_arg(acc.regs@, acc.memory@, i);
    let ptr = |i: int| pointer_arg(acc.regs@, acc.memory@, i);
    let kept = k2 == k && acc2 == acc;
    let failed = r == Err::<ReturnValue, EmulatorError>(EmulatorError::OutOfBounds) && kept;
    let gives = |v: ReturnValue| r == Ok::<ReturnValue, EmulatorError>(v) && kept;
    if nr == 3 {
        gives(ReturnValue::U16(0x0A03))
    } else if nr == 5 {
        if a(0) is Some && a(1) is Some {
            locally_allocated(k, k2, acc, acc2, a(1)->0, a(0)->0, r)
        } else {
            failed
        }
    } else if nr == 7 {
        match a(0) {
            Some(h) => gives(ReturnValue::U16(h)),
            None => failed,
        }
    } else if nr == 18 {
        if a(0) is Some { gives(ReturnValue::U32(0xF0000000)) } else { failed }
    } else if nr == 19 {
        if a(0) is Some { gives(ReturnValue::U16(1)) } else { failed }
    } else if nr == 23 || nr == 24 {
        if a(0) is Some { gives(ReturnValue::Empty) } else { failed }
    } else if nr == 30 {
        gives(ReturnValue::Empty)
    } else if nr == 50 {
        if ptr(0) is Some && a(2) is Some { gives(ReturnValue::U32(0)) } else { failed }
    } else if nr == 51 {
        if a(0) is Some && a(1) is Some && a(2) is Some {
            gives(ReturnValue::U32((a(0)->0 * 65536 + a(1)->0) as u32))
        } else {
            failed
        }
    } else if nr == 57 {
        if a(0) is Some && ptr(1) is Some && ptr(3) is Some { gives(ReturnValue::U16(a(0)->0)) } else { failed }
    } else if nr == 58 {
        if a(0) is Some && ptr(1) is Some && ptr(3) is Some && ptr(5) is Some && ptr(7) is Some {
            k2 == k && profile_string_copied(acc, acc2, ptr(3)->0, ptr(1)->0, r)
        } else {
            failed
        }
    } else if nr == 60 {
        if ptr(0) is Some && ptr(2) is Some && a(4) is Some { gives(ReturnValue::U16(1)) } else { failed }
    } else if nr == 61 {
        if a(0) is Some && a(1) is Some { gives(ReturnValue::U16(0xDEAD)) } else { failed }
    } else if nr == 89 {
        if ptr(0) is Some && ptr(2) is Some {
            k2 == k && strings_joined(acc, acc2, ptr(2)->0, ptr(0)->0, r)
        } else {
            failed
        }
    } else if nr == 90 {
        match ptr(0) {
            Some(p) => kept && string_measured(acc, p, r),
            None => failed,
        }
    } else if nr == 91 {
        k2 == k && task_started(acc, acc2, r)
    } else if nr == 127 {
        if ptr(0) is Some && a(2) is Some && ptr(3) is Some && ptr(5) is Some {
            gives(ReturnValue::U16(a(2)->0))
        } else {
            failed
        }
    } else if nr == 128 {
        if ptr(0) is Some && a(2) is Some && ptr(3) is Some && ptr(5) is Some && ptr(7) is Some && ptr(9) is Some {
            k2 == k && private_profile_string_copied(acc, acc2, ptr(7)->0, ptr(5)->0, ptr(3)->0, r)
        } else {
            failed
        }
    } else if nr == 132 {
        gives(ReturnValue::U32(0x421))
    } else {
        r == Err::<ReturnValue, EmulatorError>(EmulatorError::Unsupported) && kept
    }
}

impl EmulatedKernel {
    pub closed spec fn heap(&self) -> Heap {
        self.local_heap
    }

    pub open spec fn wf(&self) -> bool {
        &&& self.heap().wf()
        &&& self.heap().max_size() == LOCAL_HEAP_SIZE
        &&& self.heap().allocation_base() == LOCAL_HEAP_BASE
    }

    /// A kernel whose local heap is empty.
    pub fn new() -> (r: Self)
        ensures
            r.wf(),
            r.heap().max_size() == LOCAL_HEAP_SIZE,
            r.heap().allocation_base() == LOCAL_HEAP_BASE,
            r.heap().next_allocation() == 2,
            r.heap().handles().table() == Map::<u16, u16>::empty(),
            r.heap().handles().free_bits() == crate::handle_table::fresh_free_bits(),
    {
        Self { local_heap: Heap::new(LOCAL_HEAP_SIZE, LOCAL_HEAP_BASE) }
    }

    /// Reports Windows 3.10.
    fn get_version(&self) -> (r: Result<ReturnValue, EmulatorError>)
        ensures
            r == Ok::<ReturnValue, EmulatorError>(ReturnValue::U16(0x0A03)),
    {
        // Report version Windows 3.10
        Ok(ReturnValue::U16(0x0A03))
    }

    /// Allocates from the local heap: fixed unless flag 0x2 is set, zeroed (at DS) when
    /// flag 0x40 is set. Returns the handle or pointer, 0 when the heap refuses.
    fn local_alloc(&mut self, accessor: &mut EmulatorAccessor, flags: u16, size: u16) -> (r: Result<
        ReturnValue,
        EmulatorError,
    >)
        requires
            old(self).wf(),
            old(accessor).wf(),
        ensures
            final(self).wf(),
            final(accessor).wf(),
            locally_allocated(*old(self), *final(self), *old(accessor), *final(accessor), flags, size, r),
    {
        let is_fixed = (flags & 0b10) == 0;
        let should_zero = (flags & 0x40) > 0;

        // should select a different local heap based on DS
        let result = self.local_heap.allocate(is_fixed, size);
        proof {
            assert(heap_allocation(old(self).heap(), self.heap(), is_fixed, size, result));
            assert(should_zero == (flags & 0x40u16 != 0));
            accessor.regs.lemma_lengths();
        }
        match result {
            Ok((return_value, pointer)) => {
                if should_zero {
                    let flat_address = accessor.regs.flat_address(Registers::REG_DS, pointer);
                    assert(flat_address == flat_of(accessor.regs@.segments[Registers::REG_DS as int], pointer));
                    accessor.memory.zero(flat_address, flat_address + (size as u32))?;
                    assert(accessor.memory@ == spliced(
                        old(accessor).memory@,
                        flat_address as int,
                        Seq::new(size as nat, |i: int| 0u8),
                    ));
                }
                Ok(ReturnValue::U16(return_value))
            },
            Err(_) => Ok(ReturnValue::U16(0)),
        }
    }

    /// Frees a local block; 0 for the null handle, otherwise what the heap returns.
    fn local_free(&mut self, handle_or_pointer: u16) -> (r: Result<ReturnValue, EmulatorError>)
        requires
            old(self).wf(),
        ensures
            final(self).wf(),
            *final(self) == *old(self),
            r == Ok::<ReturnValue, EmulatorError>(ReturnValue::U16(handle_or_pointer)),
    {
        if handle_or_pointer == 0 {
            Ok(ReturnValue::U16(0))
        } else {
            // should select a different local heap based on DS
            Ok(ReturnValue::U16(self.local_heap.deallocate(handle_or_pointer)))
        }
    }

    /// Reports a 387, protected mode and enhanced mode.
    fn get_winflags(&self) -> (r: Result<ReturnValue, EmulatorError>)
        ensures
            r == Ok::<ReturnValue, EmulatorError>(ReturnValue::U32(0x421)),
    {
        let flags = WinFlags::from_bits(WinFlags::WF_80X87 | WinFlags::WF_PMODE | WinFlags::WF_ENHANCED).bits();
        assert(0x400u32 | 0x1u32 | 0x20u32 == 0x421u32) by (bit_vector);
        Ok(ReturnValue::U32(flags))
    }

    /// Sets up the registers of a starting task and returns ES, which becomes DS.
    fn init_task(&self, accessor: &mut EmulatorAccessor) -> (r: Result<ReturnValue, EmulatorError>)
        ensures
            task_started(*old(accessor), *final(accessor), r),
    {
        let regs = accessor.regs_mut();

        // hardcoded to inittask rn
        let es = regs.read_segment(Registers::REG_DS);
        regs.write_gpr_16(Registers::REG_BX, 0x1234);  // offset into command line
        regs.write_gpr_16(Registers::REG_CX, 0);  // stack limit
        regs.write_gpr_16(Registers::REG_DX, 0);  // nCmdShow
        regs.write_gpr_16(Registers::REG_SI, 0);  // previous instance handle
        regs.write_gpr_16(Registers::REG_DI, 0xBEEF);  // instance handle
        let sp = regs.read_gpr_16(Registers::REG_SP);
        regs.write_gpr_16(Registers::REG_BP, sp);
        // segments
        regs.write_segment(Registers::REG_ES, es);
        proof {
            let o = old(accessor).regs@;
            old(accessor).regs.lemma_lengths();
            assert(accessor.regs@.gpr =~= o.gpr.update(Registers::REG_BX as int, 0x1234).update(
                Registers::REG_CX as int,
                0,
            ).update(Registers::REG_DX as int, 0).update(Registers::REG_SI as int, 0).update(
                Registers::REG_DI as int,
                0xBEEF,
            ).update(Registers::REG_BP as int, o.gpr[Registers::REG_SP as int]));
            assert(accessor.regs@.segments =~= o.segments.update(
                Registers::REG_ES as int,
                o.segments[Registers::REG_DS as int],
            ));
        }
        // must be = ES I believe
        Ok(ReturnValue::U16(es))
    }

    fn lock_segment(&self, _segment: u16) -> (r: Result<ReturnValue, EmulatorError>)
        ensures
            r == Ok::<ReturnValue, EmulatorError>(ReturnValue::Empty),
    {
        Ok(ReturnValue::Empty)
    }

    fn unlock_segment(&self, _segment: u16) -> (r: Result<ReturnValue, EmulatorError>)
        ensures
            r == Ok::<ReturnValue, EmulatorError>(ReturnValue::Empty),
    {
        Ok(ReturnValue::Empty)
    }

    fn wait_event(&self) -> (r: Result<ReturnValue, EmulatorError>)
        ensures
            r == Ok::<ReturnValue, EmulatorError>(ReturnValue::Empty),
    {
        Ok(ReturnValue::Empty)
    }

    /// Not resolved: always the null address.
    fn get_proc_address(&self, _h_module: Handle, _proc_name: Pointer) -> (r: Result<
        ReturnValue,
        EmulatorError,
    >)
        ensures
            r == Ok::<ReturnValue, EmulatorError>(ReturnValue::U32(0)),
    {
        Ok(ReturnValue::U32(0))
    }

    /// The far address of the function itself: no thunk is needed.
    fn make_proc_instance(&self, _h_instance: Handle, offset_of_function: u16, segment_of_function: u16) -> (r:
        Result<ReturnValue, EmulatorError>)
        ensures
            r == Ok::<ReturnValue, EmulatorError>(
                ReturnValue::U32((segment_of_function * 65536 + offset_of_function) as u32),
            ),
    {
        // As we don't share segments in the same way as a 16-bit Windows might do,
        // we don't need to set up any thunks. We just need to make sure the return value is
        // the function address that was handed in.
        assert(((segment_of_function as u32) << 16u32) | (offset_of_function as u32)
            == segment_of_function * 65536 + offset_of_function) by (bit_vector);
        Ok(ReturnValue::U32(((segment_of_function as u32) << 16) | (offset_of_function as u32)))
    }

    /// No profile is read: the default comes back.
    fn get_profile_int(&self, _app_name: Pointer, _key_name: Pointer, default: u16) -> (r: Result<
        ReturnValue,
        EmulatorError,
    >)
        ensures
            r == Ok::<ReturnValue, EmulatorError>(ReturnValue::U16(default)),
    {
        Ok(ReturnValue::U16(default))
    }

    /// Every resource is found, under handle 1.
    fn find_resource(&self, _module: Handle, _name: Pointer, _type: Pointer) -> (r: Result<
        ReturnValue,
        EmulatorError,
    >)
        ensures
            r == Ok::<ReturnValue, EmulatorError>(ReturnValue::U16(1)),
    {
        // this returns a hardcoded handle
        Ok(ReturnValue::U16(1))
    }

    /// Every resource loads, as handle 0xDEAD.
    fn load_resource(&self, _module: Handle, _res_info: Handle) -> (r: Result<ReturnValue, EmulatorError>)
        ensures
            r == Ok::<ReturnValue, EmulatorError>(ReturnValue::U16(0xDEAD)),
    {
        // this returns a hardcoded handle
        Ok(ReturnValue::U16(0xDEAD))
    }

    /// Copies the default string to the result buffer; returns the number of bytes copied.
    fn get_profile_string(
        &self,
        accessor: &mut EmulatorAccessor,
        default: Pointer,
        returned_string: Pointer,
    ) -> (r: Result<ReturnValue, EmulatorError>)
        requires
            old(accessor).wf(),
        ensures
            final(accessor).wf(),
            profile_string_copied(*old(accessor), *final(accessor), default.0, returned_string.0, r),
    {
        // honor size etc etc
        let number_of_bytes_copied = accessor.copy_string(default.0, returned_string.0)?;
        Ok(ReturnValue::U16(number_of_bytes_copied))
    }

    /// Always the far pointer F000:0000.
    fn global_lock(&self, _h_mem: Handle) -> (r: Result<ReturnValue, EmulatorError>)
        ensures
            r == Ok::<ReturnValue, EmulatorError>(ReturnValue::U32(0xF0000000)),
    {
        let segment: u32 = 0xF000;
        let offset: u32 = 0;
        assert((segment << 16u32) | offset == 0xF0000000u32) by (bit_vector)
            requires
                segment == 0xF000u32,
                offset == 0u32,
        ;

        Ok(ReturnValue::U32((segment << 16) | offset))
    }

    fn global_unlock(&self, _h_mem: Handle) -> (r: Result<ReturnValue, EmulatorError>)
        ensures
            r == Ok::<ReturnValue, EmulatorError>(ReturnValue::U16(1)),
    {

        Ok(ReturnValue::U16(1))
    }

    /// No profile is read: the default comes back.
    fn get_private_profile_int(&self, _app_name: Pointer, _key_name: Pointer, default: u16, _file_name: Pointer) -> (r:
        Result<ReturnValue, EmulatorError>)
        ensures
            r == Ok::<ReturnValue, EmulatorError>(ReturnValue::U16(default)),
    {

        Ok(ReturnValue::U16(default))
    }

    /// Copies the default string to the result buffer and returns the number of bytes
    /// copied; for the key at flat address 0x52a38 the buffer then receives "1,0,0,0,0,0"
    /// (no terminator), which selects the clock's analog mode.
    fn get_private_profile_string(
        &self,
        accessor: &mut EmulatorAccessor,
        key_name: Pointer,
        default: Pointer,
        returned_string: Pointer,
    ) -> (r: Result<ReturnValue, EmulatorError>)
        requires
            old(accessor).wf(),
        ensures
            final(accessor).wf(),
            private_profile_string_copied(*old(accessor), *final(accessor), key_name.0, default.0, returned_string.0, r),
    {
        // honor size etc etc
        let number_of_bytes_copied = accessor.copy_string(default.0, returned_string.0)?;
        // hack to force an option that causes the clock to run in analog mode
        if key_name.0 == 0x52a38 {
            let option: [u8; 11] = [
                0x31,
                0x2c,
                0x30,
                0x2c,
                0x30,
                0x2c,
                0x30,
                0x2c,
                0x30,
                0x2c,
                0x30,
            ];
            let ghost after_copy = accessor.memory@;
            let mut i: u32 = 0;
            while i < 11
                invariant
                    0 <= i <= 11,
                    accessor.wf(),
                    accessor.regs == old(accessor).regs,
                    accessor.delayed_return_slot == old(accessor).delayed_return_slot,
                    returned_string.0 + i <= MEMORY_SIZE,
                    option@ == clock_option(),
                    key_name.0 == 0x52a38,
                    copy_string_run(
                        old(accessor).memory@,
                        default.0 as int,
                        returned_string.0 as int,
                        0,
                    ) == (Some(number_of_bytes_copied), after_copy),
                    accessor.memory@ == crate::module::written(
                        after_copy,
                        returned_string.0 as int,
                        clock_option().subrange(0, i as int),
                    ),
                decreases 11 - i,
            {
                let ghost before = accessor.memory@;
                accessor.memory.write_8(returned_string.0 + i, option[i as usize])?;
                i = i + 1;
                assert(accessor.memory@ =~= crate::module::written(
                    after_copy,
                    returned_string.0 as int,
                    clock_option().subrange(0, i as int),
                ));
            }
            assert(clock_option().subrange(0, 11) =~= clock_option());
        }
        Ok(ReturnValue::U16(number_of_bytes_copied))
    }

    /// Appends the string at `str2` to the one at `str1`; returns `str1`.
    fn lstrcat(&self, accessor: &mut EmulatorAccessor, str1: Pointer, str2: Pointer) -> (r: Result<
        ReturnValue,
        EmulatorError,
    >)
        requires
            old(accessor).wf(),
            str1.0 < MEMORY_SIZE * 2,
        ensures
            final(accessor).wf(),
            strings_joined(*old(accessor), *final(accessor), str1.0, str2.0, r),
    {
        let str1_length = accessor.strlen(str1.0)?;
        let str1_end = str1.advanced(str1_length as u32);
        accessor.copy_string(str2.0, str1_end.0)?;
        Ok(ReturnValue::U32(str1.0))
    }

    /// Length of the string at `str`.
    fn strlen(&self, accessor: &EmulatorAccessor, str: Pointer) -> (r: Result<ReturnValue, EmulatorError>)
        requires
            accessor.wf(),
        ensures
            string_measured(*accessor, str.0, r),
    {
        let n = accessor.strlen(str.0)?;
        Ok(ReturnValue::U16(n))
    }

    fn handle_argument(accessor: &EmulatorAccessor, nr: u32) -> (r: Result<Handle, EmulatorError>)
        requires
            accessor.wf(),
            nr <= 64,
        ensures
            match word_arg(accessor.regs@, accessor.memory@, nr as int) {
                Some(w) => r == Ok::<Handle, EmulatorError>(Handle(w)),
                None => r == Err::<Handle, EmulatorError>(EmulatorError::OutOfBounds),
            },
    {
        let w = accessor.word_argument(nr)?;
        Ok(Handle(w))
    }

    fn pointer_argument(accessor: &EmulatorAccessor, nr: u32) -> (r: Result<Pointer, EmulatorError>)
        requires
            accessor.wf(),
            nr <= 63,
        ensures
            match pointer_arg(accessor.regs@, accessor.memory@, nr as int) {
                Some(p) => r == Ok::<Pointer, EmulatorError>(Pointer(p)),
                None => r == Err::<Pointer, EmulatorError>(EmulatorError::OutOfBounds),
            },
    {
        let p = accessor.pointer_argument(nr)?;
        Ok(Pointer(p))
    }

    /// Runs kernel procedure `nr` with its arguments on the stack. An unknown procedure is
    /// `Unsupported` and changes nothing.
    #[verifier::spinoff_prover]
    pub fn syscall(&mut self, nr: u16, accessor: &mut EmulatorAccessor) -> (r: Result<
        ReturnValue,
        EmulatorError,
    >)
        requires
            old(self).wf(),
            old(accessor).wf(),
        ensures
            final(self).wf(),
            final(accessor).wf(),
            kernel_call(nr, *old(self), *final(self), *old(accessor), *final(accessor), r),
    {
        match nr {
            3 => self.get_version(),
            5 => {
                let size = accessor.word_argument(0)?;
                let flags = accessor.word_argument(1)?;
                self.local_alloc(accessor, flags, size)
            },
            7 => {
                let handle_or_pointer = accessor.word_argument(0)?;
                self.local_free(handle_or_pointer)
            },
            18 => {
                let h_mem = Self::handle_argument(accessor, 0)?;
                self.global_lock(h_mem)
            },
            19 => {
                let h_mem = Self::handle_argument(accessor, 0)?;
                self.global_unlock(h_mem)
            },
            23 => {
                let segment = accessor.word_argument(0)?;
                self.lock_segment(segment)
            },
            24 => {
                let segment = accessor.word_argument(0)?;
                self.unlock_segment(segment)
            },
            30 => self.wait_event(),
            50 => {
                let proc_name = Self::pointer_argument(accessor, 0)?;
                let h_module = Self::handle_argument(accessor, 2)?;
                self.get_proc_address(h_module, proc_name)
            },
            51 => {
                let segment_of_function = accessor.word_argument(0)?;
                let offset_of_function = accessor.word_argument(1)?;
                let h_instance = Self::handle_argument(accessor, 2)?;
                self.make_proc_instance(h_instance, offset_of_function, segment_of_function)
            },
            57 => {
                let default = accessor.word_argument(0)?;
                let key_name = Self::pointer_argument(accessor, 1)?;
                let app_name = Self::pointer_argument(accessor, 3)?;
                self.get_profile_int(app_name, key_name, default)
            },
            58 => {
                let _size = accessor.word_argument(0)?;
                let returned_string = Self::pointer_argument(accessor, 1)?;
                let default = Self::pointer_argument(accessor, 3)?;
                let _key_name = Self::pointer_argument(accessor, 5)?;
                let _app_name = Self::pointer_argument(accessor, 7)?;
                self.get_profile_string(accessor, default, returned_string)
            },
            60 => {
                let resource_type = Self::pointer_argument(accessor, 0)?;
                let name = Self::pointer_argument(accessor, 2)?;
                let module = Self::handle_argument(accessor, 4)?;
                self.find_resource(module, name, resource_type)
            },
            61 => {
                let res_info = Self::handle_argument(accessor, 0)?;
                let module = Self::handle_argument(accessor, 1)?;
                self.load_resource(module, res_info)
            },
            89 => {
                let str2 = Self::pointer_argument(accessor, 0)?;
                let str1 = Self::pointer_argument(accessor, 2)?;
                self.lstrcat(accessor, str1, str2)
            },
            90 => {
                let str = Self::pointer_argument(accessor, 0)?;
                self.strlen(accessor, str)
            },
            91 => self.init_task(accessor),
            127 => {
                let file_name = Self::pointer_argument(accessor, 0)?;
                let default = accessor.word_argument(2)?;
                let key_name = Self::pointer_argument(accessor, 3)?;
                let app_name = Self::pointer_argument(accessor, 5)?;
                self.get_private_profile_int(app_name, key_name, default, file_name)
            },
            128 => {
                let _file_name = Self::pointer_argument(accessor, 0)?;
                let _size = accessor.word_argument(2)?;
                let returned_string = Self::pointer_argument(accessor, 3)?;
                let default = Self::pointer_argument(accessor, 5)?;
                let key_name = Self::pointer_argument(accessor, 7)?;
                let _app_name = Self::pointer_argument(accessor, 9)?;
                self.get_private_profile_string(accessor, key_name, default, returned_string)
            },
            132 => self.get_winflags(),
            _ => Err(EmulatorError::Unsupported),
        }
    }
}

} // verus!
