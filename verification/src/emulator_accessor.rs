use vstd::prelude::*;
use crate::byte_string::{lowercased, ByteString, HeapByteString};
use crate::emulator_error::EmulatorError;
use crate::memory::{flat_of, with_word, word_at, Memory, MEMORY_SIZE};
use crate::registers::{wrap16, Registers, RegistersView};
use crate::two_d::Rect;

verus! {

/// What an emulated API function may read and change of the machine: its memory and
/// registers, and where a value for the program waits to be delivered.
pub struct EmulatorAccessor {
    pub memory: Memory,
    pub regs: Registers,
    pub delayed_return_slot: Option<u32>,
}

/// The flat address of SS:SP.
pub open spec fn stack_top(regs: RegistersView) -> int {
    flat_of(regs.segments[Registers::REG_SS as int], regs.gpr[Registers::REG_SP as int])
}

/// Registers after SP -= 2.
pub open spec fn sp_lowered(regs: RegistersView) -> RegistersView {
    RegistersView {
        gpr: regs.gpr.update(
            Registers::REG_SP as int,
            wrap16(regs.gpr[Registers::REG_SP as int] - 2),
        ),
        ..regs
    }
}

/// One more push in a run of pushes. The state is whether every push so far succeeded,
/// the registers and the memory; after a failed push nothing changes any more.
pub open spec fn push_step(st: (bool, RegistersView, Seq<u8>), w: u16) -> (bool, RegistersView, Seq<u8>) {
    if !st.0 {
        st
    } else {
        let regs = sp_lowered(st.1);
        let a = stack_top(regs);
        if a + 1 < MEMORY_SIZE {
            (true, regs, with_word(st.2, a, w))
        } else {
            (false, regs, st.2)
        }
    }
}

/// `k` is the first zero byte of `mem` at or after `start`.
pub open spec fn is_string_end(mem: Seq<u8>, start: int, k: int) -> bool {
    &&& start <= k < mem.len()
    &&& mem[k] == 0
    &&& forall|i: int| start <= i < k ==> mem[i] != 0
}

/// There is a zero byte in `mem` at or after `start`.
pub open spec fn has_string_end(mem: Seq<u8>, start: int) -> bool {
    exists|k: int| #[trigger] is_string_end(mem, start, k)
}

/// Where the zero-terminated string at `start` ends (meaningful when it has an end).
pub open spec fn string_end(mem: Seq<u8>, start: int) -> int {
    choose|k: int| is_string_end(mem, start, k)
}

/// The zero-terminated string at `start`, terminator excluded (meaningful when it has an
/// end).
pub open spec fn string_at(mem: Seq<u8>, start: int) -> Seq<u8> {
    mem.subrange(start, string_end(mem, start))
}

/// A string has one end.
pub proof fn lemma_string_end_unique(mem: Seq<u8>, start: int, k: int)
    requires
        is_string_end(mem, start, k),
    ensures
        string_end(mem, start) == k,
        string_at(mem, start) == mem.subrange(start, k),
{
    let c = string_end(mem, start);
    assert(is_string_end(mem, start, c));
    if c < k {
        assert(mem[c] != 0);
    } else if c > k {
        assert(mem[k] != 0);
    }
}

/// Byte-by-byte copy of a zero-terminated string from `src` to `dst` (the areas may
/// overlap: each byte is read after the previous one is written). The result is the
/// number of bytes copied before the terminator (modulo 65536), or `None` when a read or
/// a write fell outside memory, and the memory afterwards.
pub open spec fn copy_string_run(mem: Seq<u8>, src: int, dst: int, copied: int) -> (Option<u16>, Seq<u8>)
    decreases mem.len() - src,
{
    if !(0 <= src < mem.len()) {
        (None, mem)
    } else if !(0 <= dst < mem.len()) {
        (None, mem)
    } else {
        let b = mem[src];
        let after = mem.update(dst, b);
        if b == 0 {
            (Some((copied % 65536) as u16), after)
        } else {
            copy_string_run(after, src + 1, dst + 1, copied + 1)
        }
    }
}

/// `mem` with four little-endian words stored from `address`.
pub open spec fn with_rect(mem: Seq<u8>, address: int, rect: Rect) -> Seq<u8> {
    with_word(
        with_word(
            with_word(with_word(mem, address, rect.left as u16), address + 2, rect.top as u16),
            address + 4,
            rect.right as u16,
        ),
        address + 6,
        rect.bottom as u16,
    )
}

/// The word argument `nr` of a far-called procedure, if it lies in memory.
pub open spec fn word_arg(regs: RegistersView, mem: Seq<u8>, nr: int) -> Option<u16> {
    let a = stack_top(regs) + 4 + nr * 2;
    if a + 2 <= MEMORY_SIZE {
        Some(word_at(mem, a))
    } else {
        None
    }
}

/// The double-word argument starting at word argument `nr`, if it lies in memory.
pub open spec fn dword_arg(regs: RegistersView, mem: Seq<u8>, nr: int) -> Option<u32> {
    let a = stack_top(regs) + 4 + nr * 2;
    if a + 4 <= MEMORY_SIZE {
        Some(crate::memory::dword_at(mem, a))
    } else {
        None
    }
}

/// The far pointer argument at word arguments `nr` (offset) and `nr + 1` (segment),
/// flattened, if it lies in memory.
pub open spec fn pointer_arg(regs: RegistersView, mem: Seq<u8>, nr: int) -> Option<u32> {
    match (word_arg(regs, mem, nr + 1), word_arg(regs, mem, nr)) {
        (Some(segment), Some(offset)) => Some(flat_of(segment, offset) as u32),
        _ => None,
    }
}

/// The rectangle stored as four words (left, top, right, bottom) at `address`.
pub open spec fn rect_at(mem: Seq<u8>, address: int) -> Rect {
    Rect {
        left: word_at(mem, address) as i16,
        top: word_at(mem, address + 2) as i16,
        right: word_at(mem, address + 4) as i16,
        bottom: word_at(mem, address + 6) as i16,
    }
}

impl EmulatorAccessor {
    /// Memory has its full size; a reserved return slot lies within the reach of a far
    /// pointer.
    pub open spec fn wf(&self) -> bool {
        &&& self.memory@.len() == MEMORY_SIZE
        &&& self.delayed_return_slot matches Some(a) ==> a <= 0x10FFEF
    }

    pub fn new(memory: Memory, regs: Registers) -> (r: Self)
        ensures
            r.memory == memory,
            r.regs == regs,
            r.delayed_return_slot is None,
    {
        Self { memory, regs, delayed_return_slot: None }
    }

    pub fn regs(&self) -> (r: &Registers)
        ensures
            *r == self.regs,
    {
        &self.regs
    }

    pub fn regs_mut(&mut self) -> (r: &mut Registers)
        ensures
            *r == old(self).regs,
            final(self).regs == *final(r),
            final(self).memory == old(self).memory,
            final(self).delayed_return_slot == old(self).delayed_return_slot,
    {
        &mut self.regs
    }

    pub fn memory(&self) -> (r: &Memory)
        ensures
            *r == self.memory,
    {
        &self.memory
    }

    pub fn memory_mut(&mut self) -> (r: &mut Memory)
        ensures
            *r == old(self).memory,
            final(self).memory == *final(r),
            final(self).regs == old(self).regs,
            final(self).delayed_return_slot == old(self).delayed_return_slot,
    {
        &mut self.memory
    }

    /// Flat address of the word argument `nr` of a far-called procedure: above the return
    /// address, SS:SP + 4 + 2 * nr.
    pub open spec fn argument_address(&self, nr: int) -> int {
        stack_top(self.regs@) + 4 + nr * 2
    }

    /// The word argument `nr` (counted from the last pushed).
    pub fn word_argument(&self, nr: u32) -> (r: Result<u16, EmulatorError>)
        requires
            self.wf(),
            nr <= 64,
        ensures
            self.argument_address(nr as int) + 2 <= MEMORY_SIZE <==> r.is_ok(),
            r matches Ok(v) ==> v == word_at(self.memory@, self.argument_address(nr as int)),
            r matches Err(e) ==> e == EmulatorError::OutOfBounds,
    {
        let address = self.regs.flat_sp() + 4 + nr * 2;
        self.memory.read_u16(address)
    }

    /// Pushes a word: SP -= 2, then the word goes to SS:SP. SP moves even when the write
    /// falls outside memory.
    pub fn push_16(&mut self, value: u16) -> (r: Result<(), EmulatorError>)
        requires
            old(self).wf(),
        ensures
            final(self).wf(),
            final(self).regs@ == sp_lowered(old(self).regs@),
            final(self).delayed_return_slot == old(self).delayed_return_slot,
            stack_top(sp_lowered(old(self).regs@)) + 1 < MEMORY_SIZE <==> r.is_ok(),
            r.is_ok() ==> final(self).memory@ == with_word(
                old(self).memory@,
                stack_top(sp_lowered(old(self).regs@)),
                value,
            ),
            r.is_err() ==> final(self).memory@ == old(self).memory@ && r == Err::<(), EmulatorError>(
                EmulatorError::OutOfBounds,
            ),
    {
        self.regs.dec_sp(2);
        let address = self.regs.flat_reg(Registers::REG_SS, Registers::REG_SP);
        self.memory.write_u16(address, value)
    }

    /// Starts a call into a procedure from within a system call: pushes IP, the place to
    /// return to, then reserves a word for the value the system call hands back later.
    pub fn far_call_into_proc_setup(&mut self) -> (r: Result<(), EmulatorError>)
        requires
            old(self).wf(),
        ensures
            final(self).wf(),
            ({
                let pushed = sp_lowered(old(self).regs@);
                let slot_regs = sp_lowered(pushed);
                if stack_top(pushed) + 1 < MEMORY_SIZE {
                    &&& r.is_ok()
                    &&& final(self).memory@ == with_word(
                        old(self).memory@,
                        stack_top(pushed),
                        old(self).regs@.ip,
                    )
                    &&& final(self).regs@ == slot_regs
                    &&& final(self).delayed_return_slot == Some(stack_top(slot_regs) as u32)
                } else {
                    &&& r == Err::<(), EmulatorError>(EmulatorError::OutOfBounds)
                    &&& final(self).memory@ == old(self).memory@
                    &&& final(self).regs@ == pushed
                    &&& final(self).delayed_return_slot == old(self).delayed_return_slot
                }
            }),
    {
        // The actual place to return to in the system call
        let ip = self.regs.ip();
        self.push_16(ip)?;
        // Return value will be filled in later by `ReturnValue::DelayedU16`
        self.regs.dec_sp(2);
        self.delayed_return_slot = Some(self.regs.flat_sp());
        Ok(())
    }

    /// Finishes the call: pushes CS and offset 0 (the return stub) and jumps to
    /// `segment`:`offset`.
    pub fn far_call_into_proc_execute(&mut self, segment: u16, offset: u16) -> (r: Result<
        (),
        EmulatorError,
    >)
        requires
            old(self).wf(),
        ensures
            final(self).wf(),
            final(self).delayed_return_slot == old(self).delayed_return_slot,
            ({
                let cs = old(self).regs@.segments[Registers::REG_CS as int];
                let first = sp_lowered(old(self).regs@);
                let second = sp_lowered(first);
                if stack_top(first) + 1 >= MEMORY_SIZE {
                    &&& r == Err::<(), EmulatorError>(EmulatorError::OutOfBounds)
                    &&& final(self).memory@ == old(self).memory@
                    &&& final(self).regs@ == first
                } else if stack_top(second) + 1 >= MEMORY_SIZE {
                    &&& r == Err::<(), EmulatorError>(EmulatorError::OutOfBounds)
                    &&& final(self).memory@ == with_word(old(self).memory@, stack_top(first), cs)
                    &&& final(self).regs@ == second
                } else {
                    &&& r.is_ok()
                    &&& final(self).memory@ == with_word(
                        with_word(old(self).memory@, stack_top(first), cs),
                        stack_top(second),
                        0,
                    )
                    &&& final(self).regs@ == (RegistersView {
                        ip: offset,
                        segments: second.segments.update(Registers::REG_CS as int, segment),
                        ..second
                    })
                }
            }),
    {
        // Setup return far into the system call trampoline
        let cs = self.regs.read_segment(Registers::REG_CS);
        self.push_16(cs)?;
        self.push_16(0)?;
        // Move into proc
        self.regs.set_ip(offset);
        self.regs.write_segment(Registers::REG_CS, segment);
        Ok(())
    }

    /// The double-word argument starting at word argument `nr`.
    pub fn dword_argument(&self, nr: u32) -> (r: Result<u32, EmulatorError>)
        requires
            self.wf(),
            nr <= 64,
        ensures
            self.argument_address(nr as int) + 4 <= MEMORY_SIZE <==> r.is_ok(),
            r matches Ok(v) ==> v == crate::memory::dword_at(
                self.memory@,
                self.argument_address(nr as int),
            ),
            r matches Err(e) ==> e == EmulatorError::OutOfBounds,
    {
        let address = self.regs.flat_sp() + 4 + nr * 2;
        self.memory.read_32(address)
    }

    /// The far pointer argument whose offset is word argument `nr` and segment word
    /// argument `nr + 1`, flattened.
    pub fn pointer_argument(&self, nr: u32) -> (r: Result<u32, EmulatorError>)
        requires
            self.wf(),
            nr <= 63,
        ensures
            self.argument_address(nr + 1) + 2 <= MEMORY_SIZE <==> r.is_ok(),
            r matches Ok(v) ==> v == flat_of(
                word_at(self.memory@, self.argument_address(nr + 1)),
                word_at(self.memory@, self.argument_address(nr as int)),
            ),
            r matches Err(e) ==> e == EmulatorError::OutOfBounds,
    {
        let segment = self.word_argument(nr + 1)?;
        let offset = self.word_argument(nr)?;
        assert((segment as u32) << 4u32 == segment as u32 * 16) by (bit_vector);
        let flat_address = ((segment as u32) << 4) + (offset as u32);
        Ok(flat_address)
    }

    /// Length, modulo 65536, of the zero-terminated string at `ptr`; `OutOfBounds` when it
    /// runs off the end of memory.
    pub fn strlen(&self, ptr: u32) -> (r: Result<u16, EmulatorError>)
        requires
            self.wf(),
        ensures
            has_string_end(self.memory@, ptr as int) <==> r.is_ok(),
            r matches Ok(n) ==> exists|k: int|
                #[trigger] is_string_end(self.memory@, ptr as int, k) && n == (k - ptr) % 65536,
            r matches Err(e) ==> e == EmulatorError::OutOfBounds,
    {
        let mut ptr_now = ptr;
        let mut length = 0u16;
        loop
            invariant
                self.wf(),
                ptr <= ptr_now,
                ptr_now == ptr || ptr_now <= MEMORY_SIZE,
                length == (ptr_now - ptr) % 65536,
                forall|i: int| ptr <= i < ptr_now ==> self.memory@[i] != 0,
            decreases (if ptr_now <= MEMORY_SIZE {
                MEMORY_SIZE - ptr_now
            } else {
                0
            }),
        {
            let data = match self.memory.read_8(ptr_now) {
                Ok(d) => d,
                Err(e) => {
                    proof {
                        if has_string_end(self.memory@, ptr as int) {
                            let k = choose|k: int| #[trigger] is_string_end(self.memory@, ptr as int, k);
                            if k >= ptr_now {
                            } else {
                                assert(self.memory@[k] != 0);
                            }
                        }
                    }
                    return Err(e);
                },
            };
            if data == 0 {
                proof {
                    assert(is_string_end(self.memory@, ptr as int, ptr_now as int));
                }
                return Ok(length);
            }
            length = length.wrapping_add(1);
            ptr_now = ptr_now + 1;
        }
    }

    /// Copies the zero-terminated string at `src_ptr` to `dst_ptr`, terminator included,
    /// byte by byte (see `copy_string_run`); returns the number of bytes before the
    /// terminator, modulo 65536.
    pub fn copy_string(&mut self, src_ptr: u32, dst_ptr: u32) -> (r: Result<u16, EmulatorError>)
        requires
            old(self).wf(),
        ensures
            final(self).wf(),
            final(self).regs == old(self).regs,
            final(self).delayed_return_slot == old(self).delayed_return_slot,
            ({
                let (count, after) = copy_string_run(old(self).memory@, src_ptr as int, dst_ptr as int, 0);
                &&& final(self).memory@ == after
                &&& match count {
                    Some(n) => r == Ok::<u16, EmulatorError>(n),
                    None => r == Err::<u16, EmulatorError>(EmulatorError::OutOfBounds),
                }
            }),
    {
        let mut src = src_ptr;
        let mut dst = dst_ptr;
        let mut number_of_bytes_copied = 0u16;
        let ghost mut copied: int = 0;
        loop
            invariant
                self.wf(),
                self.regs == old(self).regs,
                self.delayed_return_slot == old(self).delayed_return_slot,
                src == src_ptr + copied,
                dst == dst_ptr + copied,
                copied >= 0,
                copied == 0 || (src <= MEMORY_SIZE && dst <= MEMORY_SIZE),
                number_of_bytes_copied == copied % 65536,
                copy_string_run(self.memory@, src as int, dst as int, copied) == copy_string_run(
                    old(self).memory@,
                    src_ptr as int,
                    dst_ptr as int,
                    0,
                ),
            ensures
                self.wf(),
                self.regs == old(self).regs,
                self.delayed_return_slot == old(self).delayed_return_slot,
                copy_string_run(old(self).memory@, src_ptr as int, dst_ptr as int, 0) == (
                Some(number_of_bytes_copied), self.memory@),
            decreases (if src <= MEMORY_SIZE {
                MEMORY_SIZE - src
            } else {
                0
            }),
        {
            let data = self.memory.read_8(src)?;
            self.memory.write_8(dst, data)?;
            if data == 0 {
                break;
            }
            number_of_bytes_copied = number_of_bytes_copied.wrapping_add(1);
            src = src + 1;
            dst = dst + 1;
            proof {
                copied = copied + 1;
            }
        }
        Ok(number_of_bytes_copied)
    }

    /// A copy of the zero-terminated string at `src_ptr`, terminator excluded, with ASCII
    /// letters in lower case when asked.
    pub fn clone_string(&self, src_ptr: u32, convert_to_lowercase: bool) -> (r: Result<
        HeapByteString,
        EmulatorError,
    >)
        requires
            self.wf(),
        ensures
            has_string_end(self.memory@, src_ptr as int) <==> r.is_ok(),
            r matches Ok(s) ==> exists|k: int|
                #[trigger] is_string_end(self.memory@, src_ptr as int, k) && s@ == if convert_to_lowercase {
                    lowercased(self.memory@.subrange(src_ptr as int, k))
                } else {
                    self.memory@.subrange(src_ptr as int, k)
                },
            r matches Err(e) ==> e == EmulatorError::OutOfBounds,
    {
        let mut output: Vec<u8> = Vec::new();
        let mut src = src_ptr;
        proof {
            if src <= MEMORY_SIZE {
                assert(output@ =~= lowercased(self.memory@.subrange(src_ptr as int, src as int)));
                assert(output@ =~= self.memory@.subrange(src_ptr as int, src as int));
            }
        }
        loop
            invariant
                self.wf(),
                src_ptr <= src,
                src == src_ptr || src <= MEMORY_SIZE,
                forall|i: int| src_ptr <= i < src ==> self.memory@[i] != 0,
                src <= MEMORY_SIZE ==> output@ == if convert_to_lowercase {
                    lowercased(self.memory@.subrange(src_ptr as int, src as int))
                } else {
                    self.memory@.subrange(src_ptr as int, src as int)
                },
            decreases (if src <= MEMORY_SIZE {
                MEMORY_SIZE - src
            } else {
                0
            }),
        {
            let data = match self.memory.read_8(src) {
                Ok(d) => d,
                Err(e) => {
                    proof {
                        if has_string_end(self.memory@, src_ptr as int) {
                            let k = choose|k: int| #[trigger] is_string_end(self.memory@, src_ptr as int, k);
                            if k < src {
                                assert(self.memory@[k] != 0);
                            }
                        }
                    }
                    return Err(e);
                },
            };
            if data == 0 {
                proof {
                    assert(is_string_end(self.memory@, src_ptr as int, src as int));
                }
                return Ok(HeapByteString::from(output));
            }
            if convert_to_lowercase && data >= 65 && data <= 90 {
                assert(65 <= data <= 90 ==> data | 32 == data + 32) by (bit_vector);
                output.push(data | 32);
            } else {
                output.push(data);
            }
            src = src + 1;
            proof {
                assert(self.memory@.subrange(src_ptr as int, src as int) =~= self.memory@.subrange(
                    src_ptr as int,
                    src - 1,
                ).push(data));
                if convert_to_lowercase {
                    assert(output@ =~= lowercased(self.memory@.subrange(src_ptr as int, src as int)));
                }
            }
        }
    }

    /// The zero-terminated string at `src_ptr`, terminator excluded, borrowed from memory.
    pub fn static_string(&self, src_ptr: u32) -> (r: Result<ByteString, EmulatorError>)
        requires
            self.wf(),
        ensures
            has_string_end(self.memory@, src_ptr as int) <==> r.is_ok(),
            r matches Ok(s) ==> exists|k: int|
                #[trigger] is_string_end(self.memory@, src_ptr as int, k) && s@
                    == self.memory@.subrange(src_ptr as int, k),
            r matches Ok(s) ==> s is Static,
            r matches Err(e) ==> e == EmulatorError::OutOfBounds,
    {
        let mut length: u32 = 0;
        loop
            invariant
                self.wf(),
                length == 0 || src_ptr + length <= MEMORY_SIZE,
                forall|i: int| src_ptr <= i < src_ptr + length ==> self.memory@[i] != 0,
            decreases (if src_ptr + length <= MEMORY_SIZE {
                MEMORY_SIZE - (src_ptr + length)
            } else {
                0
            }),
        {
            let current = src_ptr + length;
            let data = match self.memory.read_8(current) {
                Ok(d) => d,
                Err(e) => {
                    proof {
                        if has_string_end(self.memory@, src_ptr as int) {
                            let k = choose|k: int| #[trigger] is_string_end(self.memory@, src_ptr as int, k);
                            if k < current {
                                assert(self.memory@[k] != 0);
                            }
                        }
                    }
                    return Err(e);
                },
            };
            if data == 0 {
                proof {
                    assert(is_string_end(self.memory@, src_ptr as int, current as int));
                }
                return match self.memory.slice(src_ptr, current) {
                    Ok(s) => Ok(ByteString::from_slice(s)),
                    Err(e) => Err(e),
                };
            }
            length = length + 1;
        }
    }

    /// The rectangle stored as four words (left, top, right, bottom) at `src_ptr`.
    pub fn read_rect(&self, src_ptr: u32) -> (r: Result<Rect, EmulatorError>)
        requires
            self.wf(),
            src_ptr + 8 <= u32::MAX,
        ensures
            src_ptr + 8 <= MEMORY_SIZE <==> r.is_ok(),
            r matches Ok(rect) ==> rect == rect_at(self.memory@, src_ptr as int),
            r matches Err(e) ==> e == EmulatorError::OutOfBounds,
    {
        let rect_left = self.memory.read_i16(src_ptr)?;
        let rect_top = self.memory.read_i16(src_ptr + 2)?;
        let rect_right = self.memory.read_i16(src_ptr + 4)?;
        let rect_bottom = self.memory.read_i16(src_ptr + 6)?;
        Ok(Rect { left: rect_left, top: rect_top, right: rect_right, bottom: rect_bottom })
    }

    /// Stores the rectangle as four words (left, top, right, bottom) at `dst_ptr`.
    pub fn write_rect(&mut self, dst_ptr: u32, rect: &Rect) -> (r: Result<(), EmulatorError>)
        requires
            old(self).wf(),
            dst_ptr + 8 <= u32::MAX,
        ensures
            final(self).wf(),
            final(self).regs == old(self).regs,
            final(self).delayed_return_slot == old(self).delayed_return_slot,
            dst_ptr + 8 <= MEMORY_SIZE <==> r.is_ok(),
            r.is_ok() ==> final(self).memory@ == with_rect(old(self).memory@, dst_ptr as int, *rect),
            r matches Err(e) ==> e == EmulatorError::OutOfBounds,
    {
        self.memory.write_i16(dst_ptr, rect.left)?;
        self.memory.write_i16(dst_ptr + 2, rect.top)?;
        self.memory.write_i16(dst_ptr + 4, rect.right)?;
        self.memory.write_i16(dst_ptr + 6, rect.bottom)
    }
}

} // verus!
