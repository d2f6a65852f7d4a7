use vstd::prelude::*;
use crate::bitvector_allocator::allocation_step;
use crate::handle_table::{fresh_free_bits, GenericHandle, Handle, HandleTable};

verus! {

/// A local heap: a bump allocator over a window of a data segment.
pub struct Heap {
    max_size: u16,
    allocation_base: u16,
    next_allocation: u16,
    handle_to_pointer: HandleTable<u16>,
}

/// Why an allocation failed.
#[derive(Debug, Copy, Clone, PartialEq, Eq, Structural)]
pub enum HeapAllocationError {
    AllocationTooLarge,
    OutOfMemory,
}

/// `size` rounded up to an even number.
pub open spec fn round_up_even(size: int) -> int {
    ((size + 1) / 2) * 2
}

/// What `Heap::allocate` does: a request of `u16::MAX` bytes, or one that does not fit
/// in what is left, is `AllocationTooLarge` and changes nothing; otherwise the next
/// allocation moves past the block rounded up to an even size, and a fixed block gives
/// its pointer twice, while a movable one takes a handle `n` and gives the odd code
/// `2n - 1` with the pointer (`OutOfMemory` when no handle is left).
pub open spec fn heap_allocation(before: Heap, after: Heap, is_fixed: bool, size: u16, r: Result<(u16, u16), HeapAllocationError>) -> bool {
    let pointer = (before.next_allocation() + before.allocation_base()) as u16;
    let end = before.next_allocation() + round_up_even(size as int);
    &&& after.max_size() == before.max_size()
    &&& after.allocation_base() == before.allocation_base()
    &&& if size == u16::MAX || end > before.max_size() {
        &&& r == Err::<(u16, u16), HeapAllocationError>(HeapAllocationError::AllocationTooLarge)
        &&& after.next_allocation() == before.next_allocation()
        &&& after.handles() == before.handles()
    } else {
        &&& after.next_allocation() == end
        &&& is_fixed ==> r == Ok::<(u16, u16), HeapAllocationError>((pointer, pointer)) && after.handles()
            == before.handles()
        &&& !is_fixed ==> match r {
            Ok((code, p)) => {
                &&& p == pointer
                &&& code % 2 == 1
                &&& 1 <= (code + 1) / 2 <= 1312
                &&& allocation_step(before.handles().free_bits(), after.handles().free_bits(), Some(((code + 1) / 2) as usize))
                &&& after.handles().table() =~= before.handles().table().insert(((code + 1) / 2) as u16, pointer)
            },
            Err(e) => {
                &&& e == HeapAllocationError::OutOfMemory
                &&& allocation_step(before.handles().free_bits(), after.handles().free_bits(), None)
                &&& after.handles().table() =~= before.handles().table()
            },
        }
    }
}

impl Heap {
    pub closed spec fn max_size(&self) -> u16 {
        self.max_size
    }

    pub closed spec fn allocation_base(&self) -> u16 {
        self.allocation_base
    }

    /// Offset, from the base, of the next allocation.
    pub closed spec fn next_allocation(&self) -> u16 {
        self.next_allocation
    }

    /// The movable blocks: where each handle number points.
    pub closed spec fn handles(&self) -> HandleTable<u16> {
        self.handle_to_pointer
    }

    /// The next allocation lies within `max_size` (or is the first one) and the handle
    /// table is sound.
    pub open spec fn wf(&self) -> bool {
        &&& (self.next_allocation() == 2 || self.next_allocation() <= self.max_size())
        &&& self.handles().wf()
    }

    /// An empty heap of `max_size` bytes at `allocation_base`; the first allocation is at
    /// offset 2, so that no pointer is 0.
    pub fn new(max_size: u16, allocation_base: u16) -> (r: Self)
        ensures
            r.wf(),
            r.max_size() == max_size,
            r.allocation_base() == allocation_base,
            r.next_allocation() == 2,
            r.handles().table() == Map::<u16, u16>::empty(),
            r.handles().free_bits() == fresh_free_bits(),
    {
        Self {
            max_size,
            allocation_base,
            next_allocation: 2,  // Avoid 0
            handle_to_pointer: HandleTable::new(),
        }
    }

    /// Allocates `size` bytes, rounded up to an even count. A fixed block is returned as
    /// (pointer, pointer); a movable one as (handle * 2 - 1, pointer), its handle
    /// registered for the pointer. A block that would reach beyond `max_size` is refused
    /// with `AllocationTooLarge`; `OutOfMemory` comes when no handle is left, and then the
    /// space is consumed all the same. The address of the next allocation must fit in 16
    /// bits.
    pub fn allocate(&mut self, is_fixed: bool, size: u16) -> (r: Result<(u16, u16), HeapAllocationError>)
        requires
            old(self).wf(),
            old(self).next_allocation() + old(self).allocation_base() <= u16::MAX,
        ensures
            final(self).wf(),
            heap_allocation(*old(self), *final(self), is_fixed, size, r),
    {
        // Ceil size to a multiple of 2
        let size = if size == u16::MAX {
            return Err(HeapAllocationError::AllocationTooLarge);
        } else {
            let size_plus = size + 1;
            let rounded = size_plus & !1;
            assert(rounded == (size_plus / 2) * 2) by (bit_vector)
                requires
                    rounded == size_plus & !1u16,
            ;
            rounded
        };
        let allocation = self.next_allocation + self.allocation_base;
        let next_allocation = self.next_allocation as u32 + size as u32;
        if next_allocation > 0xffff || next_allocation > self.max_size as u32 {
            Err(HeapAllocationError::AllocationTooLarge)
        } else {
            self.next_allocation = next_allocation as u16;
            if is_fixed {
                Ok((allocation, allocation))
            } else {
                // The de-allocation has to know the difference between a handle and a pointer.
                // As pointers are aligned to multiple of 2's, we can use odd numbers to indicate
                // the handles. Any handle can be returned by the register method, so we map them
                // to odd numbers by using N * 2 - 1. This works because handles are at least 1
                // (so 1 is mapped to 1), and they have a reasonable limit of roughly 10K.
                match self.handle_to_pointer.register(allocation) {
                    Some(data) => {
                        let h = data.as_u16();
                        Ok((h * 2 - 1, allocation))
                    },
                    None => Err(HeapAllocationError::OutOfMemory),
                }
            }
        }
    }

    /// Frees a block; for now every block is kept, and the argument is returned.
    pub fn deallocate(&mut self, what: u16) -> (r: u16)
        ensures
            r == what,
            *final(self) == *old(self),
    {
        what
    }
}

} // verus!
