use vstd::prelude::*;

verus! {

/// Hands out paragraphs (16-byte units) of the address space one after another.
pub struct SegmentBumpAllocator {
    pointer: usize,
}

impl View for SegmentBumpAllocator {
    type V = usize;

    closed spec fn view(&self) -> usize {
        self.pointer
    }
}

/// `size` rounded up to a multiple of 16.
pub open spec fn round_up_16(size: int) -> int {
    ((size + 15) / 16) * 16
}

impl SegmentBumpAllocator {
    pub fn new() -> (r: Self)
        ensures
            r@ == 0,
    {
        Self { pointer: 0 }
    }

    /// Reserves `size` bytes, rounded up to whole paragraphs; returns the segment of the
    /// reservation, or `None` when it starts beyond what a segment register can name (the
    /// space is reserved all the same).
    pub fn allocate(&mut self, size: usize) -> (r: Option<u16>)
        requires
            size + 16 <= usize::MAX,
            old(self)@ + round_up_16(size as int) <= usize::MAX,
        ensures
            final(self)@ == old(self)@ + round_up_16(size as int),
            old(self)@ / 16 <= u16::MAX <==> r.is_some(),
            r matches Some(s) ==> s == old(self)@ / 16,
    {
        let current_pointer = self.pointer;
        // Round size up to the closest multiple of 16, as each segment moves 16 bytes
        let size_plus = size + 16 - 1;
        let size = size_plus & !(16 - 1);
        assert(size == (size_plus / 16) * 16) by (bit_vector)
            requires
                size == size_plus & !15usize,
        ;
        self.pointer = self.pointer + size;
        let segment = current_pointer >> 4;
        assert(current_pointer >> 4 == current_pointer / 16) by (bit_vector);
        if segment <= 0xffff {
            Some(segment as u16)
        } else {
            None
        }
    }
}

} // verus!
