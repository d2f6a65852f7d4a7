use vstd::prelude::*;
use crate::bitvector_allocator::{
    allocate_lowest_bit, allocation_step, cleared_bit, entry_count, set_bit, ENTRY_STRIDE,
};

verus! {

/// A bitmap of free slots; a set bit is a free slot.
pub struct BitmapAllocator {
    bits: Vec<u64>,
}

impl View for BitmapAllocator {
    type V = Seq<u64>;

    closed spec fn view(&self) -> Seq<u64> {
        self.bits@
    }
}

impl BitmapAllocator {
    /// A bitmap with every slot free.
    pub fn new(nr_bits: usize) -> (r: Self)
        requires
            nr_bits + ENTRY_STRIDE <= usize::MAX,
        ensures
            r@ == Seq::new(entry_count(nr_bits) as nat, |i: int| u64::MAX),
    {
        let bits = vec![u64::MAX; (nr_bits + ENTRY_STRIDE - 1) / ENTRY_STRIDE];
        let r = Self { bits };
        assert(r@ =~= Seq::new(entry_count(nr_bits) as nat, |i: int| u64::MAX));
        r
    }

    /// Marks slot `bit` as taken: clears bit `bit % 8` of entry `bit / 8`.
    pub fn claim(&mut self, bit: usize)
        requires
            bit / ENTRY_STRIDE < old(self)@.len(),
        ensures
            final(self)@ == old(self)@.update(
                (bit / ENTRY_STRIDE) as int,
                cleared_bit(old(self)@[(bit / ENTRY_STRIDE) as int], (bit % ENTRY_STRIDE) as u32),
            ),
    {
        let index = bit / ENTRY_STRIDE;
        let shift = (bit % ENTRY_STRIDE) as u32;
        self.bits[index] = self.bits[index] & !(1u64 << shift);
    }

    /// Takes the lowest free bit of the first entry that has one (see `allocation_step`).
    pub fn allocate(&mut self) -> (r: Option<usize>)
        requires
            old(self)@.len() + 64 <= usize::MAX,
        ensures
            allocation_step(old(self)@, final(self)@, r),
    {
        allocate_lowest_bit(&mut self.bits)
    }

    /// Frees slot `bit`: sets bit `bit % 8` of entry `bit / 8`.
    pub fn deallocate(&mut self, bit: usize)
        requires
            bit / ENTRY_STRIDE < old(self)@.len(),
        ensures
            final(self)@ == old(self)@.update(
                (bit / ENTRY_STRIDE) as int,
                set_bit(old(self)@[(bit / ENTRY_STRIDE) as int], (bit % ENTRY_STRIDE) as u64),
            ),
    {
        let index = bit / ENTRY_STRIDE;
        let shift = (bit % ENTRY_STRIDE) as u64;
        self.bits[index] = self.bits[index] | (1u64 << shift);
    }
}

} // verus!
