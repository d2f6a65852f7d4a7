use vstd::prelude::*;
use vstd::std_specs::bits::u64_trailing_zeros;

verus! {

/// Entries are sized and addressed in units of the size in bytes of a machine word.
pub const ENTRY_STRIDE: usize = 8;

/// The entry `words[index]` with bit `bit` cleared.
pub open spec fn cleared_bit(word: u64, bit: u32) -> u64 {
    word & !(1u64 << bit)
}

/// The entry `word` with bit `bit` set.
pub open spec fn set_bit(word: u64, bit: u64) -> u64 {
    word | (1u64 << bit)
}

/// `index` is the first entry of `words` with a bit set.
pub open spec fn is_first_nonzero(words: Seq<u64>, index: int) -> bool {
    &&& 0 <= index < words.len()
    &&& words[index] != 0
    &&& forall|j: int| 0 <= j < index ==> words[j] == 0
}

/// What `allocate` does to `words`: `None` when every entry is empty; otherwise the first
/// non-empty entry loses its lowest set bit, and the result is that entry's index plus
/// the position of that bit.
pub open spec fn allocation_step(words: Seq<u64>, after: Seq<u64>, r: Option<usize>) -> bool {
    match r {
        None => (forall|j: int| 0 <= j < words.len() ==> words[j] == 0) && after == words,
        Some(v) => exists|i: int|
            #![trigger is_first_nonzero(words, i)]
            is_first_nonzero(words, i) && v == i + u64_trailing_zeros(words[i])
                && after == words.update(i, cleared_bit(words[i], u64_trailing_zeros(words[i]))),
    }
}

/// Shared allocation loop of the two bit allocators.
pub fn allocate_lowest_bit(bits: &mut Vec<u64>) -> (r: Option<usize>)
    requires
        old(bits)@.len() + 64 <= usize::MAX,
    ensures
        allocation_step(old(bits)@, final(bits)@, r),
{
    let mut index: usize = 0;
    while index < bits.len()
        invariant
            bits@ == old(bits)@,
            bits@.len() + 64 <= usize::MAX,
            0 <= index <= bits@.len(),
            forall|j: int| 0 <= j < index ==> bits@[j] == 0,
        decreases bits@.len() - index,
    {
        let entry = bits[index];
        if entry != 0 {
            let bit = entry.trailing_zeros();
            proof {
                vstd::std_specs::bits::axiom_u64_trailing_zeros(entry);
            }
            let cleared = entry & !(1u64 << bit);
            bits[index] = cleared;
            proof {
                assert(is_first_nonzero(old(bits)@, index as int));
            }
            return Some(index + bit as usize);
        }
        index = index + 1;
    }
    None
}

/// Hands out small integers from a bit vector; a set bit is a free value.
pub struct BitVectorAllocator {
    bits: Vec<u64>,
}

impl View for BitVectorAllocator {
    type V = Seq<u64>;

    closed spec fn view(&self) -> Seq<u64> {
        self.bits@
    }
}

/// Number of entries that `nr_bits` values take.
pub open spec fn entry_count(nr_bits: usize) -> int {
    (nr_bits + ENTRY_STRIDE - 1) / ENTRY_STRIDE as int
}

impl BitVectorAllocator {
    /// An allocator with every bit free, except bit 0 of the first entry when zero is not a
    /// valid value.
    pub fn new(nr_bits: usize, is_zero_valid: bool) -> (r: Self)
        requires
            nr_bits + ENTRY_STRIDE <= usize::MAX,
            !is_zero_valid ==> nr_bits > 0,
        ensures
            r@.len() == entry_count(nr_bits),
            is_zero_valid ==> r@ == Seq::new(entry_count(nr_bits) as nat, |i: int| u64::MAX),
            !is_zero_valid ==> r@ == Seq::new(entry_count(nr_bits) as nat, |i: int| u64::MAX).update(
                0,
                u64::MAX & !(1u64 << 0u64),
            ),
    {
        let mut bits = vec![u64::MAX; (nr_bits + ENTRY_STRIDE - 1) / ENTRY_STRIDE];
        if !is_zero_valid {
            bits[0] = bits[0] & !(1u64 << 0u64);
        }
        let r = Self { bits };
        proof {
            if is_zero_valid {
                assert(r@ =~= Seq::new(entry_count(nr_bits) as nat, |i: int| u64::MAX));
            } else {
                assert(r@ =~= Seq::new(entry_count(nr_bits) as nat, |i: int| u64::MAX).update(
                    0,
                    u64::MAX & !(1u64 << 0u64),
                ));
            }
        }
        r
    }

    /// Takes the lowest free bit of the first entry that has one (see `allocation_step`).
    pub fn allocate(&mut self) -> (r: Option<usize>)
        requires
            old(self)@.len() + 64 <= usize::MAX,
        ensures
            allocation_step(old(self)@, final(self)@, r),
    {
        allocate_lowest_bit(&mut self.bits)
    }

    /// Sets bit `bit % 8` of entry `bit / 8`.
    pub fn deallocate(&mut self, bit: usize)
        requires
            bit / ENTRY_STRIDE < old(self)@.len(),
        ensures
            final(self)@ == old(self)@.update(
                (bit / ENTRY_STRIDE) as int,
                set_bit(old(self)@[(bit / ENTRY_STRIDE) as int], (bit % ENTRY_STRIDE) as u64),
            ),
    {
        let index = bit / ENTRY_STRIDE;
        let shift = (bit % ENTRY_STRIDE) as u64;
        self.bits[index] = self.bits[index] | (1u64 << shift);
    }
}

} // verus!
