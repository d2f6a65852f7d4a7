use vstd::prelude::*;
use std::collections::HashMap;
use crate::bitvector_allocator::{allocation_step, BitVectorAllocator};

verus! {

broadcast use vstd::std_specs::hash::group_hash_axioms;

/// A 16-bit identifier that names an object in a handle table.
pub trait GenericHandle: Copy + Sized {
    /// The number the handle stands for.
    spec fn id(self) -> u16;

    fn as_u16(self) -> (r: u16)
        ensures
            r == self.id(),
    ;

    fn from_u16(value: u16) -> (r: Self)
        ensures
            r.id() == value,
    ;
}

/// The allocator's result that gave the handle `r`.
pub open spec fn allocated<K: GenericHandle>(r: Option<K>) -> Option<usize> {
    match r {
        Some(h) => Some(h.id() as usize),
        None => None,
    }
}

/// The allocator words of a new handle table: every handle number free but 0.
pub open spec fn fresh_free_bits() -> Seq<u64> {
    Seq::new(HANDLE_TABLE_ENTRIES as nat, |i: int| u64::MAX).update(0, u64::MAX & !(1u64 << 0u64))
}

/// Number of allocator entries of a handle table.
pub const HANDLE_TABLE_ENTRIES: usize = 1250;

/// Objects of type `V` named by handles of type `K`.
pub struct GenericHandleTable<K: GenericHandle, V> {
    internal_table: HashMap<u16, V>,
    allocator: BitVectorAllocator,
    marker: std::marker::PhantomData<K>,
}

impl<K: GenericHandle, V> GenericHandleTable<K, V> {
    /// The objects, by handle number.
    pub closed spec fn table(&self) -> Map<u16, V> {
        self.internal_table@
    }

    /// The allocator's entries: a set bit is a handle number still free.
    pub closed spec fn free_bits(&self) -> Seq<u64> {
        self.allocator@
    }

    /// The allocator has its fixed size and never hands out handle number 0.
    pub open spec fn wf(&self) -> bool {
        &&& self.free_bits().len() == HANDLE_TABLE_ENTRIES
        &&& self.free_bits()[0] & 1 == 0
    }

    /// An empty table whose allocator covers 10 000 values, zero excluded.
    pub fn new() -> (r: Self)
        ensures
            r.wf(),
            r.table() == Map::<u16, V>::empty(),
            r.free_bits() == fresh_free_bits(),
    {
        let r = Self {
            internal_table: HashMap::new(),
            // Note: we probably don't need all 65536 atoms to be available?
            //       I capped it at 10K for now...
            allocator: BitVectorAllocator::new(10_000, false),
            marker: std::marker::PhantomData,
        };
        assert(u64::MAX & !(1u64 << 0u64) & 1 == 0) by (bit_vector);
        r
    }

    fn allocate_handle(&mut self) -> (r: Option<K>)
        requires
            old(self).wf(),
        ensures
            final(self).wf(),
            final(self).table() == old(self).table(),
            allocation_step(old(self).free_bits(), final(self).free_bits(), allocated(r)),
            r matches Some(h) ==> 1 <= h.id() <= 1312,
    {
        let v = self.allocator.allocate();
        proof {
            lemma_allocation_range(old(self).free_bits(), self.free_bits(), v);
        }
        match v {
            Some(value) => Some(K::from_u16(value as u16)),
            None => None,
        }
    }

    /// Stores `value` under a fresh handle number; `None` when the allocator is exhausted.
    pub fn register(&mut self, value: V) -> (r: Option<K>)
        requires
            old(self).wf(),
        ensures
            final(self).wf(),
            allocation_step(old(self).free_bits(), final(self).free_bits(), allocated(r)),
            r is None ==> final(self).table() == old(self).table(),
            r matches Some(h) ==> 1 <= h.id() <= 1312 && final(self).table() == old(self).table().insert(h.id(), value),
    {
        let handle = match self.allocate_handle() {
            Some(h) => h,
            None => {
                return None;
            },
        };
        let key = handle.as_u16();
        self.internal_table.insert(key, value);
        Some(handle)
    }

    /// Forgets the object of `handle`; `true` when there was one. The handle number is not
    /// given back to the allocator.
    pub fn deregister(&mut self, handle: K) -> (r: bool)
        ensures
            r == old(self).table().contains_key(handle.id()),
            final(self).table() == old(self).table().remove(handle.id()),
            final(self).free_bits() == old(self).free_bits(),
    {
        let key = handle.as_u16();
        self.internal_table.remove(&key).is_some()
    }

    /// The object of `handle`, if any.
    pub fn get(&self, handle: K) -> (r: Option<&V>)
        ensures
            self.table().contains_key(handle.id()) ==> r == Some(&self.table()[handle.id()]),
            !self.table().contains_key(handle.id()) ==> r is None,
    {
        let key = handle.as_u16();
        self.internal_table.get(&key)
    }

    /// Removes and returns the object of `handle`, to be put back with `restore`.
    pub fn take(&mut self, handle: K) -> (r: Option<V>)
        ensures
            old(self).table().contains_key(handle.id()) ==> r == Some(
                old(self).table()[handle.id()],
            ),
            !old(self).table().contains_key(handle.id()) ==> r is None,
            final(self).table() == old(self).table().remove(handle.id()),
            final(self).free_bits() == old(self).free_bits(),
    {
        let key = handle.as_u16();
        self.internal_table.remove(&key)
    }

    /// Stores `value` under `handle`, replacing what was there.
    pub fn restore(&mut self, handle: K, value: V)
        ensures
            final(self).table() == old(self).table().insert(handle.id(), value),
            final(self).free_bits() == old(self).free_bits(),
    {
        let key = handle.as_u16();
        self.internal_table.insert(key, value);
    }
}

proof fn lemma_allocation_range(words: Seq<u64>, after: Seq<u64>, v: Option<usize>)
    requires
        words.len() == HANDLE_TABLE_ENTRIES,
        words[0] & 1 == 0,
        allocation_step(words, after, v),
    ensures
        after.len() == HANDLE_TABLE_ENTRIES,
        after[0] & 1 == 0,
        v matches Some(x) ==> 1 <= x <= 1312,
{
    if let Some(x) = v {
        let i = choose|i: int|
            #![trigger crate::bitvector_allocator::is_first_nonzero(words, i)]
            crate::bitvector_allocator::is_first_nonzero(words, i) && x == i
                + vstd::std_specs::bits::u64_trailing_zeros(words[i]) && after == words.update(
                i,
                crate::bitvector_allocator::cleared_bit(
                    words[i],
                    vstd::std_specs::bits::u64_trailing_zeros(words[i]),
                ),
            );
        let w = words[i];
        let tz = vstd::std_specs::bits::u64_trailing_zeros(w);
        vstd::std_specs::bits::axiom_u64_trailing_zeros(w);
        if i == 0 {
            if tz == 0 {
                assert((w >> 0u64) & 1u64 == w & 1) by (bit_vector);
            }
            assert(w & !(1u64 << tz as u64) & 1 == 0) by (bit_vector)
                requires
                    w & 1 == 0,
            ;
        }
    }
}

/// The handle of a user or GDI object.
#[derive(Debug, Clone, Copy, Eq, Hash, PartialEq, Structural)]
pub struct Handle(pub u16);

impl Handle {
    /// The handle that names nothing.
    pub fn null() -> (r: Self)
        ensures
            r.id() == 0,
    {
        Self(0)
    }
}

impl GenericHandle for Handle {
    open spec fn id(self) -> u16 {
        self.0
    }

    fn as_u16(self) -> (r: u16) {
        self.0
    }

    fn from_u16(value: u16) -> (r: Self) {
        Self(value)
    }
}

/// A table of objects named by `Handle`s.
pub type HandleTable<V> = GenericHandleTable<Handle, V>;

} // verus!
