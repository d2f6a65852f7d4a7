use vstd::prelude::*;
use crate::emulator_error::EmulatorError;
use crate::util::{le_u16, le_u32};

verus! {

/// Size in bytes of the emulated real-mode address space.
pub const MEMORY_SIZE: usize = 1048576;

/// The byte that fills memory before anything is loaded.
pub const MEMORY_FILL_BYTE: u8 = 0x42;

/// The flat (20-bit) address space of the emulated machine.
pub struct Memory {
    bytes: Vec<u8>,
}

/// A real-mode far address.
#[derive(Debug, Copy, Clone)]
pub struct SegmentAndOffset {
    pub segment: u16,
    pub offset: u16,
}

impl View for Memory {
    type V = Seq<u8>;

    closed spec fn view(&self) -> Seq<u8> {
        self.bytes@
    }
}

impl Memory {
    /// Memory always holds `MEMORY_SIZE` bytes.
    #[verifier::type_invariant]
    pub open spec fn full_size(self) -> bool {
        self@.len() == MEMORY_SIZE
    }
}

/// `seq` with `data` written at `start`.
pub open spec fn spliced(seq: Seq<u8>, start: int, data: Seq<u8>) -> Seq<u8> {
    seq.subrange(0, start) + data + seq.subrange(start + data.len(), seq.len() as int)
}

/// The 16-bit little-endian word at `address`.
pub open spec fn word_at(mem: Seq<u8>, address: int) -> u16 {
    le_u16(mem[address], mem[address + 1]) as u16
}

/// The 32-bit little-endian word at `address`.
pub open spec fn dword_at(mem: Seq<u8>, address: int) -> u32 {
    le_u32(mem[address], mem[address + 1], mem[address + 2], mem[address + 3]) as u32
}

/// `mem` with the 16-bit word `data` stored little-endian at `address`.
pub open spec fn with_word(mem: Seq<u8>, address: int, data: u16) -> Seq<u8> {
    mem.update(address, (data % 256) as u8).update(address + 1, (data / 256) as u8)
}

/// `mem` with the 32-bit word `data` stored little-endian at `address`.
pub open spec fn with_dword(mem: Seq<u8>, address: int, data: u32) -> Seq<u8> {
    mem.update(address, (data % 256) as u8).update(address + 1, ((data / 256) % 256) as u8).update(
        address + 2,
        ((data / 65536) % 256) as u8,
    ).update(address + 3, (data / 16777216) as u8)
}

/// Flat address of a far pointer.
pub open spec fn flat_of(segment: u16, offset: u16) -> int {
    segment * 16 + offset
}

/// The low and high bytes of a word.
pub proof fn lemma_byte_split(data: u16)
    ensures
        data as u8 == (data % 256) as u8,
        (data >> 8) as u8 == (data / 256) as u8,
{
    assert(data as u8 == (data % 256) as u8 && (data >> 8) as u8 == (data / 256) as u8) by (bit_vector);
}

proof fn lemma_dword_split(data: u32)
    ensures
        data as u8 == (data % 256) as u8,
        (data >> 8) as u8 == ((data / 256) % 256) as u8,
        (data >> 16) as u8 == ((data / 65536) % 256) as u8,
        (data >> 24) as u8 == (data / 16777216) as u8,
{
    assert(data as u8 == (data % 256) as u8 && (data >> 8) as u8 == ((data / 256) % 256) as u8
        && (data >> 16) as u8 == ((data / 65536) % 256) as u8 && (data >> 24) as u8 == (data
        / 16777216) as u8) by (bit_vector);
}

impl Memory {
    /// A fresh address space, every byte holding the fill byte.
    pub fn new() -> (m: Self)
        ensures
            m@ == Seq::new(MEMORY_SIZE as nat, |i: int| MEMORY_FILL_BYTE),
    {
        let bytes = vec![MEMORY_FILL_BYTE; MEMORY_SIZE];
        let m = Self { bytes };
        assert(m@ =~= Seq::new(MEMORY_SIZE as nat, |i: int| MEMORY_FILL_BYTE));
        m
    }

    /// The bytes from `start` up to `end`.
    pub fn slice(&self, start: u32, end: u32) -> (r: Result<&[u8], EmulatorError>)
        ensures
            self@.len() == MEMORY_SIZE,
            start <= end <= MEMORY_SIZE <==> r.is_ok(),
            r matches Ok(s) ==> s@ == self@.subrange(start as int, end as int),
            r matches Err(e) ==> e == EmulatorError::OutOfBounds,
    {
        proof {
            use_type_invariant(self);
        }
        if start <= end && (end as usize) <= self.bytes.len() {
            let s = self.bytes.as_slice();
            Ok(&s[start as usize..end as usize])
        } else {
            Err(EmulatorError::OutOfBounds)
        }
    }

    /// The far pointer whose offset is the low 16 bits of `address` and whose segment
    /// addresses the 64 KiB block that holds it.
    pub fn segment_and_offset(&self, address: u32) -> (r: SegmentAndOffset)
        ensures
            r.offset == address % 65536,
            r.segment == ((address / 65536) * 4096) % 65536,
    {
        let offset = address as u16;
        let low = address & 0xffff;
        assert(low == address % 0x10000u32 && low <= address && offset == address % 0x10000u32)
            by (bit_vector)
            requires
                low == address & 0xffffu32,
                offset == address as u16,
        ;
        let high = address - low;
        let segment = (high >> 4) as u16;
        assert(segment == ((((address / 0x10000u32) * 0x1000u32) as u32) % 0x10000u32) as u16)
            by (bit_vector)
            requires
                low == address & 0xffffu32,
                low <= address,
                high == (address - low) as u32,
                segment == (high >> 4u32) as u16,
        ;
        SegmentAndOffset { segment, offset }
    }

    pub fn write_u16(&mut self, address: u32, data: u16) -> (r: Result<(), EmulatorError>)
        requires
            address + 1 <= u32::MAX,
        ensures
            final(self)@.len() == MEMORY_SIZE,
            address + 1 < MEMORY_SIZE <==> r.is_ok(),
            r.is_ok() ==> final(self)@ == with_word(old(self)@, address as int, data),
            r.is_err() ==> final(self)@ == old(self)@ && r == Err::<(), EmulatorError>(
                EmulatorError::OutOfBounds,
            ),
    {
        proof {
            use_type_invariant(&*self);
        }
        if ((address + 1) as usize) < self.bytes.len() {
            proof {
                lemma_byte_split(data);
            }
            self.bytes[address as usize] = data as u8;
            self.bytes[address as usize + 1] = (data >> 8) as u8;
            Ok(())
        } else {
            Err(EmulatorError::OutOfBounds)
        }
    }

    pub fn write_i16(&mut self, address: u32, data: i16) -> (r: Result<(), EmulatorError>)
        requires
            address + 1 <= u32::MAX,
        ensures
            final(self)@.len() == MEMORY_SIZE,
            address + 1 < MEMORY_SIZE <==> r.is_ok(),
            r.is_ok() ==> final(self)@ == with_word(old(self)@, address as int, data as u16),
            r.is_err() ==> final(self)@ == old(self)@ && r == Err::<(), EmulatorError>(
                EmulatorError::OutOfBounds,
            ),
    {
        self.write_u16(address, data as u16)
    }

    pub fn write_32(&mut self, address: u32, data: u32) -> (r: Result<(), EmulatorError>)
        requires
            address + 3 <= u32::MAX,
        ensures
            final(self)@.len() == MEMORY_SIZE,
            address + 3 < MEMORY_SIZE <==> r.is_ok(),
            r.is_ok() ==> final(self)@ == with_dword(old(self)@, address as int, data),
            r.is_err() ==> final(self)@ == old(self)@ && r == Err::<(), EmulatorError>(
                EmulatorError::OutOfBounds,
            ),
    {
        proof {
            use_type_invariant(&*self);
        }
        if ((address + 3) as usize) < self.bytes.len() {
            proof {
                lemma_dword_split(data);
            }
            self.bytes[address as usize] = data as u8;
            self.bytes[address as usize + 1] = (data >> 8) as u8;
            self.bytes[address as usize + 2] = (data >> 16) as u8;
            self.bytes[address as usize + 3] = (data >> 24) as u8;
            Ok(())
        } else {
            Err(EmulatorError::OutOfBounds)
        }
    }

    pub fn write_8(&mut self, address: u32, data: u8) -> (r: Result<(), EmulatorError>)
        ensures
            final(self)@.len() == MEMORY_SIZE,
            address < MEMORY_SIZE <==> r.is_ok(),
            r.is_ok() ==> final(self)@ == old(self)@.update(address as int, data),
            r.is_err() ==> final(self)@ == old(self)@ && r == Err::<(), EmulatorError>(
                EmulatorError::OutOfBounds,
            ),
    {
        proof {
            use_type_invariant(&*self);
        }
        if (address as usize) < self.bytes.len() {
            self.bytes[address as usize] = data;
            Ok(())
        } else {
            Err(EmulatorError::OutOfBounds)
        }
    }

    /// Writes the low `N` bits of `data` (`N` is 8 or 16).
    pub fn write<const N: usize>(&mut self, address: u32, data: u16) -> (r: Result<(), EmulatorError>)
        requires
            N == 8 || N == 16,
            address + 1 <= u32::MAX,
        ensures
            final(self)@.len() == MEMORY_SIZE,
            N == 8 ==> (address < MEMORY_SIZE <==> r.is_ok()),
            N == 8 && r.is_ok() ==> final(self)@ == old(self)@.update(address as int, (data % 256) as u8),
            N == 16 ==> (address + 1 < MEMORY_SIZE <==> r.is_ok()),
            N == 16 && r.is_ok() ==> final(self)@ == with_word(old(self)@, address as int, data),
            r.is_err() ==> final(self)@ == old(self)@ && r == Err::<(), EmulatorError>(
                EmulatorError::OutOfBounds,
            ),
    {
        if N == 8 {
            proof {
                lemma_byte_split(data);
            }
            self.write_8(address, data as u8)
        } else {
            self.write_u16(address, data)
        }
    }

    /// Reads a far pointer (offset word, then segment word) at `offset` and flattens it.
    pub fn flat_pointer_read(&self, offset: u32) -> (r: Result<u32, EmulatorError>)
        requires
            offset + 3 <= u32::MAX,
        ensures
            self@.len() == MEMORY_SIZE,
            offset + 3 < MEMORY_SIZE <==> r.is_ok(),
            r matches Ok(v) ==> v == flat_of(
                word_at(self@, offset + 2),
                word_at(self@, offset as int),
            ),
            r matches Err(e) ==> e == EmulatorError::OutOfBounds,
    {
        let segment = self.read_u16(offset + 2)?;
        let offset = self.read_u16(offset)?;
        proof {
            crate::registers::lemma_shift4(segment);
        }
        Ok(((segment as u32) << 4) + (offset as u32))
    }

    pub fn read_32(&self, address: u32) -> (r: Result<u32, EmulatorError>)
        ensures
            self@.len() == MEMORY_SIZE,
            address + 4 <= MEMORY_SIZE <==> r.is_ok(),
            r matches Ok(v) ==> v == dword_at(self@, address as int),
            r matches Err(e) ==> e == EmulatorError::OutOfBounds,
    {
        proof {
            use_type_invariant(self);
        }
        let a = address as usize;
        if a < self.bytes.len() && self.bytes.len() - a >= 4 {
            let b0 = self.bytes[a] as u32;
            let b1 = self.bytes[a + 1] as u32;
            let b2 = self.bytes[a + 2] as u32;
            let b3 = self.bytes[a + 3] as u32;
            Ok(b0 + b1 * 256 + b2 * 65536 + b3 * 16777216)
        } else {
            Err(EmulatorError::OutOfBounds)
        }
    }

    pub fn read_u16(&self, address: u32) -> (r: Result<u16, EmulatorError>)
        ensures
            self@.len() == MEMORY_SIZE,
            address + 2 <= MEMORY_SIZE <==> r.is_ok(),
            r matches Ok(v) ==> v == word_at(self@, address as int),
            r matches Err(e) ==> e == EmulatorError::OutOfBounds,
    {
        proof {
            use_type_invariant(self);
        }
        let a = address as usize;
        if a < self.bytes.len() && self.bytes.len() - a >= 2 {
            Ok(self.bytes[a] as u16 + (self.bytes[a + 1] as u16) * 256)
        } else {
            Err(EmulatorError::OutOfBounds)
        }
    }

    pub fn read_i16(&self, address: u32) -> (r: Result<i16, EmulatorError>)
        ensures
            self@.len() == MEMORY_SIZE,
            address + 2 <= MEMORY_SIZE <==> r.is_ok(),
            r matches Ok(v) ==> v == word_at(self@, address as int) as i16,
            r matches Err(e) ==> e == EmulatorError::OutOfBounds,
    {
        match self.read_u16(address) {
            Ok(data) => Ok(data as i16),
            Err(e) => Err(e),
        }
    }

    pub fn read_8(&self, address: u32) -> (r: Result<u8, EmulatorError>)
        ensures
            self@.len() == MEMORY_SIZE,
            address < MEMORY_SIZE <==> r.is_ok(),
            r matches Ok(v) ==> v == self@[address as int],
            r matches Err(e) ==> e == EmulatorError::OutOfBounds,
    {
        proof {
            use_type_invariant(self);
        }
        if (address as usize) < self.bytes.len() {
            Ok(self.bytes[address as usize])
        } else {
            Err(EmulatorError::OutOfBounds)
        }
    }

    /// Reads an `N`-bit value (`N` is 8 or 16), zero-extended.
    pub fn read<const N: usize>(&self, address: u32) -> (r: Result<u16, EmulatorError>)
        requires
            N == 8 || N == 16,
        ensures
            self@.len() == MEMORY_SIZE,
            N == 8 ==> (address < MEMORY_SIZE <==> r.is_ok()),
            N == 8 ==> (r matches Ok(v) ==> v == self@[address as int]),
            N == 16 ==> (address + 2 <= MEMORY_SIZE <==> r.is_ok()),
            N == 16 ==> (r matches Ok(v) ==> v == word_at(self@, address as int)),
            r matches Err(e) ==> e == EmulatorError::OutOfBounds,
    {
        if N == 8 {
            match self.read_8(address) {
                Ok(data) => Ok(data as u16),
                Err(e) => Err(e),
            }
        } else {
            self.read_u16(address)
        }
    }

    /// Copies `bytes` to `offset`; the copy must end strictly before the end of memory.
    pub fn copy_from(&mut self, bytes: &[u8], offset: usize) -> (r: Result<(), EmulatorError>)
        requires
            offset + bytes@.len() <= usize::MAX,
        ensures
            final(self)@.len() == MEMORY_SIZE,
            offset + bytes@.len() < MEMORY_SIZE <==> r.is_ok(),
            r.is_ok() ==> final(self)@ == spliced(old(self)@, offset as int, bytes@),
            r.is_err() ==> final(self)@ == old(self)@ && r == Err::<(), EmulatorError>(
                EmulatorError::OutOfBounds,
            ),
    {
        proof {
            use_type_invariant(&*self);
        }
        if offset + bytes.len() < self.bytes.len() {
            let mut i: usize = 0;
            while i < bytes.len()
                invariant
                    0 <= i <= bytes@.len(),
                    offset + bytes@.len() <= usize::MAX,
                    offset + bytes@.len() < self.bytes@.len(),
                    self.bytes@.len() == old(self)@.len(),
                    self.bytes@.len() == MEMORY_SIZE,
                    forall|j: int| 0 <= j < offset ==> self.bytes@[j] == old(self)@[j],
                    forall|j: int| offset <= j < offset + i ==> self.bytes@[j] == bytes@[j - offset],
                    forall|j: int|
                        offset + i <= j < self.bytes@.len() ==> self.bytes@[j] == old(self)@[j],
                decreases bytes@.len() - i,
            {
                self.bytes[offset + i] = bytes[i];
                i = i + 1;
            }
            assert(self@ =~= spliced(old(self)@, offset as int, bytes@));
            Ok(())
        } else {
            Err(EmulatorError::OutOfBounds)
        }
    }

    /// Clears the bytes from `start` up to `end`.
    pub fn zero(&mut self, start: u32, end: u32) -> (r: Result<(), EmulatorError>)
        ensures
            final(self)@.len() == MEMORY_SIZE,
            start <= end <= MEMORY_SIZE <==> r.is_ok(),
            r.is_ok() ==> final(self)@ == spliced(
                old(self)@,
                start as int,
                Seq::new((end - start) as nat, |i: int| 0u8),
            ),
            r.is_err() ==> final(self)@ == old(self)@ && r == Err::<(), EmulatorError>(
                EmulatorError::OutOfBounds,
            ),
    {
        proof {
            use_type_invariant(&*self);
        }
        if start <= end && (end as usize) <= self.bytes.len() {
            let mut i: usize = start as usize;
            while i < end as usize
                invariant
                    start <= i <= end,
                    end <= self.bytes@.len(),
                    self.bytes@.len() == old(self)@.len(),
                    self.bytes@.len() == MEMORY_SIZE,
                    forall|j: int| 0 <= j < start ==> self.bytes@[j] == old(self)@[j],
                    forall|j: int| start <= j < i ==> self.bytes@[j] == 0u8,
                    forall|j: int| i <= j < self.bytes@.len() ==> self.bytes@[j] == old(self)@[j],
                decreases end - i,
            {
                self.bytes[i] = 0;
                i = i + 1;
            }
            assert(self@ =~= spliced(
                old(self)@,
                start as int,
                Seq::new((end - start) as nat, |i: int| 0u8),
            ));
            Ok(())
        } else {
            Err(EmulatorError::OutOfBounds)
        }
    }
}

} // verus!
