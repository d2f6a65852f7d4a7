use vstd::prelude::*;
use crate::byte_string::{lowercased, HeapByteString};
use crate::util::{bool_to_result, le_u16, u16_from_slice};

verus! {

/// Why an executable could not be loaded.
#[derive(Debug, Copy, Clone, PartialEq, Eq, Structural)]
pub enum ExecutableFormatError {
    HeaderSize,
    HeaderMagic,
    ApplicationFlags,
    OperatingSystem,
    SegmentIndex,
    SegmentOffset,
    Memory,
    /// A relocation chain that runs in a circle or past the end of its segment.
    RelocationChain,
    /// A file alignment shift of 32 bits or more.
    Alignment,
}

/// The bytes of an executable file and a cursor into them; offsets are relative to the
/// cursor.
pub struct Executable {
    internal_data: Vec<u8>,
    cursor: usize,
}

/// A cursor position to go back to.
#[must_use]
pub struct OldCursor {
    cursor: usize,
}

impl OldCursor {
    pub closed spec fn position(&self) -> usize {
        self.cursor
    }
}

/// The string of `len` bytes at `start` of `data`.
pub open spec fn bytes_at(data: Seq<u8>, start: int, len: int) -> Seq<u8> {
    data.subrange(start, start + len)
}

impl Executable {
    /// The file's bytes.
    pub closed spec fn data(&self) -> Seq<u8> {
        self.internal_data@
    }

    pub closed spec fn cursor(&self) -> usize {
        self.cursor
    }

    /// The file's byte at `offset` from the cursor, if there is one.
    pub open spec fn byte_at(&self, offset: int) -> Option<u8> {
        let index = self.cursor() + offset;
        if 0 <= index < self.data().len() {
            Some(self.data()[index])
        } else {
            None
        }
    }

    /// The little-endian word at `offset` from the cursor, if both bytes are there.
    pub open spec fn word_at(&self, offset: int) -> Option<u16> {
        let index = self.cursor() + offset;
        if 0 <= index && index + 2 <= self.data().len() {
            Some(le_u16(self.data()[index], self.data()[index + 1]) as u16)
        } else {
            None
        }
    }

    /// At most 1 GiB of bytes, and the cursor within that reach, so that offset sums fit
    /// in a machine word.
    pub open spec fn wf(&self) -> bool {
        &&& self.data().len() <= 0x4000_0000
        &&& self.cursor() <= 0x4000_0000
    }

    pub fn new(internal_data: Vec<u8>) -> (r: Self)
        ensures
            r.data() == internal_data@,
            r.cursor() == 0,
    {
        Self { internal_data, cursor: 0 }
    }

    /// Moves the cursor to `offset` from the start of the file, which must lie in the file.
    pub fn seek_from_start(&mut self, offset: usize) -> (r: Result<OldCursor, ExecutableFormatError>)
        ensures
            final(self).data() == old(self).data(),
            offset < old(self).data().len() ==> final(self).cursor() == offset && (r matches Ok(
                c,
            ) && c.position() == old(self).cursor()),
            offset >= old(self).data().len() ==> final(self).cursor() == old(self).cursor() && r
                == Err::<OldCursor, ExecutableFormatError>(ExecutableFormatError::HeaderSize),
    {
        if offset >= self.internal_data.len() {
            Err(ExecutableFormatError::HeaderSize)
        } else {
            let old_cursor = self.cursor;
            self.cursor = offset;
            Ok(OldCursor { cursor: old_cursor })
        }
    }

    /// `Ok(())` when the two bytes at `offset` are `expected_magic_id`; `HeaderMagic` when
    /// they are not; `HeaderSize` when a byte that had to be compared is missing.
    pub fn validate_magic_id(&self, offset: usize, expected_magic_id: &[u8; 2]) -> (r: Result<
        (),
        ExecutableFormatError,
    >)
        requires
            self.cursor() + offset + 1 <= usize::MAX,
        ensures
            r == (match self.byte_at(offset as int) {
                None => Err(ExecutableFormatError::HeaderSize),
                Some(b0) => if b0 != expected_magic_id@[0] {
                    Err(ExecutableFormatError::HeaderMagic)
                } else {
                    match self.byte_at(offset + 1) {
                        None => Err(ExecutableFormatError::HeaderSize),
                        Some(b1) => if b1 != expected_magic_id@[1] {
                            Err(ExecutableFormatError::HeaderMagic)
                        } else {
                            Ok(())
                        },
                    }
                },
            }),
    {
        let b0 = self.read_u8(offset)?;
        if b0 != expected_magic_id[0] {
            return bool_to_result(false, ExecutableFormatError::HeaderMagic);
        }
        let b1 = self.read_u8(offset + 1)?;
        bool_to_result(b1 == expected_magic_id[1], ExecutableFormatError::HeaderMagic)
    }

    /// Moves the cursor `offset` further, which must stay in the file.
    pub fn seek_from_here(&mut self, offset: usize) -> (r: Result<OldCursor, ExecutableFormatError>)
        requires
            old(self).cursor() + offset <= usize::MAX,
        ensures
            final(self).data() == old(self).data(),
            old(self).cursor() + offset < old(self).data().len() ==> final(self).cursor()
                == old(self).cursor() + offset && (r matches Ok(c) && c.position() == old(self).cursor()),
            old(self).cursor() + offset >= old(self).data().len() ==> final(self).cursor() == old(self).cursor() && r == Err::<OldCursor, ExecutableFormatError>(
                ExecutableFormatError::HeaderSize,
            ),
    {
        self.seek_from_start(self.cursor + offset)
    }

    /// Puts the cursor back where it was.
    pub fn restore_cursor(&mut self, cursor: OldCursor)
        ensures
            final(self).data() == old(self).data(),
            final(self).cursor() == cursor.position(),
    {
        self.cursor = cursor.cursor;
    }

    pub fn read_u8(&self, offset: usize) -> (r: Result<u8, ExecutableFormatError>)
        requires
            self.cursor() + offset <= usize::MAX,
        ensures
            r == (match self.byte_at(offset as int) {
                Some(b) => Ok(b),
                None => Err(ExecutableFormatError::HeaderSize),
            }),
    {
        let index = self.cursor + offset;
        if index < self.internal_data.len() {
            Ok(self.internal_data[index])
        } else {
            Err(ExecutableFormatError::HeaderSize)
        }
    }

    pub fn read_u16(&self, offset: usize) -> (r: Result<u16, ExecutableFormatError>)
        requires
            self.cursor() + offset + 2 <= usize::MAX,
        ensures
            r == (match self.word_at(offset as int) {
                Some(w) => Ok(w),
                None => Err(ExecutableFormatError::HeaderSize),
            }),
    {
        let index = self.cursor + offset;
        match u16_from_slice(self.internal_data.as_slice(), index) {
            Some(w) => Ok(w),
            None => Err(ExecutableFormatError::HeaderSize),
        }
    }

    /// Replaces the byte at `offset` from the cursor.
    pub fn overwrite_u8(&mut self, offset: usize, data: u8) -> (r: Result<(), ExecutableFormatError>)
        requires
            old(self).cursor() + offset <= usize::MAX,
        ensures
            final(self).cursor() == old(self).cursor(),
            old(self).cursor() + offset < old(self).data().len() ==> r.is_ok() && final(self).data()
                == old(self).data().update(old(self).cursor() + offset, data),
            old(self).cursor() + offset >= old(self).data().len() ==> final(self).data() == old(self).data() && r == Err::<(), ExecutableFormatError>(ExecutableFormatError::HeaderSize),
    {
        let index = self.cursor + offset;
        if index < self.internal_data.len() {
            self.internal_data[index] = data;
            Ok(())
        } else {
            Err(ExecutableFormatError::HeaderSize)
        }
    }

    /// The `len` bytes at `offset` from the cursor, if they are all in the file.
    pub fn slice(&self, offset: usize, len: usize) -> (r: Result<&[u8], ExecutableFormatError>)
        requires
            self.cursor() + offset + len <= usize::MAX,
        ensures
            self.cursor() + offset + len <= self.data().len() <==> r.is_ok(),
            r matches Ok(s) ==> s@ == bytes_at(self.data(), self.cursor() + offset, len as int),
            r matches Err(e) ==> e == ExecutableFormatError::HeaderSize,
    {
        if self.cursor + offset + len <= self.internal_data.len() {
            let s = self.internal_data.as_slice();
            Ok(&s[self.cursor + offset..self.cursor + offset + len])
        } else {
            Err(ExecutableFormatError::HeaderSize)
        }
    }

    /// A length-prefixed string at `offset`: `None` when the length byte is 0, otherwise the
    /// bytes that follow it.
    pub fn read_string_helper(&self, offset: usize) -> (r: Result<Option<&[u8]>, ExecutableFormatError>)
        requires
            self.cursor() + offset + 1 + 256 <= usize::MAX,
        ensures
            match self.byte_at(offset as int) {
                None => r == Err::<Option<&[u8]>, ExecutableFormatError>(
                    ExecutableFormatError::HeaderSize,
                ),
                Some(len) => if len == 0 {
                    r == Ok::<Option<&[u8]>, ExecutableFormatError>(None)
                } else if self.cursor() + offset + 1 + len <= self.data().len() {
                    r matches Ok(Some(s)) && s@ == bytes_at(
                        self.data(),
                        self.cursor() + offset + 1,
                        len as int,
                    )
                } else {
                    r == Err::<Option<&[u8]>, ExecutableFormatError>(
                        ExecutableFormatError::HeaderSize,
                    )
                },
            },
    {
        let length = self.read_u8(offset)?;
        if length == 0 {
            Ok(None)
        } else {
            match self.slice(offset + 1, length as usize) {
                Ok(data) => Ok(Some(data)),
                Err(e) => Err(e),
            }
        }
    }

    /// A length-prefixed string at `offset`, copied.
    pub fn read_string(&self, offset: usize) -> (r: Result<Option<HeapByteString>, ExecutableFormatError>)
        requires
            self.cursor() + offset + 1 + 256 <= usize::MAX,
        ensures
            match self.byte_at(offset as int) {
                None => r == Err::<Option<HeapByteString>, ExecutableFormatError>(
                    ExecutableFormatError::HeaderSize,
                ),
                Some(len) => if len == 0 {
                    r matches Ok(None)
                } else if self.cursor() + offset + 1 + len <= self.data().len() {
                    r matches Ok(Some(s)) && s@ == bytes_at(
                        self.data(),
                        self.cursor() + offset + 1,
                        len as int,
                    )
                } else {
                    r == Err::<Option<HeapByteString>, ExecutableFormatError>(
                        ExecutableFormatError::HeaderSize,
                    )
                },
            },
    {
        match self.read_string_helper(offset) {
            Ok(Some(data)) => Ok(Some(HeapByteString::from(vstd::slice::slice_to_vec(data)))),
            Ok(None) => Ok(None),
            Err(e) => Err(e),
        }
    }

    /// A length-prefixed string at `offset`, copied with ASCII letters in lower case.
    pub fn read_string_to_lowercase(&self, offset: usize) -> (r: Result<
        Option<HeapByteString>,
        ExecutableFormatError,
    >)
        requires
            self.cursor() + offset + 1 + 256 <= usize::MAX,
        ensures
            match self.byte_at(offset as int) {
                None => r == Err::<Option<HeapByteString>, ExecutableFormatError>(
                    ExecutableFormatError::HeaderSize,
                ),
                Some(len) => if len == 0 {
                    r matches Ok(None)
                } else if self.cursor() + offset + 1 + len <= self.data().len() {
                    r matches Ok(Some(s)) && s@ == lowercased(
                        bytes_at(self.data(), self.cursor() + offset + 1, len as int),
                    )
                } else {
                    r == Err::<Option<HeapByteString>, ExecutableFormatError>(
                        ExecutableFormatError::HeaderSize,
                    )
                },
            },
    {
        match self.read_string_helper(offset) {
            Ok(Some(data)) => Ok(Some(HeapByteString::from_to_lowercase(data))),
            Ok(None) => Ok(None),
            Err(e) => Err(e),
        }
    }
}

} // verus!
