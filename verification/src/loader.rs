//! Loading of a 16-bit Windows (NE) executable: its headers, segment table, relocations,
//! imported modules and entry points, and the memory image it starts from.
use vstd::prelude::*;
use std::collections::HashMap;
use crate::byte_string::{bytes_equal, ByteString};
use crate::emulator_error::EmulatorError;
use crate::executable::{bytes_at, Executable, ExecutableFormatError, OldCursor};
use crate::emulated_gdi::EmulatedGdi;
use crate::emulated_kernel::{EmulatedKernel, LOCAL_HEAP_BASE, LOCAL_HEAP_SIZE};
use crate::emulated_keyboard::EmulatedKeyboard;
use crate::emulated_user::{button_name, EmulatedUser};
use crate::emulator::Emulator;
use crate::constants::{GDI_INT_VECTOR, KERNEL_INT_VECTOR, KEYBOARD_INT_VECTOR, USER_INT_VECTOR};
use crate::memory::{spliced, with_word, Memory, SegmentAndOffset, MEMORY_FILL_BYTE, MEMORY_SIZE};
use crate::object_environment::{GdiObject, ObjectEnvironment, UserObject};
use crate::window_manager::WindowManager;
use crate::module::{
    attempted_writes, dispatch_code, gdi_argument_bytes, trampoline_code, kernel_argument_bytes,
    user_argument_bytes, written, BaseModule, GdiModule, KernelModule, KeyboardModule, Module,
    UserModule,
};
use crate::util::{bool_to_result, expect_magic, le_u16};

verus! {

broadcast use vstd::std_specs::hash::group_hash_axioms;

/// What the MZ header tells: where the NE header starts.
pub struct MZResult {
    pub ne_header_offset: usize,
}

/// The file's byte at absolute position `a`, if there is one.
pub open spec fn byte_of(d: Seq<u8>, a: int) -> Option<u8> {
    if 0 <= a < d.len() {
        Some(d[a])
    } else {
        None
    }
}

/// The little-endian word at absolute position `a`, if both bytes are there.
pub open spec fn word_of(d: Seq<u8>, a: int) -> Option<u16> {
    if 0 <= a && a + 2 <= d.len() {
        Some(le_u16(d[a], d[a + 1]) as u16)
    } else {
        None
    }
}

/// A size field in which 0 stands for 64 KiB.
pub open spec fn zero_to_64k(w: u16) -> u32 {
    if w == 0 {
        65536
    } else {
        w as u32
    }
}

/// The locations of a relocation chain in the segment whose bytes start at `base`: each
/// location holds the offset of the next (added to the current one for an additive chain)
/// until 0xFFFF (or 0, additive). `HeaderSize` when a word is missing, `RelocationChain`
/// when an additive step leaves the segment or the chain is longer than `fuel`.
pub open spec fn chain_walk(d: Seq<u8>, base: int, cursor: u16, additive: bool, fuel: nat) -> Result<Seq<u16>, ExecutableFormatError>
    decreases fuel,
{
    if fuel == 0 {
        Err(ExecutableFormatError::RelocationChain)
    } else {
        match word_of(d, base + cursor) {
            None => Err(ExecutableFormatError::HeaderSize),
            Some(p) => if p == 0xffff || (additive && p == 0) {
                Ok(seq![cursor])
            } else if additive && cursor + p > 0xffff {
                Err(ExecutableFormatError::RelocationChain)
            } else {
                match chain_walk(
                    d,
                    base,
                    if additive {
                        (cursor + p) as u16
                    } else {
                        p
                    },
                    additive,
                    (fuel - 1) as nat,
                ) {
                    Ok(rest) => Ok(seq![cursor] + rest),
                    Err(e) => Err(e),
                }
            },
        }
    }
}

/// A relocation to an imported procedure, by module index and ordinal.
#[derive(Debug, Copy, Clone, PartialEq, Eq, Structural)]
pub struct ImportOrdinalRelocation {
    pub index_into_module_reference_table: u16,
    pub procedure_ordinal_number: u16,
}

/// A relocation to a place in the program's own segments.
#[derive(Debug, Copy, Clone, PartialEq, Eq, Structural)]
pub struct InternalRefRelocation {
    pub parameter: u16,
    pub segment_number: u8,
}

/// What a relocation points to.
#[derive(Debug, Copy, Clone, PartialEq, Eq, Structural)]
pub enum RelocationType {
    ImportOrdinal(ImportOrdinalRelocation),
    InternalRef(InternalRefRelocation),
}

/// A relocation: its target, the places in the segment that get it, and how they get it.
#[derive(Debug)]
pub struct Relocation {
    pub relocation_type: RelocationType,
    pub locations: Vec<u16>,
    pub offset_within_segment_from_source_chain: u16,
    pub source_type: u8,
}

/// What a relocation holds.
pub struct RelocationView {
    pub relocation_type: RelocationType,
    pub locations: Seq<u16>,
    pub offset_within_segment_from_source_chain: u16,
    pub source_type: u8,
}

impl View for Relocation {
    type V = RelocationView;

    open spec fn view(&self) -> RelocationView {
        RelocationView {
            relocation_type: self.relocation_type,
            locations: self.locations@,
            offset_within_segment_from_source_chain: self.offset_within_segment_from_source_chain,
            source_type: self.source_type,
        }
    }
}

/// A segment of the program: where it is in the file, its sizes and its relocations.
#[derive(Debug)]
pub struct Segment {
    pub logical_sector_offset: u32,
    pub length_of_segment_in_file: u32,
    pub minimum_allocation_size: u32,
    pub relocations: Option<Vec<Relocation>>,
}

/// What a segment holds.
pub struct SegmentView {
    pub logical_sector_offset: u32,
    pub length_of_segment_in_file: u32,
    pub minimum_allocation_size: u32,
    pub relocations: Option<Seq<RelocationView>>,
}

/// The views of some relocations.
pub open spec fn relocation_views(v: Seq<Relocation>) -> Seq<RelocationView> {
    v.map_values(|r: Relocation| r@)
}

impl View for Segment {
    type V = SegmentView;

    open spec fn view(&self) -> SegmentView {
        SegmentView {
            logical_sector_offset: self.logical_sector_offset,
            length_of_segment_in_file: self.length_of_segment_in_file,
            minimum_allocation_size: self.minimum_allocation_size,
            relocations: match self.relocations {
                Some(v) => Some(relocation_views(v@)),
                None => None,
            },
        }
    }
}

/// The views of the segments of a table.
pub open spec fn segment_views(v: Seq<Segment>) -> Seq<SegmentView> {
    v.map_values(|s: Segment| s@)
}

/// Relocation `j` of the relocation table at `table` for the segment whose bytes start
/// at `segment_start`: `Ok(None)` for the kinds that are skipped (imported names, OS
/// fixups); `HeaderSize` when a field of the record or the segment is missing, and the
/// error of its chain (see `chain_walk`).
pub open spec fn parse_relocation(d: Seq<u8>, table: int, segment_start: int, j: int) -> Result<Option<RelocationView>, ExecutableFormatError> {
    let rb = table + 2 + 8 * j;
    let size = Err(ExecutableFormatError::HeaderSize);
    match (byte_of(d, rb), byte_of(d, rb + 1), word_of(d, rb + 2)) {
        (Some(source_type), Some(flags), Some(start)) => if segment_start >= d.len() {
            size
        } else {
            match chain_walk(d, segment_start, start, flags & 4 != 0, CHAIN_LIMIT as nat) {
                Err(e) => Err(e),
                Ok(locations) => if flags & 3 == 0 {
                    match (byte_of(d, rb + 4), word_of(d, rb + 6)) {
                        (Some(segment_number), Some(parameter)) => Ok(
                            Some(
                                RelocationView {
                                    relocation_type: RelocationType::InternalRef(
                                        InternalRefRelocation { parameter, segment_number },
                                    ),
                                    locations,
                                    offset_within_segment_from_source_chain: start,
                                    source_type,
                                },
                            ),
                        ),
                        _ => size,
                    }
                } else if flags & 3 == 1 {
                    match (word_of(d, rb + 4), word_of(d, rb + 6)) {
                        (Some(index), Some(ordinal)) => Ok(
                            Some(
                                RelocationView {
                                    relocation_type: RelocationType::ImportOrdinal(
                                        ImportOrdinalRelocation {
                                            index_into_module_reference_table: index,
                                            procedure_ordinal_number: ordinal,
                                        },
                                    ),
                                    locations,
                                    offset_within_segment_from_source_chain: start,
                                    source_type,
                                },
                            ),
                        ),
                        _ => size,
                    }
                } else {
                    Ok(None)
                },
            }
        },
        _ => size,
    }
}

/// The first `k` relocations of the table at `table`, skipped kinds left out; the error
/// of the first that cannot be read.
pub open spec fn parse_relocations(d: Seq<u8>, table: int, segment_start: int, k: nat) -> Result<Seq<RelocationView>, ExecutableFormatError>
    decreases k,
{
    if k == 0 {
        Ok(Seq::empty())
    } else {
        match parse_relocations(d, table, segment_start, (k - 1) as nat) {
            Err(e) => Err(e),
            Ok(prev) => match parse_relocation(d, table, segment_start, k - 1) {
                Err(e) => Err(e),
                Ok(None) => Ok(prev),
                Ok(Some(r)) => Ok(prev.push(r)),
            },
        }
    }
}

/// The relocations of the segment whose bytes start at `segment_start` and are `length`
/// long: the table right after the segment, a count word and then 8-byte records. A
/// table or count beyond the file is `HeaderSize`.
pub open spec fn parse_relocation_table(d: Seq<u8>, segment_start: int, length: int) -> Result<Seq<RelocationView>, ExecutableFormatError> {
    let table = segment_start + length;
    if table >= d.len() {
        Err(ExecutableFormatError::HeaderSize)
    } else {
        match word_of(d, table) {
            None => Err(ExecutableFormatError::HeaderSize),
            Some(count) => parse_relocations(d, table, segment_start, count as nat),
        }
    }
}

/// Segment `i` of the segment table at `table`, sector offsets shifted by `shift`: its
/// sector word, which cannot be shifted by 32 or more (`Alignment`), then its length and
/// flags words, then its relocation table if the flags have 0x100, then its minimum
/// allocation word. A missing word is `HeaderSize`.
pub open spec fn parse_segment(d: Seq<u8>, table: int, i: int, shift: nat) -> Result<SegmentView, ExecutableFormatError> {
    let b = table + 8 * i;
    match word_of(d, b) {
        None => Err(ExecutableFormatError::HeaderSize),
        Some(w0) => if shift >= 32 {
            Err(ExecutableFormatError::Alignment)
        } else {
            match (word_of(d, b + 2), word_of(d, b + 4)) {
                (Some(w2), Some(w4)) => {
                    let logical_sector_offset = (w0 as u32) << (shift as u32);
                    let length = zero_to_64k(w2);
                    let relocations = if w4 & 0x100 == 0x100 {
                        match parse_relocation_table(d, logical_sector_offset as int, length as int) {
                            Ok(v) => Ok(Some(v)),
                            Err(e) => Err(e),
                        }
                    } else {
                        Ok(None)
                    };
                    match relocations {
                        Err(e) => Err(e),
                        Ok(relocations) => match word_of(d, b + 6) {
                            Some(w6) => Ok(
                                SegmentView {
                                    logical_sector_offset,
                                    length_of_segment_in_file: length,
                                    minimum_allocation_size: zero_to_64k(w6),
                                    relocations,
                                },
                            ),
                            None => Err(ExecutableFormatError::HeaderSize),
                        },
                    }
                },
                _ => Err(ExecutableFormatError::HeaderSize),
            }
        },
    }
}

/// The first `n` segments of the segment table at `table`; the error of the first that
/// cannot be read.
pub open spec fn parse_segments(d: Seq<u8>, table: int, n: nat, shift: nat) -> Result<Seq<SegmentView>, ExecutableFormatError>
    decreases n,
{
    if n == 0 {
        Ok(Seq::empty())
    } else {
        match parse_segments(d, table, (n - 1) as nat, shift) {
            Err(e) => Err(e),
            Ok(prev) => match parse_segment(d, table, n - 1, shift) {
                Err(e) => Err(e),
                Ok(s) => Ok(prev.push(s)),
            },
        }
    }
}

/// Once a relocation cannot be read, no longer table can, and with the same error.
proof fn lemma_relocation_table_stays_err(d: Seq<u8>, table: int, segment_start: int, k: nat, n: nat, e: ExecutableFormatError)
    requires
        k <= n,
        parse_relocations(d, table, segment_start, k) == Err::<Seq<RelocationView>, ExecutableFormatError>(e),
    ensures
        parse_relocations(d, table, segment_start, n) == Err::<Seq<RelocationView>, ExecutableFormatError>(e),
    decreases n - k,
{
    if k < n {
        lemma_relocation_table_stays_err(d, table, segment_start, k + 1, n, e);
    }
}

/// Once a segment cannot be read, no longer table can, and with the same error.
proof fn lemma_segments_stay_err(d: Seq<u8>, table: int, k: nat, n: nat, shift: nat, e: ExecutableFormatError)
    requires
        k <= n,
        parse_segments(d, table, k, shift) == Err::<Seq<SegmentView>, ExecutableFormatError>(e),
    ensures
        parse_segments(d, table, n, shift) == Err::<Seq<SegmentView>, ExecutableFormatError>(e),
    decreases n - k,
{
    if k < n {
        lemma_segments_stay_err(d, table, k + 1, n, shift, e);
    }
}

/// Longest relocation chain that is followed: one visit of every offset of a segment.
pub const CHAIN_LIMIT: u32 = 65536;

/// The MZ header: its magic, and the offset of the NE header at 0x3C (from the cursor).
pub fn process_file_mz(executable: &Executable) -> (r: Result<MZResult, ExecutableFormatError>)
    requires
        executable.wf(),
    ensures
        ({
            let magic = match executable.byte_at(0) {
                None => Err(ExecutableFormatError::HeaderSize),
                Some(b0) => if b0 != 0x4d {
                    Err(ExecutableFormatError::HeaderMagic)
                } else {
                    match executable.byte_at(1) {
                        None => Err(ExecutableFormatError::HeaderSize),
                        Some(b1) => if b1 != 0x5a {
                            Err(ExecutableFormatError::HeaderMagic)
                        } else {
                            Ok(())
                        },
                    }
                },
            };
            match magic {
                Err(e) => r matches Err(e2) && e2 == e,
                Ok(_) => match executable.word_at(0x3C) {
                    Some(w) => r matches Ok(m) && m.ne_header_offset == w,
                    None => r matches Err(e) && e == ExecutableFormatError::HeaderSize,
                },
            }
        }),
{
    let magic: [u8; 2] = [0x4d, 0x5a];
    executable.validate_magic_id(0, &magic)?;
    // The MZ checksum is not checked
    let ne_header_offset = executable.read_u16(0x3C)? as usize;
    Ok(MZResult { ne_header_offset })
}

/// The application flags byte (0x0D) must have none of the bits 0b11101000 set.
pub fn validate_application_flags(executable: &Executable) -> (r: Result<(), ExecutableFormatError>)
    requires
        executable.wf(),
    ensures
        r == match executable.byte_at(0x0D) {
            None => Err(ExecutableFormatError::HeaderSize),
            Some(b) => if b & 0b11101000 == 0 {
                Ok(())
            } else {
                Err(ExecutableFormatError::ApplicationFlags)
            },
        },
{
    bool_to_result(
        (executable.read_u8(0x0D)? & 0b11101000) == 0,
        ExecutableFormatError::ApplicationFlags,
    )
}

/// The target operating system byte (0x36) must be 0 (unknown), 2 (Windows) or 4.
pub fn validate_target_operating_system(executable: &Executable) -> (r: Result<(), ExecutableFormatError>)
    requires
        executable.wf(),
    ensures
        r == match executable.byte_at(0x36) {
            None => Err(ExecutableFormatError::HeaderSize),
            Some(b) => if b == 0 || b == 2 || b == 4 {
                Ok(())
            } else {
                Err(ExecutableFormatError::OperatingSystem)
            },
        },
{
    let byte = executable.read_u8(0x36)?;
    bool_to_result(byte == 0 || byte == 2 || byte == 4, ExecutableFormatError::OperatingSystem)
}

/// Follows a relocation chain from `start` in the segment at the cursor (see
/// `chain_walk`).
fn walk_relocation_chain(executable: &Executable, start: u16, additive: bool) -> (r: Result<Vec<u16>, ExecutableFormatError>)
    requires
        executable.wf(),
    ensures
        match chain_walk(executable.data(), executable.cursor() as int, start, additive, CHAIN_LIMIT as nat) {
            Ok(locations) => r matches Ok(v) && v@ == locations,
            Err(e) => r == Err::<Vec<u16>, ExecutableFormatError>(e),
        },
{
    let ghost d = executable.data();
    let ghost base = executable.cursor() as int;
    let mut relocation_locations: Vec<u16> = Vec::new();
    let mut offset_cursor = start;
    let mut steps: u32 = 0;
    loop
        invariant
            executable.wf(),
            d == executable.data(),
            base == executable.cursor(),
            steps <= CHAIN_LIMIT,
            relocation_locations@.len() == steps,
            chain_walk(d, base, start, additive, CHAIN_LIMIT as nat) == match chain_walk(
                d,
                base,
                offset_cursor,
                additive,
                (CHAIN_LIMIT - steps) as nat,
            ) {
                Ok(rest) => Ok(relocation_locations@ + rest),
                Err(e) => Err::<Seq<u16>, ExecutableFormatError>(e),
            },
        decreases CHAIN_LIMIT - steps,
    {
        if steps >= CHAIN_LIMIT {
            return Err(ExecutableFormatError::RelocationChain);
        }
        let ghost fuel = (CHAIN_LIMIT - steps) as nat;
        let ghost before = relocation_locations@;
        relocation_locations.push(offset_cursor);
        let pointer = match executable.read_u16(offset_cursor as usize) {
            Ok(p) => p,
            Err(e) => {
                return Err(e);
            },
        };
        if pointer == 0xffff || (additive && pointer == 0) {
            proof {
                assert(relocation_locations@ =~= before + seq![offset_cursor]);
            }
            return Ok(relocation_locations);
        }
        let next = if !additive {
            // Additive flag is not set
            pointer
        } else {
            // Additive flag is set
            match offset_cursor.checked_add(pointer) {
                Some(n) => n,
                None => {
                    return Err(ExecutableFormatError::RelocationChain);
                },
            }
        };
        proof {
            let c = offset_cursor;
            match chain_walk(d, base, next, additive, (fuel - 1) as nat) {
                Ok(rest) => {
                    assert(before + (seq![c] + rest) =~= relocation_locations@ + rest);
                },
                Err(_) => {},
            }
        }
        offset_cursor = next;
        steps = steps + 1;
    }
}

/// Reads relocation `relocation_index` of the table at the cursor, for the segment whose
/// bytes start at `segment_start` (see `parse_relocation`); the cursor ends where it was.
fn read_relocation(executable: &mut Executable, relocation_index: u16, segment_start: usize) -> (r: Result<Option<Relocation>, ExecutableFormatError>)
    requires
        old(executable).wf(),
        segment_start <= 0x4000_0000,
    ensures
        final(executable).data() == old(executable).data(),
        final(executable).cursor() == old(executable).cursor(),
        match parse_relocation(old(executable).data(), old(executable).cursor() as int, segment_start as int, relocation_index as int) {
            Ok(None) => r matches Ok(None),
            Ok(Some(v)) => r matches Ok(Some(rel)) && rel@ == v,
            Err(e) => r matches Err(e2) && e2 == e,
        },
{
    let ghost d = executable.data();
    let ghost table = executable.cursor() as int;
    let byte_offset = 2 + relocation_index as usize * 8;

    let source_type = executable.read_u8(byte_offset)?;
    let flags = executable.read_u8(byte_offset + 1)?;
    let offset_within_segment_from_source_chain = executable.read_u16(byte_offset + 2)?;

    let old_cursor = executable.seek_from_start(segment_start)?;
    // Walk the linked list of the offsets
    let chain = walk_relocation_chain(executable, offset_within_segment_from_source_chain, (flags & 4) != 0);
    executable.restore_cursor(old_cursor);
    let relocation_locations = chain?;

    if (flags & 3) == 0 {
        // Internal ref
        let segment_number = executable.read_u8(byte_offset + 4)?;
        let parameter = executable.read_u16(byte_offset + 6)?;
        Ok(Some(Relocation {
            relocation_type: RelocationType::InternalRef(InternalRefRelocation { segment_number, parameter }),
            locations: relocation_locations,
            offset_within_segment_from_source_chain,
            source_type,
        }))
    } else if (flags & 3) == 1 {
        // Import ordinal
        let index_into_module_reference_table = executable.read_u16(byte_offset + 4)?;
        let procedure_ordinal_number = executable.read_u16(byte_offset + 6)?;
        Ok(Some(Relocation {
            relocation_type: RelocationType::ImportOrdinal(ImportOrdinalRelocation {
                index_into_module_reference_table,
                procedure_ordinal_number,
            }),
            locations: relocation_locations,
            offset_within_segment_from_source_chain,
            source_type,
        }))
    } else {
        // Imported names and OS fixups are not handled
        Ok(None)
    }
}

/// Reads the relocation table of the segment whose bytes start at `segment_start` and are
/// `length` long (see `parse_relocation_table`); the cursor ends where it was.
fn read_relocation_table(executable: &mut Executable, segment_start: u32, length: u32) -> (r: Result<Vec<Relocation>, ExecutableFormatError>)
    requires
        old(executable).wf(),
        length <= 65536,
    ensures
        final(executable).data() == old(executable).data(),
        final(executable).cursor() == old(executable).cursor(),
        match parse_relocation_table(old(executable).data(), segment_start as int, length as int) {
            Ok(v) => r matches Ok(rels) && relocation_views(rels@) == v,
            Err(e) => r matches Err(e2) && e2 == e,
        },
{
    let ghost d = executable.data();
    let table_position: u64 = segment_start as u64 + length as u64;
    if table_position > 0x4000_0000 {
        return Err(ExecutableFormatError::HeaderSize);
    }
    let relocation_old_cursor = executable.seek_from_start(table_position as usize)?;
    let relocation_count = match executable.read_u16(0) {
        Ok(c) => c,
        Err(e) => {
            executable.restore_cursor(relocation_old_cursor);
            return Err(e);
        },
    };
    let mut relocations: Vec<Relocation> = Vec::new();
    let mut relocation_index: u16 = 0;
    assert(relocation_views(relocations@) =~= Seq::<RelocationView>::empty());
    while relocation_index < relocation_count
        invariant
            executable.wf(),
            executable.data() == d,
            executable.cursor() == table_position,
            d == old(executable).data(),
            table_position == segment_start + length,
            relocation_old_cursor.position() == old(executable).cursor(),
            segment_start < d.len(),
            relocation_index <= relocation_count,
            word_of(d, table_position as int) == Some(relocation_count),
            parse_relocations(d, table_position as int, segment_start as int, relocation_index as nat)
                == Ok::<Seq<RelocationView>, ExecutableFormatError>(relocation_views(relocations@)),
        decreases relocation_count - relocation_index,
    {
        let relocation = match read_relocation(executable, relocation_index, segment_start as usize) {
            Ok(rel) => rel,
            Err(e) => {
                executable.restore_cursor(relocation_old_cursor);
                proof {
                    assert(parse_relocations(d, table_position as int, segment_start as int, (relocation_index + 1) as nat)
                        == Err::<Seq<RelocationView>, ExecutableFormatError>(e));
                    lemma_relocation_table_stays_err(
                        d,
                        table_position as int,
                        segment_start as int,
                        (relocation_index + 1) as nat,
                        relocation_count as nat,
                        e,
                    );
                    assert(table_position == segment_start + length);
                }
                return Err(e);
            },
        };
        match relocation {
            Some(rel) => {
                let ghost before = relocations@;
                let ghost rv = rel@;
                relocations.push(rel);
                proof {
                    assert(relocations@ == before.push(relocations@[before.len() as int]));
                    assert(relocation_views(relocations@) =~= relocation_views(before).push(rv));
                }
            },
            None => {},
        }
        relocation_index = relocation_index + 1;
    }
    executable.restore_cursor(relocation_old_cursor);
    Ok(relocations)
}

/// Reads segment `segment_index` of the segment table at the cursor (see
/// `parse_segment`); the cursor ends where it was.
fn read_segment(executable: &mut Executable, segment_index: usize, file_alignment_size_shift: usize) -> (r: Result<Segment, ExecutableFormatError>)
    requires
        old(executable).wf(),
        segment_index <= 0xFFFF,
    ensures
        final(executable).data() == old(executable).data(),
        final(executable).cursor() == old(executable).cursor(),
        match parse_segment(old(executable).data(), old(executable).cursor() as int, segment_index as int, file_alignment_size_shift as nat) {
            Ok(v) => r matches Ok(seg) && seg@ == v,
            Err(e) => r matches Err(e2) && e2 == e,
        },
{
    let byte_offset = segment_index * 8;
    let sector = executable.read_u16(byte_offset)?;
    // A shift of 32 or more would overflow
    if file_alignment_size_shift >= 32 {
        return Err(ExecutableFormatError::Alignment);
    }
    let logical_sector_offset = (sector as u32) << (file_alignment_size_shift as u32);
    let length_raw = executable.read_u16(byte_offset + 2)?;
    let length_of_segment_in_file: u32 = if length_raw == 0 {
        65536
    } else {
        length_raw as u32
    };
    let flags = executable.read_u16(byte_offset + 4)?;

    // Read relocation data
    let relocations = if (flags & 0x100) == 0x100 {
        Some(read_relocation_table(executable, logical_sector_offset, length_of_segment_in_file)?)
    } else {
        None
    };
    let allocation_raw = executable.read_u16(byte_offset + 6)?;
    let minimum_allocation_size: u32 = if allocation_raw == 0 {
        65536
    } else {
        allocation_raw as u32
    };
    Ok(Segment { logical_sector_offset, length_of_segment_in_file, minimum_allocation_size, relocations })
}

/// The segment table: `segment_count` entries of 8 bytes at `offset_to_segment_table`
/// from the cursor, with sector offsets shifted by `file_alignment_size_shift`, which
/// must be below 32 once a segment is read (see `parse_segments`). The table must start
/// inside the file. On success the cursor is where it was.
pub fn process_segment_table(
    executable: &mut Executable,
    offset_to_segment_table: usize,
    segment_count: usize,
    file_alignment_size_shift: usize,
) -> (r: Result<Vec<Segment>, ExecutableFormatError>)
    requires
        old(executable).wf(),
        offset_to_segment_table <= 0xFFFF,
        segment_count <= 0xFFFF,
    ensures
        final(executable).data() == old(executable).data(),
        ({
            let d = old(executable).data();
            let table = old(executable).cursor() + offset_to_segment_table;
            if table >= d.len() {
                r == Err::<Vec<Segment>, ExecutableFormatError>(ExecutableFormatError::HeaderSize)
            } else {
                match parse_segments(d, table, segment_count as nat, file_alignment_size_shift as nat) {
                    Ok(v) => r matches Ok(segments) && segment_views(segments@) == v
                        && final(executable).cursor() == old(executable).cursor(),
                    Err(e) => r matches Err(e2) && e2 == e,
                }
            }
        }),
{
    let ghost d = executable.data();
    let segment_table_cursor = executable.seek_from_here(offset_to_segment_table)?;
    let ghost table = executable.cursor() as int;
    let shift = file_alignment_size_shift;
    let mut segments: Vec<Segment> = Vec::new();
    let mut segment_index: usize = 0;
    assert(segment_views(segments@) =~= Seq::<SegmentView>::empty());
    while segment_index < segment_count
        invariant
            executable.wf(),
            executable.data() == d,
            executable.cursor() == table,
            d == old(executable).data(),
            table == old(executable).cursor() + offset_to_segment_table,
            table < d.len(),
            segment_table_cursor.position() == old(executable).cursor(),
            segment_count <= 0xFFFF,
            shift == file_alignment_size_shift,
            segment_index <= segment_count,
            parse_segments(d, table, segment_index as nat, shift as nat) == Ok::<Seq<SegmentView>, ExecutableFormatError>(segment_views(segments@)),
        decreases segment_count - segment_index,
    {
        let segment = match read_segment(executable, segment_index, shift) {
            Ok(seg) => seg,
            Err(e) => {
                proof {
                    assert(parse_segments(d, table, (segment_index + 1) as nat, shift as nat) == Err::<Seq<SegmentView>, ExecutableFormatError>(e));
                    lemma_segments_stay_err(d, table, (segment_index + 1) as nat, segment_count as nat, shift as nat, e);
                }
                return Err(e);
            },
        };
        let ghost before = segments@;
        let ghost sv = segment@;
        segments.push(segment);
        proof {
            assert(segment_views(segments@) =~= segment_views(before).push(sv));
        }
        segment_index = segment_index + 1;
    }
    executable.restore_cursor(segment_table_cursor);
    Ok(segments)
}

/// Checks that `offset` lies in segment `segment` (counted from 1) of the table: an
/// unknown segment is `SegmentIndex`, an offset beyond its minimum allocation
/// `SegmentOffset`.
pub fn validate_segment_index_and_offset(segment_table: &Vec<Segment>, segment: u16, offset: u16) -> (r: Result<(), ExecutableFormatError>)
    requires
        segment >= 1,
    ensures
        r == if segment - 1 < segment_table@.len() {
            if offset < segment_table@[segment - 1].minimum_allocation_size {
                Ok(())
            } else {
                Err(ExecutableFormatError::SegmentOffset)
            }
        } else {
            Err(ExecutableFormatError::SegmentIndex)
        },
{
    bool_to_result(((segment - 1) as usize) < segment_table.len(), ExecutableFormatError::SegmentIndex)?;
    bool_to_result(
        (offset as u32) < segment_table[(segment - 1) as usize].minimum_allocation_size,
        ExecutableFormatError::SegmentOffset,
    )?;
    Ok(())
}

/// An imported module that is emulated.
pub enum ReferencedModule {
    Kernel(KernelModule),
    User(UserModule),
    Gdi(GdiModule),
    Keyboard(KeyboardModule),
}

/// The kind of an emulated module: 0 kernel, 1 user, 2 GDI, 3 keyboard.
pub open spec fn module_kind_of(m: ReferencedModule) -> u8 {
    match m {
        ReferencedModule::Kernel(_) => 0,
        ReferencedModule::User(_) => 1,
        ReferencedModule::Gdi(_) => 2,
        ReferencedModule::Keyboard(_) => 3,
    }
}

/// Where the stubs of an emulated module of each kind go.
pub open spec fn module_base_address(kind: u8) -> u32 {
    if kind == 0 {
        0x10000
    } else if kind == 1 {
        0x20000
    } else if kind == 2 {
        0x80000
    } else {
        0x90000
    }
}

/// The interrupt vector of the system calls of a module of each kind.
pub open spec fn module_vector(kind: u8) -> u8 {
    if kind == 0 {
        KERNEL_INT_VECTOR
    } else if kind == 1 {
        USER_INT_VECTOR
    } else if kind == 2 {
        GDI_INT_VECTOR
    } else {
        KEYBOARD_INT_VECTOR
    }
}

/// What the loader tracks of a fresh module of each kind (see `module_state`).
pub open spec fn initial_state(kind: u8) -> (u8, u32, u32, u8) {
    (kind, module_base_address(kind), 0, module_vector(kind))
}

/// Argument bytes of the procedures of a module of each kind (none for every keyboard
/// procedure).
pub open spec fn module_argument_bytes(kind: u8, procedure: u16) -> Option<u16> {
    if kind == 0 {
        kernel_argument_bytes(procedure)
    } else if kind == 1 {
        user_argument_bytes(procedure)
    } else if kind == 2 {
        gdi_argument_bytes(procedure)
    } else {
        Some(0)
    }
}

impl ReferencedModule {
    /// The stub writer of the module.
    pub closed spec fn base(&self) -> BaseModule {
        match self {
            ReferencedModule::Kernel(m) => m.base(),
            ReferencedModule::User(m) => m.base(),
            ReferencedModule::Gdi(m) => m.base(),
            ReferencedModule::Keyboard(m) => m.base(),
        }
    }

    /// Number of argument bytes that `procedure` pops on return; `None` for one the
    /// module does not know.
    pub fn argument_bytes_of_procedure(&self, procedure: u16) -> (r: Option<u16>)
        ensures
            r == module_argument_bytes(module_kind_of(*self), procedure),
    {
        match self {
            ReferencedModule::Kernel(m) => m.argument_bytes_of_procedure(procedure),
            ReferencedModule::User(m) => m.argument_bytes_of_procedure(procedure),
            ReferencedModule::Gdi(m) => m.argument_bytes_of_procedure(procedure),
            ReferencedModule::Keyboard(m) => m.argument_bytes_of_procedure(procedure),
        }
    }

    pub fn base_module(&self) -> (r: &BaseModule)
        ensures
            *r == self.base(),
    {
        match self {
            ReferencedModule::Kernel(m) => m.base_module(),
            ReferencedModule::User(m) => m.base_module(),
            ReferencedModule::Gdi(m) => m.base_module(),
            ReferencedModule::Keyboard(m) => m.base_module(),
        }
    }

    pub fn base_module_mut(&mut self) -> (r: &mut BaseModule)
        ensures
            *r == old(self).base(),
            final(self).base() == *final(r),
            module_kind_of(*final(self)) == module_kind_of(*old(self)),
    {
        match self {
            ReferencedModule::Kernel(m) => m.base_module_mut(),
            ReferencedModule::User(m) => m.base_module_mut(),
            ReferencedModule::Gdi(m) => m.base_module_mut(),
            ReferencedModule::Keyboard(m) => m.base_module_mut(),
        }
    }
}

/// The emulated modules that the program imports, in the order of its module reference
/// table (modules that are not emulated are left out).
pub struct ModuleReferenceTable {
    modules: Vec<ReferencedModule>,
}

impl ModuleReferenceTable {
    pub closed spec fn modules(&self) -> Seq<ReferencedModule> {
        self.modules@
    }

    /// The module at position `index`, counted from 1.
    pub fn module(&self, index: u16) -> (r: Result<&ReferencedModule, EmulatorError>)
        ensures
            1 <= index <= self.modules().len() ==> r == Ok::<&ReferencedModule, EmulatorError>(
                &self.modules()[index - 1],
            ),
            !(1 <= index <= self.modules().len()) ==> r == Err::<&ReferencedModule, EmulatorError>(
                EmulatorError::OutOfBounds,
            ),
    {
        if index >= 1 && (index as usize) <= self.modules.len() {
            Ok(&self.modules[index as usize - 1])
        } else {
            Err(EmulatorError::OutOfBounds)
        }
    }

    /// How many modules there are.
    pub fn len(&self) -> (r: usize)
        ensures
            r == self.modules().len(),
    {
        self.modules.len()
    }

    /// Writes the return trampoline of every module, stopping at the first that does not
    /// fit in memory.
    pub fn write_trampolines(&mut self, memory: &mut crate::memory::Memory) -> (r: Result<(), EmulatorError>)
        requires
            forall|i: int|
                #![trigger old(self).modules()[i]]
                0 <= i < old(self).modules().len() ==> old(self).modules()[i].base().next_address() + 3 <= u32::MAX,
        ensures
            final(self).modules().len() == old(self).modules().len(),
            final(memory)@.len() == old(memory)@.len(),
            forall|i: int| 0 <= i < final(self).modules().len() ==> module_kind_of(#[trigger] final(self).modules()[i]) == module_kind_of(old(self).modules()[i])
                && final(self).modules()[i].base().flat_address() == old(self).modules()[i].base().flat_address(),
            (r, final(memory)@, final(self).states()) == trampolines_written(
                old(memory)@,
                old(self).states(),
                old(self).modules().len(),
            ),
    {
        let mut i: usize = 0;
        while i < self.modules.len()
            invariant
                0 <= i <= self.modules@.len(),
                self.modules@.len() == old(self).modules@.len(),
                memory@.len() == old(memory)@.len(),
                trampolines_written(old(memory)@, old(self).states(), i as nat) == (
                    Ok::<(), EmulatorError>(()),
                    memory@,
                    self.states(),
                ),
                forall|j: int| 0 <= j < self.modules@.len() ==> module_kind_of(#[trigger] self.modules@[j]) == module_kind_of(old(self).modules@[j])
                    && self.modules@[j].base().flat_address() == old(self).modules@[j].base().flat_address(),
                forall|j: int| i <= j < self.modules@.len() ==> #[trigger] self.modules@[j] == old(self).modules@[j],
                forall|j: int|
                    #![trigger old(self).modules()[j]]
                    0 <= j < old(self).modules().len() ==> old(self).modules()[j].base().next_address() + 3 <= u32::MAX,
            decreases self.modules@.len() - i,
        {
            assert(old(self).modules()[i as int].base().next_address() + 3 <= u32::MAX);
            let ghost states_before = self.states();
            let mut module = self.modules.remove(i);
            let result = module.base_module_mut().write_syscall_proc_return_trampoline(memory);
            self.modules.insert(i, module);
            proof {
                assert(self.states() =~= states_before.update(i as int, module_state(self.modules@[i as int])));
            }
            if result.is_err() {
                proof {
                    lemma_trampolines_stay_err(old(memory)@, old(self).states(), (i + 1) as nat, self.modules@.len() as nat);
                }
                return result;
            }
            i = i + 1;
        }
        Ok(())
    }
}

/// The return trampolines of the first `k` modules, written in order, each at its
/// module's next stub address; the first one that does not fit in memory stops them
/// (`OutOfBounds`).
pub open spec fn trampolines_written(mem: Seq<u8>, states: Seq<(u8, u32, u32, u8)>, k: nat) -> (Result<(), EmulatorError>, Seq<u8>, Seq<(u8, u32, u32, u8)>)
    decreases k,
{
    if k == 0 {
        (Ok(()), mem, states)
    } else {
        let (r, m, s) = trampolines_written(mem, states, (k - 1) as nat);
        match r {
            Err(e) => (Err(e), m, s),
            Ok(_) => {
                let st = s[k - 1];
                let start = st.1 + st.2;
                (
                    if start + 2 <= m.len() {
                        Ok(())
                    } else {
                        Err(EmulatorError::OutOfBounds)
                    },
                    written(m, start, trampoline_code()),
                    s.update(k - 1, (st.0, st.1, (st.2 + attempted_writes(m.len() as int, start, 2)) as u32, st.3)),
                )
            },
        }
    }
}

/// Once a trampoline does not fit, the outcome of the whole run is that failure.
proof fn lemma_trampolines_stay_err(mem: Seq<u8>, states: Seq<(u8, u32, u32, u8)>, k: nat, n: nat)
    requires
        k <= n,
        trampolines_written(mem, states, k).0 is Err,
    ensures
        trampolines_written(mem, states, n) == trampolines_written(mem, states, k),
    decreases n - k,
{
    if k < n {
        lemma_trampolines_stay_err(mem, states, k + 1, n);
    }
}

/// The kind of the emulated module with that name, if any: "KERNEL", "USER", "GDI" or
/// "KEYBOARD".
pub open spec fn module_kind_named(name: Seq<u8>) -> Option<u8> {
    if name == seq![0x4Bu8, 0x45u8, 0x52u8, 0x4Eu8, 0x45u8, 0x4Cu8] {
        Some(0u8)
    } else if name == seq![0x55u8, 0x53u8, 0x45u8, 0x52u8] {
        Some(1u8)
    } else if name == seq![0x47u8, 0x44u8, 0x49u8] {
        Some(2u8)
    } else if name == seq![0x4Bu8, 0x45u8, 0x59u8, 0x42u8, 0x4Fu8, 0x41u8, 0x52u8, 0x44u8] {
        Some(3u8)
    } else {
        None
    }
}

/// The name of module `i` of the module reference table at `table` (from the cursor
/// `c`), the imported-name table being at `names`: a length byte and the name.
pub open spec fn referenced_module_name(d: Seq<u8>, c: int, table: int, names: int, i: int) -> Option<Seq<u8>> {
    match word_of(d, c + table + 2 * i) {
        None => None,
        Some(off) => match byte_of(d, c + names + off) {
            None => None,
            Some(len) => if c + names + off + 1 + len <= d.len() {
                Some(d.subrange(c + names + off + 1, c + names + off + 1 + len))
            } else {
                None
            },
        },
    }
}

/// The kinds of the emulated modules among the first `k` module references.
pub open spec fn module_kinds(d: Seq<u8>, c: int, table: int, names: int, k: nat) -> Option<Seq<u8>>
    decreases k,
{
    if k == 0 {
        Some(Seq::empty())
    } else {
        match module_kinds(d, c, table, names, (k - 1) as nat) {
            None => None,
            Some(prev) => match referenced_module_name(d, c, table, names, k - 1) {
                None => None,
                Some(name) => match module_kind_named(name) {
                    Some(kind) => Some(prev.push(kind)),
                    None => Some(prev),
                },
            },
        }
    }
}

/// Once a module reference cannot be read, no longer table can.
proof fn lemma_module_kinds_stay_none(d: Seq<u8>, c: int, table: int, names: int, k: nat, n: nat)
    requires
        k <= n,
        module_kinds(d, c, table, names, k) is None,
    ensures
        module_kinds(d, c, table, names, n) is None,
    decreases n - k,
{
    if k < n {
        lemma_module_kinds_stay_none(d, c, table, names, k + 1, n);
    }
}

/// The emulated modules that the program imports (see `module_kinds`), each with a fresh
/// stub area at its kind's address.
pub fn process_module_reference_table(executable: &Executable, offset_to_module_reference_table: usize, module_reference_count: u16) -> (r: Result<ModuleReferenceTable, ExecutableFormatError>)
    requires
        executable.wf(),
        offset_to_module_reference_table <= 0xFFFF,
    ensures
        match executable.word_at(0x2A) {
            None => r == Err::<ModuleReferenceTable, ExecutableFormatError>(ExecutableFormatError::HeaderSize),
            Some(names) => match module_kinds(
                executable.data(),
                executable.cursor() as int,
                offset_to_module_reference_table as int,
                names as int,
                module_reference_count as nat,
            ) {
                None => r == Err::<ModuleReferenceTable, ExecutableFormatError>(ExecutableFormatError::HeaderSize),
                Some(kinds) => r matches Ok(t) && t.modules().len() == kinds.len() && forall|i: int|
                    0 <= i < kinds.len() ==> module_kind_of(#[trigger] t.modules()[i]) == kinds[i]
                        && t.modules()[i].base().flat_address() == module_base_address(kinds[i])
                        && t.modules()[i].base().last_write_offset() == 0
                        && t.modules()[i].base().int_vector() == module_vector(kinds[i]),
            },
        },
{
    let ghost d = executable.data();
    let ghost c = executable.cursor() as int;
    let offset_to_imported_name_table = executable.read_u16(0x2A)? as usize;
    let kernel_name: [u8; 6] = [0x4B, 0x45, 0x52, 0x4E, 0x45, 0x4C];
    let user_name: [u8; 4] = [0x55, 0x53, 0x45, 0x52];
    let gdi_name: [u8; 3] = [0x47, 0x44, 0x49];
    let keyboard_name: [u8; 8] = [0x4B, 0x45, 0x59, 0x42, 0x4F, 0x41, 0x52, 0x44];
    proof {
        assert(kernel_name@ =~= seq![0x4Bu8, 0x45u8, 0x52u8, 0x4Eu8, 0x45u8, 0x4Cu8]);
        assert(user_name@ =~= seq![0x55u8, 0x53u8, 0x45u8, 0x52u8]);
        assert(gdi_name@ =~= seq![0x47u8, 0x44u8, 0x49u8]);
        assert(keyboard_name@ =~= seq![0x4Bu8, 0x45u8, 0x59u8, 0x42u8, 0x4Fu8, 0x41u8, 0x52u8, 0x44u8]);
    }
    let mut modules: Vec<ReferencedModule> = Vec::new();
    let mut module_index: u16 = 0;
    while module_index < module_reference_count
        invariant
            executable.wf(),
            d == executable.data(),
            c == executable.cursor(),
            offset_to_module_reference_table <= 0xFFFF,
            offset_to_imported_name_table <= 0xFFFF,
            executable.word_at(0x2A) == Some(offset_to_imported_name_table as u16),
            module_index <= module_reference_count,
            kernel_name@ == seq![0x4Bu8, 0x45u8, 0x52u8, 0x4Eu8, 0x45u8, 0x4Cu8],
            user_name@ == seq![0x55u8, 0x53u8, 0x45u8, 0x52u8],
            gdi_name@ == seq![0x47u8, 0x44u8, 0x49u8],
            keyboard_name@ == seq![0x4Bu8, 0x45u8, 0x59u8, 0x42u8, 0x4Fu8, 0x41u8, 0x52u8, 0x44u8],
            module_kinds(d, c, offset_to_module_reference_table as int, offset_to_imported_name_table as int, module_index as nat) matches Some(kinds)
                && modules@.len() == kinds.len() && forall|i: int|
                0 <= i < kinds.len() ==> module_kind_of(#[trigger] modules@[i]) == kinds[i]
                    && modules@[i].base().flat_address() == module_base_address(kinds[i])
                    && modules@[i].base().last_write_offset() == 0
                    && modules@[i].base().int_vector() == module_vector(kinds[i]),
        decreases module_reference_count - module_index,
    {
        let ghost names = offset_to_imported_name_table as int;
        let ghost table = offset_to_module_reference_table as int;
        let module_name_offset_in_imported_name_table = match executable.read_u16(
            offset_to_module_reference_table + (module_index as usize) * 2,
        ) {
            Ok(o) => o,
            Err(e) => {
                proof {
                    assert(module_kinds(d, c, table, names, (module_index + 1) as nat) is None);
                    lemma_module_kinds_stay_none(d, c, table, names, (module_index + 1) as nat, module_reference_count as nat);
                }
                return Err(e);
            },
        };
        let start_offset = offset_to_imported_name_table + module_name_offset_in_imported_name_table as usize;
        let module_name_length = match executable.read_u8(start_offset) {
            Ok(l) => l,
            Err(e) => {
                proof {
                    assert(module_kinds(d, c, table, names, (module_index + 1) as nat) is None);
                    lemma_module_kinds_stay_none(d, c, table, names, (module_index + 1) as nat, module_reference_count as nat);
                }
                return Err(e);
            },
        };
        let module_name = match executable.slice(start_offset + 1, module_name_length as usize) {
            Ok(n) => n,
            Err(e) => {
                proof {
                    assert(module_kinds(d, c, table, names, (module_index + 1) as nat) is None);
                    lemma_module_kinds_stay_none(d, c, table, names, (module_index + 1) as nat, module_reference_count as nat);
                }
                return Err(e);
            },
        };
        let ghost before = modules@;
        // Stub areas are at fixed addresses
        if bytes_equal(module_name, &kernel_name) {
            modules.push(ReferencedModule::Kernel(KernelModule::new(0x10 * 0x1000)));
        } else if bytes_equal(module_name, &user_name) {
            modules.push(ReferencedModule::User(UserModule::new(0x10 * 0x2000)));
        } else if bytes_equal(module_name, &gdi_name) {
            modules.push(ReferencedModule::Gdi(GdiModule::new(0x10 * 0x8000)));
        } else if bytes_equal(module_name, &keyboard_name) {
            modules.push(ReferencedModule::Keyboard(KeyboardModule::new(0x10 * 0x9000)));
        } else {
            // Modules that are not emulated are not referenced
        }
        proof {
            assert(referenced_module_name(d, c, table, names, module_index as int) == Some(module_name@));
        }
        module_index = module_index + 1;
    }
    Ok(ModuleReferenceTable { modules })
}

/// An entry point: the offset in its segment and the segment's number.
#[derive(Debug, Copy, Clone, PartialEq, Eq, Structural)]
pub struct EntryTableEntry {
    pub offset: u16,
    pub segment_number: u8,
}

/// The entry points of the program, by ordinal.
pub struct EntryTable {
    entries: HashMap<u16, EntryTableEntry>,
}

impl EntryTable {
    /// The entry points by ordinal.
    pub closed spec fn entries(&self) -> Map<u16, EntryTableEntry> {
        self.entries@
    }

    /// The entry point with that ordinal, if any.
    pub fn get(&self, ordinal_index: u16) -> (r: Option<EntryTableEntry>)
        ensures
            self.entries().contains_key(ordinal_index) ==> r == Some(self.entries()[ordinal_index]),
            !self.entries().contains_key(ordinal_index) ==> r is None,
    {
        match self.entries.get(&ordinal_index) {
            Some(e) => Some(*e),
            None => None,
        }
    }
}

/// `v` with 16-bit wrap-around, for a non-negative `v`.
pub open spec fn wrap_u16(v: int) -> u16 {
    (v % 0x10000) as u16
}

/// The `k` entries of a bundle from `offset` (relative to `base`), the first with ordinal
/// `ordinal`: movable entries (6 bytes: flags, the magic 0x3FCD, segment, offset) are
/// recorded, fixed ones (3 bytes) are skipped. The offset and ordinal after them and the
/// entries; `HeaderSize` when a byte is missing, `HeaderMagic` when a magic is wrong.
pub open spec fn bundle_entries(d: Seq<u8>, base: int, offset: int, ordinal: u16, k: nat, movable: bool, map: Map<u16, EntryTableEntry>) -> Result<(int, u16, Map<u16, EntryTableEntry>), ExecutableFormatError>
    decreases k,
{
    let size = Err(ExecutableFormatError::HeaderSize);
    if k == 0 {
        Ok((offset, ordinal, map))
    } else {
        match byte_of(d, base + offset) {
            None => size,
            Some(_) => if movable {
                match word_of(d, base + offset + 1) {
                    None => size,
                    Some(magic) => if magic != 0x3FCD {
                        Err(ExecutableFormatError::HeaderMagic)
                    } else {
                        match (byte_of(d, base + offset + 3), word_of(d, base + offset + 4)) {
                            (Some(segment_number), Some(o)) => bundle_entries(
                                d,
                                base,
                                offset + 6,
                                wrap_u16(ordinal + 1),
                                (k - 1) as nat,
                                movable,
                                map.insert(ordinal, EntryTableEntry { offset: o, segment_number }),
                            ),
                            _ => size,
                        }
                    },
                }
            } else {
                match word_of(d, base + offset + 1) {
                    None => size,
                    Some(_) => bundle_entries(
                        d,
                        base,
                        offset + 3,
                        wrap_u16(ordinal + 1),
                        (k - 1) as nat,
                        movable,
                        map,
                    ),
                }
            },
        }
    }
}

/// The entries of a bundle never move the offset backwards.
pub proof fn lemma_bundle_entries_advance(d: Seq<u8>, base: int, offset: int, ordinal: u16, k: nat, movable: bool, map: Map<u16, EntryTableEntry>)
    ensures
        bundle_entries(d, base, offset, ordinal, k, movable, map) matches Ok(t) ==> t.0 >= offset,
    decreases k,
{
    if k > 0 {
        lemma_bundle_entries_advance(d, base, offset + 6, wrap_u16(ordinal + 1), (k - 1) as nat, movable, map.insert(ordinal, EntryTableEntry { offset: word_of(d, base + offset + 4)->0, segment_number: byte_of(d, base + offset + 3)->0 }));
        lemma_bundle_entries_advance(d, base, offset + 3, wrap_u16(ordinal + 1), (k - 1) as nat, movable, map);
    }
}

/// The entry table from `offset` (relative to `base`) up to `bytes`: bundles of a count
/// (0 ends the table) and a segment indicator (0: the count of ordinals is skipped;
/// 0xFF: movable entries; otherwise fixed entries), the next ordinal being `ordinal`. A
/// missing byte is `HeaderSize`; see `bundle_entries` for the bundles.
pub open spec fn entry_bundles(d: Seq<u8>, base: int, offset: int, ordinal: u16, bytes: int, map: Map<u16, EntryTableEntry>) -> Result<Map<u16, EntryTableEntry>, ExecutableFormatError>
    decreases (if offset < bytes { bytes - offset } else { 0 }),
{
    if offset >= bytes {
        Ok(map)
    } else {
        match byte_of(d, base + offset) {
            None => Err(ExecutableFormatError::HeaderSize),
            Some(n) => if n == 0 {
                Ok(map)
            } else {
                match byte_of(d, base + offset + 1) {
                    None => Err(ExecutableFormatError::HeaderSize),
                    Some(indicator) => if indicator == 0 {
                        entry_bundles(d, base, offset + 2, wrap_u16(ordinal + n), bytes, map)
                    } else {
                        match bundle_entries(d, base, offset + 2, ordinal, n as nat, indicator == 0xff, map) {
                            Err(e) => Err(e),
                            Ok(t) => {
                                proof {
                                    lemma_bundle_entries_advance(d, base, offset + 2, ordinal, n as nat, indicator == 0xff, map);
                                }
                                entry_bundles(d, base, t.0, t.1, bytes, t.2)
                            },
                        }
                    },
                }
            },
        }
    }
}

/// Reads the `number_of_entries` entries of a bundle at `offset` from the cursor (see
/// `bundle_entries`), adding the movable ones to `entries`.
fn read_bundle_entries(executable: &Executable, offset: usize, ordinal: u16, number_of_entries: u8, movable: bool, entries: &mut HashMap<u16, EntryTableEntry>) -> (r: Result<(usize, u16), ExecutableFormatError>)
    requires
        executable.wf(),
        offset <= 0x20000,
    ensures
        match bundle_entries(executable.data(), executable.cursor() as int, offset as int, ordinal, number_of_entries as nat, movable, old(entries)@) {
            Err(e) => r matches Err(e2) && e2 == e,
            Ok(t) => r matches Ok(p) && p.0 == t.0 && p.1 == t.1 && final(entries)@ == t.2 && p.0 <= offset + 6 * 255,
        },
{
    let ghost d = executable.data();
    let ghost base = executable.cursor() as int;
    let ghost start = offset;
    let mut position = offset;
    let mut ordinal_index = ordinal;
    let mut i: u8 = 0;
    while i < number_of_entries
        invariant
            executable.wf(),
            d == executable.data(),
            base == executable.cursor(),
            i <= number_of_entries,
            position <= 0x20000 + 6 * (i as int),
            bundle_entries(d, base, start as int, ordinal, number_of_entries as nat, movable, old(entries)@)
                == bundle_entries(d, base, position as int, ordinal_index, (number_of_entries - i) as nat, movable, entries@),
            position <= start + 6 * (i as int),
            start <= 0x20000,
            start == offset,
        decreases number_of_entries - i,
    {
        let _flag = match executable.read_u8(position) {
            Ok(f) => f,
            Err(e) => {
                return Err(e);
            },
        };
        if movable {
            let magic = executable.read_u16(position + 1)?;
            expect_magic(magic, 0x3FCD, ExecutableFormatError::HeaderMagic)?;
            let segment_number = executable.read_u8(position + 3)?;
            let offset_within_segment_to_entry_point = executable.read_u16(position + 4)?;
            entries.insert(
                ordinal_index,
                EntryTableEntry { segment_number, offset: offset_within_segment_to_entry_point },
            );
            position = position + 6;
        } else {
            // Fixed segments are not recorded
            let _offset_within_segment_to_entry_point = executable.read_u16(position + 1)?;
            position = position + 3;
        }
        ordinal_index = ordinal_index.wrapping_add(1);
        i = i + 1;
    }
    Ok((position, ordinal_index))
}

/// The entry table of `entry_table_bytes` bytes at `offset_to_entry_table` from the
/// cursor (see `entry_bundles`; the first ordinal is 1). The table must start inside the
/// file; on success the cursor is where it was.
pub fn process_entry_table(executable: &mut Executable, offset_to_entry_table: usize, entry_table_bytes: usize) -> (r: Result<EntryTable, ExecutableFormatError>)
    requires
        old(executable).wf(),
        offset_to_entry_table <= 0xFFFF,
        entry_table_bytes <= 0xFFFF,
    ensures
        final(executable).data() == old(executable).data(),
        ({
            let d = old(executable).data();
            let base = old(executable).cursor() + offset_to_entry_table;
            if base >= d.len() {
                r == Err::<EntryTable, ExecutableFormatError>(ExecutableFormatError::HeaderSize)
            } else {
                match entry_bundles(d, base, 0, 1, entry_table_bytes as int, Map::empty()) {
                    Err(e) => r matches Err(e2) && e2 == e,
                    Ok(m) => r matches Ok(t) && t.entries() == m && final(executable).cursor() == old(executable).cursor(),
                }
            }
        }),
{
    let ghost d = executable.data();
    let old_cursor = executable.seek_from_here(offset_to_entry_table)?;
    let ghost base = executable.cursor() as int;
    let mut entries: HashMap<u16, EntryTableEntry> = HashMap::new();
    let mut offset: usize = 0;
    let mut ordinal_index: u16 = 1;
    loop
        invariant
            executable.wf(),
            d == executable.data(),
            d == old(executable).data(),
            base == executable.cursor(),
            base == old(executable).cursor() + offset_to_entry_table,
            base < d.len(),
            old_cursor.position() == old(executable).cursor(),
            entry_table_bytes <= 0xFFFF,
            offset <= 0xFFFF + 6 * 255 + 2,
            entry_bundles(d, base, 0, 1, entry_table_bytes as int, Map::empty())
                == entry_bundles(d, base, offset as int, ordinal_index, entry_table_bytes as int, entries@),
        ensures
            executable.wf(),
            d == executable.data(),
            base == executable.cursor(),
            old_cursor.position() == old(executable).cursor(),
            entry_bundles(d, base, 0, 1, entry_table_bytes as int, Map::empty()) == Ok::<Map<u16, EntryTableEntry>, ExecutableFormatError>(entries@),
        decreases (if offset < entry_table_bytes { entry_table_bytes - offset } else { 0 }),
    {
        if offset >= entry_table_bytes {
            break;
        }
        let number_of_entries = executable.read_u8(offset)?;
        if number_of_entries == 0 {
            break;
        }
        let segment_indicator = executable.read_u8(offset + 1)?;
        if segment_indicator == 0 {
            ordinal_index = ordinal_index.wrapping_add(number_of_entries as u16);
            offset = offset + 2;
            continue;
        }
        let ghost map_before = entries@;
        let (next_offset, next_ordinal) = read_bundle_entries(
            executable,
            offset + 2,
            ordinal_index,
            number_of_entries,
            segment_indicator == 0xff,
            &mut entries,
        )?;
        proof {
            lemma_bundle_entries_advance(d, base, offset + 2, ordinal_index, number_of_entries as nat, segment_indicator == 0xff, map_before);
        }
        offset = next_offset;
        ordinal_index = next_ordinal;
    }
    executable.restore_cursor(old_cursor);
    Ok(EntryTable { entries })
}

/// What the loader tracks of an emulated module: its kind, stub area address, bytes of
/// stubs written so far and interrupt vector.
pub open spec fn module_state(m: ReferencedModule) -> (u8, u32, u32, u8) {
    (module_kind_of(m), m.base().flat_address(), m.base().last_write_offset(), m.base().int_vector())
}

/// The far address of a flat stub address: offset in its 64 KiB block, and the block.
pub open spec fn stub_address(start: int) -> SegmentAndOffset {
    SegmentAndOffset {
        offset: (start % 65536) as u16,
        segment: (((start / 65536) * 4096) % 65536) as u16,
    }
}

/// A stub for procedure `ordinal` of module `index` (from 1): written at the module's
/// next stub address (see `dispatch_code`); its far address, or `OutOfBounds` for an
/// unknown module or a stub beyond memory, `Unsupported` for an unknown procedure.
pub open spec fn import_stub(states: Seq<(u8, u32, u32, u8)>, mem: Seq<u8>, index: u16, ordinal: u16) -> (Result<SegmentAndOffset, EmulatorError>, Seq<u8>, Seq<(u8, u32, u32, u8)>) {
    if !(1 <= index <= states.len()) {
        (Err(EmulatorError::OutOfBounds), mem, states)
    } else {
        let st = states[index - 1];
        match module_argument_bytes(st.0, ordinal) {
            None => (Err(EmulatorError::Unsupported), mem, states),
            Some(arg) => {
                let start = st.1 + st.2;
                if start + 9 > u32::MAX {
                    (Err(EmulatorError::OutOfBounds), mem, states)
                } else {
                    let code = dispatch_code(ordinal, st.3, arg);
                    let states1 = states.update(
                        index - 1,
                        (st.0, st.1, (st.2 + attempted_writes(mem.len() as int, start, code.len() as int)) as u32, st.3),
                    );
                    (
                        if start + code.len() <= mem.len() {
                            Ok(stub_address(start))
                        } else {
                            Err(EmulatorError::OutOfBounds)
                        },
                        written(mem, start, code),
                        states1,
                    )
                }
            },
        }
    }
}

/// One location of a relocation at flat address `a`: an imported far address (source
/// type 3) is written as offset then segment; an internal reference writes the segment
/// (source type 2) or the offset (source type 5); other source types write nothing.
/// Whether the writes fitted, and the memory afterwards.
pub open spec fn location_written(mem: Seq<u8>, a: int, source_type: u8, import: bool, segment: u16, offset: u16) -> (bool, Seq<u8>) {
    if import {
        if source_type == 3 {
            if a + 1 < mem.len() {
                let m1 = with_word(mem, a, offset);
                if a + 3 < mem.len() {
                    (true, with_word(m1, a + 2, segment))
                } else {
                    (false, m1)
                }
            } else {
                (false, mem)
            }
        } else {
            (true, mem)
        }
    } else if source_type == 2 || source_type == 5 {
        if a + 1 < mem.len() {
            (true, with_word(mem, a, if source_type == 2 { segment } else { offset }))
        } else {
            (false, mem)
        }
    } else {
        (true, mem)
    }
}

/// The first `k` locations of a relocation, written in order from `base`; the first
/// write that does not fit stops them.
pub open spec fn locations_written(mem: Seq<u8>, base: int, locations: Seq<u16>, source_type: u8, import: bool, segment: u16, offset: u16, k: nat) -> (bool, Seq<u8>)
    decreases k,
{
    if k == 0 {
        (true, mem)
    } else {
        let (ok, m) = locations_written(mem, base, locations, source_type, import, segment, offset, (k - 1) as nat);
        if !ok {
            (false, m)
        } else {
            location_written(m, base + locations[k - 1], source_type, import, segment, offset)
        }
    }
}

/// The segment and offset an internal reference points to: through the entry table for
/// segment 0xFF; only segment 1 (loaded at segment 0) is supported.
pub open spec fn internal_target(entries: Map<u16, EntryTableEntry>, reference: InternalRefRelocation) -> Result<(u16, u16), EmulatorError> {
    if reference.segment_number == 0xff {
        if entries.contains_key(reference.parameter) {
            if entries[reference.parameter].segment_number == 1 {
                Ok((0u16, entries[reference.parameter].offset))
            } else {
                Err(EmulatorError::Unsupported)
            }
        } else {
            Err(EmulatorError::OutOfBounds)
        }
    } else if reference.segment_number == 1 {
        Ok((0u16, reference.parameter))
    } else {
        Err(EmulatorError::Unsupported)
    }
}

/// One relocation applied to the segment loaded at `base`.
pub open spec fn relocation_step(mem: Seq<u8>, states: Seq<(u8, u32, u32, u8)>, base: int, entries: Map<u16, EntryTableEntry>, rel: RelocationView) -> (Result<(), EmulatorError>, Seq<u8>, Seq<(u8, u32, u32, u8)>) {
    match rel.relocation_type {
        RelocationType::ImportOrdinal(import) => {
            let (r, m1, s1) = import_stub(
                states,
                mem,
                import.index_into_module_reference_table,
                import.procedure_ordinal_number,
            );
            match r {
                Err(e) => (Err(e), m1, s1),
                Ok(so) => {
                    let (ok, m2) = locations_written(m1, base, rel.locations, rel.source_type, true, so.segment, so.offset, rel.locations.len());
                    (if ok { Ok(()) } else { Err(EmulatorError::OutOfBounds) }, m2, s1)
                },
            }
        },
        RelocationType::InternalRef(reference) => match internal_target(entries, reference) {
            Err(e) => (Err(e), mem, states),
            Ok(target) => {
                let (ok, m2) = locations_written(mem, base, rel.locations, rel.source_type, false, target.0, target.1, rel.locations.len());
                (if ok { Ok(()) } else { Err(EmulatorError::OutOfBounds) }, m2, states)
            },
        },
    }
}

/// The first `k` relocations applied in order; the first error stops them.
pub open spec fn relocations_applied(mem: Seq<u8>, states: Seq<(u8, u32, u32, u8)>, base: int, entries: Map<u16, EntryTableEntry>, rels: Seq<RelocationView>, k: nat) -> (Result<(), EmulatorError>, Seq<u8>, Seq<(u8, u32, u32, u8)>)
    decreases k,
{
    if k == 0 {
        (Ok(()), mem, states)
    } else {
        let (r, m, s) = relocations_applied(mem, states, base, entries, rels, (k - 1) as nat);
        match r {
            Err(e) => (Err(e), m, s),
            Ok(_) => relocation_step(m, s, base, entries, rels[k - 1]),
        }
    }
}

impl ModuleReferenceTable {
    /// What the loader tracks of each module.
    pub open spec fn states(&self) -> Seq<(u8, u32, u32, u8)> {
        self.modules().map_values(|m: ReferencedModule| module_state(m))
    }

    /// Writes a stub for procedure `ordinal` of module `index` (see `import_stub`).
    pub fn procedure(&mut self, memory: &mut Memory, index: u16, ordinal: u16) -> (r: Result<SegmentAndOffset, EmulatorError>)
        ensures
            (r, final(memory)@, final(self).states()) == import_stub(old(self).states(), old(memory)@, index, ordinal),
            final(self).modules().len() == old(self).modules().len(),
            final(memory)@.len() == old(memory)@.len(),
    {
        if !(index >= 1 && (index as usize) <= self.modules.len()) {
            return Err(EmulatorError::OutOfBounds);
        }
        let i = index as usize - 1;
        let argument_bytes = match self.modules[i].argument_bytes_of_procedure(ordinal) {
            Some(a) => a,
            None => {
                return Err(EmulatorError::Unsupported);
            },
        };
        let next = self.modules[i].base_module().flat_address_value() as u64
            + self.modules[i].base_module().last_write_offset_value() as u64;
        if next + 9 > u32::MAX as u64 {
            return Err(EmulatorError::OutOfBounds);
        }
        let ghost before = self.modules@;
        let mut module = self.modules.remove(i);
        let result = module.base_module_mut().procedure(memory, ordinal, argument_bytes);
        self.modules.insert(i, module);
        proof {
            assert(self.states() =~= old(self).states().update(i as int, module_state(self.modules@[i as int])));
        }
        result
    }
}

/// Applies the relocations of `segment` to memory, the segment being loaded at
/// `flat_address_offset` (see `relocations_applied`); a segment without relocations
/// changes nothing.
pub fn perform_relocations(
    memory: &mut Memory,
    flat_address_offset: u32,
    module_reference_table: &mut ModuleReferenceTable,
    entry_table: &EntryTable,
    segment: &Segment,
) -> (r: Result<(), EmulatorError>)
    requires
        flat_address_offset <= 0x100000,
    ensures
        final(module_reference_table).modules().len() == old(module_reference_table).modules().len(),
        final(memory)@.len() == old(memory)@.len(),
        match segment@.relocations {
            None => r is Ok && final(memory)@ == old(memory)@ && final(module_reference_table).states()
                == old(module_reference_table).states(),
            Some(rels) => (r, final(memory)@, final(module_reference_table).states()) == relocations_applied(
                old(memory)@,
                old(module_reference_table).states(),
                flat_address_offset as int,
                entry_table.entries(),
                rels,
                rels.len(),
            ),
        },
{
    let relocations = match &segment.relocations {
        Some(r) => r,
        None => {
            return Ok(());
        },
    };
    let ghost rels = relocation_views(relocations@);
    let mut j: usize = 0;
    while j < relocations.len()
        invariant
            flat_address_offset <= 0x100000,
            segment.relocations == Some(*relocations),
            rels == relocation_views(relocations@),
            0 <= j <= relocations@.len(),
            module_reference_table.modules().len() == old(module_reference_table).modules().len(),
            memory@.len() == old(memory)@.len(),
            relocations_applied(old(memory)@, old(module_reference_table).states(), flat_address_offset as int, entry_table.entries(), rels, j as nat)
                == (Ok::<(), EmulatorError>(()), memory@, module_reference_table.states()),
        decreases relocations@.len() - j,
    {
        let relocation = &relocations[j];
        let result = apply_relocation(memory, flat_address_offset, module_reference_table, entry_table, relocation);
        proof {
            assert(rels[j as int] == relocation@);
        }
        if result.is_err() {
            proof {
                lemma_relocations_stay_err(old(memory)@, old(module_reference_table).states(), flat_address_offset as int, entry_table.entries(), rels, (j + 1) as nat, rels.len());
            }
            return result;
        }
        j = j + 1;
    }
    Ok(())
}

/// Once a relocation fails, the outcome of the whole run is that failure.
proof fn lemma_relocations_stay_err(mem: Seq<u8>, states: Seq<(u8, u32, u32, u8)>, base: int, entries: Map<u16, EntryTableEntry>, rels: Seq<RelocationView>, k: nat, n: nat)
    requires
        k <= n,
        relocations_applied(mem, states, base, entries, rels, k).0 is Err,
    ensures
        relocations_applied(mem, states, base, entries, rels, n) == relocations_applied(mem, states, base, entries, rels, k),
    decreases n - k,
{
    if k < n {
        lemma_relocations_stay_err(mem, states, base, entries, rels, k + 1, n);
    }
}

/// Applies one relocation (see `relocation_step`).
fn apply_relocation(
    memory: &mut Memory,
    flat_address_offset: u32,
    module_reference_table: &mut ModuleReferenceTable,
    entry_table: &EntryTable,
    relocation: &Relocation,
) -> (r: Result<(), EmulatorError>)
    requires
        flat_address_offset <= 0x100000,
    ensures
        final(module_reference_table).modules().len() == old(module_reference_table).modules().len(),
        final(memory)@.len() == old(memory)@.len(),
        (r, final(memory)@, final(module_reference_table).states()) == relocation_step(
            old(memory)@,
            old(module_reference_table).states(),
            flat_address_offset as int,
            entry_table.entries(),
            relocation@,
        ),
{
    match relocation.relocation_type {
        RelocationType::ImportOrdinal(import) => {
            // Relocate kernel system call
            let segment_and_offset = module_reference_table.procedure(
                memory,
                import.index_into_module_reference_table,
                import.procedure_ordinal_number,
            )?;
            write_locations(memory, flat_address_offset, &relocation.locations, relocation.source_type, true, segment_and_offset.segment, segment_and_offset.offset)
        },
        RelocationType::InternalRef(internal_ref) => {
            let (segment, offset_within_segment) = if internal_ref.segment_number == 0xff {
                let ordinal_index_into_entry_table = internal_ref.parameter;
                let entry = match entry_table.get(ordinal_index_into_entry_table) {
                    Some(e) => e,
                    None => {
                        return Err(EmulatorError::OutOfBounds);
                    },
                };
                // Only the first segment is loaded, at segment 0
                let segment = if entry.segment_number == 1 {
                    0u16
                } else {
                    return Err(EmulatorError::Unsupported);
                };
                (segment, entry.offset)
            } else {
                let segment = if internal_ref.segment_number == 1 {
                    0u16
                } else {
                    return Err(EmulatorError::Unsupported);
                };
                (segment, internal_ref.parameter)
            };
            write_locations(memory, flat_address_offset, &relocation.locations, relocation.source_type, false, segment, offset_within_segment)
        },
    }
}

/// Writes a relocation target to each of its locations (see `locations_written`).
fn write_locations(memory: &mut Memory, flat_address_offset: u32, locations: &Vec<u16>, source_type: u8, import: bool, segment: u16, offset: u16) -> (r: Result<(), EmulatorError>)
    requires
        flat_address_offset <= 0x100000,
    ensures
        final(memory)@.len() == old(memory)@.len(),
        ({
            let (ok, m) = locations_written(old(memory)@, flat_address_offset as int, locations@, source_type, import, segment, offset, locations@.len());
            &&& final(memory)@ == m
            &&& r == if ok {
                Ok::<(), EmulatorError>(())
            } else {
                Err::<(), EmulatorError>(EmulatorError::OutOfBounds)
            }
        }),
{
    let mut k: usize = 0;
    while k < locations.len()
        invariant
            flat_address_offset <= 0x100000,
            0 <= k <= locations@.len(),
            memory@.len() == old(memory)@.len(),
            locations_written(old(memory)@, flat_address_offset as int, locations@, source_type, import, segment, offset, k as nat) == (true, memory@),
        decreases locations@.len() - k,
    {
        proof {
            use_type_invariant(&*memory);
        }
        let flat_address = flat_address_offset + locations[k] as u32;
        let ghost before = memory@;
        let step: Result<(), EmulatorError> = if import {
            if source_type == 3 {
                match memory.write_u16(flat_address, offset) {
                    Ok(()) => match memory.write_u16(flat_address + 2, segment) {
                        Ok(()) => Ok(()),
                        Err(e) => Err(e),
                    },
                    Err(e) => Err(e),
                }
            } else {
                // Other source types are not handled
                Ok(())
            }
        } else if source_type == 2 {
            match memory.write_u16(flat_address, segment) {
                Ok(()) => Ok(()),
                Err(e) => Err(e),
            }
        } else if source_type == 5 {
            match memory.write_u16(flat_address, offset) {
                Ok(()) => Ok(()),
                Err(e) => Err(e),
            }
        } else {
            Ok(())
        };
        proof {
            assert(location_written(before, flat_address as int, source_type, import, segment, offset) == (step is Ok, memory@));
        }
        if step.is_err() {
            proof {
                lemma_locations_stay_failed(old(memory)@, flat_address_offset as int, locations@, source_type, import, segment, offset, (k + 1) as nat, locations@.len());
            }
            return step;
        }
        k = k + 1;
    }
    Ok(())
}

/// Once a location write fails, the outcome of the whole run is that failure.
proof fn lemma_locations_stay_failed(mem: Seq<u8>, base: int, locations: Seq<u16>, source_type: u8, import: bool, segment: u16, offset: u16, k: nat, n: nat)
    requires
        k <= n,
        !locations_written(mem, base, locations, source_type, import, segment, offset, k).0,
    ensures
        locations_written(mem, base, locations, source_type, import, segment, offset, n) == locations_written(mem, base, locations, source_type, import, segment, offset, k),
    decreases n - k,
{
    if k < n {
        lemma_locations_stay_failed(mem, base, locations, source_type, import, segment, offset, k + 1, n);
    }
}

/// Segment that DS and SS point at: the data segment is loaded at its start.
pub const DATA_SEGMENT: u16 = 0x123;

/// Flat address where the data segment is loaded.
pub const DATA_SEGMENT_FLAT: u32 = 0x1230;

/// The position of the first user module among `states` from `i` on (below 0xFFFF).
pub open spec fn first_user_module(states: Seq<(u8, u32, u32, u8)>, i: int) -> Option<int>
    decreases states.len() - i,
{
    if i < 0 || i >= states.len() || i >= 0xFFFF {
        None
    } else if states[i].0 == 1 {
        Some(i)
    } else {
        first_user_module(states, i + 1)
    }
}

/// The stub of the button window procedure (procedure 0xFFFF of the first user module,
/// see `import_stub`): its far address, or 0:0 when there is no user module or the stub
/// cannot be written, with the memory and module states after.
pub open spec fn button_stub(states: Seq<(u8, u32, u32, u8)>, mem: Seq<u8>) -> (SegmentAndOffset, Seq<u8>, Seq<(u8, u32, u32, u8)>) {
    match first_user_module(states, 0) {
        None => (SegmentAndOffset { segment: 0, offset: 0 }, mem, states),
        Some(i) => {
            let (r, m, s) = import_stub(states, mem, (i + 1) as u16, 0xFFFF);
            (
                match r {
                    Ok(address) => address,
                    Err(_) => SegmentAndOffset { segment: 0, offset: 0 },
                },
                m,
                s,
            )
        },
    }
}

/// Writes a stub for the button window procedure in the user module, if the program
/// imports it; its far address, or 0:0 (see `button_stub`).
fn button_window_procedure(module_reference_table: &mut ModuleReferenceTable, memory: &mut Memory) -> (r: SegmentAndOffset)
    ensures
        final(memory)@.len() == old(memory)@.len(),
        (r, final(memory)@, final(module_reference_table).states()) == button_stub(
            old(module_reference_table).states(),
            old(memory)@,
        ),
        final(module_reference_table).modules().len() == old(module_reference_table).modules().len(),
{
    let mut i: usize = 0;
    while i < module_reference_table.len() && i < 0xFFFF
        invariant
            memory@.len() == old(memory)@.len(),
            *memory == *old(memory),
            *module_reference_table == *old(module_reference_table),
            0 <= i <= module_reference_table.modules().len(),
            i <= 0xFFFF,
            first_user_module(old(module_reference_table).states(), 0) == first_user_module(
                old(module_reference_table).states(),
                i as int,
            ),
        decreases module_reference_table.modules().len() - i,
    {
        let is_user = match module_reference_table.module((i + 1) as u16) {
            Ok(ReferencedModule::User(_)) => true,
            _ => false,
        };
        if is_user {
            return match module_reference_table.procedure(memory, (i + 1) as u16, 0xFFFF) {
                Ok(address) => address,
                Err(_) => SegmentAndOffset { segment: 0, offset: 0 },
            };
        }
        i = i + 1;
    }
    SegmentAndOffset { segment: 0, offset: 0 }
}

/// Loads the NE program whose header is at `ne_header_offset`: checks the header,
/// reads the module references, entry table and segment table, checks CS:IP and SS:SP,
/// copies the code segment to 0 and the data segment to 0x1230, writes the stubs of the
/// imported modules and applies the relocations; the machine starts at 0:IP with DS and
/// SS at 0x123.
#[verifier::rlimit(100)]
#[verifier::spinoff_prover]
pub fn process_file_ne(executable: &mut Executable, ne_header_offset: usize, window_manager: WindowManager) -> (r: Result<Emulator, ExecutableFormatError>)
    requires
        old(executable).wf(),
        window_manager.wf(),
        ne_header_offset <= 0xFFFF,
    ensures
        final(executable).data() == old(executable).data(),
        match ne_loading(old(executable).data(), old(executable).cursor() as int, ne_header_offset as int) {
            Loading::Loaded(mem, ip, button) => r matches Ok(emulator) && loaded_machine(emulator, mem, ip, button, window_manager),
            Loading::Failed(e) => r matches Err(e2) && e2 == e,
        },
{
    let ghost d = executable.data();
    let old_cursor = executable.seek_from_start(ne_header_offset)?;
    let magic: [u8; 2] = [0x4e, 0x45];
    executable.validate_magic_id(0, &magic)?;
    validate_application_flags(executable)?;
    validate_target_operating_system(executable)?;

    let offset_to_entry_table = executable.read_u16(0x04)? as usize;
    let entry_table_bytes = executable.read_u16(0x06)? as usize;
    let segment_table_segment_count = executable.read_u16(0x1C)? as usize;
    let module_reference_count = executable.read_u16(0x1E)?;
    let offset_to_segment_table = executable.read_u16(0x22)? as usize;
    let offset_to_module_reference_table = executable.read_u16(0x28)? as usize;
    let shift = executable.read_u16(0x32)?;
    let file_alignment_size_shift: usize = if shift == 0 {
        9
    } else {
        shift as usize
    };

    load_tables(
        executable,
        old_cursor,
        offset_to_entry_table,
        entry_table_bytes,
        segment_table_segment_count,
        module_reference_count,
        offset_to_segment_table,
        offset_to_module_reference_table,
        file_alignment_size_shift,
        window_manager,
    )
}

/// The tables and the image of an NE program whose header, at the cursor, is checked
/// (see `ne_tables`); `old_cursor` is where the cursor was before.
#[verifier::rlimit(60)]
fn load_tables(
    executable: &mut Executable,
    old_cursor: OldCursor,
    offset_to_entry_table: usize,
    entry_table_bytes: usize,
    segment_table_segment_count: usize,
    module_reference_count: u16,
    offset_to_segment_table: usize,
    offset_to_module_reference_table: usize,
    file_alignment_size_shift: usize,
    window_manager: WindowManager,
) -> (r: Result<Emulator, ExecutableFormatError>)
    requires
        old(executable).wf(),
        window_manager.wf(),
        old(executable).cursor() <= 0xFFFF,
        old(executable).cursor() < old(executable).data().len(),
        old_cursor.position() <= 0x4000_0000,
        ({
            let w = |off: int| word_of(old(executable).data(), old(executable).cursor() + off);
            &&& w(0x04) == Some(offset_to_entry_table as u16)
            &&& w(0x06) == Some(entry_table_bytes as u16)
            &&& w(0x1C) == Some(segment_table_segment_count as u16)
            &&& w(0x1E) == Some(module_reference_count)
            &&& w(0x22) == Some(offset_to_segment_table as u16)
            &&& w(0x28) == Some(offset_to_module_reference_table as u16)
            &&& w(0x32) matches Some(s) && file_alignment_size_shift == if s == 0 {
                9
            } else {
                s as usize
            }
        }),
        offset_to_entry_table <= 0xFFFF,
        entry_table_bytes <= 0xFFFF,
        segment_table_segment_count <= 0xFFFF,
        offset_to_segment_table <= 0xFFFF,
        offset_to_module_reference_table <= 0xFFFF,
    ensures
        final(executable).data() == old(executable).data(),
        match ne_tables(old(executable).data(), old_cursor.position() as int, old(executable).cursor() as int) {
            Loading::Loaded(mem, ip, button) => r matches Ok(emulator) && loaded_machine(emulator, mem, ip, button, window_manager),
            Loading::Failed(e) => r matches Err(e2) && e2 == e,
        },
{
    let ghost d = executable.data();
    let mut module_reference_table = process_module_reference_table(
        executable,
        offset_to_module_reference_table,
        module_reference_count,
    )?;

    let entry_table = process_entry_table(executable, offset_to_entry_table, entry_table_bytes)?;

    // The expected Windows version must be there
    let _major = executable.read_u8(0x3F)?;
    let _minor = executable.read_u8(0x3E)?;

    let cs = executable.read_u16(0x16)?;
    let ip = executable.read_u16(0x14)?;
    let ds = executable.read_u16(0x0E)?;
    let ss = executable.read_u16(0x1A)?;
    let sp = executable.read_u16(0x18)?;
    let ghost header_cursor = executable.cursor();

    let segment_table = process_segment_table(
        executable,
        offset_to_segment_table,
        segment_table_segment_count,
        file_alignment_size_shift,
    )?;

    proof {
        assert(module_reference_table.states() =~= module_kinds(
            d,
            old(executable).cursor() as int,
            offset_to_module_reference_table as int,
            word_of(d, old(executable).cursor() + 0x2A)->0 as int,
            module_reference_count as nat,
        )->0.map_values(|k: u8| initial_state(k)));
    }
    place_program(
        executable,
        old_cursor,
        &segment_table,
        &mut module_reference_table,
        &entry_table,
        cs,
        ip,
        ds,
        ss,
        sp,
        window_manager,
    )
}

/// The last checks of the start fields and the image of a program whose tables are read
/// (see `ne_placed`); the cursor goes back to `old_cursor`.
fn place_program(
    executable: &mut Executable,
    old_cursor: OldCursor,
    segment_table: &Vec<Segment>,
    module_reference_table: &mut ModuleReferenceTable,
    entry_table: &EntryTable,
    cs: u16,
    ip: u16,
    ds: u16,
    ss: u16,
    sp: u16,
    window_manager: WindowManager,
) -> (r: Result<Emulator, ExecutableFormatError>)
    requires
        old(executable).wf(),
        window_manager.wf(),
        old_cursor.position() <= 0x4000_0000,
        forall|i: int|
            #![trigger old(module_reference_table).modules()[i]]
            0 <= i < old(module_reference_table).modules().len() ==> old(module_reference_table).modules()[i].base().next_address() + 3 <= u32::MAX,
    ensures
        final(executable).data() == old(executable).data(),
        match ne_placed(
            old(executable).data(),
            old_cursor.position() as int,
            cs,
            ip,
            ds,
            ss,
            sp,
            old(module_reference_table).states(),
            entry_table.entries(),
            segment_views(segment_table@),
        ) {
            Loading::Loaded(mem, ip, button) => r matches Ok(emulator) && loaded_machine(emulator, mem, ip, button, window_manager),
            Loading::Failed(e) => r matches Err(e2) && e2 == e,
        },
{
    // Segment 0 is not handled
    if cs == 0 {
        return Err(ExecutableFormatError::SegmentIndex);
    }
    validate_segment_index_and_offset(segment_table, cs, ip)?;
    if ss == 0 {
        return Err(ExecutableFormatError::SegmentIndex);
    }
    validate_segment_index_and_offset(segment_table, ss, sp)?;
    executable.restore_cursor(old_cursor);
    load_program(executable, segment_table, module_reference_table, entry_table, cs, ds, ip, window_manager)
}

/// The relocations of a segment loaded at `base` applied (see `relocations_applied`); a
/// segment without relocations changes nothing.
pub open spec fn segment_relocated(mem: Seq<u8>, states: Seq<(u8, u32, u32, u8)>, base: int, entries: Map<u16, EntryTableEntry>, segment: SegmentView) -> (Result<(), EmulatorError>, Seq<u8>, Seq<(u8, u32, u32, u8)>) {
    match segment.relocations {
        None => (Ok(()), mem, states),
        Some(rels) => relocations_applied(mem, states, base, entries, rels, rels.len()),
    }
}

/// The memory of a program and the address of its button procedure stub: the return
/// trampolines of the modules (see `trampolines_written`) in fresh memory, the code
/// segment's bytes of the file (from the cursor `c`) at 0 and the data segment's at
/// 0x1230, the relocations of both (see `segment_relocated`) and the button procedure
/// stub (see `button_stub`). A segment that lies beyond 1 GiB or outside the file is
/// `HeaderSize`; anything that does not fit in memory is `Memory`.
pub open spec fn program_image(
    d: Seq<u8>,
    c: int,
    states: Seq<(u8, u32, u32, u8)>,
    entries: Map<u16, EntryTableEntry>,
    code: SegmentView,
    data: SegmentView,
) -> Result<(Seq<u8>, SegmentAndOffset), ExecutableFormatError> {
    let fresh = Seq::new(MEMORY_SIZE as nat, |i: int| MEMORY_FILL_BYTE);
    let (t, m1, s1) = trampolines_written(fresh, states, states.len());
    if t is Err {
        Err(ExecutableFormatError::Memory)
    } else if code.logical_sector_offset + code.length_of_segment_in_file > 0x4000_0000
        || data.logical_sector_offset + data.length_of_segment_in_file > 0x4000_0000 {
        Err(ExecutableFormatError::HeaderSize)
    } else if c + code.logical_sector_offset + code.length_of_segment_in_file > d.len()
        || c + data.logical_sector_offset + data.length_of_segment_in_file > d.len() {
        Err(ExecutableFormatError::HeaderSize)
    } else if code.length_of_segment_in_file >= MEMORY_SIZE
        || DATA_SEGMENT_FLAT + data.length_of_segment_in_file >= MEMORY_SIZE {
        Err(ExecutableFormatError::Memory)
    } else {
        let code_bytes = bytes_at(d, c + code.logical_sector_offset, code.length_of_segment_in_file as int);
        let data_bytes = bytes_at(d, c + data.logical_sector_offset, data.length_of_segment_in_file as int);
        let m2 = spliced(spliced(m1, 0, code_bytes), DATA_SEGMENT_FLAT as int, data_bytes);
        let (r3, m3, s3) = segment_relocated(m2, s1, 0, entries, code);
        let (r4, m4, s4) = segment_relocated(m3, s3, DATA_SEGMENT_FLAT as int, entries, data);
        if r3 is Err || r4 is Err {
            Err(ExecutableFormatError::Memory)
        } else {
            let (button, m5, _) = button_stub(s4, m4);
            Ok((m5, button))
        }
    }
}

/// The image of a program whose start fields are checked: the stubs of the imported
/// modules are written first (`Memory` when they do not fit), then DS must name a
/// segment (segment 0 is not handled); then see `program_image`.
pub open spec fn program_loading(
    d: Seq<u8>,
    c: int,
    states: Seq<(u8, u32, u32, u8)>,
    entries: Map<u16, EntryTableEntry>,
    segments: Seq<SegmentView>,
    cs: u16,
    ds: u16,
) -> Result<(Seq<u8>, SegmentAndOffset), ExecutableFormatError> {
    let fresh = Seq::new(MEMORY_SIZE as nat, |i: int| MEMORY_FILL_BYTE);
    if trampolines_written(fresh, states, states.len()).0 is Err {
        Err(ExecutableFormatError::Memory)
    } else if ds == 0 || ds > segments.len() {
        Err(ExecutableFormatError::SegmentIndex)
    } else {
        program_image(d, c, states, entries, segments[cs - 1], segments[ds - 1])
    }
}

/// A machine fresh from loading: the image `mem`, execution at 0:`ip` with DS and SS at
/// the data segment, fresh kernel and user modules (the user's button class calling
/// `button`) with every handle allocator fresh and no objects, the windows being
/// `window_manager`.
pub open spec fn loaded_machine(emulator: Emulator, mem: Seq<u8>, ip: u16, button: SegmentAndOffset, window_manager: WindowManager) -> bool {
    &&& emulator.wf()
    &&& emulator.machine().mem == mem
    &&& emulator.machine().regs.ip == ip
    &&& emulator.machine().regs.segments == seq![0u16, 0u16, DATA_SEGMENT, DATA_SEGMENT, 0u16, 0u16, 0u16, 0u16]
    &&& emulator.machine().regs.gpr == seq![0u16, 0u16, 0u16, 0u16, 0xF000u16, 0u16, 0u16, 0u16]
    &&& emulator.machine().regs.flags == 0x200
    &&& emulator.delayed_return_slot() is None
    &&& emulator.kernel().heap().next_allocation() == 2
    &&& emulator.kernel().heap().max_size() == LOCAL_HEAP_SIZE
    &&& emulator.kernel().heap().allocation_base() == LOCAL_HEAP_BASE
    &&& emulator.kernel().heap().handles().table() == Map::<u16, u16>::empty()
    &&& emulator.kernel().heap().handles().free_bits() == crate::handle_table::fresh_free_bits()
    &&& emulator.user().classes().len() == 1
    &&& emulator.user().has_class(button_name())
    &&& emulator.user().class(button_name()).proc == button
    &&& emulator.user().atoms() == Map::<u16, ByteString<'static>>::empty()
    &&& emulator.user().atom_bits() == crate::handle_table::fresh_free_bits()
    &&& emulator.objects().user.table() == Map::<u16, UserObject>::empty()
    &&& emulator.objects().gdi.table() == Map::<u16, GdiObject>::empty()
    &&& emulator.objects().user.free_bits() == crate::handle_table::fresh_free_bits()
    &&& emulator.objects().gdi.free_bits() == crate::handle_table::fresh_free_bits()
    &&& emulator.objects().window_manager == window_manager
}

/// How loading an NE program ends.
pub enum Loading {
    /// The memory image, the first IP and the address of the button procedure stub.
    Loaded(Seq<u8>, u16, SegmentAndOffset),
    /// The load fails with this error.
    Failed(ExecutableFormatError),
}

/// The last checks and the image of an NE program whose header is at `h` and whose
/// tables are read: CS must name a segment (segment 0 is not handled) and IP lie in its
/// minimum allocation, then the same of SS and SP; then see `program_loading`.
pub open spec fn ne_placed(
    d: Seq<u8>,
    c0: int,
    cs: u16,
    ip: u16,
    ds: u16,
    ss: u16,
    sp: u16,
    states: Seq<(u8, u32, u32, u8)>,
    entries: Map<u16, EntryTableEntry>,
    segments: Seq<SegmentView>,
) -> Loading {
    if cs == 0 || cs - 1 >= segments.len() {
        Loading::Failed(ExecutableFormatError::SegmentIndex)
    } else if ip >= segments[cs - 1].minimum_allocation_size {
        Loading::Failed(ExecutableFormatError::SegmentOffset)
    } else if ss == 0 || ss - 1 >= segments.len() {
        Loading::Failed(ExecutableFormatError::SegmentIndex)
    } else if sp >= segments[ss - 1].minimum_allocation_size {
        Loading::Failed(ExecutableFormatError::SegmentOffset)
    } else {
        match program_loading(d, c0, states, entries, segments, cs, ds) {
            Ok((mem, button)) => Loading::Loaded(mem, ip, button),
            Err(e) => Loading::Failed(e),
        }
    }
}

/// Loading the NE program whose header is at `h` of the file `d` (the cursor being at
/// `c0`): the header must be there with the "NE" magic, acceptable application flags
/// (none of 0b11101000) and a target system of 0, 2 or 4, and the header fields; then the
/// module references (see `module_kinds`), the entry table (see `entry_bundles`), the
/// expected Windows version and the start fields, and the segment table (see
/// `parse_segments`, with the alignment shift, 0 meaning 9) are read, in this order. A
/// missing field is `HeaderSize`; see `ne_placed` for the rest.
pub open spec fn ne_loading(d: Seq<u8>, c0: int, h: int) -> Loading {
    let w = |off: int| word_of(d, h + off);
    let size = Loading::Failed(ExecutableFormatError::HeaderSize);
    if h >= d.len() || byte_of(d, h) is None {
        size
    } else if byte_of(d, h)->0 != 0x4e {
        Loading::Failed(ExecutableFormatError::HeaderMagic)
    } else if byte_of(d, h + 1) is None {
        size
    } else if byte_of(d, h + 1)->0 != 0x45 {
        Loading::Failed(ExecutableFormatError::HeaderMagic)
    } else if byte_of(d, h + 0x0D) is None {
        size
    } else if byte_of(d, h + 0x0D)->0 & 0b11101000 != 0 {
        Loading::Failed(ExecutableFormatError::ApplicationFlags)
    } else if byte_of(d, h + 0x36) is None {
        size
    } else if !(byte_of(d, h + 0x36)->0 == 0 || byte_of(d, h + 0x36)->0 == 2 || byte_of(d, h + 0x36)->0 == 4) {
        Loading::Failed(ExecutableFormatError::OperatingSystem)
    } else if w(0x04) is None || w(0x06) is None || w(0x1C) is None || w(0x1E) is None || w(0x22) is None
        || w(0x28) is None || w(0x32) is None {
        size
    } else {
        ne_tables(d, c0, h)
    }
}

/// The part of `ne_loading` from the module references on, the header fields being
/// there.
pub open spec fn ne_tables(d: Seq<u8>, c0: int, h: int) -> Loading {
    let w = |off: int| word_of(d, h + off);
    let size = Loading::Failed(ExecutableFormatError::HeaderSize);
    let shift: nat = if w(0x32)->0 == 0 {
        9
    } else {
        w(0x32)->0 as nat
    };
    if w(0x2A) is None {
        size
    } else {
        match module_kinds(d, h, w(0x28)->0 as int, w(0x2A)->0 as int, w(0x1E)->0 as nat) {
            None => size,
            Some(kinds) => if h + w(0x04)->0 >= d.len() {
                size
            } else {
                match entry_bundles(d, h + w(0x04)->0, 0, 1, w(0x06)->0 as int, Map::empty()) {
                    Err(e) => Loading::Failed(e),
                    Ok(entries) => if byte_of(d, h + 0x3F) is None || byte_of(d, h + 0x3E) is None
                        || w(0x16) is None || w(0x14) is None || w(0x0E) is None || w(0x1A) is None
                        || w(0x18) is None || h + w(0x22)->0 >= d.len() {
                        size
                    } else {
                        match parse_segments(d, h + w(0x22)->0, w(0x1C)->0 as nat, shift) {
                            Err(e) => Loading::Failed(e),
                            Ok(segments) => ne_placed(
                                d,
                                c0,
                                w(0x16)->0,
                                w(0x14)->0,
                                w(0x0E)->0,
                                w(0x1A)->0,
                                w(0x18)->0,
                                kinds.map_values(|k: u8| initial_state(k)),
                                entries,
                                segments,
                            ),
                        }
                    },
                }
            },
        }
    }
}

/// The memory image and machine of a program whose tables are read (see
/// `program_loading`): the stubs of the imported modules, the code segment `cs` at 0 and
/// the data segment `ds` at 0x1230, and the relocations of both segments; the machine
/// starts at 0:`ip`.
fn load_program(
    executable: &Executable,
    segment_table: &Vec<Segment>,
    module_reference_table: &mut ModuleReferenceTable,
    entry_table: &EntryTable,
    cs: u16,
    ds: u16,
    ip: u16,
    window_manager: WindowManager,
) -> (r: Result<Emulator, ExecutableFormatError>)
    requires
        executable.wf(),
        window_manager.wf(),
        1 <= cs <= segment_table@.len(),
        forall|i: int|
            #![trigger old(module_reference_table).modules()[i]]
            0 <= i < old(module_reference_table).modules().len() ==> old(module_reference_table).modules()[i].base().next_address() + 3 <= u32::MAX,
    ensures
        match program_loading(
            executable.data(),
            executable.cursor() as int,
            old(module_reference_table).states(),
            entry_table.entries(),
            segment_views(segment_table@),
            cs,
            ds,
        ) {
            Ok((mem, button)) => r matches Ok(emulator) && loaded_machine(emulator, mem, ip, button, window_manager),
            Err(e) => r matches Err(e2) && e2 == e,
        },
{
    let mut memory = Memory::new();

    // Setup default trampolines
    if module_reference_table.write_trampolines(&mut memory).is_err() {
        return Err(ExecutableFormatError::Memory);
    }
    // Segment 0 is not handled
    if ds == 0 || (ds as usize) > segment_table.len() {
        return Err(ExecutableFormatError::SegmentIndex);
    }

    // Only the code and data segments are loaded
    let data_segment = &segment_table[ds as usize - 1];
    let code_segment = &segment_table[cs as usize - 1];
    if code_segment.logical_sector_offset as u64 + code_segment.length_of_segment_in_file as u64 > 0x4000_0000
        || data_segment.logical_sector_offset as u64 + data_segment.length_of_segment_in_file as u64 > 0x4000_0000 {
        return Err(ExecutableFormatError::HeaderSize);
    }
    let code_bytes = executable.slice(
        code_segment.logical_sector_offset as usize,
        code_segment.length_of_segment_in_file as usize,
    )?;
    let data_bytes = executable.slice(
        data_segment.logical_sector_offset as usize,
        data_segment.length_of_segment_in_file as usize,
    )?;
    if memory.copy_from(code_bytes, 0).is_err() {
        return Err(ExecutableFormatError::Memory);
    }
    if memory.copy_from(data_bytes, DATA_SEGMENT_FLAT as usize).is_err() {
        return Err(ExecutableFormatError::Memory);
    }
    if perform_relocations(&mut memory, 0, module_reference_table, entry_table, code_segment).is_err() {
        return Err(ExecutableFormatError::Memory);
    }
    if perform_relocations(&mut memory, DATA_SEGMENT_FLAT, module_reference_table, entry_table, data_segment).is_err() {
        return Err(ExecutableFormatError::Memory);
    }

    let button_wnd_proc = button_window_procedure(module_reference_table, &mut memory);
    let objects = ObjectEnvironment::new(window_manager);
    let emulated_kernel = EmulatedKernel::new();
    let emulated_user = EmulatedUser::new(button_wnd_proc);
    let emulated_gdi = EmulatedGdi::new();
    let emulated_keyboard = EmulatedKeyboard::new();
    let emulator = Emulator::new(
        memory,
        DATA_SEGMENT,
        0,
        ip,
        emulated_kernel,
        emulated_user,
        emulated_gdi,
        emulated_keyboard,
        objects,
    );
    Ok(emulator)
}

/// Loading an MZ file with an NE program, the cursor of the file `d` being at `c`: the
/// "MZ" magic, then the offset of the NE header at 0x3C (see `ne_loading`). A missing
/// byte is `HeaderSize`, another magic `HeaderMagic`.
pub open spec fn file_loading(d: Seq<u8>, c: int) -> Loading {
    if byte_of(d, c) is None {
        Loading::Failed(ExecutableFormatError::HeaderSize)
    } else if byte_of(d, c)->0 != 0x4d {
        Loading::Failed(ExecutableFormatError::HeaderMagic)
    } else if byte_of(d, c + 1) is None {
        Loading::Failed(ExecutableFormatError::HeaderSize)
    } else if byte_of(d, c + 1)->0 != 0x5a {
        Loading::Failed(ExecutableFormatError::HeaderMagic)
    } else {
        match word_of(d, c + 0x3C) {
            None => Loading::Failed(ExecutableFormatError::HeaderSize),
            Some(h) => ne_loading(d, c, h as int),
        }
    }
}

/// Loads an MZ file with an NE program (see `file_loading`).
pub fn process_file(executable: &mut Executable, window_manager: WindowManager) -> (r: Result<Emulator, ExecutableFormatError>)
    requires
        old(executable).wf(),
        window_manager.wf(),
    ensures
        final(executable).data() == old(executable).data(),
        match file_loading(old(executable).data(), old(executable).cursor() as int) {
            Loading::Loaded(mem, ip, button) => r matches Ok(emulator) && loaded_machine(emulator, mem, ip, button, window_manager),
            Loading::Failed(e) => r matches Err(e2) && e2 == e,
        },
{
    let mz_result = process_file_mz(executable)?;
    process_file_ne(executable, mz_result.ne_header_offset, window_manager)
}

} // verus!
