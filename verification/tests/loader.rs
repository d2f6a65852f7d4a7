use win16emu::emulator_error::EmulatorError;
use win16emu::executable::{Executable, ExecutableFormatError};
use win16emu::loader::{
    perform_relocations, process_entry_table, process_file, process_file_mz,
    process_module_reference_table, process_segment_table, validate_application_flags,
    validate_segment_index_and_offset, validate_target_operating_system, RelocationType, Segment,
};
use win16emu::memory::Memory;
use win16emu::registers::Registers;
use win16emu::window_manager::WindowManager;

fn le16(v: u16) -> [u8; 2] {
    [v as u8, (v >> 8) as u8]
}

#[test]
fn mz_header_gives_ne_offset() {
    let mut bytes = vec![0u8; 0x40];
    bytes[0] = b'M';
    bytes[1] = b'Z';
    bytes[0x3C] = 0x80;
    let exe = Executable::new(bytes);
    let mz = process_file_mz(&exe).unwrap();
    assert_eq!(mz.ne_header_offset, 0x80);
}

#[test]
fn mz_header_with_wrong_magic() {
    let mut bytes = vec![0u8; 0x40];
    bytes[0] = b'Z';
    bytes[1] = b'M';
    let exe = Executable::new(bytes);
    assert!(matches!(process_file_mz(&exe), Err(ExecutableFormatError::HeaderMagic)));
}

#[test]
fn mz_header_too_short() {
    let exe = Executable::new(vec![b'M', b'Z']);
    assert!(matches!(process_file_mz(&exe), Err(ExecutableFormatError::HeaderSize)));
}

#[test]
fn application_flags_and_operating_system() {
    let mut bytes = vec![0u8; 0x40];
    bytes[0x0D] = 0x02;
    bytes[0x36] = 2;
    let exe = Executable::new(bytes.clone());
    assert_eq!(validate_application_flags(&exe), Ok(()));
    assert_eq!(validate_target_operating_system(&exe), Ok(()));
    bytes[0x0D] = 0x08;
    bytes[0x36] = 1;
    let exe = Executable::new(bytes);
    assert_eq!(validate_application_flags(&exe), Err(ExecutableFormatError::ApplicationFlags));
    assert_eq!(validate_target_operating_system(&exe), Err(ExecutableFormatError::OperatingSystem));
}

/// A file with a segment table of one segment at 0x10 whose bytes are at 0x40 (shift 0
/// is not used: sector 4 with shift 4), 16 bytes long, with one internal relocation.
fn file_with_one_segment() -> Vec<u8> {
    let mut bytes = vec![0u8; 0x80];
    // segment table at 0x10: sector 4, length 16, flags 0x100 (relocations), min alloc 0x20
    bytes[0x10..0x12].copy_from_slice(&le16(4));
    bytes[0x12..0x14].copy_from_slice(&le16(16));
    bytes[0x14..0x16].copy_from_slice(&le16(0x100));
    bytes[0x16..0x18].copy_from_slice(&le16(0x20));
    // segment bytes at 0x40..0x50: chain 2 -> 6 -> end
    bytes[0x42..0x44].copy_from_slice(&le16(6));
    bytes[0x46..0x48].copy_from_slice(&le16(0xFFFF));
    // relocation table at 0x50: count 1; source type 5, flags 0 (internal), chain 2,
    // segment 1, parameter 0x1234
    bytes[0x50..0x52].copy_from_slice(&le16(1));
    bytes[0x52] = 5;
    bytes[0x53] = 0;
    bytes[0x54..0x56].copy_from_slice(&le16(2));
    bytes[0x56] = 1;
    bytes[0x58..0x5A].copy_from_slice(&le16(0x1234));
    bytes
}

#[test]
fn segment_table_with_internal_relocation() {
    let mut exe = Executable::new(file_with_one_segment());
    let segments = process_segment_table(&mut exe, 0x10, 1, 4).unwrap();
    assert_eq!(segments.len(), 1);
    let s = &segments[0];
    assert_eq!(s.logical_sector_offset, 0x40);
    assert_eq!(s.length_of_segment_in_file, 16);
    assert_eq!(s.minimum_allocation_size, 0x20);
    let rels = s.relocations.as_ref().unwrap();
    assert_eq!(rels.len(), 1);
    assert_eq!(rels[0].locations, vec![2, 6]);
    assert_eq!(rels[0].source_type, 5);
    assert_eq!(rels[0].offset_within_segment_from_source_chain, 2);
    assert!(matches!(rels[0].relocation_type, RelocationType::InternalRef(r) if r.segment_number == 1 && r.parameter == 0x1234));
}

#[test]
fn segment_table_with_zero_sizes_means_64k() {
    let mut bytes = vec![0u8; 0x20];
    bytes[0x10..0x12].copy_from_slice(&le16(1));
    let mut exe = Executable::new(bytes);
    let segments = process_segment_table(&mut exe, 0x10, 1, 9).unwrap();
    assert_eq!(segments[0].logical_sector_offset, 512);
    assert_eq!(segments[0].length_of_segment_in_file, 65536);
    assert_eq!(segments[0].minimum_allocation_size, 65536);
    assert!(segments[0].relocations.is_none());
}

#[test]
fn segment_table_outside_file() {
    let mut exe = Executable::new(vec![0u8; 8]);
    assert!(matches!(process_segment_table(&mut exe, 0x10, 1, 9), Err(ExecutableFormatError::HeaderSize)));
}

#[test]
fn relocation_chain_in_a_circle() {
    let mut bytes = file_with_one_segment();
    // 6 points back to 2
    bytes[0x46..0x48].copy_from_slice(&le16(2));
    let mut exe = Executable::new(bytes);
    assert!(matches!(process_segment_table(&mut exe, 0x10, 1, 4), Err(ExecutableFormatError::RelocationChain)));
}

#[test]
fn segment_index_and_offset_checks() {
    let segments = vec![Segment {
        logical_sector_offset: 0,
        length_of_segment_in_file: 16,
        minimum_allocation_size: 0x20,
        relocations: None,
    }];
    assert_eq!(validate_segment_index_and_offset(&segments, 1, 0x1F), Ok(()));
    assert_eq!(validate_segment_index_and_offset(&segments, 1, 0x20), Err(ExecutableFormatError::SegmentOffset));
    assert_eq!(validate_segment_index_and_offset(&segments, 2, 0), Err(ExecutableFormatError::SegmentIndex));
}

#[test]
fn entry_table_with_movable_and_skipped_entries() {
    let mut bytes = vec![0u8; 0x40];
    // at 0x10: skip 2 ordinals; then 1 movable entry (segment 1, offset 0x44); then end
    let table = [2u8, 0, 1, 0xFF, 0, 0xCD, 0x3F, 1, 0x44, 0x00, 0, 0];
    bytes[0x10..0x10 + table.len()].copy_from_slice(&table);
    let mut exe = Executable::new(bytes);
    let entries = process_entry_table(&mut exe, 0x10, table.len()).unwrap();
    assert!(entries.get(1).is_none());
    assert!(entries.get(2).is_none());
    let e = entries.get(3).unwrap();
    assert_eq!(e.segment_number, 1);
    assert_eq!(e.offset, 0x44);
}

#[test]
fn entry_table_with_wrong_magic() {
    let mut bytes = vec![0u8; 0x40];
    let table = [1u8, 0xFF, 0, 0x00, 0x00, 1, 0x44, 0x00];
    bytes[0x10..0x10 + table.len()].copy_from_slice(&table);
    let mut exe = Executable::new(bytes);
    assert!(matches!(process_entry_table(&mut exe, 0x10, table.len()), Err(ExecutableFormatError::HeaderMagic)));
}

#[test]
fn module_references_keep_emulated_modules() {
    let mut bytes = vec![0u8; 0x60];
    // imported name table at 0x40: "\x06KERNEL\x04USER\x03FOO"
    bytes[0x2A..0x2C].copy_from_slice(&le16(0x40));
    let names = b"\x06KERNEL\x04USER\x03FOO";
    bytes[0x40..0x40 + names.len()].copy_from_slice(names);
    // module reference table at 0x10: offsets 0, 7, 12
    bytes[0x10..0x12].copy_from_slice(&le16(0));
    bytes[0x12..0x14].copy_from_slice(&le16(7));
    bytes[0x14..0x16].copy_from_slice(&le16(12));
    let exe = Executable::new(bytes);
    let table = process_module_reference_table(&exe, 0x10, 3).unwrap();
    assert_eq!(table.len(), 2);
    assert_eq!(table.module(1).unwrap().argument_bytes_of_procedure(30), Some(2));
    assert_eq!(table.module(1).unwrap().argument_bytes_of_procedure(3), None);
    assert_eq!(table.module(2).unwrap().argument_bytes_of_procedure(41), Some(30));
    assert!(matches!(table.module(3), Err(EmulatorError::OutOfBounds)));
    assert!(matches!(table.module(0), Err(EmulatorError::OutOfBounds)));
}

#[test]
fn internal_relocation_written_to_memory() {
    let mut exe = Executable::new(file_with_one_segment());
    let segments = process_segment_table(&mut exe, 0x10, 1, 4).unwrap();
    let mut bytes = vec![0u8; 0x60];
    bytes[0x2A..0x2C].copy_from_slice(&le16(0x40));
    let exe2 = Executable::new(bytes);
    let mut modules = process_module_reference_table(&exe2, 0x10, 0).unwrap();
    let mut entry_exe = Executable::new(vec![0u8; 0x10]);
    let entries = process_entry_table(&mut entry_exe, 0, 0).unwrap();
    let mut memory = Memory::new();
    perform_relocations(&mut memory, 0x1000, &mut modules, &entries, &segments[0]).unwrap();
    // source type 5 writes the offset at both locations
    assert_eq!(memory.read_u16(0x1002).unwrap(), 0x1234);
    assert_eq!(memory.read_u16(0x1006).unwrap(), 0x1234);
}

#[test]
fn import_relocation_writes_stub_address() {
    let mut bytes = file_with_one_segment();
    // make it an import ordinal: flags 1, module 1, ordinal 30; source type 3 (far pointer)
    bytes[0x52] = 3;
    bytes[0x53] = 1;
    bytes[0x56..0x58].copy_from_slice(&le16(1));
    bytes[0x58..0x5A].copy_from_slice(&le16(30));
    // chain: only location 2
    bytes[0x42..0x44].copy_from_slice(&le16(0xFFFF));
    let mut exe = Executable::new(bytes);
    let segments = process_segment_table(&mut exe, 0x10, 1, 4).unwrap();
    let mut names = vec![0u8; 0x60];
    names[0x2A..0x2C].copy_from_slice(&le16(0x40));
    names[0x40..0x47].copy_from_slice(b"\x06KERNEL");
    let exe2 = Executable::new(names);
    let mut modules = process_module_reference_table(&exe2, 0x10, 1).unwrap();
    let mut entry_exe = Executable::new(vec![0u8; 0x10]);
    let entries = process_entry_table(&mut entry_exe, 0, 0).unwrap();
    let mut memory = Memory::new();
    perform_relocations(&mut memory, 0, &mut modules, &entries, &segments[0]).unwrap();
    // the kernel stub area is at 0x10000: offset 0, segment 0x1000
    assert_eq!(memory.read_u16(2).unwrap(), 0);
    assert_eq!(memory.read_u16(4).unwrap(), 0x1000);
    // the stub: mov ax, 30; int 0xFF; retf 2
    assert_eq!(memory.read_8(0x10000).unwrap(), 0xB8);
    assert_eq!(memory.read_u16(0x10001).unwrap(), 30);
    assert_eq!(memory.read_8(0x10003).unwrap(), 0xCD);
    assert_eq!(memory.read_8(0x10004).unwrap(), 0xFF);
    assert_eq!(memory.read_8(0x10005).unwrap(), 0xCA);
    assert_eq!(memory.read_u16(0x10006).unwrap(), 2);
}

#[test]
fn whole_file_with_bad_ne_magic() {
    let mut bytes = vec![0u8; 0x100];
    bytes[0] = b'M';
    bytes[1] = b'Z';
    bytes[0x3C] = 0x40;
    bytes[0x40] = b'X';
    bytes[0x41] = b'E';
    let mut exe = Executable::new(bytes);
    assert!(matches!(process_file(&mut exe, WindowManager::new()), Err(ExecutableFormatError::HeaderMagic)));
}

/// An MZ file with an NE program of one segment (code, data and stack) whose code at file
/// offset 0x100 is `mov ax, 0x1234`; entry table at 0xA0, segment table at 0xB0, no
/// module references.
fn whole_file(entry_table: &[u8]) -> Vec<u8> {
    let mut bytes = vec![0u8; 0x110];
    bytes[0] = b'M';
    bytes[1] = b'Z';
    bytes[0x3C] = 0x40;
    let ne = 0x40;
    bytes[ne] = b'N';
    bytes[ne + 1] = b'E';
    bytes[ne + 0x36] = 2;
    let mut put = |at: usize, v: u16| bytes[ne + at..ne + at + 2].copy_from_slice(&le16(v));
    put(0x04, 0x60); // entry table
    put(0x06, entry_table.len() as u16);
    put(0x0E, 1); // ds
    put(0x14, 0); // ip
    put(0x16, 1); // cs
    put(0x18, 0x80); // sp
    put(0x1A, 1); // ss
    put(0x1C, 1); // one segment
    put(0x1E, 0); // no module references
    put(0x22, 0x70); // segment table
    put(0x28, 0x80); // module reference table
    put(0x2A, 0x90); // imported names
    put(0x32, 4); // sectors of 16 bytes
    bytes[0xA0..0xA0 + entry_table.len()].copy_from_slice(entry_table);
    // segment: sector 0x10, 16 bytes, no relocations, 0x100 allocated
    bytes[0xB0..0xB2].copy_from_slice(&le16(0x10));
    bytes[0xB2..0xB4].copy_from_slice(&le16(0x10));
    bytes[0xB6..0xB8].copy_from_slice(&le16(0x100));
    bytes[0x100..0x103].copy_from_slice(&[0xB8, 0x34, 0x12]);
    bytes
}

#[test]
fn whole_file_loads_and_runs_its_first_instruction() {
    let mut exe = Executable::new(whole_file(&[0]));
    let mut emulator = process_file(&mut exe, WindowManager::new()).unwrap();
    assert_eq!(emulator.accessor().regs.ip(), 0);
    assert_eq!(emulator.accessor().memory.read_8(0).unwrap(), 0xB8);
    emulator.step().unwrap();
    assert_eq!(emulator.accessor().regs.read_gpr_16(Registers::REG_AX), 0x1234);
    assert_eq!(emulator.accessor().regs.ip(), 3);
}

#[test]
fn whole_file_with_bad_entry_magic() {
    let mut exe = Executable::new(whole_file(&[1, 0xFF, 0, 0x00, 0x00, 1, 0, 0, 0]));
    assert!(matches!(process_file(&mut exe, WindowManager::new()), Err(ExecutableFormatError::HeaderMagic)));
}

#[test]
fn whole_file_with_segment_beyond_the_file() {
    let mut bytes = whole_file(&[0]);
    // the segment table claims 2 segments; the second entry lies past the end
    bytes[0x40 + 0x1C] = 2;
    bytes.truncate(0xB9);
    let mut exe = Executable::new(bytes);
    assert!(matches!(process_file(&mut exe, WindowManager::new()), Err(ExecutableFormatError::HeaderSize)));
}

#[test]
fn alignment_shift_too_large_fails_at_the_first_segment() {
    let mut bytes = whole_file(&[0]);
    bytes[0x40 + 0x32] = 40;
    let mut exe = Executable::new(bytes.clone());
    assert!(matches!(process_file(&mut exe, WindowManager::new()), Err(ExecutableFormatError::Alignment)));
    // with no segment, the shift is never used: CS names no segment
    bytes[0x40 + 0x1C] = 0;
    let mut exe = Executable::new(bytes);
    assert!(matches!(process_file(&mut exe, WindowManager::new()), Err(ExecutableFormatError::SegmentIndex)));
}

#[test]
fn bad_ip_is_reported_before_a_zero_data_segment() {
    let mut bytes = whole_file(&[0]);
    bytes[0x40 + 0x0E] = 0; // ds 0
    bytes[0x40 + 0x15] = 0x02; // ip 0x200, beyond the 0x100 allocated
    let mut exe = Executable::new(bytes.clone());
    assert!(matches!(process_file(&mut exe, WindowManager::new()), Err(ExecutableFormatError::SegmentOffset)));
    // with a good IP, DS 0 names no segment
    bytes[0x40 + 0x15] = 0;
    let mut exe = Executable::new(bytes);
    assert!(matches!(process_file(&mut exe, WindowManager::new()), Err(ExecutableFormatError::SegmentIndex)));
}

#[test]
fn segment_table_with_shift_of_32() {
    let mut exe = Executable::new(file_with_one_segment());
    assert!(matches!(process_segment_table(&mut exe, 0x10, 1, 32), Err(ExecutableFormatError::Alignment)));
    let mut exe = Executable::new(file_with_one_segment());
    assert!(process_segment_table(&mut exe, 0x10, 0, 32).unwrap().is_empty());
}
