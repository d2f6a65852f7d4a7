use win16emu::registers::Registers;
use win16emu::bitmap_allocator::BitmapAllocator;
use win16emu::bitmap::{Bitmap, Color};
use win16emu::byte_string::{ByteString, HeapByteString};
use win16emu::handle_table::{GenericHandle, Handle, HandleTable};
use win16emu::heap::{Heap, HeapAllocationError};
use win16emu::memory::Memory;
use win16emu::message_queue::{MessageQueue, WindowMessage};
use win16emu::constants::MessageType;
use win16emu::two_d::{Point, Rect};
use win16emu::util::{add_with_flags_16, sub_with_flags_16, encode_u16_u16_to_u32};
use win16emu::window_manager::{ProcessId, WindowIdentifier, WindowManager};

#[test]
fn memory_word_round_trip() {
    let mut m = Memory::new();
    assert_eq!(m.read_8(5).unwrap(), 0x42);
    m.write_u16(0x100, 0xBEEF).unwrap();
    assert_eq!(m.read_u16(0x100).unwrap(), 0xBEEF);
    assert_eq!(m.read_8(0x100).unwrap(), 0xEF);
    assert_eq!(m.read_8(0x101).unwrap(), 0xBE);
    assert!(m.write_u16(1048575, 1).is_err());
    assert!(m.read_u16(1048575).is_err());
}

#[test]
fn memory_far_pointer_split() {
    let m = Memory::new();
    let so = m.segment_and_offset(0x12345);
    assert_eq!(so.offset, 0x2345);
    assert_eq!(so.segment, 0x1000);
}

#[test]
fn handle_table_register_get_deregister() {
    let mut t: HandleTable<u32> = HandleTable::new();
    let h = t.register(77).unwrap();
    assert_ne!(h.as_u16(), 0);
    assert_eq!(t.get(h), Some(&77));
    assert!(t.deregister(h));
    assert_eq!(t.get(h), None);
    assert!(!t.deregister(h));
    assert_eq!(t.get(Handle::null()), None);
}

#[test]
fn heap_fixed_and_movable_blocks() {
    let mut heap = Heap::new(0x100, 0x8000);
    assert_eq!(heap.allocate(true, 3), Ok((0x8002, 0x8002)));
    let (code, pointer) = heap.allocate(false, 4).unwrap();
    assert_eq!(pointer, 0x8006);
    assert_eq!(code % 2, 1);
    assert_eq!(heap.allocate(true, 0x200), Err(HeapAllocationError::AllocationTooLarge));
}

#[test]
fn message_queue_filters_by_window() {
    let mut q = MessageQueue::new();
    let msg = |h: u16, m: MessageType| WindowMessage {
        h_wnd: Handle(h),
        message: m,
        w_param: 0,
        l_param: 0,
        time: 0,
        point: Point::origin(),
    };
    assert!(q.send(msg(1, MessageType::Paint)));
    assert!(q.send(msg(2, MessageType::Quit)));
    let got = q.receive(Handle(2)).unwrap();
    assert_eq!(got.message, MessageType::Quit);
    // the message for window 1 was discarded on the way
    assert!(q.receive(Handle::null()).is_none());
}

#[test]
fn bitmap_fill_and_pixels() {
    let mut b = Bitmap::new(10, 10);
    b.fill_rectangle(Rect { left: 1, top: 1, right: 3, bottom: 3 }, Color(1, 2, 3));
    assert_eq!(b.pixel_at_no_checks(1, 1), Color(1, 2, 3));
    assert_eq!(b.pixel_at_no_checks(2, 2), Color(1, 2, 3));
    assert_ne!(b.pixel_at_no_checks(3, 3), Color(1, 2, 3));
    b.draw_horizontal_line(0, 5, 4, Color(9, 9, 9));
    assert_eq!(b.pixel_at_no_checks(3, 5), Color(9, 9, 9));
    assert_ne!(b.pixel_at_no_checks(4, 5), Color(9, 9, 9));
}

#[test]
fn window_manager_create_and_show() {
    let mut wm = WindowManager::new();
    let id = WindowIdentifier { process_id: ProcessId(0), window_handle: Handle(1) };
    assert_eq!(wm.create_window(id, -32768, 5, -32768, 20, false), (400, 20));
    assert_eq!(wm.position_of(id).map(|p| (p.x, p.y)), Some((0, 5)));
    wm.show_window(id);
    assert_eq!(wm.paint(), vec![id]);
    let r = wm.client_rect_of(id).unwrap();
    assert_eq!((r.left, r.top, r.right, r.bottom), (0, 0, 400, 20));
}

#[test]
fn lowercase_copy_of_bytes() {
    let s = HeapByteString::from_to_lowercase(b"HeLLo1");
    assert_eq!(s.as_slice(), b"hello1");
    let a = ByteString::from_slice(b"abc");
    let b = ByteString::Heaped(HeapByteString::from(b"abc".to_vec()));
    assert!(a.same_bytes(&b));
}

#[test]
fn arithmetic_with_flags() {
    assert_eq!(add_with_flags_16(0xFFFF, 1), (0, true, false));
    assert_eq!(add_with_flags_16(0x7FFF, 1), (0x8000, false, true));
    assert_eq!(sub_with_flags_16(0, 1), (0xFFFF, true, false));
    assert_eq!(encode_u16_u16_to_u32(0x1234, 0x5678), 0x5678_1234);
}

#[test]
fn points_add_and_subtract() {
    let p = Point::new(3, 4).add(Point::new(1, -2));
    assert_eq!((p.x, p.y), (4, 2));
    let q = p.sub(Point::new(1, -2));
    assert_eq!((q.x, q.y), (3, 4));
    let r = Rect { left: 0, top: 0, right: 10, bottom: 10 }.shrink(3);
    assert_eq!((r.left, r.top, r.right, r.bottom), (3, 3, 7, 7));
}

#[test]
fn bitmap_allocator_deallocate_undoes_claim() {
    let mut claimed = BitmapAllocator::new(16);
    claimed.claim(0);
    assert_eq!(claimed.allocate(), Some(1));
    let mut restored = BitmapAllocator::new(16);
    restored.claim(0);
    restored.deallocate(0);
    assert_eq!(restored.allocate(), Some(0));
}

#[test]
fn heap_first_movable_block_is_code_one() {
    let mut h = Heap::new(100, 0x1000);
    assert_eq!(h.allocate(true, 3), Ok((0x1002, 0x1002)));
    assert_eq!(h.allocate(true, 1), Ok((0x1006, 0x1006)));
    assert_eq!(h.allocate(false, 2), Ok((1, 0x1008)));
    assert_eq!(h.allocate(true, 0xFFFF), Err(HeapAllocationError::AllocationTooLarge));
}

#[test]
fn memory_reads_end_at_the_last_byte() {
    let mut m = Memory::new();
    let last: u32 = 1048576 - 1;
    assert_eq!(m.write_u16(last - 1, 0xBEEF), Ok(()));
    assert_eq!(m.read_u16(last - 1), Ok(0xBEEF));
    assert_eq!(m.read_8(last - 1), Ok(0xEF));
    assert_eq!(m.read_8(last), Ok(0xBE));
    assert!(m.read_u16(last).is_err());
    assert!(m.write_u16(last, 1).is_err());
}

#[test]
fn byte_register_write_keeps_the_other_half() {
    let mut r = Registers::new(0, 0, 0);
    r.write_gpr_16(0, 0x1234);
    r.write_gpr_8(4, 0xAB); // AH
    assert_eq!(r.read_gpr_16(0), 0xAB34);
    assert_eq!(r.read_gpr_8(4), 0xAB);
    r.write_gpr_8(0, 0xCD); // AL
    assert_eq!(r.read_gpr_16(0), 0xABCD);
    assert_eq!(r.read_gpr_16(4), 0xF000);
}

#[test]
fn heap_may_reach_up_to_the_top_of_the_segment() {
    let mut h = Heap::new(0xFFFF, 0x10);
    assert_eq!(h.allocate(true, 4), Ok((0x12, 0x12)));
    assert_eq!(h.allocate(false, 4), Ok((1, 0x16)));
}
