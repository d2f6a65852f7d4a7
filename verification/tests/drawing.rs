use win16emu::api_helpers::ReturnValue;
use win16emu::bitmap::Color;
use win16emu::constants::MessageType;
use win16emu::emulated_gdi::EmulatedGdi;
use win16emu::emulated_kernel::EmulatedKernel;
use win16emu::emulated_user::EmulatedUser;
use win16emu::emulator_accessor::EmulatorAccessor;
use win16emu::emulator_error::EmulatorError;
use win16emu::handle_table::{GenericHandle, Handle, HandleTable};
use win16emu::memory::{Memory, SegmentAndOffset};
use win16emu::message_queue::WindowMessage;
use win16emu::object_environment::{
    DeviceContext, GdiObject, GdiSelectionObjectType, ObjectEnvironment, Pen, UserObject, UserWindow,
};
use win16emu::registers::Registers;
use win16emu::two_d::Point;
use win16emu::window_manager::{ProcessId, WindowIdentifier, WindowManager};

const BACKGROUND: Color = Color(100, 0, 100);
const BRUSH: Color = Color(1, 2, 3);
const PEN: Color = Color(9, 9, 9);

/// An accessor whose stack holds `args`, argument 0 first (the last one pushed).
fn accessor_with_args(memory: Memory, args: &[u16]) -> EmulatorAccessor {
    let mut memory = memory;
    let regs = Registers::new(0x100, 0, 0);
    let base = regs.flat_sp() + 4;
    for (i, a) in args.iter().enumerate() {
        memory.write_u16(base + 2 * i as u32, *a).unwrap();
    }
    EmulatorAccessor::new(memory, regs)
}

fn window(h: u16) -> WindowIdentifier {
    WindowIdentifier { process_id: ProcessId(0), window_handle: Handle(h) }
}

/// Objects with a 50 by 50 window 1 and a device context on it that has a brush and a
/// pen selected; returns the context's handle.
fn objects_with_context() -> (ObjectEnvironment, Handle) {
    let mut wm = WindowManager::new();
    wm.create_window(window(1), 0, 0, 50, 50, false);
    let mut objects = ObjectEnvironment::new(wm);
    let brush = objects.gdi.register(GdiObject::SolidBrush(BRUSH)).unwrap();
    let pen = objects.gdi.register(GdiObject::Pen(Pen { width: 1, color: PEN })).unwrap();
    let mut dc = DeviceContext::new(window(1), Point::origin());
    dc.select(GdiSelectionObjectType::SolidBrush, brush);
    dc.select(GdiSelectionObjectType::Pen, pen);
    let hdc = objects.gdi.register(GdiObject::DC(dc)).unwrap();
    (objects, hdc)
}

fn pixel(objects: &ObjectEnvironment, id: WindowIdentifier, x: i16, y: i16) -> Color {
    objects.read_window_manager().front_bitmap_of(id).unwrap().pixel_at_no_checks(x, y)
}

#[test]
fn rectangle_fills_with_brush_and_outlines_with_pen() {
    let (mut objects, hdc) = objects_with_context();
    let gdi = EmulatedGdi::new();
    // Rectangle(hdc, left 10, top 10, right 20, bottom 20)
    let mut acc = accessor_with_args(Memory::new(), &[20, 20, 10, 10, hdc.as_u16()]);
    assert_eq!(gdi.syscall(27, &mut acc, &mut objects), Ok(ReturnValue::U16(1)));
    assert_eq!(pixel(&objects, window(1), 10, 10), PEN);
    assert_eq!(pixel(&objects, window(1), 15, 10), PEN);
    assert_eq!(pixel(&objects, window(1), 19, 15), PEN);
    assert_eq!(pixel(&objects, window(1), 15, 19), PEN);
    assert_eq!(pixel(&objects, window(1), 15, 15), BRUSH);
    assert_eq!(pixel(&objects, window(1), 11, 18), BRUSH);
    assert_eq!(pixel(&objects, window(1), 20, 20), BACKGROUND);
    assert_eq!(pixel(&objects, window(1), 9, 9), BACKGROUND);
}

#[test]
fn rectangle_without_context_draws_nothing() {
    let (mut objects, _hdc) = objects_with_context();
    let gdi = EmulatedGdi::new();
    let mut acc = accessor_with_args(Memory::new(), &[20, 20, 10, 10, 999]);
    assert_eq!(gdi.syscall(27, &mut acc, &mut objects), Ok(ReturnValue::U16(1)));
    assert_eq!(pixel(&objects, window(1), 15, 15), BACKGROUND);
}

#[test]
fn line_to_paints_both_ends_and_moves_the_context() {
    let (mut objects, hdc) = objects_with_context();
    let gdi = EmulatedGdi::new();
    // LineTo(hdc, 5, 3), from the bitmap's current position (0, 0)
    let mut acc = accessor_with_args(Memory::new(), &[3, 5, hdc.as_u16()]);
    assert_eq!(gdi.syscall(19, &mut acc, &mut objects), Ok(ReturnValue::U16(1)));
    assert_eq!(pixel(&objects, window(1), 0, 0), PEN);
    assert_eq!(pixel(&objects, window(1), 5, 3), PEN);
    assert_eq!(pixel(&objects, window(1), 40, 40), BACKGROUND);
    // MoveTo(hdc, 7, 8) reports the position LineTo left: x 5 low, y 3 high
    let mut acc = accessor_with_args(Memory::new(), &[8, 7, hdc.as_u16()]);
    assert_eq!(gdi.syscall(20, &mut acc, &mut objects), Ok(ReturnValue::U32(0x0003_0005)));
}

#[test]
fn gdi_argument_outside_memory() {
    let (mut objects, _hdc) = objects_with_context();
    let gdi = EmulatedGdi::new();
    let memory = Memory::new();
    let mut regs = Registers::new(0xFFFF, 0, 0);
    regs.write_gpr_16(Registers::REG_SP, 0xFFFE);
    let mut acc = EmulatorAccessor::new(memory, regs);
    assert_eq!(gdi.syscall(27, &mut acc, &mut objects), Err(EmulatorError::OutOfBounds));
    assert_eq!(gdi.syscall(3, &mut acc, &mut objects), Err(EmulatorError::Unsupported));
}

/// Objects with window `h` of the user table (no parent, own bitmap, 30 by 20).
fn objects_with_user_window() -> (ObjectEnvironment, Handle) {
    let mut objects = ObjectEnvironment::new(WindowManager::new());
    let h = objects
        .user
        .register(UserObject::Window(UserWindow::new(SegmentAndOffset { segment: 0, offset: 0 }, false, Handle::null())))
        .unwrap();
    objects.write_window_manager().create_window(window(h.as_u16()), 0, 0, 30, 20, false);
    (objects, h)
}

#[test]
fn button_paint_draws_frame_highlight_shadow_and_face() {
    let (mut objects, h) = objects_with_user_window();
    let mut user = EmulatedUser::new(SegmentAndOffset { segment: 0, offset: 0 });
    // button window procedure (h, Paint, 0, 0)
    let mut acc = accessor_with_args(Memory::new(), &[0, 0, 0, MessageType::Paint.as_u16(), h.as_u16()]);
    assert_eq!(user.syscall(0xffff, &mut acc, &mut objects), Ok(ReturnValue::U16(0)));
    let id = window(h.as_u16());
    assert_eq!(pixel(&objects, id, 0, 0), BACKGROUND);
    assert_eq!(pixel(&objects, id, 5, 0), Color(0, 0, 0));
    assert_eq!(pixel(&objects, id, 0, 5), Color(0, 0, 0));
    assert_eq!(pixel(&objects, id, 5, 1), Color(255, 255, 255));
    assert_eq!(pixel(&objects, id, 1, 5), Color(255, 255, 255));
    assert_eq!(pixel(&objects, id, 28, 5), Color(128, 128, 128));
    assert_eq!(pixel(&objects, id, 10, 10), Color(192, 192, 192));
    assert_eq!(pixel(&objects, id, 35, 10), BACKGROUND);
}

#[test]
fn button_other_message_changes_nothing() {
    let (mut objects, h) = objects_with_user_window();
    let mut user = EmulatedUser::new(SegmentAndOffset { segment: 0, offset: 0 });
    let mut acc = accessor_with_args(Memory::new(), &[0, 0, 0, MessageType::Create.as_u16(), h.as_u16()]);
    assert_eq!(user.syscall(0xffff, &mut acc, &mut objects), Ok(ReturnValue::U16(0)));
    assert_eq!(pixel(&objects, window(h.as_u16()), 10, 10), BACKGROUND);
}

fn message(h: Handle, m: MessageType) -> WindowMessage {
    WindowMessage { h_wnd: h, message: m, w_param: 0, l_param: 0, time: 0, point: Point::origin() }
}

#[test]
fn get_message_takes_messages_in_order() {
    let (mut objects, h) = objects_with_user_window();
    match objects.user.take(h) {
        Some(UserObject::Window(mut w)) => {
            w.message_queue.send(message(h, MessageType::Paint));
            w.message_queue.send(message(h, MessageType::Quit));
            objects.user.restore(h, UserObject::Window(w));
        },
        None => panic!("the window is missing"),
    }
    let mut user = EmulatedUser::new(SegmentAndOffset { segment: 0, offset: 0 });
    // GetMessage(msg, h, 0, 0)
    let args = [0, 0, h.as_u16(), 0, 0];
    let mut acc = accessor_with_args(Memory::new(), &args);
    assert_eq!(user.syscall(108, &mut acc, &mut objects), Ok(ReturnValue::U16(1)));
    assert_eq!(user.syscall(108, &mut acc, &mut objects), Ok(ReturnValue::U16(0)));
    assert_eq!(user.syscall(108, &mut acc, &mut objects), Ok(ReturnValue::U16(0xffff)));
    let mut acc = accessor_with_args(Memory::new(), &[0, 0, 77, 0, 0]);
    assert_eq!(user.syscall(108, &mut acc, &mut objects), Ok(ReturnValue::U16(0xffff)));
}

#[test]
fn create_window_of_the_button_class() {
    let mut objects = ObjectEnvironment::new(WindowManager::new());
    let mut user = EmulatedUser::new(SegmentAndOffset { segment: 0x30, offset: 0x40 });
    let mut memory = Memory::new();
    // class name "BUTTON" at 0x200:0, window name "" at 0x200:0x10
    memory.copy_from(&[b'B', b'U', b'T', b'T', b'O', b'N', 0], 0x2000).unwrap();
    memory.copy_from(&[0], 0x2010).unwrap();
    // param, h_instance, h_menu, parent, height, width, y, x, style, window name, class name
    let args = [0, 0, 0, 0, 0, 25, 60, 7, 5, 0, 0, 0x10, 0x200, 0, 0x200];
    let mut acc = accessor_with_args(memory, &args);
    let r = user.syscall(41, &mut acc, &mut objects);
    assert_eq!(r, Ok(ReturnValue::DelayedU16(1)));
    assert!(objects.user.get(Handle(1)).is_some());
    let rect = objects.read_window_manager().client_rect_of(window(1)).unwrap();
    assert_eq!((rect.right, rect.bottom), (60, 25));
    let position = objects.read_window_manager().position_of(window(1)).unwrap();
    assert_eq!((position.x, position.y), (5, 7));
    // the Create message is on its way to the class procedure
    assert_eq!(acc.regs.ip(), 0x40);
    assert_eq!(acc.regs.read_segment(Registers::REG_CS), 0x30);
}

#[test]
fn create_window_of_an_unknown_class_gives_zero() {
    let mut objects = ObjectEnvironment::new(WindowManager::new());
    let mut user = EmulatedUser::new(SegmentAndOffset { segment: 0, offset: 0 });
    let mut memory = Memory::new();
    memory.copy_from(&[b'E', b'D', b'I', b'T', 0], 0x2000).unwrap();
    let args = [0, 0, 0, 0, 0, 25, 60, 7, 5, 0, 0, 0x4, 0x200, 0, 0x200];
    let mut acc = accessor_with_args(memory, &args);
    assert_eq!(user.syscall(41, &mut acc, &mut objects), Ok(ReturnValue::U16(0)));
    assert!(objects.user.get(Handle(1)).is_none());
}

#[test]
fn local_alloc_zeroes_the_block() {
    let mut kernel = EmulatedKernel::new();
    // LocalAlloc(0x40 zero-init, 6 bytes)
    let mut acc = accessor_with_args(Memory::new(), &[6, 0x40]);
    assert_eq!(kernel.syscall(5, &mut acc, ), Ok(ReturnValue::U16(0x8002)));
    let ds_base = 0x100u32 * 16;
    for i in 0..6u32 {
        assert_eq!(acc.memory.read_8(ds_base + 0x8002 + i).unwrap(), 0);
    }
    assert_eq!(acc.memory.read_8(ds_base + 0x8002 + 6).unwrap(), 0x42);
    // the next block follows, rounded to an even size
    let mut acc2 = accessor_with_args(Memory::new(), &[3, 0]);
    assert_eq!(kernel.syscall(5, &mut acc2), Ok(ReturnValue::U16(0x8008)));
    assert_eq!(acc2.memory.read_8(ds_base + 0x8008).unwrap(), 0x42);
}

#[test]
fn handle_numbers_repeat_after_the_first_allocator_entry() {
    // Each allocator entry contributes its index plus the bit position, so the entry after
    // the first one starts over at number 1.
    let mut t: HandleTable<u16> = HandleTable::new();
    for i in 1..64u16 {
        assert_eq!(t.register(i).unwrap().as_u16(), i);
    }
    assert_eq!(t.register(64).unwrap().as_u16(), 1);
    assert_eq!(t.get(Handle(1)), Some(&64));
}

#[test]
fn deleted_object_is_gone() {
    let (mut objects, hdc) = objects_with_context();
    let gdi = EmulatedGdi::new();
    let mut acc = accessor_with_args(Memory::new(), &[hdc.as_u16()]);
    assert_eq!(gdi.syscall(69, &mut acc, &mut objects), Ok(ReturnValue::U16(1)));
    assert_eq!(gdi.syscall(69, &mut acc, &mut objects), Ok(ReturnValue::U16(0)));
}

#[test]
fn shown_window_is_on_top() {
    let (mut objects, h) = objects_with_user_window();
    objects.write_window_manager().create_window(window(40), 0, 0, 10, 10, false);
    objects.write_window_manager().show_window(window(40));
    let mut user = EmulatedUser::new(SegmentAndOffset { segment: 0, offset: 0 });
    // ShowWindow(h, 1)
    let mut acc = accessor_with_args(Memory::new(), &[1, h.as_u16()]);
    assert_eq!(user.syscall(42, &mut acc, &mut objects), Ok(ReturnValue::U16(1)));
    let order = objects.read_window_manager().paint();
    assert_eq!(order.len(), 2);
    assert!(order[1] == window(h.as_u16()));
    // a handle that names no window
    let mut acc = accessor_with_args(Memory::new(), &[1, 99]);
    assert_eq!(user.syscall(42, &mut acc, &mut objects), Ok(ReturnValue::U16(0)));
}

#[test]
fn bitmap_taken_and_returned_unchanged() {
    let (mut objects, hdc) = objects_with_context();
    let before = pixel(&objects, window(1), 3, 3);
    match objects.paint_bitmap_for_dc_handle(hdc) {
        Some((id, view)) => objects.return_paint_bitmap(id, view),
        None => panic!("the context has a bitmap"),
    }
    assert_eq!(pixel(&objects, window(1), 3, 3), before);
}

#[test]
fn line_to_paints_exactly_the_walked_pixels() {
    let (mut objects, hdc) = objects_with_context();
    let gdi = EmulatedGdi::new();
    // LineTo(hdc, 4, 2) from (0, 0) walks (0,0) (1,1) (2,1) (3,2) (4,2)
    let mut acc = accessor_with_args(Memory::new(), &[2, 4, hdc.as_u16()]);
    assert_eq!(gdi.syscall(19, &mut acc, &mut objects), Ok(ReturnValue::U16(1)));
    for (x, y) in [(0, 0), (1, 1), (2, 1), (3, 2), (4, 2)] {
        assert_eq!(pixel(&objects, window(1), x, y), PEN);
    }
    for (x, y) in [(1, 0), (2, 0), (3, 1), (2, 2), (4, 1), (0, 1), (5, 2)] {
        assert_eq!(pixel(&objects, window(1), x, y), BACKGROUND);
    }
}

/// Sends UpdateWindow for `h` and gives the result, CS:IP and SP afterwards.
fn update_window(objects: &mut ObjectEnvironment, h: Handle) -> (Result<ReturnValue, EmulatorError>, u16, u16, u16) {
    let mut user = EmulatedUser::new(SegmentAndOffset { segment: 0, offset: 0 });
    let mut acc = accessor_with_args(Memory::new(), &[h.as_u16()]);
    let r = user.syscall(124, &mut acc, objects);
    (
        r,
        acc.regs.read_segment(Registers::REG_CS),
        acc.regs.ip(),
        acc.regs.read_gpr_16(Registers::REG_SP),
    )
}

#[test]
fn update_window_paints_children_first_then_the_window() {
    let parent_proc = SegmentAndOffset { segment: 0x10, offset: 0x20 };
    let child_proc = SegmentAndOffset { segment: 0x30, offset: 0x40 };
    // a window alone
    let mut alone = ObjectEnvironment::new(WindowManager::new());
    let h = alone.user.register(UserObject::Window(UserWindow::new(parent_proc, false, Handle::null()))).unwrap();
    let (r, cs, ip, sp_one) = update_window(&mut alone, h);
    assert_eq!(r, Ok(ReturnValue::DelayedU16(1)));
    assert_eq!((cs, ip), (0x10, 0x20));
    let start_sp = Registers::new(0x100, 0, 0).read_gpr_16(Registers::REG_SP);
    let frame = start_sp - sp_one;
    // a window with a child: the child's call is set up first, the window's on top of it
    let mut objects = ObjectEnvironment::new(WindowManager::new());
    let parent = objects.user.register(UserObject::Window(UserWindow::new(parent_proc, false, Handle::null()))).unwrap();
    let child = objects.user.register(UserObject::Window(UserWindow::new(child_proc, false, parent))).unwrap();
    if let Some(UserObject::Window(w)) = objects.user.take(parent) {
        let mut w = w;
        w.children.push(child);
        objects.user.restore(parent, UserObject::Window(w));
    }
    let (r, cs, ip, sp) = update_window(&mut objects, parent);
    assert_eq!(r, Ok(ReturnValue::DelayedU16(1)));
    assert_eq!((cs, ip), (0x10, 0x20));
    assert_eq!(start_sp - sp, 2 * frame);
    // a handle that names no window paints nothing
    let (r, _, _, sp) = update_window(&mut objects, Handle(77));
    assert_eq!(r, Ok(ReturnValue::DelayedU16(0)));
    assert_eq!(sp, start_sp);
}

#[test]
fn brushes_and_pens_get_consecutive_handles() {
    let mut objects = ObjectEnvironment::new(WindowManager::new());
    let gdi = EmulatedGdi::new();
    // CreateSolidBrush(0x00030201): color dword as argument 0
    let mut acc = accessor_with_args(Memory::new(), &[0x0201, 0x0003]);
    assert_eq!(gdi.syscall(66, &mut acc, &mut objects), Ok(ReturnValue::U16(1)));
    // CreatePen(style 0, width 0, color 0x00090909)
    let mut acc = accessor_with_args(Memory::new(), &[0x0909, 0x0009, 0, 0]);
    assert_eq!(gdi.syscall(61, &mut acc, &mut objects), Ok(ReturnValue::U16(2)));
    assert!(matches!(objects.gdi.get(Handle(1)), Some(GdiObject::SolidBrush(c)) if *c == BRUSH));
    assert!(matches!(objects.gdi.get(Handle(2)), Some(GdiObject::Pen(p)) if p.color == PEN && p.width == 1));
}

#[test]
fn long_lines_up_to_the_span_limit_are_drawn() {
    let (mut objects, hdc) = objects_with_context();
    let gdi = EmulatedGdi::new();
    // LineTo(hdc, 10000, 3) from (0, 0): the first 1667 or so pixels lie on row 0
    let mut acc = accessor_with_args(Memory::new(), &[3, 10000, hdc.as_u16()]);
    assert_eq!(gdi.syscall(19, &mut acc, &mut objects), Ok(ReturnValue::U16(1)));
    assert_eq!(pixel(&objects, window(1), 100, 0), PEN);
    assert_eq!(pixel(&objects, window(1), 100, 1), BACKGROUND);
    // a line spanning more than 10922 pixels is not drawn
    let (mut objects, hdc) = objects_with_context();
    let mut acc = accessor_with_args(Memory::new(), &[0, 11000, hdc.as_u16()]);
    assert_eq!(gdi.syscall(19, &mut acc, &mut objects), Ok(ReturnValue::U16(1)));
    assert_eq!(pixel(&objects, window(1), 100, 0), BACKGROUND);
}
