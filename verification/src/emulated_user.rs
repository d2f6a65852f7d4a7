use vstd::prelude::*;
use crate::api_helpers::{Pointer, ReturnValue};
use crate::atom_table::{Atom, AtomTable};
use crate::bitmap::Color;
use crate::bitvector_allocator::allocation_step;
use crate::byte_string::{ByteString, HeapByteString};
use crate::constants::{message_number, ClassStyles, MessageType, SystemColors};
use crate::emulator_accessor::{
    copy_string_run, has_string_end, is_string_end, lemma_string_end_unique, push_step, sp_lowered, stack_top,
    dword_arg, pointer_arg, rect_at, string_at, word_arg, EmulatorAccessor,
};
use crate::emulator_error::EmulatorError;
use crate::handle_table::{GenericHandle, Handle, HANDLE_TABLE_ENTRIES};
use crate::memory::{flat_of, with_word, word_at, SegmentAndOffset, MEMORY_SIZE};
use crate::message_queue::{is_first_match, left_after_receive, passes_filter, received, WindowMessage};
use crate::bitmap::Bitmap;
use crate::constants::RasterOp;
use crate::object_environment::{device_context_of, DeviceContext, GdiObject, ObjectEnvironment, UserObject, UserWindow};
use crate::emulated_gdi::entry_of;
use crate::registers::{Registers, RegistersView};
use crate::two_d::{saturating_sub_i16, saturate_i16, Point, Rect};
use crate::window_manager::{bitmap_redrawn, brought_to_front, holds_drawing, number_or_default, window_placed, ProcessId, WindowIdentifier, WindowManager};

verus! {

/// A registered window class.
pub struct WindowClass {
    pub style: ClassStyles,
    pub proc: SegmentAndOffset,
    pub cls_extra: u16,
    pub wnd_extra: u16,
    pub h_icon: Handle,
    pub h_cursor: Handle,
    pub h_background: Handle,
    pub menu_class_name: Option<HeapByteString>,
}

/// What BeginPaint hands out.
#[derive(Copy, Clone)]
pub struct Paint {
    pub hdc: Handle,
    pub f_erase: bool,
    pub rect: Rect,
}

/// The emulated USER module: the class-name atoms and the window classes by name.
pub struct EmulatedUser {
    user_atom_table: AtomTable<'static>,
    window_classes: Vec<(HeapByteString, WindowClass)>,
}

/// The user procedures that are emulated.
/// What FillRect does to the windows: when `h_brush` is a solid brush and `h_dc` a
/// device context whose window has a bitmap, `rect`, moved by the context's translation,
/// is filled with the brush's color there; otherwise nothing changes.
pub open spec fn fill_rect_done(before: &ObjectEnvironment, after: &ObjectEnvironment, h_dc: Handle, rect: Rect, h_brush: Handle) -> bool {
    match (entry_of(before.gdi.table(), h_brush.id()), device_context_of(before.gdi.table(), h_dc)) {
        (Some(GdiObject::SolidBrush(color)), Some(dc)) => if before.window_manager.has_front_bitmap(
            dc.bitmap_window_identifier,
        ) {
            bitmap_redrawn(
                before.window_manager.entries(),
                after.window_manager.entries(),
                dc.bitmap_window_identifier,
                |ob: Bitmap, nb: Bitmap| nb.rectangle_filled(&ob, dc.translation, rect, color),
            )
        } else {
            after.window_manager.entries() == before.window_manager.entries()
        },
        _ => after.window_manager.entries() == before.window_manager.entries(),
    }
}

/// What a call of a window procedure changes of the accessor: its registers, its memory
/// and the slot for a delayed value.
pub type CallState = (RegistersView, Seq<u8>, Option<u32>);

/// A call of the window procedure `proc` with `(h, message, w_param, l_param)` set up
/// from `st` (see `call_wndproc_sync`): whether the whole frame was pushed, and the state
/// after.
pub open spec fn wndproc_call(st: CallState, proc: SegmentAndOffset, h: u16, message: u16, w_param: u16, l_param: u32) -> (bool, CallState) {
    let first = wndproc_first(st.0, st.1);
    let frame = wndproc_frame(st.0, st.1, h, message, w_param, l_param);
    let regs = if frame.0 {
        RegistersView {
            ip: proc.offset,
            segments: frame.1.segments.update(Registers::REG_CS as int, proc.segment),
            ..frame.1
        }
    } else {
        frame.1
    };
    let slot = if first.0 {
        Some(stack_top(sp_lowered(first.1)) as u32)
    } else {
        st.2
    };
    (frame.0, (regs, frame.2, slot))
}

/// `Paint` sent to the window `h` of `table` and, first, to its children, `depth` levels
/// deep at most: whether the call for `h` was set up, and the state after all calls.
/// Nothing happens for a handle that names no window.
pub open spec fn paint_tree(table: Map<u16, UserObject>, h: Handle, depth: nat, st: CallState) -> (bool, CallState)
    decreases depth, 1nat, 0int,
{
    if is_window(table, h.id()) {
        let w = table[h.id()]->Window_0;
        let painted = paint_children(table, w.children@, 0, depth, st);
        wndproc_call(painted, w.proc, h.id(), message_number(MessageType::Paint), 0, 0)
    } else {
        (false, st)
    }
}

/// `Paint` sent, as `paint_tree` sends it, to the children from index `i` on, in order,
/// when `depth` allows one more level.
pub open spec fn paint_children(table: Map<u16, UserObject>, children: Seq<Handle>, i: int, depth: nat, st: CallState) -> CallState
    decreases depth, 0nat, children.len() - i,
{
    if 0 <= i < children.len() {
        let next = if depth > 0 {
            paint_tree(table, children[i], (depth - 1) as nat, st).1
        } else {
            st
        };
        paint_children(table, children, i + 1, depth, next)
    } else {
        st
    }
}

/// GetMessage: the window `h` takes its oldest message for `h` from its queue (see
/// `MessageQueue::receive`), and the value tells what came: 0 for `Quit`, 1 for another
/// message, 0xFFFF for none or when `h` is no window. Nothing else changes.
pub open spec fn message_taken(before: ObjectEnvironment, after: ObjectEnvironment, h: Handle, r: Result<ReturnValue, EmulatorError>) -> bool {
    &&& after.gdi == before.gdi
    &&& after.window_manager == before.window_manager
    &&& if is_window(before.user.table(), h.id()) {
        let w = before.user.table()[h.id()]->Window_0;
        &&& after.user.table().dom() =~= before.user.table().dom()
        &&& forall|k: u16| #[trigger] after.user.table().contains_key(k) && k != h.id() ==> after.user.table()[k] == before.user.table()[k]
        &&& after.user.table()[h.id()] matches UserObject::Window(nw) && nw.proc == w.proc && nw.parent_dc == w.parent_dc
            && nw.parent_handle == w.parent_handle && nw.children == w.children
            && nw.message_queue@ == left_after_receive(w.message_queue@, h)
        &&& r == Ok::<ReturnValue, EmulatorError>(ReturnValue::U16(
            match received(w.message_queue@, h) {
                Some(m) => if m.message == MessageType::Quit { 0 } else { 1 },
                None => 0xffff,
            },
        ))
    } else {
        after.user.table() =~= before.user.table() && r == Ok::<ReturnValue, EmulatorError>(ReturnValue::U16(0xffff))
    }
}

/// The PAINTSTRUCT that BeginPaint writes at `p` for the context `hdc`: the handle, then
/// the erase flag and the four rectangle words all at `p + 2`, so 200 ends up there.
/// Whether it fitted in memory, and the memory after; writing stops at the first piece
/// that does not fit.
pub open spec fn paint_struct_written(mem: Seq<u8>, p: int, hdc: u16) -> (bool, Seq<u8>) {
    if p + 2 > MEMORY_SIZE {
        (false, mem)
    } else if p + 3 > MEMORY_SIZE {
        (false, with_word(mem, p, hdc))
    } else if p + 4 > MEMORY_SIZE {
        (false, with_word(mem, p, hdc).update(p + 2, 0))
    } else {
        (true, with_word(with_word(mem, p, hdc), p + 2, 200))
    }
}

/// `nw` is `w` with the children `children`.
pub open spec fn with_children(w: UserWindow, nw: UserWindow, children: Seq<Handle>) -> bool {
    &&& nw.proc == w.proc
    &&& nw.parent_dc == w.parent_dc
    &&& nw.parent_handle == w.parent_handle
    &&& nw.children@ == children
    &&& nw.message_queue@ == w.message_queue@
}

/// `w` is a new window with procedure `proc` under `parent`, with `children` and no
/// messages.
pub open spec fn new_window(w: UserWindow, proc: SegmentAndOffset, parent_dc: bool, parent: Handle, children: Seq<Handle>) -> bool {
    &&& w.proc == proc
    &&& w.parent_dc == parent_dc
    &&& w.parent_handle == parent
    &&& w.children@ == children
    &&& w.message_queue@ == Seq::<WindowMessage>::empty()
}

/// The state of a call as `wndproc_call` sees it.
pub open spec fn call_state(acc: EmulatorAccessor) -> CallState {
    (acc.regs@, acc.memory@, acc.delayed_return_slot)
}

/// CreateWindow once the class is known and the handle `h` taken: a non-null parent that
/// is no window (the new one included) undoes the registration and gives 0; otherwise the
/// window is stored under `h`, becomes the last child of its parent, gets its place on
/// screen (see `window_placed`) and is sent `Create`: its handle is the value, delivered
/// when the window procedure returns, and a frame that does not fit is `OutOfBounds`.
pub open spec fn window_made_at(
    acc: EmulatorAccessor,
    after_acc: EmulatorAccessor,
    before: ObjectEnvironment,
    after: ObjectEnvironment,
    class: WindowClass,
    x: u16,
    y: u16,
    width: u16,
    height: u16,
    parent: Handle,
    r: Result<ReturnValue, EmulatorError>,
    h: u16,
) -> bool {
    let parent_dc = class.style.0 & ClassStyles::PARENT_DC == ClassStyles::PARENT_DC;
    let table = before.user.table();
    &&& 1 <= h <= 1312
    &&& after.gdi == before.gdi
    &&& if parent.id() != 0 && parent.id() != h && !is_window(table, parent.id()) {
        &&& r == Ok::<ReturnValue, EmulatorError>(ReturnValue::U16(0))
        &&& after.user.table() == table.remove(h)
        &&& after.window_manager == before.window_manager
        &&& after_acc == acc
    } else {
        let call = wndproc_call(call_state(acc), class.proc, h, message_number(MessageType::Create), 0, 0);
        &&& after.user.table().dom() == table.dom().insert(h)
        &&& forall|k: u16|
            #[trigger] after.user.table().contains_key(k) && k != h && k != parent.id() ==> after.user.table()[k]
                == table[k]
        &&& after.user.table()[h] is Window
        &&& new_window(
            after.user.table()[h]->Window_0,
            class.proc,
            parent_dc,
            parent,
            if parent.id() == h {
                seq![Handle(h)]
            } else {
                Seq::empty()
            },
        )
        &&& parent.id() != 0 && parent.id() != h ==> {
            &&& after.user.table()[parent.id()] is Window
            &&& with_children(
                table[parent.id()]->Window_0,
                after.user.table()[parent.id()]->Window_0,
                (table[parent.id()]->Window_0).children@.push(Handle(h)),
            )
        }
        &&& window_placed(
            before.window_manager,
            after.window_manager,
            window_id(h),
            x as i16,
            y as i16,
            width as i16,
            height as i16,
            parent_dc,
        )
        &&& call_state(after_acc) == call.1
        &&& r == if call.0 {
            Ok::<ReturnValue, EmulatorError>(ReturnValue::DelayedU16(h))
        } else {
            Err::<ReturnValue, EmulatorError>(EmulatorError::OutOfBounds)
        }
    }
}

/// CreateWindow with the class named by the string at `class_name`: a string that does
/// not end in memory is `OutOfBounds`; an unknown class, or no user handle left, gives 0
/// and changes nothing; otherwise see `window_made_at`.
pub open spec fn window_made(
    user: EmulatedUser,
    acc: EmulatorAccessor,
    after_acc: EmulatorAccessor,
    before: ObjectEnvironment,
    after: ObjectEnvironment,
    class_name: u32,
    x: u16,
    y: u16,
    width: u16,
    height: u16,
    parent: Handle,
    r: Result<ReturnValue, EmulatorError>,
) -> bool {
    let mem = acc.memory@;
    let p = class_name as int;
    if !has_string_end(mem, p) {
        r == Err::<ReturnValue, EmulatorError>(EmulatorError::OutOfBounds) && after == before && after_acc == acc
    } else if !user.has_class(string_at(mem, p)) {
        r == Ok::<ReturnValue, EmulatorError>(ReturnValue::U16(0)) && after == before && after_acc == acc
    } else if exhausted(before.user.free_bits()) {
        &&& r == Ok::<ReturnValue, EmulatorError>(ReturnValue::U16(0))
        &&& after.user.table() == before.user.table()
        &&& after.user.free_bits() == before.user.free_bits()
        &&& after.gdi == before.gdi
        &&& after.window_manager == before.window_manager
        &&& after_acc == acc
    } else {
        exists|h: u16|
            #[trigger] allocation_step(before.user.free_bits(), after.user.free_bits(), Some(h as usize))
                && window_made_at(acc, after_acc, before, after, user.class(string_at(mem, p)), x, y, width, height, parent, r, h)
    }
}

/// BeginPaint for the program (see `internal_begin_paint`): with a window and a free GDI
/// handle `hdc`, a device context under `hdc` and the PAINTSTRUCT written at `p` (see
/// `paint_struct_written`), `hdc` being the value; otherwise 0 and nothing changes.
pub open spec fn paint_begun(
    acc: EmulatorAccessor,
    after_acc: EmulatorAccessor,
    before: ObjectEnvironment,
    after: ObjectEnvironment,
    h: Handle,
    p: u32,
    r: Result<ReturnValue, EmulatorError>,
) -> bool {
    &&& after_acc.regs == acc.regs
    &&& after_acc.delayed_return_slot == acc.delayed_return_slot
    &&& after.user == before.user
    &&& after.window_manager == before.window_manager
    &&& if !is_window(before.user.table(), h.id()) || exhausted(before.gdi.free_bits()) {
        &&& r == Ok::<ReturnValue, EmulatorError>(ReturnValue::U16(0))
        &&& after_acc == acc
        &&& after.gdi.table() =~= before.gdi.table()
        &&& after.gdi.free_bits() == before.gdi.free_bits()
    } else {
        exists|hdc: u16|
            #[trigger] allocation_step(before.gdi.free_bits(), after.gdi.free_bits(), Some(hdc as usize)) && {
                let written = paint_struct_written(acc.memory@, p as int, hdc);
                &&& 1 <= hdc <= 1312
                &&& after.gdi.table() =~= before.gdi.table().insert(hdc, after.gdi.table()[hdc])
                &&& after.gdi.table()[hdc] is DC
                &&& paint_context_matches(
                    after.gdi.table()[hdc]->DC_0,
                    before.user.table()[h.id()]->Window_0,
                    h.id(),
                    window_position(before, h.id()),
                )
                &&& after_acc.memory@ == written.1
                &&& r == if written.0 {
                    Ok::<ReturnValue, EmulatorError>(ReturnValue::U16(hdc))
                } else {
                    Err::<ReturnValue, EmulatorError>(EmulatorError::OutOfBounds)
                }
            }
    }
}

/// EndPaint for the program: the context named by the first word of the PAINTSTRUCT at
/// `paint` is forgotten; 1. A PAINTSTRUCT outside memory is `OutOfBounds`.
pub open spec fn paint_ended(acc: EmulatorAccessor, before: ObjectEnvironment, after: ObjectEnvironment, paint: u32, r: Result<ReturnValue, EmulatorError>) -> bool {
    &&& after.user == before.user
    &&& after.window_manager == before.window_manager
    &&& if paint + 2 <= MEMORY_SIZE {
        r == Ok::<ReturnValue, EmulatorError>(ReturnValue::U16(1)) && after.gdi.table() =~= before.gdi.table().remove(
            word_at(acc.memory@, paint as int),
        )
    } else {
        r == Err::<ReturnValue, EmulatorError>(EmulatorError::OutOfBounds) && after == before
    }
}

/// ShowWindow: a window `h` goes to the top of the stack (1); for anything else, 0 and
/// nothing changes.
pub open spec fn window_shown(before: ObjectEnvironment, after: ObjectEnvironment, h: Handle, r: Result<ReturnValue, EmulatorError>) -> bool {
    if is_window(before.user.table(), h.id()) {
        &&& after.user == before.user
        &&& after.gdi == before.gdi
        &&& after.window_manager.entries() == before.window_manager.entries()
        &&& brought_to_front(before.window_manager.stack(), after.window_manager.stack(), window_id(h.id()))
        &&& r == Ok::<ReturnValue, EmulatorError>(ReturnValue::U16(1))
    } else {
        r == Ok::<ReturnValue, EmulatorError>(ReturnValue::U16(0)) && after == before
    }
}

/// RegisterClass with the WNDCLASS at `p` (see `register_class`).
pub open spec fn class_registration(user: EmulatedUser, after_user: EmulatedUser, acc: EmulatorAccessor, p: u32, r: Result<ReturnValue, EmulatorError>) -> bool {
    let mem = acc.memory@;
    let name_at = class_name_ptr(mem, p as int);
    if p + 26 > MEMORY_SIZE || !has_string_end(mem, name_at) {
        r == Err::<ReturnValue, EmulatorError>(EmulatorError::OutOfBounds) && after_user == user
    } else {
        ||| (r == Ok::<ReturnValue, EmulatorError>(ReturnValue::U16(0)) && after_user.classes() == user.classes()
            && after_user.atoms() == user.atoms() && after_user.atom_bits() == user.atom_bits() && (forall|j: int|
            0 <= j < user.atom_bits().len() ==> user.atom_bits()[j] == 0))
        ||| exists|a: u16| #[trigger] class_registered(user, after_user, mem, p as int, r, a)
    }
}

/// FillRect with the rectangle stored at `rect`: see `fill_rect_done`; 1. A rectangle
/// outside memory is `OutOfBounds` and changes nothing.
pub open spec fn rect_filled_by(
    acc: EmulatorAccessor,
    before: ObjectEnvironment,
    after: ObjectEnvironment,
    h_dc: Handle,
    rect: u32,
    h_brush: Handle,
    r: Result<ReturnValue, EmulatorError>,
) -> bool {
    if rect + 8 <= MEMORY_SIZE {
        &&& after.user == before.user
        &&& after.gdi == before.gdi
        &&& after.window_manager.stack() == before.window_manager.stack()
        &&& fill_rect_done(&before, &after, h_dc, rect_at(acc.memory@, rect as int), h_brush)
        &&& r == Ok::<ReturnValue, EmulatorError>(ReturnValue::U16(1))
    } else {
        r == Err::<ReturnValue, EmulatorError>(EmulatorError::OutOfBounds) && after == before
    }
}

/// UpdateWindow: `Paint` is sent down the window tree of `h` (see `paint_tree`); 1 when
/// the call for `h` was set up, else 0, delivered when the window procedures return.
pub open spec fn window_updated(acc: EmulatorAccessor, after_acc: EmulatorAccessor, objects: ObjectEnvironment, h: Handle, r: Result<ReturnValue, EmulatorError>) -> bool {
    let painted = paint_tree(objects.user.table(), h, MAX_WINDOW_DEPTH as nat, call_state(acc));
    &&& r == Ok::<ReturnValue, EmulatorError>(ReturnValue::DelayedU16(if painted.0 { 1 } else { 0 }))
    &&& call_state(after_acc) == painted.1
}

/// wsprintf: the format string at `fmt` is copied to `out` (see `copy_string_run`); 0,
/// or `OutOfBounds` when the copy leaves memory.
pub open spec fn string_printed(acc: EmulatorAccessor, after_acc: EmulatorAccessor, fmt: u32, out: u32, r: Result<ReturnValue, EmulatorError>) -> bool {
    let (count, copied) = copy_string_run(acc.memory@, fmt as int, out as int, 0);
    &&& after_acc.regs == acc.regs
    &&& after_acc.delayed_return_slot == acc.delayed_return_slot
    &&& after_acc.memory@ == copied
    &&& r == match count {
        Some(_) => Ok::<ReturnValue, EmulatorError>(ReturnValue::U16(0)),
        None => Err::<ReturnValue, EmulatorError>(EmulatorError::OutOfBounds),
    }
}

/// The window procedure of buttons: see `button_paint_done` for `Paint`; any other message
/// changes nothing. 0.
pub open spec fn button_proc_done(before: ObjectEnvironment, after: ObjectEnvironment, h: Handle, msg: u16, r: Result<ReturnValue, EmulatorError>) -> bool {
    &&& r == Ok::<ReturnValue, EmulatorError>(ReturnValue::U16(0))
    &&& if msg == message_number(MessageType::Paint) {
        &&& after.user == before.user
        &&& after.window_manager.stack() == before.window_manager.stack()
        &&& button_paint_done(&before, &after, h)
    } else {
        after == before
    }
}

/// User procedure `nr` run by `user` with the arguments on the stack of `acc`: its value
/// `r` and the state after (`after_user`, `after_acc`, `after`). An argument that cannot
/// be read, the window name of CreateWindow included, gives `OutOfBounds` and changes
/// nothing; an unknown procedure gives `Unsupported` and changes nothing.
pub open spec fn user_call(
    nr: u16,
    user: EmulatedUser,
    after_user: EmulatedUser,
    acc: EmulatorAccessor,
    after_acc: EmulatorAccessor,
    before: ObjectEnvironment,
    after: ObjectEnvironment,
    r: Result<ReturnValue, EmulatorError>,
) -> bool {
    let a = |i: int| word_arg(acc.regs@, acc.memory@, i);
    let d = |i: int| dword_arg(acc.regs@, acc.memory@, i);
    let ptr = |i: int| pointer_arg(acc.regs@, acc.memory@, i);
    let kept = after_user == user && after_acc == acc && after == before;
    let failed = r == Err::<ReturnValue, EmulatorError>(EmulatorError::OutOfBounds) && kept;
    let answer = |v: u16| r == Ok::<ReturnValue, EmulatorError>(ReturnValue::U16(v)) && kept;
    if nr == 5 {
        if a(0) is Some { answer(1) } else { failed }
    } else if nr == 39 {
        if ptr(0) is Some && a(2) is Some {
            after_user == user && paint_begun(acc, after_acc, before, after, Handle(a(2)->0), ptr(0)->0, r)
        } else {
            failed
        }
    } else if nr == 40 {
        if ptr(0) is Some && a(2) is Some {
            after_user == user && after_acc == acc && paint_ended(acc, before, after, ptr(0)->0, r)
        } else {
            failed
        }
    } else if nr == 41 {
        if ptr(0) is Some && a(2) is Some && a(3) is Some && a(4) is Some && a(5) is Some && a(6) is Some
            && a(7) is Some && a(8) is Some && d(9) is Some && ptr(11) is Some && has_string_end(
            acc.memory@,
            ptr(11)->0 as int,
        ) && ptr(13) is Some {
            after_user == user && window_made(
                user,
                acc,
                after_acc,
                before,
                after,
                ptr(13)->0,
                a(8)->0,
                a(7)->0,
                a(6)->0,
                a(5)->0,
                Handle(a(4)->0),
                r,
            )
        } else {
            failed
        }
    } else if nr == 42 {
        if a(0) is Some && a(1) is Some {
            after_user == user && after_acc == acc && window_shown(before, after, Handle(a(1)->0), r)
        } else {
            failed
        }
    } else if nr == 57 {
        match ptr(0) {
            Some(p) => after_acc == acc && after == before && class_registration(user, after_user, acc, p, r),
            None => failed,
        }
    } else if nr == 81 {
        if a(0) is Some && ptr(1) is Some && a(3) is Some {
            after_user == user && after_acc == acc && rect_filled_by(
                acc,
                before,
                after,
                Handle(a(3)->0),
                ptr(1)->0,
                Handle(a(0)->0),
                r,
            )
        } else {
            failed
        }
    } else if nr == 87 {
        if d(0) is Some && a(2) is Some && ptr(3) is Some && a(5) is Some { answer(0) } else { failed }
    } else if nr == 107 {
        if d(0) is Some && a(2) is Some && a(3) is Some && a(4) is Some { answer(0) } else { failed }
    } else if nr == 108 {
        if a(0) is Some && a(1) is Some && a(2) is Some && d(3) is Some {
            after_user == user && after_acc == acc && message_taken(before, after, Handle(a(2)->0), r)
        } else {
            failed
        }
    } else if nr == 124 {
        match a(0) {
            Some(h) => after_user == user && after == before && window_updated(acc, after_acc, before, Handle(h), r),
            None => failed,
        }
    } else if nr == 173 {
        if d(0) is Some && a(2) is Some { answer(0) } else { failed }
    } else if nr == 176 {
        if a(0) is Some && ptr(1) is Some && a(3) is Some && a(4) is Some { answer(0) } else { failed }
    } else if nr == 179 {
        match a(0) {
            Some(m) => answer(if m == 0x16 { 1 } else { 0 }),
            None => failed,
        }
    } else if nr == 420 {
        if ptr(0) is Some && ptr(2) is Some {
            after_user == user && after == before && string_printed(acc, after_acc, ptr(2)->0, ptr(0)->0, r)
        } else {
            failed
        }
    } else if nr == 0xffff {
        if d(0) is Some && a(2) is Some && a(3) is Some && a(4) is Some {
            after_user == user && after_acc == acc && button_proc_done(before, after, Handle(a(4)->0), a(3)->0, r)
        } else {
            failed
        }
    } else {
        r == Err::<ReturnValue, EmulatorError>(EmulatorError::Unsupported) && kept
    }
}

/// Whether (x, y) of `b` is on row `y0` from `x0` up to `x1` (excluded), all three moved by
/// `t` and clamped.
pub open spec fn on_row(b: Bitmap, t: Point, x0: int, y0: int, x1: int, x: int, y: int) -> bool {
    y == b.clip_y_by(t, y0) && b.clip_x_by(t, x0) <= x < b.clip_x_by(t, x1)
}

/// Whether (x, y) of `b` is on column `x0` from `y0` up to `y1` (excluded), all three moved
/// by `t` and clamped.
pub open spec fn on_column(b: Bitmap, t: Point, x0: int, y0: int, y1: int, x: int, y: int) -> bool {
    x == b.clip_x_by(t, x0) && b.clip_y_by(t, y0) <= y < b.clip_y_by(t, y1)
}

/// The color that a push button filling `rect`, moved by `t`, gives pixel (x, y) of `b`, or
/// `None` where it leaves the pixel alone. From the last drawn to the first: the face, the
/// rectangle shrunk by 3; the gray shadow, two rows at the bottom and two columns at the
/// right; the white highlight, two columns at the left and two rows at the top; the black
/// frame around it, its corners left out.
pub open spec fn button_color(b: Bitmap, t: Point, rect: Rect, x: int, y: int) -> Option<Color> {
    let right = rect.right;
    let bottom = rect.bottom;
    let frame = system_color(SystemColors::WindowFrame);
    let highlight = system_color(SystemColors::ButtonHighlight);
    let shadow = system_color(SystemColors::ButtonShadow);
    let face = Rect {
        left: saturate_i16(rect.left + 3),
        top: saturate_i16(rect.top + 3),
        right: saturate_i16(right - 3),
        bottom: saturate_i16(bottom - 3),
    };
    if b.in_rect(t, face, x, y) {
        Some(system_color(SystemColors::ButtonFace))
    } else if on_row(b, t, 1, saturate_i16(bottom - 2) as int, saturate_i16(right - 1) as int, x, y) {
        Some(shadow)
    } else if on_row(b, t, 2, saturate_i16(bottom - 3) as int, saturate_i16(right - 1) as int, x, y) {
        Some(shadow)
    } else if on_column(b, t, saturate_i16(right - 3) as int, 2, saturate_i16(bottom - 3) as int, x, y) {
        Some(shadow)
    } else if on_column(b, t, saturate_i16(right - 2) as int, 1, saturate_i16(bottom - 3) as int, x, y) {
        Some(shadow)
    } else if on_column(b, t, 2, 3, saturate_i16(bottom - 2) as int, x, y) {
        Some(highlight)
    } else if on_column(b, t, 1, 3, saturate_i16(bottom - 1) as int, x, y) {
        Some(highlight)
    } else if on_row(b, t, 1, 2, saturate_i16(right - 2) as int, x, y) {
        Some(highlight)
    } else if on_row(b, t, 1, 1, saturate_i16(right - 1) as int, x, y) {
        Some(highlight)
    } else if on_column(b, t, saturate_i16(right - 1) as int, 1, saturate_i16(bottom - 1) as int, x, y) {
        Some(frame)
    } else if on_column(b, t, 0, 1, saturate_i16(bottom - 1) as int, x, y) {
        Some(frame)
    } else if on_row(b, t, 1, saturate_i16(bottom - 1) as int, saturate_i16(right - 1) as int, x, y) {
        Some(frame)
    } else if on_row(b, t, 1, 0, right.wrapping_sub(1) as int, x, y) {
        Some(frame)
    } else {
        None
    }
}

/// `nb` is `ob` with a push button filling `rect`, moved by `t`, drawn on it.
pub open spec fn button_drawn(ob: Bitmap, nb: Bitmap, t: Point, rect: Rect) -> bool {
    &&& nb.same_frame(&ob)
    &&& nb.pixels().len() == ob.pixels().len()
    &&& forall|x: int, y: int|
        0 <= x < ob.spec_width() && 0 <= y < ob.spec_height() ==> #[trigger] nb.pixel_at(x, y)
            == match button_color(ob, t, rect, x, y) {
            Some(c) => c,
            None => ob.pixel_at(x, y),
        }
}

/// A button drawn on a lent copy of `ob` is a button drawn on `ob` once the drawing is
/// given back.
proof fn lemma_button_kept(ob: Bitmap, lent: Bitmap, drawn: Bitmap, t: Point, rect: Rect)
    requires
        lent.pixels() == ob.pixels(),
        lent.moved_to() == ob.moved_to(),
        lent.spec_width() == ob.spec_width(),
        lent.spec_height() == ob.spec_height(),
        lent.translation() == t,
        ob.translation() == Point::origin_spec(),
        button_drawn(lent, drawn, t, rect),
    ensures
        forall|nb: Bitmap| #[trigger] holds_drawing(nb, drawn) ==> button_drawn(ob, nb, t, rect),
{
    assert forall|nb: Bitmap| #[trigger] holds_drawing(nb, drawn) implies button_drawn(ob, nb, t, rect) by {
        assert forall|x: int, y: int|
            0 <= x < ob.spec_width() && 0 <= y < ob.spec_height() implies #[trigger] nb.pixel_at(x, y)
            == match button_color(ob, t, rect, x, y) {
            Some(c) => c,
            None => ob.pixel_at(x, y),
        } by {
            assert(nb.pixel_at(x, y) == drawn.pixel_at(x, y));
            assert(lent.pixel_at(x, y) == ob.pixel_at(x, y));
            assert(button_color(lent, t, rect, x, y) == button_color(ob, t, rect, x, y));
        }
    }
}

pub open spec fn user_handles(nr: u16) -> bool {
    nr == 5 || nr == 39 || nr == 40 || nr == 41 || nr == 42 || nr == 57 || nr == 81 || nr == 87
        || nr == 107 || nr == 108 || nr == 124 || nr == 173 || nr == 176 || nr == 179 || nr == 420
        || nr == 0xffff
}

/// The bytes of "BUTTON".
pub open spec fn button_name() -> Seq<u8> {
    seq![0x42u8, 0x55u8, 0x54u8, 0x54u8, 0x4fu8, 0x4eu8]
}

/// The color of a system color index.
pub open spec fn system_color(color: SystemColors) -> Color {
    match color {
        SystemColors::Background => Color(192, 192, 192),
        SystemColors::AppWorkspace => Color(255, 255, 255),
        SystemColors::Window => Color(255, 255, 255),
        SystemColors::WindowText => Color(0, 0, 0),
        SystemColors::Menu => Color(255, 255, 255),
        SystemColors::MenuText => Color(0, 0, 0),
        SystemColors::ActiveCaption => Color(0, 0, 128),
        SystemColors::InactiveCaption => Color(255, 255, 255),
        SystemColors::WindowFrame => Color(0, 0, 0),
        SystemColors::Scrollbar => Color(192, 192, 192),
        SystemColors::ButtonFace => Color(192, 192, 192),
        SystemColors::ButtonShadow => Color(128, 128, 128),
        SystemColors::ButtonText => Color(0, 0, 0),
        SystemColors::GrayText => Color(192, 192, 192),
        SystemColors::Highlight => Color(0, 0, 128),
        SystemColors::HighlightText => Color(255, 255, 255),
        SystemColors::InactiveCaptionText => Color(0, 0, 0),
        SystemColors::ButtonHighlight => Color(255, 255, 255),
        SystemColors::CaptionText => Color(255, 255, 255),
        SystemColors::ActiveBorder => Color(192, 192, 192),
        SystemColors::InactiveBorder => Color(192, 192, 192),
    }
}

/// The words that a window procedure call puts on the stack after the return slot: the
/// window, the message, the word parameter, the long parameter (high word first), then
/// the far return address into the trampoline (CS, offset 0).
pub open spec fn wndproc_words(regs: RegistersView, h_wnd: u16, message: u16, w_param: u16, l_param: u32) -> Seq<u16> {
    seq![
        h_wnd,
        message,
        w_param,
        (l_param / 65536) as u16,
        (l_param % 65536) as u16,
        regs.segments[Registers::REG_CS as int],
        0u16,
    ]
}

/// The push of IP that starts a window procedure call.
pub open spec fn wndproc_first(regs: RegistersView, mem: Seq<u8>) -> (bool, RegistersView, Seq<u8>) {
    push_step((true, regs, mem), regs.ip)
}

/// The pushes of a window procedure call: IP, a reserved word for the return value, then
/// `wndproc_words`; the first failure stops them.
pub open spec fn wndproc_frame(regs: RegistersView, mem: Seq<u8>, h_wnd: u16, message: u16, w_param: u16, l_param: u32) -> (bool, RegistersView, Seq<u8>) {
    let s0 = wndproc_first(regs, mem);
    if !s0.0 {
        s0
    } else {
        let w = wndproc_words(regs, h_wnd, message, w_param, l_param);
        let s1 = (true, sp_lowered(s0.1), s0.2);
        push_step(
            push_step(
                push_step(
                    push_step(push_step(push_step(push_step(s1, w[0]), w[1]), w[2]), w[3]),
                    w[4],
                ),
                w[5],
            ),
            w[6],
        )
    }
}

/// Deeper nesting of windows than there are window handles can only come from a cycle.
pub const MAX_WINDOW_DEPTH: u32 = 1312;

/// The window `h` of the one task.
pub open spec fn window_id(h: u16) -> WindowIdentifier {
    WindowIdentifier { process_id: ProcessId(0), window_handle: Handle(h) }
}

/// Whether `h` names a window in the user table.
pub open spec fn is_window(table: Map<u16, UserObject>, h: u16) -> bool {
    table.contains_key(h) && table[h] is Window
}

/// The window whose bitmap the window `h` is painted on: its parent's for a class drawn
/// on its parent, else its own.
pub open spec fn paint_target(w: UserWindow, h: u16) -> WindowIdentifier {
    if w.parent_dc {
        window_id(w.parent_handle.id())
    } else {
        window_id(h)
    }
}

/// How far the painting of a window is moved on the bitmap it goes to: by its position,
/// when known, for a class drawn on its parent; else not at all.
pub open spec fn paint_translation(w: UserWindow, position: Option<Point>) -> Point {
    if w.parent_dc {
        match position {
            Some(p) => p,
            None => Point::origin_spec(),
        }
    } else {
        Point::origin_spec()
    }
}

/// Whether every handle of an allocator is taken.
pub open spec fn exhausted(free_bits: Seq<u64>) -> bool {
    forall|j: int| 0 <= j < free_bits.len() ==> free_bits[j] == 0
}

/// The client rectangle of a window: (0, 0) to its size, or all zero when the window
/// manager does not know it.
pub open spec fn client_rect(wm: WindowManager, id: WindowIdentifier) -> Rect {
    if wm.has_window(id) {
        Rect { left: 0, top: 0, right: wm.window(id).width, bottom: wm.window(id).height }
    } else {
        Rect { left: 0, top: 0, right: 0, bottom: 0 }
    }
}

/// What painting a button window does to the windows: when `h` is a window, a GDI handle
/// is free for its device context and the bitmap it is painted on exists, a push button
/// filling its client rectangle is drawn there, moved as BeginPaint moves it; otherwise
/// nothing changes.
pub open spec fn button_paint_done(before: &ObjectEnvironment, after: &ObjectEnvironment, h: Handle) -> bool {
    if is_window(before.user.table(), h.id()) && !exhausted(before.gdi.free_bits()) {
        let w = before.user.table()[h.id()]->Window_0;
        let target = paint_target(w, h.id());
        let t = paint_translation(w, window_position(*before, h.id()));
        let rect = client_rect(before.window_manager, window_id(h.id()));
        if before.window_manager.has_front_bitmap(target) {
            bitmap_redrawn(
                before.window_manager.entries(),
                after.window_manager.entries(),
                target,
                |ob: Bitmap, nb: Bitmap| button_drawn(ob, nb, t, rect),
            )
        } else {
            after.window_manager.entries() == before.window_manager.entries()
        }
    } else {
        after.window_manager.entries() == before.window_manager.entries()
    }
}

/// The device context that BeginPaint makes for the window `h` of the user table: on
/// its parent's bitmap, moved by its position, for a class drawn on its parent;
/// otherwise on its own bitmap, not moved.
pub open spec fn paint_context_matches(dc: DeviceContext, w: UserWindow, h: u16, position: Option<Point>) -> bool {
    &&& dc.bitmap_window_identifier == paint_target(w, h)
    &&& dc.translation == paint_translation(w, position)
    &&& dc.selected_brush.id() == 0
    &&& dc.selected_pen.id() == 0
    &&& dc.position == Point::origin_spec()
    &&& dc.raster_op == RasterOp::CopyPen
}

/// The position of a window, if the window manager knows it.
pub open spec fn window_position(objects: ObjectEnvironment, h: u16) -> Option<Point> {
    if objects.window_manager.has_window(window_id(h)) {
        Some(objects.window_manager.window(window_id(h)).position)
    } else {
        None
    }
}

/// The atom allocator handed out `a`.
pub open spec fn atom_step(before: Seq<u64>, after: Seq<u64>, a: u16) -> bool {
    allocation_step(before, after, Some(a as usize))
}

/// Flat address of the class name in the WNDCLASS at `p`.
pub open spec fn class_name_ptr(mem: Seq<u8>, p: int) -> int {
    flat_of(word_at(mem, p + 24), word_at(mem, p + 22))
}

/// Flat address of the menu name in the WNDCLASS at `p` (0 for none).
pub open spec fn menu_name_ptr(mem: Seq<u8>, p: int) -> int {
    flat_of(word_at(mem, p + 20), word_at(mem, p + 18))
}

/// `c` is the class that the WNDCLASS at `p` describes: the known style bits, the window
/// procedure, the extra sizes, the icon, cursor and background, and the menu name when
/// there is one.
pub open spec fn class_described(c: WindowClass, mem: Seq<u8>, p: int) -> bool {
    &&& c.style.0 == word_at(mem, p) & 0x83
    &&& c.proc.offset == word_at(mem, p + 2)
    &&& c.proc.segment == word_at(mem, p + 4)
    &&& c.cls_extra == word_at(mem, p + 6)
    &&& c.wnd_extra == word_at(mem, p + 8)
    &&& c.h_icon.id() == word_at(mem, p + 12)
    &&& c.h_cursor.id() == word_at(mem, p + 14)
    &&& c.h_background.id() == word_at(mem, p + 16)
    &&& (c.menu_class_name is None <==> menu_name_ptr(mem, p) == 0)
    &&& (c.menu_class_name matches Some(m) ==> m@ == string_at(mem, menu_name_ptr(mem, p)))
}

/// The effect of a class registration that took atom `a` from the allocator, for the
/// WNDCLASS at `p`: on a missing menu name an error and the atom kept; otherwise the
/// class registered under its name, the atom returned for a new name and given up for a
/// replaced one.
pub open spec fn class_registered(before: EmulatedUser, after: EmulatedUser, mem: Seq<u8>, p: int, r: Result<ReturnValue, EmulatorError>, a: u16) -> bool {
    let name = string_at(mem, class_name_ptr(mem, p));
    &&& atom_step(before.atom_bits(), after.atom_bits(), a)
    &&& 1 <= a <= 1312
    &&& if r is Err {
        &&& menu_name_ptr(mem, p) != 0
        &&& !has_string_end(mem, menu_name_ptr(mem, p))
        &&& r == Err::<ReturnValue, EmulatorError>(EmulatorError::OutOfBounds)
        &&& after.classes() == before.classes()
        &&& after.atoms().contains_key(a)
        &&& after.atoms()[a]@ == name
        &&& after.atoms() == before.atoms().insert(a, after.atoms()[a])
    } else {
        &&& after.has_class(name)
        &&& class_described(after.class(name), mem, p)
        &&& forall|n: Seq<u8>| n != name ==> (#[trigger] after.has_class(n)
            == before.has_class(n) && (before.has_class(n) ==> after.class(n)
            == before.class(n)))
        &&& if before.has_class(name) {
            &&& r == Ok::<ReturnValue, EmulatorError>(ReturnValue::U16(0))
            &&& after.atoms() == before.atoms().remove(a)
        } else {
            &&& r == Ok::<ReturnValue, EmulatorError>(ReturnValue::U16(a))
            &&& after.atoms().contains_key(a)
            &&& after.atoms()[a]@ == name
            &&& after.atoms() == before.atoms().insert(a, after.atoms()[a])
        }
    }
}

impl EmulatedUser {
    /// The registered classes: name and class, in registration order.
    pub closed spec fn classes(&self) -> Seq<(Seq<u8>, WindowClass)> {
        self.window_classes@.map_values(|e: (HeapByteString, WindowClass)| (e.0@, e.1))
    }

    /// The class-name atoms.
    pub closed spec fn atoms(&self) -> Map<u16, ByteString<'static>> {
        self.user_atom_table.table()
    }

    /// The allocator words of the atom table.
    pub closed spec fn atom_bits(&self) -> Seq<u64> {
        self.user_atom_table.free_bits()
    }

    /// Whether a class of that name is registered.
    pub open spec fn has_class(&self, name: Seq<u8>) -> bool {
        exists|i: int| 0 <= i < self.classes().len() && #[trigger] self.classes()[i].0 == name
    }

    /// The class registered under `name`.
    pub open spec fn class(&self, name: Seq<u8>) -> WindowClass {
        self.classes()[choose|i: int|
            0 <= i < self.classes().len() && #[trigger] self.classes()[i].0 == name].1
    }

    /// Class names are unique and the atom table is sound.
    pub open spec fn wf(&self) -> bool {
        &&& forall|i: int, j: int|
            0 <= i < j < self.classes().len() ==> #[trigger] self.classes()[i].0
                != #[trigger] self.classes()[j].0
        &&& self.atom_bits().len() == HANDLE_TABLE_ENTRIES
        &&& self.atom_bits()[0] & 1 == 0
    }

    /// With unique names, the class of `name` is the one stored next to it.
    pub proof fn lemma_class_at(&self, k: int, name: Seq<u8>)
        requires
            self.wf(),
            0 <= k < self.classes().len(),
            self.classes()[k].0 == name,
        ensures
            self.has_class(name),
            self.class(name) == self.classes()[k].1,
    {
        let c = choose|i: int| 0 <= i < self.classes().len() && #[trigger] self.classes()[i].0 == name;
        if c != k {
            if c < k {
                assert(self.classes()[c].0 != self.classes()[k].0);
            } else {
                assert(self.classes()[k].0 != self.classes()[c].0);
            }
        }
    }

    /// A user module that knows one class, "BUTTON", drawn on its parent's bitmap by the
    /// window procedure `button_wnd_proc`; no atom is registered.
    pub fn new(button_wnd_proc: SegmentAndOffset) -> (r: Self)
        ensures
            r.wf(),
            r.classes().len() == 1,
            r.has_class(button_name()),
            r.class(button_name()).style.0 == ClassStyles::PARENT_DC,
            r.class(button_name()).proc == button_wnd_proc,
            r.class(button_name()).cls_extra == 0,
            r.class(button_name()).wnd_extra == 0,
            r.class(button_name()).h_icon.id() == 0,
            r.class(button_name()).h_cursor.id() == 0,
            r.class(button_name()).h_background.id() == 0,
            r.class(button_name()).menu_class_name is None,
            r.atoms() == Map::<u16, ByteString<'static>>::empty(),
            r.atom_bits() == crate::handle_table::fresh_free_bits(),
    {
        let mut name: Vec<u8> = Vec::new();
        name.push(0x42);
        name.push(0x55);
        name.push(0x54);
        name.push(0x54);
        name.push(0x4f);
        name.push(0x4e);
        let mut window_classes: Vec<(HeapByteString, WindowClass)> = Vec::new();
        window_classes.push(
            (
                HeapByteString::from(name),
                WindowClass {
                    style: ClassStyles(ClassStyles::PARENT_DC),
                    proc: button_wnd_proc,
                    cls_extra: 0,
                    wnd_extra: 0,
                    h_icon: Handle::null(),
                    h_cursor: Handle::null(),
                    h_background: Handle::null(),
                    menu_class_name: None,
                },
            ),
        );
        let r = Self { user_atom_table: AtomTable::new(), window_classes };
        proof {
            assert(r.classes()[0].0 =~= button_name());
            r.lemma_class_at(0, button_name());
        }
        r
    }

    /// The index of the class named `name`, if there is one.
    fn find_class(&self, name: &[u8]) -> (r: Option<usize>)
        requires
            self.wf(),
        ensures
            r matches Some(i) ==> i < self.classes().len() && self.classes()[i as int].0 == name@,
            r is None ==> !self.has_class(name@),
    {
        let mut i: usize = 0;
        while i < self.window_classes.len()
            invariant
                0 <= i <= self.window_classes@.len(),
                self.classes().len() == self.window_classes@.len(),
                forall|j: int| 0 <= j < i ==> self.classes()[j].0 != name@,
            decreases self.window_classes@.len() - i,
        {
            if crate::byte_string::bytes_equal(self.window_classes[i].0.as_slice(), name) {
                return Some(i);
            }
            i = i + 1;
        }
        None
    }

    /// The color of a system color index.
    pub fn get_system_color(&self, color: SystemColors) -> (r: Color)
        ensures
            r == system_color(color),
    {
        match color {
            SystemColors::Background => Color(192, 192, 192),
            SystemColors::AppWorkspace => Color(255, 255, 255),
            SystemColors::Window => Color(255, 255, 255),
            SystemColors::WindowText => Color(0, 0, 0),
            SystemColors::Menu => Color(255, 255, 255),
            SystemColors::MenuText => Color(0, 0, 0),
            SystemColors::ActiveCaption => Color(0, 0, 128),
            SystemColors::InactiveCaption => Color(255, 255, 255),
            SystemColors::WindowFrame => Color(0, 0, 0),
            SystemColors::Scrollbar => Color(192, 192, 192),
            SystemColors::ButtonFace => Color(192, 192, 192),
            SystemColors::ButtonShadow => Color(128, 128, 128),
            SystemColors::ButtonText => Color(0, 0, 0),
            SystemColors::GrayText => Color(192, 192, 192),
            SystemColors::Highlight => Color(0, 0, 128),
            SystemColors::HighlightText => Color(255, 255, 255),
            SystemColors::InactiveCaptionText => Color(0, 0, 0),
            SystemColors::ButtonHighlight => Color(255, 255, 255),
            SystemColors::CaptionText => Color(255, 255, 255),
            SystemColors::ActiveBorder => Color(192, 192, 192),
            SystemColors::InactiveBorder => Color(192, 192, 192),
        }
    }

    /// Always succeeds.
    fn init_app(&self, _arg1: u16) -> (r: Result<ReturnValue, EmulatorError>)
        ensures
            r == Ok::<ReturnValue, EmulatorError>(ReturnValue::U16(1)),
    {
        Ok(ReturnValue::U16(1))
    }

    /// Every window belongs to the one task there is.
    fn process_id(&self) -> (r: ProcessId)
        ensures
            r.0 == 0,
    {
        ProcessId::null()
    }

    /// Dialog boxes are not shown: always 0.
    fn dialog_box(&self, _h_instance: Handle, _template: Pointer, _h_wnd_parent: Handle, _dialog_func: u32) -> (r:
        Result<ReturnValue, EmulatorError>)
        ensures
            r == Ok::<ReturnValue, EmulatorError>(ReturnValue::U16(0)),
    {
        Ok(ReturnValue::U16(0))
    }

    /// No string resource is loaded: always 0.
    fn load_string(&self, _h_instance: Handle, _uid: u16, _buffer: Pointer, _buffer_max: u16) -> (r: Result<
        ReturnValue,
        EmulatorError,
    >)
        ensures
            r == Ok::<ReturnValue, EmulatorError>(ReturnValue::U16(0)),
    {
        Ok(ReturnValue::U16(0))
    }

    /// No cursor is loaded: always the null handle.
    fn load_cursor(&self, _h_instance: Handle, _cursor_name: u32) -> (r: Result<ReturnValue, EmulatorError>)
        ensures
            r == Ok::<ReturnValue, EmulatorError>(ReturnValue::U16(0)),
    {
        Ok(ReturnValue::U16(Handle::null().as_u16()))
    }

    /// 1 for metric 0x16 (a debug version is installed), 0 for every other metric.
    fn get_system_metrics(&self, metric: u16) -> (r: Result<ReturnValue, EmulatorError>)
        ensures
            r == Ok::<ReturnValue, EmulatorError>(
                ReturnValue::U16(
                    if metric == 0x16 {
                        1
                    } else {
                        0
                    },
                ),
            ),
    {
        if metric == 0x16 {
            // 1 if debug version is installed, 0 otherwise
            Ok(ReturnValue::U16(1))
        } else {
            Ok(ReturnValue::U16(0))
        }
    }

    /// The default window procedure does nothing: always 0.
    fn def_window_proc(&self, _h_wnd: Handle, _msg: u16, _w_param: u16, _l_param: u32) -> (r: Result<
        ReturnValue,
        EmulatorError,
    >)
        ensures
            r == Ok::<ReturnValue, EmulatorError>(ReturnValue::U16(0)),
    {
        Ok(ReturnValue::U16(0))
    }

    /// Calls the window procedure `proc` with a message (see `wndproc_frame`): the return
    /// address, a slot for the value of the system call, the arguments and the far return
    /// into the trampoline go on the stack, and CS:IP moves to `proc`.
    fn call_wndproc_sync(accessor: &mut EmulatorAccessor, proc: SegmentAndOffset, h_wnd: Handle, message: MessageType, w_param: u16, l_param: u32) -> (r: Result<(), EmulatorError>)
        requires
            old(accessor).wf(),
        ensures
            final(accessor).wf(),
            ({
                let regs = old(accessor).regs@;
                let first = wndproc_first(regs, old(accessor).memory@);
                let frame = wndproc_frame(
                    regs,
                    old(accessor).memory@,
                    h_wnd.id(),
                    message_number(message),
                    w_param,
                    l_param,
                );
                &&& final(accessor).memory@ == frame.2
                &&& r.is_ok() == frame.0
                &&& r.is_ok() ==> final(accessor).regs@ == (RegistersView {
                    ip: proc.offset,
                    segments: frame.1.segments.update(Registers::REG_CS as int, proc.segment),
                    ..frame.1
                })
                &&& r.is_err() ==> final(accessor).regs@ == frame.1 && r == Err::<(), EmulatorError>(
                    EmulatorError::OutOfBounds,
                )
                &&& final(accessor).delayed_return_slot == if first.0 {
                    Some(stack_top(sp_lowered(first.1)) as u32)
                } else {
                    old(accessor).delayed_return_slot
                }
            }),
            (r.is_ok(), (final(accessor).regs@, final(accessor).memory@, final(accessor).delayed_return_slot))
                == wndproc_call(
                (old(accessor).regs@, old(accessor).memory@, old(accessor).delayed_return_slot),
                proc,
                h_wnd.id(),
                message_number(message),
                w_param,
                l_param,
            ),
    {
        let ghost regs = accessor.regs@;
        let ghost mem = accessor.memory@;
        let ghost w = wndproc_words(regs, h_wnd.id(), message_number(message), w_param, l_param);
        accessor.far_call_into_proc_setup()?;
        let ghost s1 = (true, accessor.regs@, accessor.memory@);
        assert(s1 == (true, sp_lowered(wndproc_first(regs, mem).1), wndproc_first(regs, mem).2));
        let r1 = accessor.push_16(h_wnd.as_u16());
        let ghost s2 = push_step(s1, w[0]);
        assert(s2 == (r1.is_ok(), accessor.regs@, accessor.memory@));
        r1?;
        let r2 = accessor.push_16(message.as_u16());
        let ghost s3 = push_step(s2, w[1]);
        assert(s3 == (r2.is_ok(), accessor.regs@, accessor.memory@));
        r2?;
        let r3 = accessor.push_16(w_param);
        let ghost s4 = push_step(s3, w[2]);
        assert(s4 == (r3.is_ok(), accessor.regs@, accessor.memory@));
        r3?;
        assert((l_param >> 16u32) as u16 == (l_param / 65536) as u16) by (bit_vector);
        assert(l_param as u16 == (l_param % 65536) as u16) by (bit_vector);
        let r4 = accessor.push_16((l_param >> 16) as u16);
        let ghost s5 = push_step(s4, w[3]);
        assert(s5 == (r4.is_ok(), accessor.regs@, accessor.memory@));
        r4?;
        let r5 = accessor.push_16(l_param as u16);
        let ghost s6 = push_step(s5, w[4]);
        assert(s6 == (r5.is_ok(), accessor.regs@, accessor.memory@));
        r5?;
        assert(accessor.regs@.segments == regs.segments);
        accessor.far_call_into_proc_execute(proc.segment, proc.offset)
    }

    /// Creates a window of the class named by the string at `class_name`: registers it in
    /// the user table, links it to its parent (a non-null parent must be a window), gives
    /// it a place on screen and sends it `Create`. Returns its handle, to be delivered
    /// when the window procedure returns, or 0 when the class is unknown, no handle is
    /// left or the parent is no window.
    #[verifier::spinoff_prover]
    fn create_window(
        &self,
        accessor: &mut EmulatorAccessor,
        objects: &mut ObjectEnvironment,
        class_name: Pointer,
        _window_name: HeapByteString,
        _style: u32,
        x: u16,
        y: u16,
        width: u16,
        height: u16,
        h_wnd_parent: Handle,
        _h_menu: Handle,
        _h_instance: Handle,
        _param: Pointer,
    ) -> (r: Result<ReturnValue, EmulatorError>)
        requires
            self.wf(),
            old(accessor).wf(),
            old(objects).wf(),
        ensures
            final(accessor).wf(),
            final(objects).wf(),
            window_made(
                *self,
                *old(accessor),
                *final(accessor),
                *old(objects),
                *final(objects),
                class_name.0,
                x,
                y,
                width,
                height,
                h_wnd_parent,
                r,
            ),
    {
        let ghost mem = accessor.memory@;
        let ghost ptr = class_name.0 as int;
        proof {
            accessor.regs.lemma_lengths();
        }
        let class_name = accessor.static_string(class_name.0)?;
        proof {
            let k = choose|k: int| #[trigger] is_string_end(mem, ptr, k) && class_name@ == mem.subrange(ptr, k);
            lemma_string_end_unique(mem, ptr, k);
        }
        // A class atom (segment 0) is not looked up
        let index = match self.find_class(class_name.as_slice()) {
            Some(i) => i,
            None => {
                return Ok(ReturnValue::U16(Handle::null().as_u16()));
            },
        };
        proof {
            self.lemma_class_at(index as int, class_name@);
        }
        let class = &self.window_classes[index].1;
        let parent_dc = class.style.contains(ClassStyles::PARENT_DC);
        let proc = class.proc;
        let user_window = UserWindow::new(proc, parent_dc, h_wnd_parent);
        let window_handle: Handle = match objects.user.register(UserObject::Window(user_window)) {
            Some(h) => h,
            None => {
                return Ok(ReturnValue::U16(Handle::null().as_u16()));
            },
        };
        let ghost h = window_handle.id();
        let ghost registered = objects.user.table();
        if h_wnd_parent.as_u16() != Handle::null().as_u16() {
            match objects.user.take(h_wnd_parent) {
                Some(UserObject::Window(mut parent_window)) => {
                    parent_window.children.push(window_handle);
                    objects.user.restore(h_wnd_parent, UserObject::Window(parent_window));
                },
                None => {
                    objects.user.deregister(window_handle);
                    proof {
                        assert(objects.user.table() =~= old(objects).user.table().remove(h));
                    }
                    return Ok(ReturnValue::U16(Handle::null().as_u16()));
                },
            }
        }
        proof {
            assert(objects.user.table().dom() =~= old(objects).user.table().dom().insert(h));
            assert(window_handle == Handle(h));
        }
        let identifier = WindowIdentifier { window_handle, process_id: self.process_id() };
        objects.write_window_manager().create_window(
            identifier,
            x as i16,
            y as i16,
            width as i16,
            height as i16,
            parent_dc,
        );
        // The long parameter should point to a CREATESTRUCT describing the window
        let sent = Self::call_wndproc_sync(accessor, proc, window_handle, MessageType::Create, 0, 0);
        proof {
            accessor.regs.lemma_lengths();
        }
        match sent {
            Ok(()) => Ok(ReturnValue::DelayedU16(window_handle.as_u16())),
            Err(e) => Err(e),
        }
    }

    /// Brings the window `h_wnd` to the front; 1 when it is a window, 0 otherwise.
    fn show_window(&self, objects: &mut ObjectEnvironment, h_wnd: Handle, _cmd_show: u16) -> (r: Result<
        ReturnValue,
        EmulatorError,
    >)
        requires
            old(objects).wf(),
        ensures
            final(objects).wf(),
            window_shown(*old(objects), *final(objects), h_wnd, r),
    {
        let is_window = match objects.user.get(h_wnd) {
            Some(UserObject::Window(_)) => true,
            None => false,
        };
        let success = if is_window {
            // The show command is not taken into account
            let identifier = WindowIdentifier { window_handle: h_wnd, process_id: self.process_id() };
            objects.write_window_manager().show_window(identifier);
            true
        } else {
            false
        };
        Ok(ReturnValue::U16(
            if success {
                1
            } else {
                0
            },
        ))
    }

    /// Sends `Paint` to the children of `h_wnd`, deepest first, then to `h_wnd`; `depth`
    /// bounds the nesting. True when `h_wnd` is a window and its call was set up.
    fn recursive_window_paint(&self, accessor: &mut EmulatorAccessor, objects: &ObjectEnvironment, h_wnd: Handle, depth: u32) -> (r: bool)
        requires
            old(accessor).wf(),
        ensures
            final(accessor).wf(),
            (r, (final(accessor).regs@, final(accessor).memory@, final(accessor).delayed_return_slot))
                == paint_tree(
                objects.user.table(),
                h_wnd,
                depth as nat,
                (old(accessor).regs@, old(accessor).memory@, old(accessor).delayed_return_slot),
            ),
            !is_window(objects.user.table(), h_wnd.id()) ==> *final(accessor) == *old(accessor),
        decreases depth,
    {
        match objects.user.get(h_wnd) {
            Some(UserObject::Window(user_window)) => {
                let ghost table = objects.user.table();
                let ghost children = user_window.children@;
                let ghost start = (accessor.regs@, accessor.memory@, accessor.delayed_return_slot);
                let mut i: usize = 0;
                while i < user_window.children.len()
                    invariant
                        accessor.wf(),
                        table == objects.user.table(),
                        children == user_window.children@,
                        0 <= i <= children.len(),
                        paint_children(table, children, 0, depth as nat, start) == paint_children(
                            table,
                            children,
                            i as int,
                            depth as nat,
                            (accessor.regs@, accessor.memory@, accessor.delayed_return_slot),
                        ),
                    decreases user_window.children@.len() - i,
                {
                    if depth > 0 {
                        self.recursive_window_paint(accessor, objects, user_window.children[i], depth - 1);
                    }
                    i = i + 1;
                }
                // The update region is not taken into account
                Self::call_wndproc_sync(accessor, user_window.proc, h_wnd, MessageType::Paint, 0, 0).is_ok()
            },
            None => false,
        }
    }

    /// Paints the window `h_wnd` and its children; whether it was a window, delivered
    /// when the window procedures return.
    fn update_window(&self, accessor: &mut EmulatorAccessor, objects: &ObjectEnvironment, h_wnd: Handle) -> (r: Result<
        ReturnValue,
        EmulatorError,
    >)
        requires
            old(accessor).wf(),
        ensures
            final(accessor).wf(),
            window_updated(*old(accessor), *final(accessor), *objects, h_wnd, r),
    {
        let success = self.recursive_window_paint(accessor, objects, h_wnd, MAX_WINDOW_DEPTH);
        Ok(ReturnValue::DelayedU16(
            if success {
                1
            } else {
                0
            },
        ))
    }

    /// Registers the class that the WNDCLASS at `wnd_class_ptr` describes under its name,
    /// and an atom for the name. Returns the atom; 0 when no atom is left, and 0 too when
    /// a class of that name existed: it is replaced and the atom is given up.
    #[verifier::spinoff_prover]
    fn register_class(&mut self, accessor: &EmulatorAccessor, wnd_class_ptr: Pointer) -> (r: Result<
        ReturnValue,
        EmulatorError,
    >)
        requires
            old(self).wf(),
            accessor.wf(),
            wnd_class_ptr.0 + 26 <= u32::MAX,
        ensures
            final(self).wf(),
            class_registration(*old(self), *final(self), *accessor, wnd_class_ptr.0, r),
    {
        let ghost mem = accessor.memory@;
        let ptr = wnd_class_ptr.0;
        let memory = accessor.memory();
        let wnd_class_style = memory.read_u16(ptr)?;
        let wnd_class_proc_offset = memory.read_u16(ptr + 2)?;
        let wnd_class_proc_segment = memory.read_u16(ptr + 4)?;
        let wnd_class_cls_extra = memory.read_u16(ptr + 6)?;
        let wnd_class_wnd_extra = memory.read_u16(ptr + 8)?;
        let _wnd_class_h_instance = memory.read_u16(ptr + 10)?;
        let wnd_class_h_icon = memory.read_u16(ptr + 12)?;
        let wnd_class_h_cursor = memory.read_u16(ptr + 14)?;
        let wnd_class_h_background = memory.read_u16(ptr + 16)?;
        let wnd_class_menu_name = memory.flat_pointer_read(ptr + 18)?;
        let wnd_class_class_name = memory.flat_pointer_read(ptr + 22)?;

        assert(wnd_class_class_name as int == class_name_ptr(mem, ptr as int));
        assert(wnd_class_menu_name as int == menu_name_ptr(mem, ptr as int));
        assert(ptr + 26 <= MEMORY_SIZE);
        let cloned_class_name = accessor.clone_string(wnd_class_class_name, false)?;
        assert(has_string_end(mem, class_name_ptr(mem, ptr as int)));
        proof {
            let k = choose|k: int|
                #[trigger] is_string_end(mem, wnd_class_class_name as int, k) && cloned_class_name@
                    == mem.subrange(wnd_class_class_name as int, k);
            lemma_string_end_unique(mem, wnd_class_class_name as int, k);
        }
        let atom_name = ByteString::Heaped(cloned_class_name.duplicate());
        let atom = match self.user_atom_table.register(atom_name) {
            Some(a) => a,
            None => {
                return Ok(ReturnValue::U16(0));
            },
        };
        let ghost after_atom = self.user_atom_table.table();
        let menu_class_name = if wnd_class_menu_name != 0 {
            let menu = accessor.clone_string(wnd_class_menu_name, false);
            match menu {
                Ok(m) => {
                    proof {
                        let k = choose|k: int|
                            #[trigger] is_string_end(mem, wnd_class_menu_name as int, k) && m@
                                == mem.subrange(wnd_class_menu_name as int, k);
                        lemma_string_end_unique(mem, wnd_class_menu_name as int, k);
                    }
                    Some(m)
                },
                Err(e) => {
                    proof {
                        let a = atom.id();
                        assert(self.atoms() == old(self).atoms().insert(a, self.atoms()[a]));
                        assert(atom_step(old(self).atom_bits(), self.atom_bits(), a));
                        assert(1 <= a <= 1312);
                        assert(menu_name_ptr(mem, ptr as int) != 0);
                        assert(!has_string_end(mem, menu_name_ptr(mem, ptr as int)));
                        assert(self.classes() == old(self).classes());
                        assert(self.atoms().contains_key(a));
                        assert(self.atoms()[a]@ == string_at(mem, class_name_ptr(mem, ptr as int)));
                        assert(class_registered(*old(self), *self, mem, ptr as int, Err(e), a));
                    }
                    return Err(e);
                },
            }
        } else {
            None
        };
        let window_class = WindowClass {
            style: ClassStyles::from_bits_truncate(wnd_class_style),
            proc: SegmentAndOffset { segment: wnd_class_proc_segment, offset: wnd_class_proc_offset },
            cls_extra: wnd_class_cls_extra,
            wnd_extra: wnd_class_wnd_extra,
            h_icon: Handle(wnd_class_h_icon),
            h_cursor: Handle(wnd_class_h_cursor),
            h_background: Handle(wnd_class_h_background),
            menu_class_name,
        };
        let ghost name = cloned_class_name@;
        let ghost new_class = window_class;
        assert(self.classes() == old(self).classes());
        assert(class_described(new_class, mem, ptr as int));
        assert(name == string_at(mem, class_name_ptr(mem, ptr as int)));
        match self.find_class(cloned_class_name.as_slice()) {
            None => {
                assert(!old(self).has_class(name));
                self.window_classes.push((cloned_class_name, window_class));
                proof {
                    let n = old(self).classes().len() as int;
                    assert(self.classes() =~= old(self).classes().push((name, new_class)));
                    assert forall|x: int, y: int| 0 <= x < y < self.classes().len() implies #[trigger] self.classes()[x].0
                        != #[trigger] self.classes()[y].0 by {
                        if y == n {
                            if old(self).classes()[x].0 == name {
                                assert(old(self).has_class(name));
                            }
                        } else {
                            assert(old(self).classes()[x].0 != old(self).classes()[y].0);
                        }
                    }
                    assert(atom_step(old(self).atom_bits(), self.atom_bits(), atom.id()));
                    self.lemma_class_at(n, name);
                    assert forall|nm: Seq<u8>| nm != name implies #[trigger] self.has_class(nm)
                        == old(self).has_class(nm) && (old(self).has_class(nm) ==> self.class(nm)
                        == old(self).class(nm)) by {
                        if old(self).has_class(nm) {
                            let k = choose|k: int|
                                0 <= k < old(self).classes().len() && #[trigger] old(self).classes()[k].0 == nm;
                            assert(self.classes()[k].0 == nm);
                            old(self).lemma_class_at(k, nm);
                            self.lemma_class_at(k, nm);
                        }
                        if self.has_class(nm) {
                            let k = choose|k: int|
                                0 <= k < self.classes().len() && #[trigger] self.classes()[k].0 == nm;
                            assert(k != n);
                            assert(old(self).classes()[k].0 == nm);
                        }
                    }
                    assert(self.atoms() == old(self).atoms().insert(atom.id(), self.atoms()[atom.id()]));
                    assert(class_registered(*old(self), *self, mem, ptr as int, Ok(ReturnValue::U16(atom.id())), atom.id()));
                }
                Ok(ReturnValue::U16(atom.as_u16()))
            },
            Some(i) => {
                self.window_classes.set(i, (cloned_class_name, window_class));
                self.user_atom_table.deregister(atom);
                proof {
                    assert(self.classes() =~= old(self).classes().update(i as int, (name, new_class)));
                    old(self).lemma_class_at(i as int, name);
                    self.lemma_class_at(i as int, name);
                    assert forall|nm: Seq<u8>| nm != name implies #[trigger] self.has_class(nm)
                        == old(self).has_class(nm) && (old(self).has_class(nm) ==> self.class(nm)
                        == old(self).class(nm)) by {
                        if old(self).has_class(nm) {
                            let k = choose|k: int|
                                0 <= k < old(self).classes().len() && #[trigger] old(self).classes()[k].0 == nm;
                            assert(self.classes()[k].0 == nm);
                            old(self).lemma_class_at(k, nm);
                            self.lemma_class_at(k, nm);
                        }
                        if self.has_class(nm) {
                            let k = choose|k: int|
                                0 <= k < self.classes().len() && #[trigger] self.classes()[k].0 == nm;
                            assert(old(self).classes()[k].0 == nm);
                        }
                    }
                    assert(self.atoms() =~= old(self).atoms().remove(atom.id()));
                    assert(atom_step(old(self).atom_bits(), self.atom_bits(), atom.id()));
                    assert(old(self).has_class(name));
                    assert(self.has_class(name));
                    assert(class_described(self.class(name), mem, ptr as int));
                    assert(self.wf());
                    assert(class_registered(*old(self), *self, mem, ptr as int, Ok(ReturnValue::U16(0)), atom.id()));
                }
                Ok(ReturnValue::U16(0))
            },
        }
    }

    /// Takes the oldest message for `h_wnd` from its queue: 0 for `Quit`, 1 for another
    /// message, 0xFFFF when there is none or `h_wnd` is no window. Filters are not applied.
    fn get_message(&self, objects: &mut ObjectEnvironment, _msg: u32, h_wnd: Handle, _msg_filter_min: u16, _msg_filter_max: u16) -> (r: Result<
        ReturnValue,
        EmulatorError,
    >)
        requires
            old(objects).wf(),
        ensures
            final(objects).wf(),
            message_taken(*old(objects), *final(objects), h_wnd, r),
    {
        let message = match objects.user.take(h_wnd) {
            Some(UserObject::Window(mut user_window)) => {
                let m = user_window.message_queue.receive(h_wnd);
                objects.user.restore(h_wnd, UserObject::Window(user_window));
                proof {
                    assert(objects.user.table().dom() =~= old(objects).user.table().dom());
                }
                m
            },
            None => {
                proof {
                    assert(objects.user.table() =~= old(objects).user.table());
                }
                None
            },
        };
        // Filters and a null window are not taken into account; the message is not written
        let return_value: u16 = match message {
            Some(message) => if message.message == MessageType::Quit {
                0
            } else {
                1
            },
            None => 0xffff,
        };
        proof {
            if old(objects).user.table().contains_key(h_wnd.id()) {
                let w = old(objects).user.table()[h_wnd.id()]->Window_0;
                let q = w.message_queue@;
                assert forall|k: int| #[trigger] is_first_match(q, h_wnd, k) implies k == choose|k2: int| is_first_match(q, h_wnd, k2) by {
                    let k2 = choose|k2: int| is_first_match(q, h_wnd, k2);
                    if k2 != k {
                        if k2 < k {
                            assert(!passes_filter(q[k2], h_wnd));
                        } else {
                            assert(!passes_filter(q[k], h_wnd));
                        }
                    }
                }
            }
        }
        Ok(ReturnValue::U16(return_value))
    }

    /// Copies the format string to the output buffer (no formatting is done); 0.
    fn wsprintf(&self, accessor: &mut EmulatorAccessor, format_string_ptr: Pointer, output_buffer_ptr: Pointer) -> (r: Result<
        ReturnValue,
        EmulatorError,
    >)
        requires
            old(accessor).wf(),
        ensures
            final(accessor).wf(),
            string_printed(*old(accessor), *final(accessor), format_string_ptr.0, output_buffer_ptr.0, r),
    {
        accessor.copy_string(format_string_ptr.0, output_buffer_ptr.0)?;
        Ok(ReturnValue::U16(0))
    }

    /// Makes a device context for painting the window `h_wnd` (see
    /// `paint_context_matches`): its handle, the erase flag (false) and the paint rectangle
    /// (0, 0, 200, 200). `None` when `h_wnd` is no window or no GDI handle is left.
    fn begin_paint(&self, objects: &mut ObjectEnvironment, h_wnd: Handle) -> (r: Option<Paint>)
        requires
            old(objects).wf(),
        ensures
            final(objects).wf(),
            final(objects).user == old(objects).user,
            final(objects).window_manager == old(objects).window_manager,
            !is_window(old(objects).user.table(), h_wnd.id()) ==> r is None && final(objects).gdi == old(objects).gdi,
            is_window(old(objects).user.table(), h_wnd.id()) ==> (r is None <==> exhausted(old(objects).gdi.free_bits())),
            r is None ==> final(objects).gdi.table() == old(objects).gdi.table() && final(objects).gdi.free_bits()
                == old(objects).gdi.free_bits(),
            r matches Some(p) ==> {
                &&& is_window(old(objects).user.table(), h_wnd.id())
                &&& allocation_step(old(objects).gdi.free_bits(), final(objects).gdi.free_bits(), Some(p.hdc.id() as usize))
                &&& 1 <= p.hdc.id() <= 1312
                &&& !p.f_erase
                &&& p.rect == (Rect { left: 0, top: 0, right: 200, bottom: 200 })
                &&& final(objects).gdi.table() == old(objects).gdi.table().insert(p.hdc.id(), final(objects).gdi.table()[p.hdc.id()])
                &&& final(objects).gdi.table()[p.hdc.id()] matches GdiObject::DC(dc) && paint_context_matches(
                    dc,
                    old(objects).user.table()[h_wnd.id()]->Window_0,
                    h_wnd.id(),
                    window_position(*old(objects), h_wnd.id()),
                )
            },
    {
        let (bitmap_window_identifier, translation) = match objects.user.get(h_wnd) {
            Some(UserObject::Window(user_window)) => {
                let window_identifier = WindowIdentifier { process_id: self.process_id(), window_handle: h_wnd };
                if user_window.parent_dc {
                    // Nested windows drawn on their parents are not handled
                    let translation = match objects.read_window_manager().position_of(window_identifier) {
                        Some(p) => p,
                        None => Point::origin(),
                    };
                    (window_identifier.other_handle(user_window.parent_handle), translation)
                } else {
                    (window_identifier, Point::origin())
                }
            },
            None => {
                return None;
            },
        };
        let dc = DeviceContext::new(bitmap_window_identifier, translation);
        match objects.gdi.register(GdiObject::DC(dc)) {
            Some(hdc) => {
                // The erase flag and the paint rectangle are fixed
                Some(Paint { hdc, f_erase: false, rect: Rect { left: 0, top: 0, right: 200, bottom: 200 } })
            },
            None => None,
        }
    }

    /// Forgets the device context `hdc`; 1.
    fn end_paint(&self, objects: &mut ObjectEnvironment, _h_wnd: Handle, hdc: Handle) -> (r: u16)
        requires
            old(objects).wf(),
        ensures
            final(objects).wf(),
            r == 1,
            final(objects).user == old(objects).user,
            final(objects).window_manager == old(objects).window_manager,
            final(objects).gdi.table() == old(objects).gdi.table().remove(hdc.id()),
    {
        // The front and back bitmaps of the window are not flipped
        objects.gdi.deregister(hdc);
        1
    }

    /// BeginPaint for the program: the PAINTSTRUCT at `paint_ptr` gets the context handle
    /// as its first word; the erase flag and the four rectangle words all go to the word
    /// after it, so the bottom edge (200) stays there. Returns the context handle, or 0
    /// (memory untouched) when no context was made.
    #[verifier::spinoff_prover]
    fn internal_begin_paint(&self, accessor: &mut EmulatorAccessor, objects: &mut ObjectEnvironment, h_wnd: Handle, paint_ptr: Pointer) -> (r: Result<
        ReturnValue,
        EmulatorError,
    >)
        requires
            old(accessor).wf(),
            old(objects).wf(),
            paint_ptr.0 + 3 <= u32::MAX,
        ensures
            final(accessor).wf(),
            final(objects).wf(),
            paint_begun(*old(accessor), *final(accessor), *old(objects), *final(objects), h_wnd, paint_ptr.0, r),
    {
        match self.begin_paint(objects, h_wnd) {
            Some(paint) => {
                let p = paint_ptr.0;
                let hdc = paint.hdc.as_u16();
                let memory = accessor.memory_mut();
                proof {
                    assert(allocation_step(old(objects).gdi.free_bits(), objects.gdi.free_bits(), Some(hdc as usize)));
                }
                memory.write_u16(p, hdc)?;
                memory.write_8(p + 2, if paint.f_erase { 1 } else { 0 })?;
                memory.write_i16(p + 2, paint.rect.left)?;
                memory.write_i16(p + 2, paint.rect.top)?;
                memory.write_i16(p + 2, paint.rect.right)?;
                memory.write_i16(p + 2, paint.rect.bottom)?;
                proof {
                    let m0 = old(accessor).memory@;
                    let m1 = with_word(m0, p as int, hdc);
                    assert(memory@ =~= with_word(m1, p + 2, 200));
                }
                Ok(ReturnValue::U16(hdc))
            },
            None => Ok(ReturnValue::U16(0)),
        }
    }

    /// EndPaint for the program: forgets the context named by the first word of the
    /// PAINTSTRUCT at `paint`; 1.
    fn internal_end_paint(&self, accessor: &EmulatorAccessor, objects: &mut ObjectEnvironment, h_wnd: Handle, paint: Pointer) -> (r: Result<
        ReturnValue,
        EmulatorError,
    >)
        requires
            accessor.wf(),
            old(objects).wf(),
        ensures
            final(objects).wf(),
            paint_ended(*accessor, *old(objects), *final(objects), paint.0, r),
    {
        // The front and back bitmaps of the window are not flipped
        let handle = accessor.memory().read_u16(paint.0)?;
        Ok(ReturnValue::U16(self.end_paint(objects, h_wnd, Handle(handle))))
    }

    /// Fills the rectangle stored at `rect` with the solid brush `h_brush` on the bitmap
    /// of the context `h_dc`; nothing is drawn when either is of another kind. 1.
    #[verifier::spinoff_prover]
    fn fill_rect(&self, accessor: &EmulatorAccessor, objects: &mut ObjectEnvironment, h_dc: Handle, rect: Pointer, h_brush: Handle) -> (r: Result<
        ReturnValue,
        EmulatorError,
    >)
        requires
            accessor.wf(),
            old(objects).wf(),
            rect.0 + 8 <= u32::MAX,
        ensures
            final(objects).wf(),
            rect_filled_by(*accessor, *old(objects), *final(objects), h_dc, rect.0, h_brush, r),
    {
        let rect = accessor.read_rect(rect.0)?;
        let color = match objects.gdi.get(h_brush) {
            Some(GdiObject::SolidBrush(color)) => *color,
            _ => {
                return Ok(ReturnValue::U16(1));
            },
        };
        let ghost before = *objects;
        match objects.paint_bitmap_for_dc_handle(h_dc) {
            Some((id, mut view)) => {
                let ghost taken = *objects;
                let ghost lent = view.bitmap();
                view.bitmap_mut().fill_rectangle(rect, color);
                let ghost filled = view.bitmap();
                objects.return_paint_bitmap(id, view);
                proof {
                    let dc = device_context_of(before.gdi.table(), h_dc)->0;
                    let t = dc.translation;
                    let ob = before.window_manager.window(id).front_bitmap->0;
                    let old_entries = before.window_manager.entries();
                    let new_entries = objects.window_manager.entries();
                    assert forall|i: int| 0 <= i < old_entries.len() implies {
                        &&& new_entries[i].0 == old_entries[i].0
                        &&& old_entries[i].0 != id ==> new_entries[i] == old_entries[i]
                        &&& old_entries[i].0 == id ==> {
                            &&& new_entries[i].1.position == old_entries[i].1.position
                            &&& new_entries[i].1.width == old_entries[i].1.width
                            &&& new_entries[i].1.height == old_entries[i].1.height
                            &&& old_entries[i].1.front_bitmap is Some
                            &&& new_entries[i].1.front_bitmap is Some
                            &&& new_entries[i].1.front_bitmap->0.rectangle_filled(
                                &old_entries[i].1.front_bitmap->0,
                                t,
                                rect,
                                color,
                            )
                        }
                    } by {
                        assert(taken.window_manager.entries()[i] == if old_entries[i].0 == id {
                            (id, crate::window_manager::with_front_bitmap(old_entries[i].1, None))
                        } else {
                            old_entries[i]
                        });
                        if old_entries[i].0 == id {
                            before.window_manager.lemma_window_at(i, id);
                            let nb = new_entries[i].1.front_bitmap->0;
                            assert(old_entries[i].1.front_bitmap == Some(ob));
                            assert(crate::window_manager::bitmap_ready(ob));
                            assert(lent.translation() == t);
                            assert forall|x: int, y: int|
                                0 <= x < ob.spec_width() && 0 <= y < ob.spec_height() implies #[trigger] nb.pixel_at(
                                    x,
                                    y,
                                ) == if ob.in_rect(t, rect, x, y) {
                                    color
                                } else {
                                    ob.pixel_at(x, y)
                                } by {
                                assert(nb.pixel_at(x, y) == filled.pixel_at(x, y));
                                assert(lent.pixel_at(x, y) == ob.pixel_at(x, y));
                                assert(filled.pixel_at(x, y) == if lent.clip_x(rect.left as int) <= x
                                    < lent.clip_x(rect.right as int) && lent.clip_y(rect.top as int) <= y
                                    < lent.clip_y(rect.bottom as int) {
                                    color
                                } else {
                                    lent.pixel_at(x, y)
                                });
                            }
                        }
                    }
                }
            },
            None => {},
        }
        Ok(ReturnValue::U16(1))
    }

    /// Draws a push button that fills `containing_rect`: a black frame, a white highlight
    /// at the top and left, a gray shadow at the right and bottom, and the face.
    #[verifier::spinoff_prover]
    fn draw_button(&self, bitmap: &mut Bitmap, containing_rect: Rect)
        requires
            old(bitmap).wf(),
        ensures
            final(bitmap).wf(),
            button_drawn(*old(bitmap), *final(bitmap), old(bitmap).translation(), containing_rect),
    {
        let right = containing_rect.right;
        let bottom = containing_rect.bottom;
        let frame = self.get_system_color(SystemColors::WindowFrame);
        let highlight = self.get_system_color(SystemColors::ButtonHighlight);
        let shadow = self.get_system_color(SystemColors::ButtonShadow);
        let right_1 = saturating_sub_i16(right, 1);
        let right_2 = saturating_sub_i16(right, 2);
        let right_3 = saturating_sub_i16(right, 3);
        let bottom_1 = saturating_sub_i16(bottom, 1);
        let bottom_2 = saturating_sub_i16(bottom, 2);
        let bottom_3 = saturating_sub_i16(bottom, 3);
        let ghost ob = *old(bitmap);
        let ghost t = ob.translation();
        // Black rounded frame
        bitmap.draw_horizontal_line(1, 0, right.wrapping_sub(1), frame);
        let ghost b1 = *bitmap;
        bitmap.draw_horizontal_line(1, bottom_1, right_1, frame);
        let ghost b2 = *bitmap;
        bitmap.draw_vertical_line(0, 1, bottom_1, frame);
        let ghost b3 = *bitmap;
        bitmap.draw_vertical_line(right_1, 1, bottom_1, frame);
        let ghost b4 = *bitmap;
        // Highlight top
        bitmap.draw_horizontal_line(1, 1, right_1, highlight);
        let ghost b5 = *bitmap;
        bitmap.draw_horizontal_line(1, 2, right_2, highlight);
        let ghost b6 = *bitmap;
        // Highlight left
        bitmap.draw_vertical_line(1, 3, bottom_1, highlight);
        let ghost b7 = *bitmap;
        bitmap.draw_vertical_line(2, 3, bottom_2, highlight);
        let ghost b8 = *bitmap;
        // Shadow right
        bitmap.draw_vertical_line(right_2, 1, bottom_3, shadow);
        let ghost b9 = *bitmap;
        bitmap.draw_vertical_line(right_3, 2, bottom_3, shadow);
        let ghost b10 = *bitmap;
        // Shadow bottom
        bitmap.draw_horizontal_line(2, bottom_3, right_1, shadow);
        let ghost b11 = *bitmap;
        bitmap.draw_horizontal_line(1, bottom_2, right_1, shadow);
        let ghost b12 = *bitmap;
        // Face
        let bg_rect = containing_rect.shrink(3);
        bitmap.fill_rectangle(bg_rect, self.get_system_color(SystemColors::ButtonFace));
        proof {
            assert forall|x: int, y: int|
                0 <= x < ob.spec_width() && 0 <= y < ob.spec_height() implies #[trigger] bitmap.pixel_at(x, y)
                == match button_color(ob, t, containing_rect, x, y) {
                Some(c) => c,
                None => ob.pixel_at(x, y),
            } by {
                assert(b1.pixel_at(x, y) == if on_row(ob, t, 1, 0, right.wrapping_sub(1) as int, x, y) {
                    frame
                } else {
                    ob.pixel_at(x, y)
                });
                assert(b2.pixel_at(x, y) == if on_row(ob, t, 1, bottom_1 as int, right_1 as int, x, y) {
                    frame
                } else {
                    b1.pixel_at(x, y)
                });
                assert(b3.pixel_at(x, y) == if on_column(ob, t, 0, 1, bottom_1 as int, x, y) {
                    frame
                } else {
                    b2.pixel_at(x, y)
                });
                assert(b4.pixel_at(x, y) == if on_column(ob, t, right_1 as int, 1, bottom_1 as int, x, y) {
                    frame
                } else {
                    b3.pixel_at(x, y)
                });
                assert(b5.pixel_at(x, y) == if on_row(ob, t, 1, 1, right_1 as int, x, y) {
                    highlight
                } else {
                    b4.pixel_at(x, y)
                });
                assert(b6.pixel_at(x, y) == if on_row(ob, t, 1, 2, right_2 as int, x, y) {
                    highlight
                } else {
                    b5.pixel_at(x, y)
                });
                assert(b7.pixel_at(x, y) == if on_column(ob, t, 1, 3, bottom_1 as int, x, y) {
                    highlight
                } else {
                    b6.pixel_at(x, y)
                });
                assert(b8.pixel_at(x, y) == if on_column(ob, t, 2, 3, bottom_2 as int, x, y) {
                    highlight
                } else {
                    b7.pixel_at(x, y)
                });
                assert(b9.pixel_at(x, y) == if on_column(ob, t, right_2 as int, 1, bottom_3 as int, x, y) {
                    shadow
                } else {
                    b8.pixel_at(x, y)
                });
                assert(b10.pixel_at(x, y) == if on_column(ob, t, right_3 as int, 2, bottom_3 as int, x, y) {
                    shadow
                } else {
                    b9.pixel_at(x, y)
                });
                assert(b11.pixel_at(x, y) == if on_row(ob, t, 2, bottom_3 as int, right_1 as int, x, y) {
                    shadow
                } else {
                    b10.pixel_at(x, y)
                });
                assert(b12.pixel_at(x, y) == if on_row(ob, t, 1, bottom_2 as int, right_1 as int, x, y) {
                    shadow
                } else {
                    b11.pixel_at(x, y)
                });
            }
        }
    }

    /// The window procedure of buttons: on `Paint` it draws the button over the client
    /// area of `h_wnd` (an empty area if the window manager does not know it). 0.
    #[verifier::spinoff_prover]
    fn button_window_proc(&self, objects: &mut ObjectEnvironment, h_wnd: Handle, msg: u16, _w_param: u16, _l_param: u32) -> (r: Result<
        ReturnValue,
        EmulatorError,
    >)
        requires
            old(objects).wf(),
        ensures
            final(objects).wf(),
            button_proc_done(*old(objects), *final(objects), h_wnd, msg, r),
    {
        if msg == MessageType::Paint.as_u16() {
            // Paint button
            let ghost before = *objects;
            match self.begin_paint(objects, h_wnd) {
                Some(paint) => {
                    let ghost begun = *objects;
                    let identifier = WindowIdentifier { process_id: self.process_id(), window_handle: h_wnd };
                    let containing_rect = match objects.read_window_manager().client_rect_of(identifier) {
                        Some(rect) => rect,
                        None => Rect::zero(),
                    };
                    match objects.paint_bitmap_for_dc_handle(paint.hdc) {
                        Some((id, mut view)) => {
                            let ghost taken = *objects;
                            let ghost lent = view.bitmap();
                            self.draw_button(view.bitmap_mut(), containing_rect);
                            let ghost drawn = view.bitmap();
                            objects.return_paint_bitmap(id, view);
                            proof {
                                let w = before.user.table()[h_wnd.id()]->Window_0;
                                let t = paint_translation(w, window_position(before, h_wnd.id()));
                                let rect = client_rect(before.window_manager, window_id(h_wnd.id()));
                                assert(containing_rect == rect);
                                let dc = begun.gdi.table()[paint.hdc.id()]->DC_0;
                                assert(device_context_of(begun.gdi.table(), paint.hdc) == Some(dc));
                                assert(id == paint_target(w, h_wnd.id()));
                                assert(dc.translation == t);
                                let ob = before.window_manager.window(id).front_bitmap->0;
                                assert(lent.translation() == t);
                                lemma_button_kept(ob, lent, drawn, t, rect);
                                before.window_manager.lemma_redrawn(
                                    taken.window_manager.entries(),
                                    objects.window_manager.entries(),
                                    id,
                                    drawn,
                                    |ob: Bitmap, nb: Bitmap| button_drawn(ob, nb, t, rect),
                                );
                            }
                        },
                        None => {},
                    }
                    self.end_paint(objects, h_wnd, paint.hdc);
                },
                None => {},
            }
        }
        Ok(ReturnValue::U16(0))
    }

    fn handle_argument(accessor: &EmulatorAccessor, nr: u32) -> (r: Result<Handle, EmulatorError>)
        requires
            accessor.wf(),
            nr <= 64,
        ensures
            match word_arg(accessor.regs@, accessor.memory@, nr as int) {
                Some(w) => r == Ok::<Handle, EmulatorError>(Handle(w)),
                None => r == Err::<Handle, EmulatorError>(EmulatorError::OutOfBounds),
            },
    {
        let w = accessor.word_argument(nr)?;
        Ok(Handle(w))
    }

    fn pointer_argument(accessor: &EmulatorAccessor, nr: u32) -> (r: Result<Pointer, EmulatorError>)
        requires
            accessor.wf(),
            nr <= 63,
        ensures
            match pointer_arg(accessor.regs@, accessor.memory@, nr as int) {
                Some(p) => r == Ok::<Pointer, EmulatorError>(Pointer(p)) && p <= 0x10FFEF,
                None => r == Err::<Pointer, EmulatorError>(EmulatorError::OutOfBounds),
            },
    {
        let p = accessor.pointer_argument(nr)?;
        Ok(Pointer(p))
    }

    /// Runs user procedure `nr` with its arguments on the stack. An unknown procedure is
    /// `Unsupported` and changes nothing; a procedure whose arguments lie outside memory
    /// is `OutOfBounds`.
    #[verifier::spinoff_prover]
    pub fn syscall(&mut self, nr: u16, accessor: &mut EmulatorAccessor, objects: &mut ObjectEnvironment) -> (r: Result<
        ReturnValue,
        EmulatorError,
    >)
        requires
            old(self).wf(),
            old(accessor).wf(),
            old(objects).wf(),
        ensures
            final(self).wf(),
            final(accessor).wf(),
            final(objects).wf(),
            user_call(nr, *old(self), *final(self), *old(accessor), *final(accessor), *old(objects), *final(objects), r),
    {
        match nr {
            5 => {
                let arg1 = accessor.word_argument(0)?;
                self.init_app(arg1)
            },
            39 => {
                let paint_ptr = Self::pointer_argument(accessor, 0)?;
                let h_wnd = Self::handle_argument(accessor, 2)?;
                self.internal_begin_paint(accessor, objects, h_wnd, paint_ptr)
            },
            40 => {
                let paint = Self::pointer_argument(accessor, 0)?;
                let h_wnd = Self::handle_argument(accessor, 2)?;
                self.internal_end_paint(accessor, objects, h_wnd, paint)
            },
            41 => {
                let param = Self::pointer_argument(accessor, 0)?;
                let h_instance = Self::handle_argument(accessor, 2)?;
                let h_menu = Self::handle_argument(accessor, 3)?;
                let h_wnd_parent = Self::handle_argument(accessor, 4)?;
                let height = accessor.word_argument(5)?;
                let width = accessor.word_argument(6)?;
                let y = accessor.word_argument(7)?;
                let x = accessor.word_argument(8)?;
                let style = accessor.dword_argument(9)?;
                let window_name_ptr = accessor.pointer_argument(11)?;
                let window_name = accessor.clone_string(window_name_ptr, false)?;
                let class_name = Self::pointer_argument(accessor, 13)?;
                self.create_window(
                    accessor,
                    objects,
                    class_name,
                    window_name,
                    style,
                    x,
                    y,
                    width,
                    height,
                    h_wnd_parent,
                    h_menu,
                    h_instance,
                    param,
                )
            },
            42 => {
                let cmd_show = accessor.word_argument(0)?;
                let h_wnd = Self::handle_argument(accessor, 1)?;
                self.show_window(objects, h_wnd, cmd_show)
            },
            57 => {
                let wnd_class_ptr = Self::pointer_argument(accessor, 0)?;
                self.register_class(accessor, wnd_class_ptr)
            },
            81 => {
                let h_brush = Self::handle_argument(accessor, 0)?;
                let rect = Self::pointer_argument(accessor, 1)?;
                let h_dc = Self::handle_argument(accessor, 3)?;
                self.fill_rect(accessor, objects, h_dc, rect, h_brush)
            },
            87 => {
                let dialog_func = accessor.dword_argument(0)?;
                let h_wnd_parent = Self::handle_argument(accessor, 2)?;
                let template = Self::pointer_argument(accessor, 3)?;
                let h_instance = Self::handle_argument(accessor, 5)?;
                self.dialog_box(h_instance, template, h_wnd_parent, dialog_func)
            },
            107 => {
                let l_param = accessor.dword_argument(0)?;
                let w_param = accessor.word_argument(2)?;
                let msg = accessor.word_argument(3)?;
                let h_wnd = Self::handle_argument(accessor, 4)?;
                self.def_window_proc(h_wnd, msg, w_param, l_param)
            },
            108 => {
                let msg_filter_max = accessor.word_argument(0)?;
                let msg_filter_min = accessor.word_argument(1)?;
                let h_wnd = Self::handle_argument(accessor, 2)?;
                let msg = accessor.dword_argument(3)?;
                self.get_message(objects, msg, h_wnd, msg_filter_min, msg_filter_max)
            },
            124 => {
                let h_wnd = Self::handle_argument(accessor, 0)?;
                self.update_window(accessor, objects, h_wnd)
            },
            173 => {
                let cursor_name = accessor.dword_argument(0)?;
                let h_instance = Self::handle_argument(accessor, 2)?;
                self.load_cursor(h_instance, cursor_name)
            },
            176 => {
                let buffer_max = accessor.word_argument(0)?;
                let buffer = Self::pointer_argument(accessor, 1)?;
                let uid = accessor.word_argument(3)?;
                let h_instance = Self::handle_argument(accessor, 4)?;
                self.load_string(h_instance, uid, buffer, buffer_max)
            },
            179 => {
                let metric = accessor.word_argument(0)?;
                self.get_system_metrics(metric)
            },
            420 => {
                let output_buffer_ptr = Self::pointer_argument(accessor, 0)?;
                let format_string_ptr = Self::pointer_argument(accessor, 2)?;
                self.wsprintf(accessor, format_string_ptr, output_buffer_ptr)
            },
            0xffff => {
                let l_param = accessor.dword_argument(0)?;
                let w_param = accessor.word_argument(2)?;
                let msg = accessor.word_argument(3)?;
                let h_wnd = Self::handle_argument(accessor, 4)?;
                self.button_window_proc(objects, h_wnd, msg, w_param, l_param)
            },
            _ => Err(EmulatorError::Unsupported),
        }
    }
}

} // verus!
