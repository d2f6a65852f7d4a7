use vstd::prelude::*;
use crate::api_helpers::{Pointer, ReturnValue};
use crate::bitmap::{Bitmap, Color, LINE_SPAN_LIMIT};
use crate::constants::{raster_op_number, DeviceCapRequest, RasterOp};
use crate::emulator_accessor::{dword_arg, pointer_arg, word_arg, EmulatorAccessor};
use crate::emulator_error::EmulatorError;
use crate::handle_table::{allocated, GenericHandle, Handle};
use crate::bitvector_allocator::allocation_step;
use crate::object_environment::{device_context_of, DeviceContext, GdiObject, GdiSelectionObjectType, ObjectEnvironment, Pen};
use crate::window_manager::bitmap_redrawn;
use crate::two_d::{Point, Rect};
use crate::util::encode_u16_u16_to_u32;

verus! {

/// The emulated GDI module.
pub struct EmulatedGdi {}

/// The GDI procedures that are emulated.
pub open spec fn gdi_handles(nr: u16) -> bool {
    nr == 2 || nr == 4 || nr == 19 || nr == 20 || nr == 27 || nr == 45 || nr == 53 || nr == 61
        || nr == 66 || nr == 68 || nr == 69 || nr == 80 || nr == 87 || nr == 119 || nr == 128
}

/// A size in pixels expressed in the unit of GetDeviceCaps' size indices.
pub open spec fn device_unit(number: int) -> int {
    (number * 1000 + 1538) / 3077
}

/// What GetDeviceCaps reports for an index.
pub open spec fn device_caps(index: u16) -> u16 {
    if index == 8 {
        800
    } else if index == 4 {
        device_unit(800) as u16
    } else if index == 10 {
        600
    } else if index == 6 {
        device_unit(600) as u16
    } else if index == 24 {
        device_unit(1) as u16
    } else {
        0
    }
}

/// MulDiv: `a * b / c` rounded half away from zero, or -1 when `c` is 0 or the quotient
/// does not fit in 16 bits.
pub open spec fn muldiv_spec(a: i16, b: i16, c: i16) -> i16 {
    let mul = a * b;
    let half = if c >= 0 {
        c / 2
    } else {
        -((-c) / 2)
    };
    let adjusted = if mul < 0 {
        mul - half
    } else {
        mul + half
    };
    if c == 0 {
        -1i16
    } else {
        let q = if (adjusted >= 0) == (c > 0) {
            (if adjusted >= 0 {
                adjusted
            } else {
                -adjusted
            }) / (if c > 0 {
                c as int
            } else {
                -c
            })
        } else {
            -((if adjusted >= 0 {
                adjusted
            } else {
                -adjusted
            }) / (if c > 0 {
                c as int
            } else {
                -c
            }))
        };
        if i16::MIN <= q <= i16::MAX {
            q as i16
        } else {
            -1i16
        }
    }
}

/// The selection kind of a GDI object.
pub open spec fn selection_type_of(obj: Option<GdiObject>) -> GdiSelectionObjectType {
    match obj {
        Some(GdiObject::SolidBrush(_)) => GdiSelectionObjectType::SolidBrush,
        Some(GdiObject::Pen(_)) => GdiSelectionObjectType::Pen,
        _ => GdiSelectionObjectType::Invalid,
    }
}

/// The table after a registration that returned handle number `h`: unchanged for 0,
/// else `obj` stored under the fresh number `h`.
pub open spec fn registered_as(before: Map<u16, GdiObject>, after: Map<u16, GdiObject>, h: u16, obj: GdiObject) -> bool {
    if h == 0 {
        after == before
    } else {
        1 <= h <= 1312 && after == before.insert(h, obj)
    }
}

/// The entry of a table, if any.
pub open spec fn entry_of<V>(table: Map<u16, V>, key: u16) -> Option<V> {
    if table.contains_key(key) {
        Some(table[key])
    } else {
        None
    }
}

/// The device context `h_dc` with its selected brush color and pen, when `h_dc` names a
/// device context whose selections name a solid brush and a pen.
pub open spec fn rectangle_tools(table: Map<u16, GdiObject>, h_dc: Handle) -> Option<(DeviceContext, Color, Pen)> {
    match device_context_of(table, h_dc) {
        Some(dc) => match (entry_of(table, dc.selected_brush.id()), entry_of(table, dc.selected_pen.id())) {
            (Some(GdiObject::SolidBrush(brush)), Some(GdiObject::Pen(pen))) => Some((dc, brush, pen)),
            _ => None,
        },
        None => None,
    }
}

/// What Rectangle does to the windows: with a context, brush and pen and a window bitmap
/// to draw on, that bitmap gets the rectangle filled with the brush and outlined with the
/// pen, moved by the context's translation; otherwise nothing changes.
pub open spec fn rectangle_drawn(before: &ObjectEnvironment, after: &ObjectEnvironment, h_dc: Handle, rect: Rect) -> bool {
    match rectangle_tools(before.gdi.table(), h_dc) {
        Some((dc, brush, pen)) => if before.window_manager.has_front_bitmap(dc.bitmap_window_identifier) {
            bitmap_redrawn(
                before.window_manager.entries(),
                after.window_manager.entries(),
                dc.bitmap_window_identifier,
                |ob: Bitmap, nb: Bitmap| nb.rectangle_painted(&ob, dc.translation, rect, brush, pen.color),
            )
        } else {
            after.window_manager.entries() == before.window_manager.entries()
        },
        None => after.window_manager.entries() == before.window_manager.entries(),
    }
}

/// The device context `hdc` with its selected pen, when `hdc` names a device context whose
/// pen selection names a pen.
pub open spec fn line_tools(table: Map<u16, GdiObject>, hdc: Handle) -> Option<(DeviceContext, Pen)> {
    match device_context_of(table, hdc) {
        Some(dc) => match entry_of(table, dc.selected_pen.id()) {
            Some(GdiObject::Pen(pen)) => Some((dc, pen)),
            _ => None,
        },
        None => None,
    }
}

/// Whether a line from `from` to `to` spans at most `LINE_SPAN_LIMIT` pixels each way.
pub open spec fn within_line_span(from: Point, to: Point) -> bool {
    &&& -LINE_SPAN_LIMIT <= to.x - from.x <= LINE_SPAN_LIMIT
    &&& -LINE_SPAN_LIMIT <= to.y - from.y <= LINE_SPAN_LIMIT
}

/// What LineTo does: with a context, its pen and a window bitmap to draw on, a line in the
/// pen's color goes from the bitmap's current position to `to`, both moved by the
/// context's translation (no pixel changes when the line would be too long), and `to`
/// becomes the context's position; otherwise nothing changes.
pub open spec fn line_to_done(before: &ObjectEnvironment, after: &ObjectEnvironment, hdc: Handle, to: Point) -> bool {
    match line_tools(before.gdi.table(), hdc) {
        Some((dc, pen)) => if before.window_manager.has_front_bitmap(dc.bitmap_window_identifier) {
            &&& bitmap_redrawn(
                before.window_manager.entries(),
                after.window_manager.entries(),
                dc.bitmap_window_identifier,
                |ob: Bitmap, nb: Bitmap|
                    if within_line_span(ob.moved_to(), to) {
                        nb.line_drawn(&ob, dc.translation, ob.moved_to(), to, pen.color)
                    } else {
                        nb.same_frame(&ob) && nb.pixels() == ob.pixels()
                    },
            )
            &&& after.gdi.table() == before.gdi.table().insert(
                hdc.id(),
                GdiObject::DC(DeviceContext { position: to, ..dc }),
            )
        } else {
            after.window_manager.entries() == before.window_manager.entries() && after.gdi.table()
                == before.gdi.table()
        },
        None => after.window_manager.entries() == before.window_manager.entries() && after.gdi.table()
            == before.gdi.table(),
    }
}

/// CreateSolidBrush: a brush of `color` under a fresh handle, which is returned (0 when
/// none is left).
pub open spec fn brush_created(before: ObjectEnvironment, after: ObjectEnvironment, color: u32, r: Result<ReturnValue, EmulatorError>) -> bool {
    &&& after.user == before.user
    &&& after.window_manager == before.window_manager
    &&& r matches Ok(ReturnValue::U16(h)) && registered_as(
        before.gdi.table(),
        after.gdi.table(),
        h,
        GdiObject::SolidBrush(Color::from_spec(color)),
    ) && handle_allocated(before, after, h)
}

/// The GDI allocator gave the handle `h`: 0 stands for none, which is given only when
/// no handle number is left.
pub open spec fn handle_allocated(before: ObjectEnvironment, after: ObjectEnvironment, h: u16) -> bool {
    allocation_step(
        before.gdi.free_bits(),
        after.gdi.free_bits(),
        if h == 0 {
            None
        } else {
            Some(h as usize)
        },
    )
}

/// CreatePen: a pen of `color` and `width` (at least 1) under a fresh handle, which is
/// returned (0 when none is left).
pub open spec fn pen_created(before: ObjectEnvironment, after: ObjectEnvironment, width: u16, color: u32, r: Result<ReturnValue, EmulatorError>) -> bool {
    &&& after.user == before.user
    &&& after.window_manager == before.window_manager
    &&& r matches Ok(ReturnValue::U16(h)) && registered_as(
        before.gdi.table(),
        after.gdi.table(),
        h,
        GdiObject::Pen(Pen { width: if width < 1 { 1 } else { width }, color: Color::from_spec(color) }),
    ) && handle_allocated(before, after, h)
}

/// DeleteObject: `handle` is forgotten; 1 when it named an object, else 0.
pub open spec fn object_deleted(before: ObjectEnvironment, after: ObjectEnvironment, handle: Handle, r: Result<ReturnValue, EmulatorError>) -> bool {
    &&& after.user == before.user
    &&& after.window_manager == before.window_manager
    &&& after.gdi.table() =~= before.gdi.table().remove(handle.id())
    &&& r == Ok::<ReturnValue, EmulatorError>(
        ReturnValue::U16(
            if before.gdi.table().contains_key(handle.id()) {
                1
            } else {
                0
            },
        ),
    )
}

/// SelectObject: a brush or pen `object` becomes the context's brush or pen and the one it
/// replaces is returned; another object selects nothing and gives 0, as does a `hdc` that
/// is no context.
pub open spec fn object_selected(before: ObjectEnvironment, after: ObjectEnvironment, hdc: Handle, object: Handle, r: Result<ReturnValue, EmulatorError>) -> bool {
    let t = selection_type_of(entry_of(before.gdi.table(), object.id()));
    &&& after.user == before.user
    &&& after.window_manager == before.window_manager
    &&& after.gdi.free_bits() == before.gdi.free_bits()
    &&& match entry_of(before.gdi.table(), hdc.id()) {
        Some(GdiObject::DC(dc)) => r == Ok::<ReturnValue, EmulatorError>(
            ReturnValue::U16(
                match t {
                    GdiSelectionObjectType::SolidBrush => dc.selected_brush.id(),
                    GdiSelectionObjectType::Pen => dc.selected_pen.id(),
                    GdiSelectionObjectType::Invalid => 0,
                },
            ),
        ) && after.gdi.table() =~= before.gdi.table().insert(
            hdc.id(),
            GdiObject::DC(
                match t {
                    GdiSelectionObjectType::SolidBrush => DeviceContext { selected_brush: object, ..dc },
                    GdiSelectionObjectType::Pen => DeviceContext { selected_pen: object, ..dc },
                    GdiSelectionObjectType::Invalid => dc,
                },
            ),
        ),
        _ => r == Ok::<ReturnValue, EmulatorError>(ReturnValue::U16(0)) && after.gdi.table()
            =~= before.gdi.table(),
    }
}

/// Rectangle: see `rectangle_drawn`; 1.
pub open spec fn rectangle_done(before: ObjectEnvironment, after: ObjectEnvironment, h_dc: Handle, rect: Rect, r: Result<ReturnValue, EmulatorError>) -> bool {
    &&& after.user == before.user
    &&& after.gdi == before.gdi
    &&& after.window_manager.stack() == before.window_manager.stack()
    &&& rectangle_drawn(&before, &after, h_dc, rect)
    &&& r == Ok::<ReturnValue, EmulatorError>(ReturnValue::U16(1))
}

/// MoveTo: the context's position becomes `p` and the previous one is returned (x in the
/// low word, y in the high word); 0 when `hdc` is no context.
pub open spec fn moved_to(before: ObjectEnvironment, after: ObjectEnvironment, hdc: Handle, p: Point, r: Result<ReturnValue, EmulatorError>) -> bool {
    &&& after.user == before.user
    &&& after.window_manager == before.window_manager
    &&& match entry_of(before.gdi.table(), hdc.id()) {
        Some(GdiObject::DC(dc)) => r == Ok::<ReturnValue, EmulatorError>(
            ReturnValue::U32(((dc.position.y as u16) * 65536 + (dc.position.x as u16)) as u32),
        ) && after.gdi.table() =~= before.gdi.table().insert(
            hdc.id(),
            GdiObject::DC(DeviceContext { position: p, ..dc }),
        ),
        _ => r == Ok::<ReturnValue, EmulatorError>(ReturnValue::U32(0)) && after.gdi.table()
            =~= before.gdi.table(),
    }
}

/// LineTo: see `line_to_done`; 1.
pub open spec fn line_drawn_to(before: ObjectEnvironment, after: ObjectEnvironment, hdc: Handle, to: Point, r: Result<ReturnValue, EmulatorError>) -> bool {
    &&& after.user == before.user
    &&& after.window_manager.stack() == before.window_manager.stack()
    &&& line_to_done(&before, &after, hdc, to)
    &&& r == Ok::<ReturnValue, EmulatorError>(ReturnValue::U16(1))
}

/// SetROP2: for a context and an operation from 1 to 16, the operation is set and the
/// previous one returned; otherwise 0 and nothing changes.
pub open spec fn rop2_set(before: ObjectEnvironment, after: ObjectEnvironment, hdc: Handle, rop2: u16, r: Result<ReturnValue, EmulatorError>) -> bool {
    &&& after.user == before.user
    &&& after.window_manager == before.window_manager
    &&& match entry_of(before.gdi.table(), hdc.id()) {
        Some(GdiObject::DC(dc)) => if 1 <= rop2 <= 16 {
            &&& r == Ok::<ReturnValue, EmulatorError>(ReturnValue::U16(raster_op_number(dc.raster_op)))
            &&& after.gdi.table() =~= before.gdi.table().insert(hdc.id(), after.gdi.table()[hdc.id()])
            &&& (after.gdi.table()[hdc.id()] matches GdiObject::DC(new_dc) && new_dc == (DeviceContext {
                raster_op: new_dc.raster_op,
                ..dc
            }) && raster_op_number(new_dc.raster_op) == rop2)
        } else {
            r == Ok::<ReturnValue, EmulatorError>(ReturnValue::U16(0)) && after.gdi.table() =~= before.gdi.table()
        },
        _ => r == Ok::<ReturnValue, EmulatorError>(ReturnValue::U16(0)) && after.gdi.table() =~= before.gdi.table(),
    }
}

/// GetStockObject: indices up to 16 give their number plus one, others 0.
pub open spec fn stock_object(index: u16) -> u16 {
    if index > 16 {
        0
    } else {
        (index + 1) as u16
    }
}

/// GDI procedure `nr` run with the arguments on the stack of `acc`: its value `r` and the
/// objects `after` it. An argument that cannot be read gives `OutOfBounds` and changes
/// nothing; an unknown procedure gives `Unsupported` and changes nothing.
pub open spec fn gdi_call(nr: u16, acc: EmulatorAccessor, before: ObjectEnvironment, after: ObjectEnvironment, r: Result<ReturnValue, EmulatorError>) -> bool {
    let a = |i: int| word_arg(acc.regs@, acc.memory@, i);
    let failed = r == Err::<ReturnValue, EmulatorError>(EmulatorError::OutOfBounds) && after == before;
    let answer = |v: u16| r == Ok::<ReturnValue, EmulatorError>(ReturnValue::U16(v)) && after == before;
    if nr == 2 {
        if a(0) is Some && a(1) is Some { answer(1) } else { failed }
    } else if nr == 4 {
        match (a(0), a(1)) {
            (Some(rop2), Some(h)) => rop2_set(before, after, Handle(h), rop2, r),
            _ => failed,
        }
    } else if nr == 19 {
        match (a(0), a(1), a(2)) {
            (Some(y), Some(x), Some(h)) => line_drawn_to(before, after, Handle(h), Point { x: x as i16, y: y as i16 }, r),
            _ => failed,
        }
    } else if nr == 20 {
        match (a(0), a(1), a(2)) {
            (Some(y), Some(x), Some(h)) => moved_to(before, after, Handle(h), Point { x: x as i16, y: y as i16 }, r),
            _ => failed,
        }
    } else if nr == 27 {
        match (a(0), a(1), a(2), a(3), a(4)) {
            (Some(bottom), Some(right), Some(top), Some(left), Some(h)) => rectangle_done(
                before,
                after,
                Handle(h),
                Rect { left: left as i16, top: top as i16, right: right as i16, bottom: bottom as i16 },
                r,
            ),
            _ => failed,
        }
    } else if nr == 45 {
        match (a(0), a(1)) {
            (Some(object), Some(h)) => object_selected(before, after, Handle(h), Handle(object), r),
            _ => failed,
        }
    } else if nr == 53 {
        if pointer_arg(acc.regs@, acc.memory@, 0) is Some && pointer_arg(acc.regs@, acc.memory@, 2) is Some
            && pointer_arg(acc.regs@, acc.memory@, 4) is Some && pointer_arg(acc.regs@, acc.memory@, 6) is Some {
            answer(0)
        } else {
            failed
        }
    } else if nr == 61 {
        match (dword_arg(acc.regs@, acc.memory@, 0), a(2), a(3)) {
            (Some(color), Some(width), Some(_)) => pen_created(before, after, width, color, r),
            _ => failed,
        }
    } else if nr == 66 {
        match dword_arg(acc.regs@, acc.memory@, 0) {
            Some(color) => brush_created(before, after, color, r),
            None => failed,
        }
    } else if nr == 68 {
        if a(0) is Some { answer(1) } else { failed }
    } else if nr == 69 {
        match a(0) {
            Some(h) => object_deleted(before, after, Handle(h), r),
            None => failed,
        }
    } else if nr == 80 {
        match (a(0), a(1)) {
            (Some(index), Some(_)) => answer(device_caps(index)),
            _ => failed,
        }
    } else if nr == 87 {
        match a(0) {
            Some(index) => answer(stock_object(index)),
            None => failed,
        }
    } else if nr == 119 {
        if pointer_arg(acc.regs@, acc.memory@, 0) is Some { answer(0) } else { failed }
    } else if nr == 128 {
        match (a(0), a(1), a(2)) {
            (Some(c), Some(b), Some(a)) => answer(muldiv_spec(a as i16, b as i16, c as i16) as u16),
            _ => failed,
        }
    } else {
        r == Err::<ReturnValue, EmulatorError>(EmulatorError::Unsupported) && after == before
    }
}

impl EmulatedGdi {
    pub fn new() -> (r: Self) {
        Self {}
    }

    /// Device contexts cannot be created: always 0.
    fn create_dc(&self, _driver: Pointer, _device: Pointer, _port: Pointer, _pdm: Pointer) -> (r: Result<
        ReturnValue,
        EmulatorError,
    >)
        ensures
            r == Ok::<ReturnValue, EmulatorError>(ReturnValue::U16(0)),
    {
        // this always indicates failure right now
        Ok(ReturnValue::U16(0))
    }

    /// Always succeeds; the context is not removed.
    fn delete_dc(&self, _hdc: Handle) -> (r: Result<ReturnValue, EmulatorError>)
        ensures
            r == Ok::<ReturnValue, EmulatorError>(ReturnValue::U16(1)),
    {
        // this always indicates success right now
        Ok(ReturnValue::U16(1))
    }

    /// Screen size of 800 by 600 pixels, in pixels and in the size unit; more than 8 bits
    /// of color; 0 for other indices.
    fn get_device_caps(&self, _hdc: Handle, index: u16) -> (r: Result<ReturnValue, EmulatorError>)
        ensures
            r == Ok::<ReturnValue, EmulatorError>(ReturnValue::U16(device_caps(index))),
    {
        if index == DeviceCapRequest::HorzRes.as_u16() {
            // screen width in pixels
            Ok(ReturnValue::U16(800))
        } else if index == DeviceCapRequest::HorzSize.as_u16() {
            // screen width in some unit
            Ok(ReturnValue::U16(Self::convert_to_unit(800)))
        } else if index == DeviceCapRequest::VertRes.as_u16() {
            // screen height in pixels
            Ok(ReturnValue::U16(600))
        } else if index == DeviceCapRequest::VertSize.as_u16() {
            // screen height in some unit
            Ok(ReturnValue::U16(Self::convert_to_unit(600)))
        } else if index == DeviceCapRequest::NumColors.as_u16() {
            // 1 is for higher than 8bit color depths
            Ok(ReturnValue::U16(Self::convert_to_unit(1)))
        } else {

            Ok(ReturnValue::U16(0))
        }
    }

    fn convert_to_unit(number: u32) -> (r: u16)
        requires
            number <= 1000,
        ensures
            r == device_unit(number as int),
    {
        ((number * 1000 + 3077 / 2) / 3077) as u16
    }

    /// Stock objects are named by their index plus one; 0 beyond index 16.
    fn get_stock_object(&self, index: u16) -> (r: Result<ReturnValue, EmulatorError>)
        ensures
            r == Ok::<ReturnValue, EmulatorError>(ReturnValue::U16(stock_object(index))),
    {
        if index > 16 {
            Ok(ReturnValue::U16(0))
        } else {
            Ok(ReturnValue::U16(Handle::from_u16(index + 1).as_u16()))
        }
    }

    /// Fonts cannot be added: always 0.
    fn add_font_resource(&self, _pointer: Pointer) -> (r: Result<ReturnValue, EmulatorError>)
        ensures
            r == Ok::<ReturnValue, EmulatorError>(ReturnValue::U16(0)),
    {
        // this always indicates failure right now
        Ok(ReturnValue::U16(0))
    }

    /// Registers a solid brush of the given COLORREF; its handle, or 0 when no handle is
    /// left.
    fn create_solid_brush(&self, objects: &mut ObjectEnvironment, color: u32) -> (r: Result<
        ReturnValue,
        EmulatorError,
    >)
        requires
            old(objects).wf(),
        ensures
            final(objects).wf(),
            brush_created(*old(objects), *final(objects), color, r),
    {
        let color = Color::from(color);
        let handle = match objects.gdi.register(GdiObject::SolidBrush(color)) {
            Some(h) => h,
            None => Handle::null(),
        };
        Ok(ReturnValue::U16(handle.as_u16()))
    }

    /// Registers a pen (width at least 1) of the given COLORREF; its handle, or 0.
    fn create_pen(&self, objects: &mut ObjectEnvironment, _style: u16, width: u16, color: u32) -> (r: Result<
        ReturnValue,
        EmulatorError,
    >)
        requires
            old(objects).wf(),
        ensures
            final(objects).wf(),
            pen_created(*old(objects), *final(objects), width, color, r),
    {
        let width = if width < 1 {
            1
        } else {
            width
        };
        // The pen style is not taken into account.
        let color = Color::from(color);
        let handle = match objects.gdi.register(GdiObject::Pen(Pen { width, color })) {
            Some(h) => h,
            None => Handle::null(),
        };
        Ok(ReturnValue::U16(handle.as_u16()))
    }

    /// Forgets a GDI object; 1 when there was one.
    fn delete_object(&self, objects: &mut ObjectEnvironment, handle: Handle) -> (r: Result<
        ReturnValue,
        EmulatorError,
    >)
        requires
            old(objects).wf(),
        ensures
            final(objects).wf(),
            object_deleted(*old(objects), *final(objects), handle, r),
    {
        // which objects may get deleted?
        // check if it is selected into a DC, in that case: fail ?
        let removed = objects.gdi.deregister(handle);
        Ok(ReturnValue::U16(
            if removed {
                1
            } else {
                0
            },
        ))
    }

    /// `a * b / c`, rounded; -1 on division by zero or overflow (see `muldiv_spec`).
    fn muldiv(&self, a: i16, b: i16, c: i16) -> (r: Result<ReturnValue, EmulatorError>)
        ensures
            r == Ok::<ReturnValue, EmulatorError>(ReturnValue::U16(muldiv_spec(a, b, c) as u16)),
    {
        assert(-1073709056 <= (a as i32) * (b as i32) <= 1073741824) by (nonlinear_arith);
        let mul: i32 = (a as i32) * (b as i32);
        // Add half the denominator for rounding
        let mul_with_half_denominator: i32 = if mul < 0 {
            mul - (c as i32) / 2
        } else {
            mul + (c as i32) / 2
        };
        let result: i16 = match mul_with_half_denominator.checked_div(c as i32) {
            Some(q) => if q >= -32768 && q <= 32767 {
                q as i16
            } else {
                -1
            },
            None => -1,
        };
        Ok(ReturnValue::U16(result as u16))
    }

    /// The background mode is not kept: always 1.
    fn set_bk_mode(&self, _hdc: Handle, _mode: u16) -> (r: Result<ReturnValue, EmulatorError>)
        ensures
            r == Ok::<ReturnValue, EmulatorError>(ReturnValue::U16(1)),
    {
        Ok(ReturnValue::U16(1))  // old bg mode
    }

    /// Selects a brush or a pen into a device context; returns the object it replaces, or 0
    /// when `hdc` is not a context or `object` is neither a brush nor a pen.
    fn select_object(&self, objects: &mut ObjectEnvironment, hdc: Handle, object: Handle) -> (r: Result<
        ReturnValue,
        EmulatorError,
    >)
        requires
            old(objects).wf(),
        ensures
            final(objects).wf(),
            object_selected(*old(objects), *final(objects), hdc, object, r),
    {
        let selection_type = match objects.gdi.get(object) {
            Some(GdiObject::SolidBrush(_)) => GdiSelectionObjectType::SolidBrush,
            Some(GdiObject::Pen(_)) => GdiSelectionObjectType::Pen,
            _ => GdiSelectionObjectType::Invalid,
        };
        let return_value = match objects.gdi.take(hdc) {
            Some(GdiObject::DC(mut dc)) => {
                let previous = dc.select(selection_type, object);
                objects.gdi.restore(hdc, GdiObject::DC(dc));
                previous
            },
            Some(other) => {
                objects.gdi.restore(hdc, other);
                proof {
                    assert(objects.gdi.table() =~= old(objects).gdi.table());
                }
                Handle::null()
            },
            None => Handle::null(),
        };
        Ok(ReturnValue::U16(return_value.as_u16()))
    }

    /// Fills the rectangle with the context's brush and outlines it with its pen, when both
    /// are selected and exist.
    #[verifier::spinoff_prover]
    fn rectangle(&self, objects: &mut ObjectEnvironment, h_dc: Handle, left: i16, top: i16, right: i16, bottom: i16) -> (r:
        Result<ReturnValue, EmulatorError>)
        requires
            old(objects).wf(),
        ensures
            final(objects).wf(),
            rectangle_done(*old(objects), *final(objects), h_dc, Rect { top, left, bottom, right }, r),
    {
        let dc = match objects.gdi.get(h_dc) {
            Some(GdiObject::DC(dc)) => *dc,
            _ => {
                return Ok(ReturnValue::U16(1));
            },
        };
        let brush = match objects.gdi.get(dc.selected_brush) {
            Some(GdiObject::SolidBrush(brush)) => *brush,
            _ => {
                return Ok(ReturnValue::U16(1));
            },
        };
        let pen = match objects.gdi.get(dc.selected_pen) {
            Some(GdiObject::Pen(pen)) => *pen,
            _ => {
                return Ok(ReturnValue::U16(1));
            },
        };
        let ghost before = *objects;
        match objects.paint_bitmap_for_dc_handle(h_dc) {
            Some((id, mut view)) => {
                let rect = Rect { top, left, bottom, right };
                let ghost taken = *objects;
                let ghost lent = view.bitmap();
                let bitmap = view.bitmap_mut();
                bitmap.fill_rectangle(rect, brush);
                let ghost filled = *bitmap;
                bitmap.outline_rectangle(rect, &pen);
                let ghost outlined = view.bitmap();
                objects.return_paint_bitmap(id, view);
                proof {
                    let t = dc.translation;
                    let ob = before.window_manager.window(id).front_bitmap->0;
                    let old_entries = before.window_manager.entries();
                    let new_entries = objects.window_manager.entries();
                    assert forall|i: int| 0 <= i < old_entries.len() implies {
                        &&& new_entries[i].0 == old_entries[i].0
                        &&& old_entries[i].0 != id ==> new_entries[i] == old_entries[i]
                        &&& old_entries[i].0 == id ==> {
                            &&& new_entries[i].1.position == old_entries[i].1.position
                            &&& new_entries[i].1.width == old_entries[i].1.width
                            &&& new_entries[i].1.height == old_entries[i].1.height
                            &&& old_entries[i].1.front_bitmap is Some
                            &&& new_entries[i].1.front_bitmap is Some
                            &&& new_entries[i].1.front_bitmap->0.rectangle_painted(
                                &old_entries[i].1.front_bitmap->0,
                                t,
                                rect,
                                brush,
                                pen.color,
                            )
                        }
                    } by {
                        assert(taken.window_manager.entries()[i] == if old_entries[i].0 == id {
                            (id, crate::window_manager::with_front_bitmap(old_entries[i].1, None))
                        } else {
                            old_entries[i]
                        });
                        if old_entries[i].0 == id {
                            before.window_manager.lemma_window_at(i, id);
                            let nb = new_entries[i].1.front_bitmap->0;
                            assert(old_entries[i].1.front_bitmap == Some(ob));
                            assert(crate::window_manager::bitmap_ready(ob));
                            assert(lent.translation() == t);
                            assert(filled.translation() == t);
                            assert forall|x: int, y: int|
                                0 <= x < ob.spec_width() && 0 <= y < ob.spec_height() implies #[trigger] nb.pixel_at(
                                    x,
                                    y,
                                ) == if ob.on_outline(t, rect, x, y) {
                                    pen.color
                                } else if ob.in_rect(t, rect, x, y) {
                                    brush
                                } else {
                                    ob.pixel_at(x, y)
                                } by {
                                assert(nb.pixel_at(x, y) == outlined.pixel_at(x, y));
                                assert(outlined.pixel_at(x, y) == if filled.on_outline(t, rect, x, y) {
                                    pen.color
                                } else {
                                    filled.pixel_at(x, y)
                                });
                                assert(lent.pixel_at(x, y) == ob.pixel_at(x, y));
                                assert(filled.pixel_at(x, y) == if lent.clip_x(rect.left as int) <= x
                                    < lent.clip_x(rect.right as int) && lent.clip_y(rect.top as int) <= y
                                    < lent.clip_y(rect.bottom as int) {
                                    brush
                                } else {
                                    lent.pixel_at(x, y)
                                });
                            }
                        }
                    }
                }
            },
            None => {},
        }

        Ok(ReturnValue::U16(1))
    }

    /// Sets a context's current position; returns the previous one (x in the low word, y
    /// in the high word), or 0 when `hdc` is not a context.
    fn move_to(&self, objects: &mut ObjectEnvironment, hdc: Handle, x: i16, y: i16) -> (r: Result<
        ReturnValue,
        EmulatorError,
    >)
        requires
            old(objects).wf(),
        ensures
            final(objects).wf(),
            moved_to(*old(objects), *final(objects), hdc, Point { x, y }, r),
    {
        match objects.gdi.take(hdc) {
            Some(GdiObject::DC(mut dc)) => {
                let old_position = dc.position;
                dc.move_to(Point::new(x, y));
                objects.gdi.restore(hdc, GdiObject::DC(dc));
                Ok(ReturnValue::U32(encode_u16_u16_to_u32(old_position.x as u16, old_position.y as u16)))
            },
            Some(other) => {
                objects.gdi.restore(hdc, other);
                proof {
                    assert(objects.gdi.table() =~= old(objects).gdi.table());
                }
                Ok(ReturnValue::U32(0))
            },
            None => Ok(ReturnValue::U32(0)),
        }
    }

    /// Draws a line with the context's pen from the bitmap's current position to (x, y)
    /// and makes (x, y) the context's position; a line spanning more than `LINE_SPAN_LIMIT`
    /// pixels in either direction is not drawn.
    #[verifier::spinoff_prover]
    fn line_to(&self, objects: &mut ObjectEnvironment, hdc: Handle, x: i16, y: i16) -> (r: Result<
        ReturnValue,
        EmulatorError,
    >)
        requires
            old(objects).wf(),
        ensures
            final(objects).wf(),
            line_drawn_to(*old(objects), *final(objects), hdc, Point { x, y }, r),
    {
        let dc = match objects.gdi.get(hdc) {
            Some(GdiObject::DC(dc)) => *dc,
            _ => {
                return Ok(ReturnValue::U16(1));
            },
        };
        let pen = match objects.gdi.get(dc.selected_pen) {
            Some(GdiObject::Pen(pen)) => *pen,
            _ => {
                return Ok(ReturnValue::U16(1));
            },
        };
        let to = Point::new(x, y);
        let ghost before = *objects;
        match objects.paint_bitmap_for_dc_handle(hdc) {
            Some((id, mut view)) => {
                let ghost taken = *objects;
                let ghost lent = view.bitmap();
                let bitmap = view.bitmap_mut();
                let from = bitmap.current_position();
                let dx = to.x as i32 - from.x as i32;
                let dy = to.y as i32 - from.y as i32;
                if -10922 <= dx && dx <= 10922 && -10922 <= dy && dy <= 10922 {
                    bitmap.line_to(to, &pen);
                }
                let ghost drawn = view.bitmap();
                objects.return_paint_bitmap(id, view);
                let ghost returned = *objects;
                match objects.gdi.take(hdc) {
                    Some(GdiObject::DC(mut dc)) => {
                        dc.position = to;
                        objects.gdi.restore(hdc, GdiObject::DC(dc));
                    },
                    Some(other) => {
                        objects.gdi.restore(hdc, other);
                    },
                    None => {},
                }
                proof {
                    assert(objects.gdi.table() =~= before.gdi.table().insert(
                        hdc.id(),
                        GdiObject::DC(DeviceContext { position: to, ..dc }),
                    ));
                    let t = dc.translation;
                    let ob = before.window_manager.window(id).front_bitmap->0;
                    let old_entries = before.window_manager.entries();
                    let new_entries = objects.window_manager.entries();
                    assert forall|i: int| 0 <= i < old_entries.len() implies {
                        &&& new_entries[i].0 == old_entries[i].0
                        &&& old_entries[i].0 != id ==> new_entries[i] == old_entries[i]
                        &&& old_entries[i].0 == id ==> {
                            &&& new_entries[i].1.position == old_entries[i].1.position
                            &&& new_entries[i].1.width == old_entries[i].1.width
                            &&& new_entries[i].1.height == old_entries[i].1.height
                            &&& old_entries[i].1.front_bitmap is Some
                            &&& new_entries[i].1.front_bitmap is Some
                            &&& if within_line_span(old_entries[i].1.front_bitmap->0.moved_to(), to) {
                                new_entries[i].1.front_bitmap->0.line_drawn(
                                    &old_entries[i].1.front_bitmap->0,
                                    t,
                                    old_entries[i].1.front_bitmap->0.moved_to(),
                                    to,
                                    pen.color,
                                )
                            } else {
                                new_entries[i].1.front_bitmap->0.same_frame(&old_entries[i].1.front_bitmap->0)
                                    && new_entries[i].1.front_bitmap->0.pixels()
                                    == old_entries[i].1.front_bitmap->0.pixels()
                            }
                        }
                    } by {
                        assert(taken.window_manager.entries()[i] == if old_entries[i].0 == id {
                            (id, crate::window_manager::with_front_bitmap(old_entries[i].1, None))
                        } else {
                            old_entries[i]
                        });
                        if old_entries[i].0 == id {
                            before.window_manager.lemma_window_at(i, id);
                            let nb = new_entries[i].1.front_bitmap->0;
                            assert(old_entries[i].1.front_bitmap == Some(ob));
                            assert(crate::window_manager::bitmap_ready(ob));
                            assert(lent.translation() == t);
                            if within_line_span(ob.moved_to(), to) {
                                let path = crate::bitmap::line_path(ob.moved_to(), to);
                                assert forall|xx: int, yy: int|
                                    0 <= xx < ob.spec_width() && 0 <= yy < ob.spec_height() implies #[trigger] nb.pixel_at(
                                        xx,
                                        yy,
                                    ) == if ob.on_path(t, path, xx, yy) {
                                        pen.color
                                    } else {
                                        ob.pixel_at(xx, yy)
                                    } by {
                                    assert(nb.pixel_at(xx, yy) == drawn.pixel_at(xx, yy));
                                    assert(lent.pixel_at(xx, yy) == ob.pixel_at(xx, yy));
                                    crate::bitmap::lemma_on_path_same_size(ob, lent, t, path, xx, yy);
                                }
                                assert(nb.pixel_at(ob.clip_x_by(t, ob.moved_to().x as int), ob.clip_y_by(t, ob.moved_to().y as int))
                                    == drawn.pixel_at(lent.clip_x(lent.moved_to().x as int), lent.clip_y(lent.moved_to().y as int)));
                                assert(nb.pixel_at(ob.clip_x_by(t, to.x as int), ob.clip_y_by(t, to.y as int))
                                    == drawn.pixel_at(lent.clip_x(to.x as int), lent.clip_y(to.y as int)));
                            }
                        }
                    }
                }
            },
            None => {},
        }

        Ok(ReturnValue::U16(1))
    }

    /// Sets a context's raster operation (1 to 16); returns the previous one, or 0 when
    /// `hdc` is not a context or the operation is unknown.
    fn set_rop2(&self, objects: &mut ObjectEnvironment, hdc: Handle, rop2: u16) -> (r: Result<
        ReturnValue,
        EmulatorError,
    >)
        requires
            old(objects).wf(),
        ensures
            final(objects).wf(),
            rop2_set(*old(objects), *final(objects), hdc, rop2, r),
    {
        match objects.gdi.take(hdc) {
            Some(GdiObject::DC(mut dc)) => {
                match RasterOp::from_u16(rop2) {
                    Some(raster_op) => {
                        let old = dc.raster_op;
                        dc.raster_op = raster_op;
                        objects.gdi.restore(hdc, GdiObject::DC(dc));
                        Ok(ReturnValue::U16(old.as_u16()))
                    },
                    None => {
                        objects.gdi.restore(hdc, GdiObject::DC(dc));
                        proof {
                            assert(objects.gdi.table() =~= old(objects).gdi.table());
                        }
                        Ok(ReturnValue::U16(0))
                    },
                }
            },
            Some(other) => {
                objects.gdi.restore(hdc, other);
                proof {
                    assert(objects.gdi.table() =~= old(objects).gdi.table());
                }
                Ok(ReturnValue::U16(0))
            },
            None => Ok(ReturnValue::U16(0)),
        }
    }

    fn handle_argument(accessor: &EmulatorAccessor, nr: u32) -> (r: Result<Handle, EmulatorError>)
        requires
            accessor.wf(),
            nr <= 64,
        ensures
            match word_arg(accessor.regs@, accessor.memory@, nr as int) {
                Some(w) => r == Ok::<Handle, EmulatorError>(Handle(w)),
                None => r == Err::<Handle, EmulatorError>(EmulatorError::OutOfBounds),
            },
    {
        let w = accessor.word_argument(nr)?;
        Ok(Handle(w))
    }

    fn pointer_argument(accessor: &EmulatorAccessor, nr: u32) -> (r: Result<Pointer, EmulatorError>)
        requires
            accessor.wf(),
            nr <= 63,
        ensures
            match pointer_arg(accessor.regs@, accessor.memory@, nr as int) {
                Some(p) => r == Ok::<Pointer, EmulatorError>(Pointer(p)),
                None => r == Err::<Pointer, EmulatorError>(EmulatorError::OutOfBounds),
            },
    {
        let p = accessor.pointer_argument(nr)?;
        Ok(Pointer(p))
    }

    fn signed_argument(accessor: &EmulatorAccessor, nr: u32) -> (r: Result<i16, EmulatorError>)
        requires
            accessor.wf(),
            nr <= 64,
        ensures
            match word_arg(accessor.regs@, accessor.memory@, nr as int) {
                Some(w) => r == Ok::<i16, EmulatorError>(w as i16),
                None => r == Err::<i16, EmulatorError>(EmulatorError::OutOfBounds),
            },
    {
        let w = accessor.word_argument(nr)?;
        Ok(w as i16)
    }

    /// Runs GDI procedure `nr` with its arguments on the stack. An unknown procedure is
    /// `Unsupported` and changes nothing; the machine is never changed.
    #[verifier::spinoff_prover]
    pub fn syscall(&self, nr: u16, accessor: &mut EmulatorAccessor, objects: &mut ObjectEnvironment) -> (r:
        Result<ReturnValue, EmulatorError>)
        requires
            old(accessor).wf(),
            old(objects).wf(),
        ensures
            *final(accessor) == *old(accessor),
            final(objects).wf(),
            gdi_call(nr, *old(accessor), *old(objects), *final(objects), r),
    {
        match nr {
            2 => {
                let mode = accessor.word_argument(0)?;
                let hdc = Self::handle_argument(accessor, 1)?;
                self.set_bk_mode(hdc, mode)
            },
            4 => {
                let rop2 = accessor.word_argument(0)?;
                let hdc = Self::handle_argument(accessor, 1)?;
                self.set_rop2(objects, hdc, rop2)
            },
            19 => {
                let y = Self::signed_argument(accessor, 0)?;
                let x = Self::signed_argument(accessor, 1)?;
                let hdc = Self::handle_argument(accessor, 2)?;
                self.line_to(objects, hdc, x, y)
            },
            20 => {
                let y = Self::signed_argument(accessor, 0)?;
                let x = Self::signed_argument(accessor, 1)?;
                let hdc = Self::handle_argument(accessor, 2)?;
                self.move_to(objects, hdc, x, y)
            },
            27 => {
                let bottom = Self::signed_argument(accessor, 0)?;
                let right = Self::signed_argument(accessor, 1)?;
                let top = Self::signed_argument(accessor, 2)?;
                let left = Self::signed_argument(accessor, 3)?;
                let h_dc = Self::handle_argument(accessor, 4)?;
                self.rectangle(objects, h_dc, left, top, right, bottom)
            },
            45 => {
                let object = Self::handle_argument(accessor, 0)?;
                let hdc = Self::handle_argument(accessor, 1)?;
                self.select_object(objects, hdc, object)
            },
            53 => {
                let pdm = Self::pointer_argument(accessor, 0)?;
                let port = Self::pointer_argument(accessor, 2)?;
                let device = Self::pointer_argument(accessor, 4)?;
                let driver = Self::pointer_argument(accessor, 6)?;
                self.create_dc(driver, device, port, pdm)
            },
            61 => {
                let color = accessor.dword_argument(0)?;
                let width = accessor.word_argument(2)?;
                let style = accessor.word_argument(3)?;
                self.create_pen(objects, style, width, color)
            },
            66 => {
                let color = accessor.dword_argument(0)?;
                self.create_solid_brush(objects, color)
            },
            68 => {
                let hdc = Self::handle_argument(accessor, 0)?;
                self.delete_dc(hdc)
            },
            69 => {
                let handle = Self::handle_argument(accessor, 0)?;
                self.delete_object(objects, handle)
            },
            80 => {
                let index = accessor.word_argument(0)?;
                let hdc = Self::handle_argument(accessor, 1)?;
                self.get_device_caps(hdc, index)
            },
            87 => {
                let index = accessor.word_argument(0)?;
                self.get_stock_object(index)
            },
            119 => {
                let pointer = Self::pointer_argument(accessor, 0)?;
                self.add_font_resource(pointer)
            },
            128 => {
                let c = Self::signed_argument(accessor, 0)?;
                let b = Self::signed_argument(accessor, 1)?;
                let a = Self::signed_argument(accessor, 2)?;
                self.muldiv(a, b, c)
            },
            _ => Err(EmulatorError::Unsupported),
        }
    }
}

} // verus!
