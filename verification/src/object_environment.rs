use vstd::prelude::*;
use crate::bitmap::{BitmapView, Color};
use crate::constants::RasterOp;
use crate::handle_table::{GenericHandle, Handle, HandleTable};
use crate::memory::SegmentAndOffset;
use crate::message_queue::{MessageQueue, WindowMessage};
use crate::two_d::Point;
use crate::window_manager::{drawing_returned, front_bitmap_set, WindowIdentifier, WindowManager};

verus! {

/// A window as the user module sees it.
pub struct UserWindow {
    pub proc: SegmentAndOffset,
    pub parent_dc: bool,
    pub parent_handle: Handle,
    pub children: Vec<Handle>,
    pub message_queue: MessageQueue,
}

/// Objects named by user handles.
pub enum UserObject {
    Window(UserWindow),
}

/// What can be selected into a device context.
#[derive(Debug, Copy, Clone, PartialEq, Eq, Structural)]
pub enum GdiSelectionObjectType {
    SolidBrush,
    Pen,
    Invalid,
}

/// A device context: where drawing goes and with what.
#[derive(Copy, Clone)]
pub struct DeviceContext {
    pub bitmap_window_identifier: WindowIdentifier,
    pub translation: Point,
    pub selected_brush: Handle,
    pub selected_pen: Handle,
    pub position: Point,
    pub raster_op: RasterOp,
}

/// A pen; every pen draws solid lines.
#[derive(Debug, Copy, Clone)]
pub struct Pen {
    pub width: u16,
    pub color: Color,
}

/// Objects named by GDI handles.
#[derive(Copy, Clone)]
pub enum GdiObject {
    DC(DeviceContext),
    SolidBrush(Color),
    Pen(Pen),
}

/// The objects shared by the user and GDI modules, and the windows on screen.
pub struct ObjectEnvironment {
    pub user: HandleTable<UserObject>,
    pub gdi: HandleTable<GdiObject>,
    pub window_manager: WindowManager,
}

impl UserWindow {
    pub fn new(proc: SegmentAndOffset, parent_dc: bool, parent_handle: Handle) -> (r: Self)
        ensures
            r.proc == proc,
            r.parent_dc == parent_dc,
            r.parent_handle == parent_handle,
            r.children@ == Seq::<Handle>::empty(),
            r.message_queue@ == Seq::<WindowMessage>::empty(),
    {
        Self { proc, children: Vec::new(), parent_dc, parent_handle, message_queue: MessageQueue::new() }
    }
}

impl DeviceContext {
    /// A context that draws on the bitmap of the given window, moved by `translation`,
    /// with nothing selected, the position at the origin and the copy-pen raster operation.
    pub fn new(bitmap_window_identifier: WindowIdentifier, translation: Point) -> (r: Self)
        ensures
            r.bitmap_window_identifier == bitmap_window_identifier,
            r.translation == translation,
            r.selected_brush.id() == 0,
            r.selected_pen.id() == 0,
            r.position == Point::origin_spec(),
            r.raster_op == RasterOp::CopyPen,
    {
        Self {
            bitmap_window_identifier,
            translation,
            selected_brush: Handle::null(),
            selected_pen: Handle::null(),
            position: Point::origin(),
            raster_op: RasterOp::CopyPen,
        }
    }

    /// Selects `object` as the brush or the pen, returning the one it replaces; an object of
    /// another kind selects nothing and gives the null handle.
    pub fn select(&mut self, selection_type: GdiSelectionObjectType, object: Handle) -> (r: Handle)
        ensures
            selection_type == GdiSelectionObjectType::SolidBrush ==> r == old(self).selected_brush
                && final(self).selected_brush == object && final(self).selected_pen == old(self).selected_pen,
            selection_type == GdiSelectionObjectType::Pen ==> r == old(self).selected_pen
                && final(self).selected_pen == object && final(self).selected_brush == old(self).selected_brush,
            selection_type == GdiSelectionObjectType::Invalid ==> r.id() == 0
                && final(self).selected_pen == old(self).selected_pen && final(self).selected_brush
                == old(self).selected_brush,
            final(self).bitmap_window_identifier == old(self).bitmap_window_identifier,
            final(self).translation == old(self).translation,
            final(self).position == old(self).position,
            final(self).raster_op == old(self).raster_op,
    {
        match selection_type {
            GdiSelectionObjectType::SolidBrush => {
                let old_brush = self.selected_brush;
                self.selected_brush = object;
                old_brush
            },
            GdiSelectionObjectType::Pen => {
                let old_pen = self.selected_pen;
                self.selected_pen = object;
                old_pen
            },
            GdiSelectionObjectType::Invalid => Handle::null(),
        }
    }

    /// Sets the current position.
    pub fn move_to(&mut self, point: Point)
        ensures
            final(self).position == point,
            final(self).bitmap_window_identifier == old(self).bitmap_window_identifier,
            final(self).translation == old(self).translation,
            final(self).selected_brush == old(self).selected_brush,
            final(self).selected_pen == old(self).selected_pen,
            final(self).raster_op == old(self).raster_op,
    {
        self.position = point;
    }
}

/// The device context that `h_dc` names, if it names one.
pub open spec fn device_context_of(table: Map<u16, GdiObject>, h_dc: Handle) -> Option<DeviceContext> {
    if table.contains_key(h_dc.id()) {
        match table[h_dc.id()] {
            GdiObject::DC(dc) => Some(dc),
            _ => None,
        }
    } else {
        None
    }
}

impl ObjectEnvironment {
    /// Whether `h_dc` names a device context whose window has a bitmap to draw on.
    pub open spec fn can_paint(&self, h_dc: Handle) -> bool {
        match device_context_of(self.gdi.table(), h_dc) {
            Some(dc) => self.window_manager.has_front_bitmap(dc.bitmap_window_identifier),
            None => false,
        }
    }

    /// Both handle tables sound and the window manager consistent.
    pub open spec fn wf(&self) -> bool {
        &&& self.user.wf()
        &&& self.gdi.wf()
        &&& self.window_manager.wf()
    }

    /// Empty handle tables around the given window manager.
    pub fn new(window_manager: WindowManager) -> (r: Self)
        requires
            window_manager.wf(),
        ensures
            r.wf(),
            r.user.table() == Map::<u16, UserObject>::empty(),
            r.gdi.table() == Map::<u16, GdiObject>::empty(),
            r.user.free_bits() == crate::handle_table::fresh_free_bits(),
            r.gdi.free_bits() == crate::handle_table::fresh_free_bits(),
            r.window_manager == window_manager,
    {
        Self { user: HandleTable::new(), gdi: HandleTable::new(), window_manager }
    }

    /// Takes out, for drawing, the bitmap that the device context `h_dc` draws on, with the
    /// window that owns it; `None` when `h_dc` is not a device context or its window has no
    /// bitmap.
    pub fn paint_bitmap_for_dc_handle(&mut self, h_dc: Handle) -> (r: Option<(WindowIdentifier, BitmapView)>)
        requires
            old(self).wf(),
        ensures
            final(self).wf(),
            final(self).user == old(self).user,
            final(self).gdi == old(self).gdi,
            final(self).window_manager.stack() == old(self).window_manager.stack(),
            final(self).window_manager.entries().len() == old(self).window_manager.entries().len(),
            forall|i: int|
                0 <= i < final(self).window_manager.entries().len() ==> #[trigger] final(self).window_manager.entries()[i].0 == old(self).window_manager.entries()[i].0,
            r is None ==> final(self).window_manager.entries() == old(self).window_manager.entries(),
            r is None <==> !old(self).can_paint(h_dc),
            r matches Some((id, v)) ==> device_context_of(old(self).gdi.table(), h_dc) matches Some(dc)
                && dc.bitmap_window_identifier == id && v.lends(
                old(self).window_manager.window(id).front_bitmap->0,
                dc.translation,
            ),
            r matches Some((id, v)) ==> front_bitmap_set(
                old(self).window_manager.entries(),
                final(self).window_manager.entries(),
                id,
                None,
            ),
            r matches Some((id, v)) ==> v.bitmap().wf() && v.bitmap().translation()
                == v.translation() && old(self).gdi.table().contains_key(h_dc.id()) && ({
                let obj = old(self).gdi.table()[h_dc.id()];
                obj matches GdiObject::DC(dc) && dc.bitmap_window_identifier == id && dc.translation
                    == v.translation()
            }),
    {
        let dc = match self.gdi.get(h_dc) {
            Some(GdiObject::DC(dc)) => *dc,
            _ => {
                return None;
            },
        };
        match self.window_manager.paint_bitmap_for_dc(&dc) {
            Some(view) => Some((dc.bitmap_window_identifier, view)),
            None => None,
        }
    }

    /// Gives back a bitmap taken with `paint_bitmap_for_dc_handle`.
    pub fn return_paint_bitmap(&mut self, id: WindowIdentifier, view: BitmapView)
        requires
            old(self).wf(),
            view.bitmap().wf(),
            view.bitmap().translation() == view.translation(),
        ensures
            final(self).wf(),
            final(self).user == old(self).user,
            final(self).gdi == old(self).gdi,
            final(self).window_manager.stack() == old(self).window_manager.stack(),
            final(self).window_manager.entries().len() == old(self).window_manager.entries().len(),
            forall|i: int|
                0 <= i < final(self).window_manager.entries().len() ==> #[trigger] final(self).window_manager.entries()[i].0 == old(self).window_manager.entries()[i].0,
            drawing_returned(
                old(self).window_manager.entries(),
                final(self).window_manager.entries(),
                id,
                view.bitmap(),
            ),
    {
        let bitmap = view.finish();
        self.window_manager.return_paint_bitmap(id, bitmap);
    }

    pub fn read_window_manager(&self) -> (r: &WindowManager)
        ensures
            *r == self.window_manager,
    {
        &self.window_manager
    }

    pub fn write_window_manager(&mut self) -> (r: &mut WindowManager)
        ensures
            *r == old(self).window_manager,
            final(self).window_manager == *final(r),
            final(self).user == old(self).user,
            final(self).gdi == old(self).gdi,
    {
        &mut self.window_manager
    }
}

} // verus!
