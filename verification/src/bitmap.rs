use vstd::prelude::*;
use crate::object_environment::Pen;
use crate::two_d::{Point, Rect};

verus! {

/// An RGB color.
#[derive(Debug, Copy, Clone, PartialEq, Eq, Structural)]
pub struct Color(pub u8, pub u8, pub u8);

impl Color {
    /// The color of a COLORREF: red in the low byte, then green, then blue.
    pub open spec fn from_spec(color: u32) -> Color {
        Color((color % 256) as u8, ((color / 256) % 256) as u8, ((color / 65536) % 256) as u8)
    }

    /// The color of a COLORREF: red in the low byte, then green, then blue.
    pub fn from(color: u32) -> (r: Self)
        ensures
            r == Color::from_spec(color),
    {
        assert(color as u8 == color % 256) by (bit_vector);
        assert((color >> 8) as u8 == (color / 256) % 256) by (bit_vector);
        assert((color >> 16) as u8 == (color / 65536) % 256) by (bit_vector);
        Self(color as u8, (color >> 8) as u8, (color >> 16) as u8)
    }

    /// A COLORREF whose three bytes all hold the red component.
    pub fn as_u32(&self) -> (r: u32)
        ensures
            r == self.0 + self.0 * 256 + self.0 * 65536,
    {
        let r = self.0 as u32;
        let g = self.0 as u32;
        let b = self.0 as u32;
        assert(r | (g << 8) | (b << 16) == r + g * 256 + b * 65536) by (bit_vector)
            requires
                r < 256,
                g == r,
                b == r,
        ;
        r | (g << 8) | (b << 16)
    }
}

/// The color a new bitmap is filled with.
pub open spec fn background_color() -> Color {
    Color(100, 0, 100)
}

/// The points that Bresenham's walk from (x, y) to `to` visits, at most `fuel` of them:
/// `err` is the error term, `dx` the horizontal span, `dy` the vertical span negated, and
/// `sx` and `sy` the steps. Each step moves along x when twice the error is at least
/// `dy`, and along y when it is at most `dx`, both tested before either move.
pub open spec fn line_points(x: int, y: int, err: int, to: Point, dx: int, dy: int, sx: int, sy: int, fuel: nat) -> Seq<(int, int)>
    decreases fuel,
{
    if fuel == 0 {
        Seq::empty()
    } else if x == to.x && y == to.y {
        seq![(x, y)]
    } else {
        let step_x = 2 * err >= dy;
        let step_y = 2 * err <= dx;
        seq![(x, y)] + line_points(
            if step_x {
                x + sx
            } else {
                x
            },
            if step_y {
                y + sy
            } else {
                y
            },
            err + (if step_x {
                dy
            } else {
                0
            }) + (if step_y {
                dx
            } else {
                0
            }),
            to,
            dx,
            dy,
            sx,
            sy,
            (fuel - 1) as nat,
        )
    }
}

/// The points of the line from `from` to `to`, in the order Bresenham's walk visits them.
pub open spec fn line_path(from: Point, to: Point) -> Seq<(int, int)> {
    let dx: int = if to.x >= from.x {
        to.x - from.x
    } else {
        from.x - to.x
    };
    let dy: int = if to.y >= from.y {
        from.y - to.y
    } else {
        to.y - from.y
    };
    line_points(
        from.x as int,
        from.y as int,
        dx + dy,
        to,
        dx,
        dy,
        if from.x < to.x {
            1int
        } else {
            -1int
        },
        if from.y < to.y {
            1int
        } else {
            -1int
        },
        (dx - dy + 1) as nat,
    )
}

/// Side, in pixels, of every bitmap.
pub const BITMAP_SIDE: i16 = 500;

/// Number of pixels of every bitmap.
pub const BITMAP_PIXELS: usize = 250000;

/// `v` clamped to `[lo, hi]`.
pub open spec fn clamp(v: int, lo: int, hi: int) -> int {
    if v < lo {
        lo
    } else if v > hi {
        hi
    } else {
        v
    }
}

/// `a + b` with 16-bit two's complement wrap-around.
pub open spec fn wrapping_add_i16(a: int, b: int) -> int {
    let s = a + b;
    if s > i16::MAX {
        s - 0x10000
    } else if s < i16::MIN {
        s + 0x10000
    } else {
        s
    }
}

/// The edge one pixel inside `v`: `v - 1`, or `v` itself at the lowest value.
pub open spec fn inner_edge(v: i16) -> int {
    if v > i16::MIN {
        v - 1
    } else {
        v as int
    }
}

/// A pixel buffer with a drawing origin.
pub struct Bitmap {
    pixels: Vec<Color>,
    translation: Point,
    moved_to: Point,
    width: i16,
    height: i16,
}

/// A bitmap lent out for drawing through a device context, with the context's
/// translation added to its own until it is given back.
pub struct BitmapView {
    bitmap: Bitmap,
    translation: Point,
}

impl Bitmap {
    /// The pixels, row by row.
    pub closed spec fn pixels(&self) -> Seq<Color> {
        self.pixels@
    }

    pub closed spec fn translation(&self) -> Point {
        self.translation
    }

    pub closed spec fn moved_to(&self) -> Point {
        self.moved_to
    }

    pub closed spec fn spec_width(&self) -> i16 {
        self.width
    }

    pub closed spec fn spec_height(&self) -> i16 {
        self.height
    }

    /// Positive dimensions and one pixel per position.
    pub open spec fn wf(&self) -> bool {
        &&& 1 <= self.spec_width()
        &&& 1 <= self.spec_height()
        &&& self.pixels().len() == self.spec_width() * self.spec_height()
    }

    /// Index of pixel (x, y).
    pub open spec fn index_of(&self, x: int, y: int) -> int {
        y * self.spec_width() + x
    }

    /// `x` moved by the translation (wrapping) and clamped to the columns.
    pub open spec fn clip_x(&self, x: int) -> int {
        clamp(wrapping_add_i16(x, self.translation().x as int), 0, self.spec_width() - 1)
    }

    /// `y` moved by the translation (wrapping) and clamped to the rows.
    pub open spec fn clip_y(&self, y: int) -> int {
        clamp(wrapping_add_i16(y, self.translation().y as int), 0, self.spec_height() - 1)
    }

    /// `x` moved by `t` (wrapping) and clamped to the columns.
    pub open spec fn clip_x_by(&self, t: Point, x: int) -> int {
        clamp(wrapping_add_i16(x, t.x as int), 0, self.spec_width() - 1)
    }

    /// `y` moved by `t` (wrapping) and clamped to the rows.
    pub open spec fn clip_y_by(&self, t: Point, y: int) -> int {
        clamp(wrapping_add_i16(y, t.y as int), 0, self.spec_height() - 1)
    }

    /// Whether (x, y) lies inside `rect` moved by `t` and clamped, right and bottom
    /// edges excluded.
    pub open spec fn in_rect(&self, t: Point, rect: Rect, x: int, y: int) -> bool {
        &&& self.clip_x_by(t, rect.left as int) <= x < self.clip_x_by(t, rect.right as int)
        &&& self.clip_y_by(t, rect.top as int) <= y < self.clip_y_by(t, rect.bottom as int)
    }

    /// Whether (x, y) lies on the outline of `rect` moved by `t` and clamped: its top row
    /// and the row above its bottom edge, across its columns, and its left column and the
    /// column before its right edge, across its rows.
    pub open spec fn on_outline(&self, t: Point, rect: Rect, x: int, y: int) -> bool {
        let left = self.clip_x_by(t, rect.left as int);
        let right = self.clip_x_by(t, rect.right as int);
        let top = self.clip_y_by(t, rect.top as int);
        let bottom = self.clip_y_by(t, rect.bottom as int);
        ||| (y == top || y == self.clip_y_by(t, inner_edge(rect.bottom))) && left <= x < right
        ||| (x == left || x == self.clip_x_by(t, inner_edge(rect.right))) && top <= y < bottom
    }

    /// `self` is `before` with `rect`, moved by `t` and clamped, filled with `fill` and then
    /// outlined with `line`.
    pub open spec fn rectangle_painted(&self, before: &Bitmap, t: Point, rect: Rect, fill: Color, line: Color) -> bool {
        &&& self.same_frame(before)
        &&& self.pixels().len() == before.pixels().len()
        &&& forall|x: int, y: int|
            0 <= x < before.spec_width() && 0 <= y < before.spec_height() ==> #[trigger] self.pixel_at(
                x,
                y,
            ) == if before.on_outline(t, rect, x, y) {
                line
            } else if before.in_rect(t, rect, x, y) {
                fill
            } else {
                before.pixel_at(x, y)
            }
    }

    /// `self` is `before` with `rect`, moved by `t` and clamped, filled with `color`.
    pub open spec fn rectangle_filled(&self, before: &Bitmap, t: Point, rect: Rect, color: Color) -> bool {
        &&& self.same_frame(before)
        &&& self.pixels().len() == before.pixels().len()
        &&& forall|x: int, y: int|
            0 <= x < before.spec_width() && 0 <= y < before.spec_height() ==> #[trigger] self.pixel_at(
                x,
                y,
            ) == if before.in_rect(t, rect, x, y) {
                color
            } else {
                before.pixel_at(x, y)
            }
    }

    /// `self` is `before` with a line of `color` drawn from `from` to `to`, both moved by `t`
    /// and clamped: exactly the pixels of the points of `line_path(from, to)`, moved and
    /// clamped in the same way, have that color, both ends among them; every other pixel
    /// is as it was.
    pub open spec fn line_drawn(&self, before: &Bitmap, t: Point, from: Point, to: Point, color: Color) -> bool {
        &&& self.same_frame(before)
        &&& self.pixels().len() == before.pixels().len()
        &&& self.pixel_at(before.clip_x_by(t, from.x as int), before.clip_y_by(t, from.y as int)) == color
        &&& self.pixel_at(before.clip_x_by(t, to.x as int), before.clip_y_by(t, to.y as int)) == color
        &&& forall|x: int, y: int|
            0 <= x < before.spec_width() && 0 <= y < before.spec_height() ==> #[trigger] self.pixel_at(x, y)
                == if before.on_path(t, line_path(from, to), x, y) {
                color
            } else {
                before.pixel_at(x, y)
            }
    }

    /// Whether one of the points of `path`, moved by `t` and clamped, is (x, y).
    pub open spec fn on_path(&self, t: Point, path: Seq<(int, int)>, x: int, y: int) -> bool {
        exists|m: int|
            0 <= m < path.len() && #[trigger] self.clip_x_by(t, path[m].0) == x && self.clip_y_by(t, path[m].1) == y
    }

    /// Index of the pixel of point `p` moved by `t` and clamped.
    pub open spec fn point_index(&self, t: Point, p: (int, int)) -> int {
        self.index_of(self.clip_x_by(t, p.0), self.clip_y_by(t, p.1))
    }

    /// The pixels of `self` after the points of `path`, moved by `t` and clamped, are set
    /// to `color` one after the other.
    pub open spec fn painted(&self, t: Point, path: Seq<(int, int)>, color: Color) -> Seq<Color>
        decreases path.len(),
    {
        if path.len() == 0 {
            self.pixels()
        } else {
            self.painted(t, path.drop_last(), color).update(self.point_index(t, path.last()), color)
        }
    }

    /// Everything but the pixels is as in `other`.
    pub open spec fn same_frame(&self, other: &Bitmap) -> bool {
        &&& self.translation() == other.translation()
        &&& self.moved_to() == other.moved_to()
        &&& self.spec_width() == other.spec_width()
        &&& self.spec_height() == other.spec_height()
    }

    /// `self` is `before` with the pixels of row `y` from `x_start` up to `x_end` set to
    /// `color`.
    pub open spec fn row_filled(&self, before: &Bitmap, x_start: int, y: int, x_end: int, color: Color) -> bool {
        &&& self.same_frame(before)
        &&& self.pixels().len() == before.pixels().len()
        &&& forall|i: int|
            0 <= i < self.pixels().len() ==> #[trigger] self.pixels()[i] == if before.index_of(
                x_start,
                y,
            ) <= i < before.index_of(x_end, y) {
                color
            } else {
                before.pixels()[i]
            }
    }

    /// The pixel at (x, y).
    pub open spec fn pixel_at(&self, x: int, y: int) -> Color {
        self.pixels()[self.index_of(x, y)]
    }

    /// Every pixel of `self` with `x_lo <= x < x_hi` and `y_lo <= y < y_hi` is `color`;
    /// every other one is as in `before`.
    pub open spec fn all_pixels(
        &self,
        before: &Bitmap,
        x_lo: int,
        x_hi: int,
        y_lo: int,
        y_hi: int,
        color: Color,
    ) -> bool {
        forall|x: int, y: int|
            0 <= x < self.spec_width() && 0 <= y < self.spec_height() ==> #[trigger] self.pixel_at(
                x,
                y,
            ) == if x_lo <= x < x_hi && y_lo <= y < y_hi {
                color
            } else {
                before.pixel_at(x, y)
            }
    }

    /// A 500 by 500 bitmap filled with the background color; the requested size is not
    /// used yet.
    pub fn new(width: i16, height: i16) -> (r: Self)
        ensures
            r.wf(),
            r.spec_width() == BITMAP_SIDE,
            r.spec_height() == BITMAP_SIDE,
            r.pixels() == Seq::new(250000, |i: int| background_color()),
            r.translation() == Point::origin_spec(),
            r.moved_to() == Point::origin_spec(),
    {
        // remove this size hack
        let width: i16 = BITMAP_SIDE;
        let height: i16 = BITMAP_SIDE;
        let pixels = vec![Color(100, 0, 100); BITMAP_PIXELS];
        let r = Self {
            pixels,
            translation: Point::origin(),
            moved_to: Point::origin(),
            width,
            height,
        };
        assert forall|i: int| 0 <= i < 250000 implies r.pixels()[i] == background_color() by {
            assert(cloned(Color(100, 0, 100), r.pixels()[i]));
        }
        assert(r.pixels() =~= Seq::new(250000, |i: int| background_color()));
        r
    }

    /// Sets the current position, where `line_to` starts.
    pub fn move_to(&mut self, point: Point)
        ensures
            final(self).moved_to() == point,
            final(self).pixels() == old(self).pixels(),
            final(self).translation() == old(self).translation(),
            final(self).spec_width() == old(self).spec_width(),
            final(self).spec_height() == old(self).spec_height(),
    {
        self.moved_to = point;
    }

    /// Where `line_to` starts.
    pub fn current_position(&self) -> (r: Point)
        ensures
            r == self.moved_to(),
    {
        self.moved_to
    }

    /// Adds `delta` to the drawing origin.
    fn translate_by(&mut self, delta: Point)
        requires
            i16::MIN <= old(self).translation().x + delta.x <= i16::MAX,
            i16::MIN <= old(self).translation().y + delta.y <= i16::MAX,
        ensures
            final(self).translation().x == old(self).translation().x + delta.x,
            final(self).translation().y == old(self).translation().y + delta.y,
            final(self).pixels() == old(self).pixels(),
            final(self).moved_to() == old(self).moved_to(),
            final(self).spec_width() == old(self).spec_width(),
            final(self).spec_height() == old(self).spec_height(),
    {
        self.translation.add_assign(delta);
    }

    /// Subtracts `delta` from the drawing origin.
    fn untranslate_by(&mut self, delta: Point)
        requires
            i16::MIN <= old(self).translation().x - delta.x <= i16::MAX,
            i16::MIN <= old(self).translation().y - delta.y <= i16::MAX,
        ensures
            final(self).translation().x == old(self).translation().x - delta.x,
            final(self).translation().y == old(self).translation().y - delta.y,
            final(self).pixels() == old(self).pixels(),
            final(self).moved_to() == old(self).moved_to(),
            final(self).spec_width() == old(self).spec_width(),
            final(self).spec_height() == old(self).spec_height(),
    {
        self.translation.sub_assign(delta);
    }

    fn clip_and_translate_x(&self, x: i16) -> (r: i16)
        requires
            self.wf(),
        ensures
            r == self.clip_x(x as int),
    {
        let x = x.wrapping_add(self.translation.x);
        if x < 0 {
            0
        } else if x > self.width - 1 {
            self.width - 1
        } else {
            x
        }
    }

    fn clip_and_translate_y(&self, y: i16) -> (r: i16)
        requires
            self.wf(),
        ensures
            r == self.clip_y(y as int),
    {
        let y = y.wrapping_add(self.translation.y);
        if y < 0 {
            0
        } else if y > self.height - 1 {
            self.height - 1
        } else {
            y
        }
    }

    /// The rectangle moved by the translation and clamped to the bitmap, edge by edge.
    pub fn clip_and_translate_rect(&self, rect: Rect) -> (r: Rect)
        requires
            self.wf(),
        ensures
            r.left == self.clip_x(rect.left as int),
            r.top == self.clip_y(rect.top as int),
            r.right == self.clip_x(rect.right as int),
            r.bottom == self.clip_y(rect.bottom as int),
    {
        Rect {
            left: self.clip_and_translate_x(rect.left),
            top: self.clip_and_translate_y(rect.top),
            right: self.clip_and_translate_x(rect.right),
            bottom: self.clip_and_translate_y(rect.bottom),
        }
    }

    #[inline]
    pub fn width(&self) -> (r: i16)
        ensures
            r == self.spec_width(),
    {
        self.width
    }

    #[inline]
    pub fn height(&self) -> (r: i16)
        ensures
            r == self.spec_height(),
    {
        self.height
    }

    fn index_for(&self, x: i16, y: i16) -> (r: usize)
        requires
            self.wf(),
            0 <= x <= self.spec_width(),
            0 <= y < self.spec_height(),
        ensures
            r == self.index_of(x as int, y as int),
            r <= self.pixels().len(),
            x < self.spec_width() ==> r < self.pixels().len(),
    {
        proof {
            lemma_index_bound(x as int, y as int, self.spec_width() as int, self.spec_height() as int);
        }
        let _len = self.pixels.len();
        let row = (y as usize) * (self.width as usize);
        assert(row == y * self.spec_width());
        assert(row + x <= self.pixels@.len());
        row + (x as usize)
    }

    /// The pixel at (x, y), which must lie in the bitmap.
    #[inline]
    pub fn pixel_at_no_checks(&self, x: i16, y: i16) -> (r: Color)
        requires
            self.wf(),
            0 <= x < self.spec_width(),
            0 <= y < self.spec_height(),
        ensures
            r == self.pixels()[self.index_of(x as int, y as int)],
    {
        proof {
            lemma_index_bound(x as int, y as int, self.spec_width() as int, self.spec_height() as int);
        }
        self.pixels[self.index_for(x, y)]
    }

    /// Sets the pixel at the translated and clamped position.
    pub fn set_pixel(&mut self, x: i16, y: i16, color: Color)
        requires
            old(self).wf(),
        ensures
            final(self).wf(),
            final(self).same_frame(&*old(self)),
            final(self).pixels() == old(self).pixels().update(
                old(self).index_of(old(self).clip_x(x as int), old(self).clip_y(y as int)),
                color,
            ),
    {
        let x = self.clip_and_translate_x(x);
        let y = self.clip_and_translate_y(y);
        proof {
            lemma_index_bound(x as int, y as int, self.spec_width() as int, self.spec_height() as int);
        }
        let index = self.index_for(x, y);
        self.pixels[index] = color;
    }

    /// Fills row `y` from `x_start` up to `x_to` (excluded); nothing when `x_to` is not
    /// beyond `x_start`.
    fn draw_horizontal_line_unclipped_untranslated(&mut self, x_start: i16, y: i16, x_to: i16, color: Color)
        requires
            old(self).wf(),
            0 <= x_start < old(self).spec_width(),
            0 <= x_to < old(self).spec_width(),
            0 <= y < old(self).spec_height(),
        ensures
            final(self).wf(),
            final(self).row_filled(&*old(self), x_start as int, y as int, x_to as int, color),
    {
        let start_index = self.index_for(x_start, y);
        let end_index = self.index_for(x_to, y);
        let mut i = start_index;
        while i < end_index
            invariant
                start_index <= end_index ==> start_index <= i <= end_index,
                start_index > end_index ==> i == start_index,
                end_index <= self.pixels@.len(),
                self.pixels@.len() == old(self).pixels@.len(),
                self.width == old(self).width,
                self.height == old(self).height,
                self.translation == old(self).translation,
                self.moved_to == old(self).moved_to,
                forall|j: int|
                    0 <= j < self.pixels@.len() ==> #[trigger] self.pixels@[j] == if start_index <= j
                        < i {
                        color
                    } else {
                        old(self).pixels@[j]
                    },
            decreases end_index - i,
        {
            self.pixels[i] = color;
            i = i + 1;
        }
    }

    /// Sets column `x` from `y_start` up to `y_to` (excluded).
    fn draw_vertical_line_unclipped_untranslated(&mut self, x: i16, y_start: i16, y_to: i16, color: Color)
        requires
            old(self).wf(),
            0 <= x < old(self).spec_width(),
            0 <= y_start < old(self).spec_height(),
            0 <= y_to < old(self).spec_height(),
        ensures
            final(self).wf(),
            final(self).same_frame(&*old(self)),
            final(self).pixels().len() == old(self).pixels().len(),
            final(self).all_pixels(
                &*old(self),
                x as int,
                x + 1,
                y_start as int,
                y_to as int,
                color,
            ),
    {
        let mut y = y_start;
        while y < y_to
            invariant
                y_start <= y_to ==> y_start <= y <= y_to,
                y_start > y_to ==> y == y_start,
                0 <= y_start,
                0 <= x < self.spec_width(),
                0 <= y_to < self.spec_height(),
                self.wf(),
                self.same_frame(&*old(self)),
                self.pixels().len() == old(self).pixels().len(),
                self.all_pixels(&*old(self), x as int, x + 1, y_start as int, y as int, color),
            decreases y_to - y,
        {
            let ghost before = *self;
            let index = self.index_for(x, y);
            self.pixels[index] = color;
            proof {
                assert forall|xx: int, yy: int|
                    0 <= xx < self.spec_width() && 0 <= yy < self.spec_height() implies #[trigger] self.pixel_at(
                        xx,
                        yy,
                    ) == if x <= xx < x + 1 && y_start <= yy < y + 1 {
                        color
                    } else {
                        old(self).pixel_at(xx, yy)
                    } by {
                    lemma_index_injective(xx, yy, x as int, y as int, self.spec_width() as int);
                    lemma_index_bound(xx, yy, self.spec_width() as int, self.spec_height() as int);
                    assert(before.pixel_at(xx, yy) == if x <= xx < x + 1 && y_start <= yy < y {
                        color
                    } else {
                        old(self).pixel_at(xx, yy)
                    });
                }
            }
            y = y + 1;
        }
    }

    /// Sets column `x` from `y_start` up to `y_to` (excluded), all three translated and
    /// clamped.
    pub fn draw_vertical_line(&mut self, x: i16, y_start: i16, y_to: i16, color: Color)
        requires
            old(self).wf(),
        ensures
            final(self).wf(),
            final(self).same_frame(&*old(self)),
            final(self).pixels().len() == old(self).pixels().len(),
            final(self).all_pixels(
                &*old(self),
                old(self).clip_x(x as int),
                old(self).clip_x(x as int) + 1,
                old(self).clip_y(y_start as int),
                old(self).clip_y(y_to as int),
                color,
            ),
    {
        let cx = self.clip_and_translate_x(x);
        let cy_start = self.clip_and_translate_y(y_start);
        let cy_to = self.clip_and_translate_y(y_to);
        self.draw_vertical_line_unclipped_untranslated(cx, cy_start, cy_to, color)
    }

    /// Fills row `y` from `x_start` up to `x_to` (excluded), all three translated and
    /// clamped; nothing when the clamped end is not beyond the clamped start.
    pub fn draw_horizontal_line(&mut self, x_start: i16, y: i16, x_to: i16, color: Color)
        requires
            old(self).wf(),
        ensures
            final(self).wf(),
            final(self).row_filled(
                &*old(self),
                old(self).clip_x(x_start as int),
                old(self).clip_y(y as int),
                old(self).clip_x(x_to as int),
                color,
            ),
            final(self).all_pixels(
                &*old(self),
                old(self).clip_x(x_start as int),
                old(self).clip_x(x_to as int),
                old(self).clip_y(y as int),
                old(self).clip_y(y as int) + 1,
                color,
            ),
    {
        let cx_start = self.clip_and_translate_x(x_start);
        let cy = self.clip_and_translate_y(y);
        let cx_to = self.clip_and_translate_x(x_to);
        self.draw_horizontal_line_unclipped_untranslated(cx_start, cy, cx_to, color);
        proof {
            let w = self.spec_width() as int;
            assert forall|xx: int, yy: int|
                0 <= xx < self.spec_width() && 0 <= yy < self.spec_height() implies #[trigger] self.pixel_at(
                    xx,
                    yy,
                ) == if cx_start <= xx < cx_to && cy <= yy < cy + 1 {
                    color
                } else {
                    old(self).pixel_at(xx, yy)
                } by {
                lemma_index_bound(xx, yy, w, self.spec_height() as int);
                if cx_start <= cx_to {
                    lemma_row_range(xx, yy, cy as int, cx_start as int, cx_to as int, w);
                } else {
                    assert(!(cy * w + cx_start <= yy * w + xx < cy * w + cx_to));
                }
                assert(self.pixels()[yy * w + xx] == self.pixel_at(xx, yy));
            }
        }
    }

    /// Fills the translated and clamped rectangle, right and bottom edges excluded.
    pub fn fill_rectangle(&mut self, rect: Rect, color: Color)
        requires
            old(self).wf(),
        ensures
            final(self).wf(),
            final(self).same_frame(&*old(self)),
            final(self).pixels().len() == old(self).pixels().len(),
            final(self).all_pixels(
                &*old(self),
                old(self).clip_x(rect.left as int),
                old(self).clip_x(rect.right as int),
                old(self).clip_y(rect.top as int),
                old(self).clip_y(rect.bottom as int),
                color,
            ),
    {
        let rect = self.clip_and_translate_rect(rect);
        if rect.left < rect.right && rect.top < rect.bottom {
            let mut y = rect.top;
            while y < rect.bottom
                invariant
                    rect.top <= y <= rect.bottom,
                    0 <= rect.left < rect.right < self.spec_width(),
                    0 <= rect.top < rect.bottom < self.spec_height(),
                    self.wf(),
                    self.same_frame(&*old(self)),
                    self.pixels().len() == old(self).pixels().len(),
                    self.all_pixels(
                        &*old(self),
                        rect.left as int,
                        rect.right as int,
                        rect.top as int,
                        y as int,
                        color,
                    ),
                decreases rect.bottom - y,
            {
                let ghost before = *self;
                self.draw_horizontal_line_unclipped_untranslated(rect.left, y, rect.right, color);
                proof {
                    assert forall|xx: int, yy: int|
                        0 <= xx < self.spec_width() && 0 <= yy < self.spec_height() implies #[trigger] self.pixel_at(
                            xx,
                            yy,
                        ) == if rect.left <= xx < rect.right && rect.top <= yy < y + 1 {
                            color
                        } else {
                            old(self).pixel_at(xx, yy)
                        } by {
                        lemma_row_range(
                            xx,
                            yy,
                            y as int,
                            rect.left as int,
                            rect.right as int,
                            self.spec_width() as int,
                        );
                        lemma_index_bound(xx, yy, self.spec_width() as int, self.spec_height() as int);
                        assert(before.pixel_at(xx, yy) == if rect.left <= xx < rect.right && rect.top
                            <= yy < y {
                            color
                        } else {
                            old(self).pixel_at(xx, yy)
                        });
                    }
                }
                y = y + 1;
            }
        }
    }

    /// Draws the outline of the translated and clamped rectangle with the pen's color:
    /// top and bottom rows, left and right columns, inside the rectangle.
    pub fn outline_rectangle(&mut self, rect: Rect, pen: &Pen)
        requires
            old(self).wf(),
        ensures
            final(self).wf(),
            final(self).same_frame(&*old(self)),
            final(self).pixels().len() == old(self).pixels().len(),
            forall|x: int, y: int|
                0 <= x < old(self).spec_width() && 0 <= y < old(self).spec_height() ==> #[trigger] final(self).pixel_at(
                    x,
                    y,
                ) == if old(self).on_outline(old(self).translation(), rect, x, y) {
                    pen.color
                } else {
                    old(self).pixel_at(x, y)
                },
    {
        let right_edge = if rect.right > i16::MIN {
            rect.right - 1
        } else {
            rect.right
        };
        let bottom_edge = if rect.bottom > i16::MIN {
            rect.bottom - 1
        } else {
            rect.bottom
        };
        self.draw_horizontal_line(rect.left, rect.top, rect.right, pen.color);
        let ghost first = *self;
        self.draw_horizontal_line(rect.left, bottom_edge, rect.right, pen.color);
        let ghost second = *self;
        self.draw_vertical_line(rect.left, rect.top, rect.bottom, pen.color);
        let ghost third = *self;
        self.draw_vertical_line(right_edge, rect.top, rect.bottom, pen.color);
        proof {
            assert forall|x: int, y: int|
                0 <= x < old(self).spec_width() && 0 <= y < old(self).spec_height() implies #[trigger] self.pixel_at(
                    x,
                    y,
                ) == if old(self).on_outline(old(self).translation(), rect, x, y) {
                    pen.color
                } else {
                    old(self).pixel_at(x, y)
                } by {
                assert(first.pixel_at(x, y) == if old(self).clip_x(rect.left as int) <= x
                    < old(self).clip_x(rect.right as int) && old(self).clip_y(rect.top as int) <= y
                    < old(self).clip_y(rect.top as int) + 1 {
                    pen.color
                } else {
                    old(self).pixel_at(x, y)
                });
                assert(second.pixel_at(x, y) == if old(self).clip_x(rect.left as int) <= x
                    < old(self).clip_x(rect.right as int) && old(self).clip_y(bottom_edge as int) <= y
                    < old(self).clip_y(bottom_edge as int) + 1 {
                    pen.color
                } else {
                    first.pixel_at(x, y)
                });
                assert(third.pixel_at(x, y) == if old(self).clip_x(rect.left as int) <= x
                    < old(self).clip_x(rect.left as int) + 1 && old(self).clip_y(rect.top as int) <= y
                    < old(self).clip_y(rect.bottom as int) {
                    pen.color
                } else {
                    second.pixel_at(x, y)
                });
                assert(self.pixel_at(x, y) == if old(self).clip_x(right_edge as int) <= x
                    < old(self).clip_x(right_edge as int) + 1 && old(self).clip_y(rect.top as int) <= y
                    < old(self).clip_y(rect.bottom as int) {
                    pen.color
                } else {
                    third.pixel_at(x, y)
                });
            }
        }
    }

    /// Bresenham's line from `from` to `to`, both ends included, pixel by pixel through
    /// `set_pixel`.
    fn draw_line(&mut self, from: Point, to: Point, pen: &Pen)
        requires
            old(self).wf(),
            -LINE_SPAN_LIMIT <= to.x - from.x <= LINE_SPAN_LIMIT,
            -LINE_SPAN_LIMIT <= to.y - from.y <= LINE_SPAN_LIMIT,
        ensures
            final(self).wf(),
            final(self).line_drawn(&*old(self), old(self).translation(), from, to, pen.color),
    {
        let dx_raw = to.x - from.x;
        let dy_raw = to.y - from.y;
        let dx: i16 = if dx_raw < 0 {
            -dx_raw
        } else {
            dx_raw
        };
        let dy: i16 = if dy_raw < 0 {
            dy_raw
        } else {
            -dy_raw
        };
        let mut err: i16 = dx + dy;
        let sx: i16 = if from.x < to.x {
            1
        } else {
            -1
        };
        let sy: i16 = if from.y < to.y {
            1
        } else {
            -1
        };
        let mut current_x = from.x;
        let mut current_y = from.y;
        let ghost big_dy: int = -dy;
        let ghost mut i: int = 0;
        let ghost mut j: int = 0;
        let ghost t = old(self).translation();
        let ghost full = line_path(from, to);
        let ghost fuel: int = dx + big_dy + 1;
        let ghost mut visited: Seq<(int, int)> = Seq::empty();
        proof {
            assert(err == dx * (j + 1) - big_dy * (i + 1)) by (nonlinear_arith)
                requires
                    i == 0,
                    j == 0,
                    err == dx - big_dy,
            ;
            assert(current_x == from.x + i * sx) by (nonlinear_arith)
                requires
                    i == 0,
                    current_x == from.x,
            ;
            assert(current_y == from.y + j * sy) by (nonlinear_arith)
                requires
                    j == 0,
                    current_y == from.y,
            ;
        }
        loop
            invariant_except_break
                visited.len() <= i + j,
                full == visited + line_points(
                    current_x as int,
                    current_y as int,
                    err as int,
                    to,
                    dx as int,
                    dy as int,
                    sx as int,
                    sy as int,
                    (fuel - visited.len()) as nat,
                ),
            invariant
                self.wf(),
                self.same_frame(&*old(self)),
                self.pixels().len() == old(self).pixels().len(),
                0 <= dx <= LINE_SPAN_LIMIT,
                0 <= big_dy <= LINE_SPAN_LIMIT,
                dy == -big_dy,
                dx == (if to.x >= from.x {
                    to.x - from.x
                } else {
                    from.x - to.x
                }),
                big_dy == (if to.y >= from.y {
                    to.y - from.y
                } else {
                    from.y - to.y
                }),
                sx == (if from.x < to.x {
                    1int
                } else {
                    -1int
                }),
                sy == (if from.y < to.y {
                    1int
                } else {
                    -1int
                }),
                0 <= i <= dx,
                0 <= j <= big_dy,
                current_x == from.x + i * sx,
                current_y == from.y + j * sy,
                err == dx * (j + 1) - big_dy * (i + 1),
                -3 * big_dy <= 2 * err <= 3 * dx,
                forall|k: int|
                    0 <= k < self.pixels().len() ==> #[trigger] self.pixels()[k] == old(self).pixels()[k]
                        || self.pixels()[k] == pen.color,
                (i > 0 || j > 0) ==> self.pixels()[old(self).index_of(
                    old(self).clip_x(from.x as int),
                    old(self).clip_y(from.y as int),
                )] == pen.color,
                t == old(self).translation(),
                fuel == dx + big_dy + 1,
                full == line_path(from, to),
                self.pixels() == old(self).painted(t, visited, pen.color),
            ensures
                self.wf(),
                self.same_frame(&*old(self)),
                self.pixels().len() == old(self).pixels().len(),
                self.pixels()[old(self).index_of(
                    old(self).clip_x(to.x as int),
                    old(self).clip_y(to.y as int),
                )] == pen.color,
                self.pixels()[old(self).index_of(
                    old(self).clip_x(from.x as int),
                    old(self).clip_y(from.y as int),
                )] == pen.color,
                forall|k: int|
                    0 <= k < self.pixels().len() ==> #[trigger] self.pixels()[k] == old(self).pixels()[k]
                        || self.pixels()[k] == pen.color,
                full == visited,
                self.pixels() == old(self).painted(t, visited, pen.color),
            decreases (dx - i) + (big_dy - j),
        {
            let ghost before_set = *self;
            let ghost old_visited = visited;
            self.set_pixel(current_x, current_y, pen.color);
            proof {
                visited = visited.push((current_x as int, current_y as int));
                assert(visited.drop_last() =~= old_visited);
                assert(full == old_visited + line_points(
                    current_x as int,
                    current_y as int,
                    err as int,
                    to,
                    dx as int,
                    dy as int,
                    sx as int,
                    sy as int,
                    (fuel - old_visited.len()) as nat,
                ));
                lemma_index_bound(
                    old(self).clip_x(current_x as int),
                    old(self).clip_y(current_y as int),
                    old(self).spec_width() as int,
                    old(self).spec_height() as int,
                );
                lemma_index_bound(
                    old(self).clip_x(from.x as int),
                    old(self).clip_y(from.y as int),
                    old(self).spec_width() as int,
                    old(self).spec_height() as int,
                );
                assert forall|k: int|
                    0 <= k < self.pixels().len() implies #[trigger] self.pixels()[k] == old(self).pixels()[k]
                        || self.pixels()[k] == pen.color by {
                    assert(before_set.pixels()[k] == old(self).pixels()[k] || before_set.pixels()[k] == pen.color);
                }
                if i == 0 && j == 0 {
                    assert(current_x == from.x && current_y == from.y);
                }
            }
            if current_x == to.x && current_y == to.y {
                proof {
                    assert(full =~= visited);
                    lemma_index_bound(
                        old(self).clip_x(to.x as int),
                        old(self).clip_y(to.y as int),
                        old(self).spec_width() as int,
                        old(self).spec_height() as int,
                    );
                }
                break;
            }
            proof {
                if i == dx {
                    lemma_reach(i, sx as int, from.x as int, to.x as int, dx as int);
                }
                if j == big_dy {
                    lemma_reach(j, sy as int, from.y as int, to.y as int, big_dy);
                }
                lemma_line_step(dx as int, big_dy, i, j, err as int);
                if i < dx {
                    lemma_step_within(i, sx as int, from.x as int, to.x as int, dx as int);
                }
                if j < big_dy {
                    lemma_step_within(j, sy as int, from.y as int, to.y as int, big_dy);
                }
            }
            let err2 = err * 2;
            let ghost old_err = err;
            let ghost old_i = i;
            let ghost old_j = j;
            let ghost old_x = current_x;
            let ghost old_y = current_y;
            if err2 >= dy {
                err = err + dy;
                current_x = current_x + sx;
                proof {
                    i = i + 1;
                }
            }
            if err2 <= dx {
                err = err + dx;
                current_y = current_y + sy;
                proof {
                    j = j + 1;
                }
            }
            proof {
                assert(current_x == from.x + i * sx) by (nonlinear_arith)
                    requires
                        current_x == from.x + old_i * sx + (i - old_i) * sx,
                ;
                assert(current_y == from.y + j * sy) by (nonlinear_arith)
                    requires
                        current_y == from.y + old_j * sy + (j - old_j) * sy,
                ;
                assert(err == dx * (j + 1) - big_dy * (i + 1)) by (nonlinear_arith)
                    requires
                        err == old_err + (if i == old_i + 1 {
                            -big_dy
                        } else {
                            0
                        }) + (if j == old_j + 1 {
                            dx as int
                        } else {
                            0
                        }),
                        i == old_i || i == old_i + 1,
                        j == old_j || j == old_j + 1,
                        old_err == dx * (old_j + 1) - big_dy * (old_i + 1),
                ;
                let rest = line_points(
                    current_x as int,
                    current_y as int,
                    err as int,
                    to,
                    dx as int,
                    dy as int,
                    sx as int,
                    sy as int,
                    (fuel - visited.len()) as nat,
                );
                assert(line_points(
                    old_x as int,
                    old_y as int,
                    old_err as int,
                    to,
                    dx as int,
                    dy as int,
                    sx as int,
                    sy as int,
                    (fuel - visited.len() + 1) as nat,
                ) == seq![(old_x as int, old_y as int)] + rest);
                assert(full =~= visited + rest);
            }
        }
        proof {
            assert forall|x: int, y: int|
                0 <= x < old(self).spec_width() && 0 <= y < old(self).spec_height() implies #[trigger] self.pixel_at(x, y)
                == if old(self).on_path(t, line_path(from, to), x, y) {
                pen.color
            } else {
                old(self).pixel_at(x, y)
            } by {
                lemma_painted_at(*old(self), t, visited, pen.color, x, y);
            }
        }
    }

    /// Draws a line from the current position to `to`.
    pub fn line_to(&mut self, to: Point, pen: &Pen)
        requires
            old(self).wf(),
            -LINE_SPAN_LIMIT <= to.x - old(self).moved_to().x <= LINE_SPAN_LIMIT,
            -LINE_SPAN_LIMIT <= to.y - old(self).moved_to().y <= LINE_SPAN_LIMIT,
        ensures
            final(self).wf(),
            final(self).line_drawn(&*old(self), old(self).translation(), old(self).moved_to(), to, pen.color),
    {
        let from = self.moved_to;
        self.draw_line(from, to, pen)
    }
}

/// Longest span, in either direction, that a line may have: up to it, twice the 16-bit
/// error term of the walk (at most three times the span) stays in range.
pub const LINE_SPAN_LIMIT: i16 = 10922;

proof fn lemma_index_bound(x: int, y: int, w: int, h: int)
    requires
        0 <= x <= w,
        0 <= y < h,
        1 <= w,
    ensures
        y * w + x <= w * h,
        x < w ==> y * w + x < w * h,
        0 <= y * w,
{
    assert(y * w + x <= w * h && (x < w ==> y * w + x < w * h) && 0 <= y * w) by (nonlinear_arith)
        requires
            0 <= x <= w,
            0 <= y < h,
            1 <= w,
    ;
}

/// Whether a path lands on a pixel depends on the bitmap's size alone.
pub proof fn lemma_on_path_same_size(a: Bitmap, b: Bitmap, t: Point, path: Seq<(int, int)>, x: int, y: int)
    requires
        a.spec_width() == b.spec_width(),
        a.spec_height() == b.spec_height(),
    ensures
        a.on_path(t, path, x, y) == b.on_path(t, path, x, y),
{
    if a.on_path(t, path, x, y) {
        let m = choose|m: int|
            0 <= m < path.len() && #[trigger] a.clip_x_by(t, path[m].0) == x && a.clip_y_by(t, path[m].1) == y;
        assert(b.clip_x_by(t, path[m].0) == x && b.clip_y_by(t, path[m].1) == y);
    }
    if b.on_path(t, path, x, y) {
        let m = choose|m: int|
            0 <= m < path.len() && #[trigger] b.clip_x_by(t, path[m].0) == x && b.clip_y_by(t, path[m].1) == y;
        assert(a.clip_x_by(t, path[m].0) == x && a.clip_y_by(t, path[m].1) == y);
    }
}

/// Painting the points of `path` gives each pixel that one of them lands on `color`, and
/// leaves every other pixel as it was.
proof fn lemma_painted(b: Bitmap, t: Point, path: Seq<(int, int)>, color: Color)
    requires
        b.wf(),
    ensures
        b.painted(t, path, color).len() == b.pixels().len(),
        forall|k: int|
            0 <= k < b.pixels().len() ==> #[trigger] b.painted(t, path, color)[k] == if exists|m: int|
                0 <= m < path.len() && b.point_index(t, path[m]) == k {
                color
            } else {
                b.pixels()[k]
            },
    decreases path.len(),
{
    if path.len() > 0 {
        let rest = path.drop_last();
        lemma_painted(b, t, rest, color);
        let last = path.len() - 1;
        let idx = b.point_index(t, path[last]);
        lemma_index_bound(
            b.clip_x_by(t, path[last].0),
            b.clip_y_by(t, path[last].1),
            b.spec_width() as int,
            b.spec_height() as int,
        );
        assert forall|k: int| 0 <= k < b.pixels().len() implies #[trigger] b.painted(t, path, color)[k] == if exists|m: int|
            0 <= m < path.len() && b.point_index(t, path[m]) == k {
            color
        } else {
            b.pixels()[k]
        } by {
            if k == idx {
                assert(0 <= last < path.len() && b.point_index(t, path[last]) == k);
            } else {
                if exists|m: int| 0 <= m < path.len() && b.point_index(t, path[m]) == k {
                    let m = choose|m: int| 0 <= m < path.len() && b.point_index(t, path[m]) == k;
                    assert(rest[m] == path[m]);
                    assert(0 <= m < rest.len() && b.point_index(t, rest[m]) == k);
                }
                if exists|m: int| 0 <= m < rest.len() && b.point_index(t, rest[m]) == k {
                    let m = choose|m: int| 0 <= m < rest.len() && b.point_index(t, rest[m]) == k;
                    assert(rest[m] == path[m]);
                    assert(0 <= m < path.len() && b.point_index(t, path[m]) == k);
                }
            }
        }
    }
}

/// The pixel (x, y) after painting `path` is `color` exactly when a point of the path
/// lands on it.
proof fn lemma_painted_at(b: Bitmap, t: Point, path: Seq<(int, int)>, color: Color, x: int, y: int)
    requires
        b.wf(),
        0 <= x < b.spec_width(),
        0 <= y < b.spec_height(),
    ensures
        b.painted(t, path, color)[b.index_of(x, y)] == if b.on_path(t, path, x, y) {
            color
        } else {
            b.pixel_at(x, y)
        },
{
    lemma_painted(b, t, path, color);
    let w = b.spec_width() as int;
    lemma_index_bound(x, y, w, b.spec_height() as int);
    let k = b.index_of(x, y);
    if b.on_path(t, path, x, y) {
        let m = choose|m: int|
            0 <= m < path.len() && #[trigger] b.clip_x_by(t, path[m].0) == x && b.clip_y_by(t, path[m].1) == y;
        assert(0 <= m < path.len() && b.point_index(t, path[m]) == k);
    }
    if exists|m: int| 0 <= m < path.len() && b.point_index(t, path[m]) == k {
        let m = choose|m: int| 0 <= m < path.len() && b.point_index(t, path[m]) == k;
        lemma_index_injective(b.clip_x_by(t, path[m].0), b.clip_y_by(t, path[m].1), x, y, w);
        assert(b.clip_x_by(t, path[m].0) == x && b.clip_y_by(t, path[m].1) == y);
    }
}

proof fn lemma_index_injective(x1: int, y1: int, x2: int, y2: int, w: int)
    requires
        0 <= x1 < w,
        0 <= x2 < w,
    ensures
        (y1 * w + x1 == y2 * w + x2) <==> (x1 == x2 && y1 == y2),
{
    assert((y1 * w + x1 == y2 * w + x2) ==> (x1 == x2 && y1 == y2)) by (nonlinear_arith)
        requires
            0 <= x1 < w,
            0 <= x2 < w,
    ;
}

proof fn lemma_row_range(xx: int, yy: int, y: int, l: int, r: int, w: int)
    requires
        0 <= xx < w,
        0 <= l <= r < w,
    ensures
        (y * w + l <= yy * w + xx < y * w + r) <==> (yy == y && l <= xx < r),
{
    assert((y * w + l <= yy * w + xx < y * w + r) ==> yy == y) by (nonlinear_arith)
        requires
            0 <= xx < w,
            0 <= l <= r < w,
    ;
}

proof fn lemma_step_within(i: int, s: int, from: int, to: int, d: int)
    requires
        s == (if from < to {
            1int
        } else {
            -1int
        }),
        d == (if to >= from {
            to - from
        } else {
            from - to
        }),
        0 <= i < d,
    ensures
        (if from <= to {
            from
        } else {
            to
        }) <= from + (i + 1) * s <= (if from <= to {
            to
        } else {
            from
        }),
        from + (i + 1) * s == from + i * s + s,
{
    assert((if from <= to {
        from
    } else {
        to
    }) <= from + (i + 1) * s <= (if from <= to {
        to
    } else {
        from
    }) && from + (i + 1) * s == from + i * s + s) by (nonlinear_arith)
        requires
            s == (if from < to {
                1int
            } else {
                -1int
            }),
            d == (if to >= from {
                to - from
            } else {
                from - to
            }),
            0 <= i < d,
    ;
}

proof fn lemma_reach(i: int, s: int, from: int, to: int, d: int)
    requires
        s == (if from < to {
            1int
        } else {
            -1int
        }),
        d == (if to >= from {
            to - from
        } else {
            from - to
        }),
        i == d,
    ensures
        from + i * s == to,
{
    assert(from + i * s == to) by (nonlinear_arith)
        requires
            s == (if from < to {
                1int
            } else {
                -1int
            }),
            d == (if to >= from {
                to - from
            } else {
                from - to
            }),
            i == d,
    ;
}

/// One Bresenham step never moves past the end point: at the end column only a row step
/// is taken, at the end row only a column step.
proof fn lemma_line_step(dx: int, dy: int, i: int, j: int, err: int)
    requires
        0 <= dx,
        0 <= dy,
        0 <= i <= dx,
        0 <= j <= dy,
        err == dx * (j + 1) - dy * (i + 1),
        !(i == dx && j == dy),
        -3 * dy <= 2 * err <= 3 * dx,
    ensures
        i == dx ==> 2 * err < -dy,
        j == dy ==> 2 * err > dx,
        2 * err >= -dy || 2 * err <= dx,
        (2 * err >= -dy && 2 * err > dx) ==> -3 * dy <= 2 * (err - dy) <= 3 * dx,
        (2 * err < -dy && 2 * err <= dx) ==> -3 * dy <= 2 * (err + dx) <= 3 * dx,
        (2 * err >= -dy && 2 * err <= dx) ==> -3 * dy <= 2 * (err - dy + dx) <= 3 * dx,
{
    if i == dx {
        assert(2 * err < -dy) by (nonlinear_arith)
            requires
                0 <= dx,
                0 <= j < dy,
                err == dx * (j + 1) - dy * (dx + 1),
        ;
    }
    if j == dy {
        assert(2 * err > dx) by (nonlinear_arith)
            requires
                0 <= dy,
                0 <= i < dx,
                err == dx * (dy + 1) - dy * (i + 1),
        ;
    }
}

impl BitmapView {
    pub closed spec fn bitmap(&self) -> Bitmap {
        self.bitmap
    }

    pub closed spec fn translation(&self) -> Point {
        self.translation
    }

    /// `self` lends out `b`, its origin moved by `t`.
    pub open spec fn lends(&self, b: Bitmap, t: Point) -> bool {
        &&& self.translation() == t
        &&& self.bitmap().pixels() == b.pixels()
        &&& self.bitmap().moved_to() == b.moved_to()
        &&& self.bitmap().spec_width() == b.spec_width()
        &&& self.bitmap().spec_height() == b.spec_height()
        &&& self.bitmap().translation().x == b.translation().x + t.x
        &&& self.bitmap().translation().y == b.translation().y + t.y
    }

    /// Lends `bitmap` out, its origin moved by `translation`.
    pub fn new(bitmap: Bitmap, translation: Point) -> (r: Self)
        requires
            i16::MIN <= bitmap.translation().x + translation.x <= i16::MAX,
            i16::MIN <= bitmap.translation().y + translation.y <= i16::MAX,
        ensures
            r.translation() == translation,
            r.bitmap().pixels() == bitmap.pixels(),
            r.bitmap().moved_to() == bitmap.moved_to(),
            r.bitmap().spec_width() == bitmap.spec_width(),
            r.bitmap().spec_height() == bitmap.spec_height(),
            r.bitmap().translation().x == bitmap.translation().x + translation.x,
            r.bitmap().translation().y == bitmap.translation().y + translation.y,
    {
        let mut bitmap = bitmap;
        bitmap.translate_by(translation);
        Self { bitmap, translation }
    }

    /// The bitmap to draw on.
    pub fn bitmap_mut(&mut self) -> (r: &mut Bitmap)
        ensures
            *r == old(self).bitmap(),
            final(self).bitmap() == *final(r),
            final(self).translation() == old(self).translation(),
    {
        &mut self.bitmap
    }

    /// Gives the bitmap back, its origin restored.
    pub fn finish(self) -> (r: Bitmap)
        requires
            i16::MIN <= self.bitmap().translation().x - self.translation().x <= i16::MAX,
            i16::MIN <= self.bitmap().translation().y - self.translation().y <= i16::MAX,
        ensures
            r.pixels() == self.bitmap().pixels(),
            r.moved_to() == self.bitmap().moved_to(),
            r.spec_width() == self.bitmap().spec_width(),
            r.spec_height() == self.bitmap().spec_height(),
            r.translation().x == self.bitmap().translation().x - self.translation().x,
            r.translation().y == self.bitmap().translation().y - self.translation().y,
    {
        let mut bitmap = self.bitmap;
        bitmap.untranslate_by(self.translation);
        bitmap
    }
}

} // verus!
