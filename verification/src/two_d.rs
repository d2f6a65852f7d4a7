use vstd::prelude::*;

verus! {

/// An axis-aligned rectangle in window coordinates.
#[derive(Debug, Copy, Clone)]
pub struct Rect {
    pub left: i16,
    pub top: i16,
    pub right: i16,
    pub bottom: i16,
}

/// A point in window coordinates.
#[derive(Debug, Copy, Clone)]
pub struct Point {
    pub x: i16,
    pub y: i16,
}

/// `v + d`, clamped to the range of `i16`.
pub open spec fn saturate_i16(v: int) -> i16 {
    if v > i16::MAX {
        i16::MAX
    } else if v < i16::MIN {
        i16::MIN
    } else {
        v as i16
    }
}

impl Point {
    pub open spec fn origin_spec() -> Point {
        Point { x: 0, y: 0 }
    }

    pub fn new(x: i16, y: i16) -> (p: Self)
        ensures
            p.x == x,
            p.y == y,
    {
        Self { x, y }
    }

    pub fn origin() -> (p: Self)
        ensures
            p == Point::origin_spec(),
    {
        Self { x: 0, y: 0 }
    }

    /// Component-wise sum; the components must not overflow.
    pub fn add(self, rhs: Point) -> (p: Point)
        requires
            i16::MIN <= self.x + rhs.x <= i16::MAX,
            i16::MIN <= self.y + rhs.y <= i16::MAX,
        ensures
            p.x == self.x + rhs.x,
            p.y == self.y + rhs.y,
    {
        Point { x: self.x + rhs.x, y: self.y + rhs.y }
    }

    /// Component-wise difference; the components must not overflow.
    pub fn sub(self, rhs: Point) -> (p: Point)
        requires
            i16::MIN <= self.x - rhs.x <= i16::MAX,
            i16::MIN <= self.y - rhs.y <= i16::MAX,
        ensures
            p.x == self.x - rhs.x,
            p.y == self.y - rhs.y,
    {
        Point { x: self.x - rhs.x, y: self.y - rhs.y }
    }

    /// In-place component-wise sum.
    pub fn add_assign(&mut self, rhs: Point)
        requires
            i16::MIN <= old(self).x + rhs.x <= i16::MAX,
            i16::MIN <= old(self).y + rhs.y <= i16::MAX,
        ensures
            final(self).x == old(self).x + rhs.x,
            final(self).y == old(self).y + rhs.y,
    {
        self.x = self.x + rhs.x;
        self.y = self.y + rhs.y;
    }

    /// In-place component-wise difference.
    pub fn sub_assign(&mut self, rhs: Point)
        requires
            i16::MIN <= old(self).x - rhs.x <= i16::MAX,
            i16::MIN <= old(self).y - rhs.y <= i16::MAX,
        ensures
            final(self).x == old(self).x - rhs.x,
            final(self).y == old(self).y - rhs.y,
    {
        self.x = self.x - rhs.x;
        self.y = self.y - rhs.y;
    }
}

pub fn saturating_add_i16(a: i16, b: i16) -> (r: i16)
    ensures
        r == saturate_i16(a + b),
{
    let s: i32 = a as i32 + b as i32;
    if s > 32767 {
        32767
    } else if s < -32768 {
        -32768
    } else {
        s as i16
    }
}

pub fn saturating_sub_i16(a: i16, b: i16) -> (r: i16)
    ensures
        r == saturate_i16(a - b),
{
    let s: i32 = a as i32 - b as i32;
    if s > 32767 {
        32767
    } else if s < -32768 {
        -32768
    } else {
        s as i16
    }
}

impl Rect {
    pub fn zero() -> (r: Self)
        ensures
            r.left == 0 && r.top == 0 && r.right == 0 && r.bottom == 0,
    {
        Self { left: 0, top: 0, right: 0, bottom: 0 }
    }

    /// Moves every edge `amount` towards the inside, saturating at the range of `i16`.
    pub fn shrink(&self, amount: i16) -> (r: Self)
        ensures
            r.left == saturate_i16(self.left + amount),
            r.top == saturate_i16(self.top + amount),
            r.right == saturate_i16(self.right - amount),
            r.bottom == saturate_i16(self.bottom - amount),
    {
        Rect {
            left: saturating_add_i16(self.left, amount),
            top: saturating_add_i16(self.top, amount),
            bottom: saturating_sub_i16(self.bottom, amount),
            right: saturating_sub_i16(self.right, amount),
        }
    }
}

} // verus!
