//! Integer geometry.
//!
//! Coordinates are whole numbers of device units. What a widget says about
//! itself relative to its parent (`Vec2`, `Point`, `Size`) is 32 bits wide;
//! what is accumulated down the tree (`WindowVec2`, `WindowPoint`,
//! `WindowRect`) is 64 bits wide, so that a tree of bounded depth can never
//! carry a position out of range.

use vstd::prelude::*;

verus! {

/// The farthest one level of the tree can move its content along one axis:
/// a translation and an origin, each of 32 bits.
pub const LEVEL_REACH: i64 = 0x1_0000_0000;

/// An offset in the coordinate space of a widget's parent.
#[derive(Clone, Copy, Debug, PartialEq, Eq, Structural)]
pub struct Vec2 {
    pub x: i32,
    pub y: i32,
}

/// A position in the coordinate space of a widget's parent.
#[derive(Clone, Copy, Debug, PartialEq, Eq, Structural)]
pub struct Point {
    pub x: i32,
    pub y: i32,
}

/// The extent of a widget's layout box.
#[derive(Clone, Copy, Debug, PartialEq, Eq, Structural)]
pub struct Size {
    pub width: u32,
    pub height: u32,
}

/// An offset in window space.
#[derive(Clone, Copy, Debug, PartialEq, Eq, Structural)]
pub struct WindowVec2 {
    pub x: i64,
    pub y: i64,
}

/// A position in window space.
#[derive(Clone, Copy, Debug, PartialEq, Eq, Structural)]
pub struct WindowPoint {
    pub x: i64,
    pub y: i64,
}

/// An axis-aligned rectangle in window space, from `(x0, y0)` to `(x1, y1)`.
#[derive(Clone, Copy, Debug, PartialEq, Eq, Structural)]
pub struct WindowRect {
    pub x0: i64,
    pub y0: i64,
    pub x1: i64,
    pub y1: i64,
}

impl Vec2 {
    pub fn new(x: i32, y: i32) -> (v: Vec2)
        ensures
            v == (Vec2 { x, y }),
    {
        Vec2 { x, y }
    }

    /// The offset that moves nothing.
    pub fn zero() -> (v: Vec2)
        ensures
            v == (Vec2 { x: 0, y: 0 }),
    {
        Vec2 { x: 0, y: 0 }
    }
}

impl Point {
    pub fn new(x: i32, y: i32) -> (p: Point)
        ensures
            p == (Point { x, y }),
    {
        Point { x, y }
    }

    /// The parent's own origin.
    pub fn zero() -> (p: Point)
        ensures
            p == (Point { x: 0, y: 0 }),
    {
        Point { x: 0, y: 0 }
    }

    /// The offset from the parent's origin to this position.
    pub open spec fn as_vec2(self) -> Vec2 {
        Vec2 { x: self.x, y: self.y }
    }

    pub fn to_vec2(self) -> (v: Vec2)
        ensures
            v == self.as_vec2(),
    {
        Vec2 { x: self.x, y: self.y }
    }
}

impl Size {
    pub fn new(width: u32, height: u32) -> (s: Size)
        ensures
            s == (Size { width, height }),
    {
        Size { width, height }
    }
}

impl WindowVec2 {
    pub fn new(x: i64, y: i64) -> (v: WindowVec2)
        ensures
            v == (WindowVec2 { x, y }),
    {
        WindowVec2 { x, y }
    }

    /// The offset of the window's own origin.
    pub open spec fn origin() -> WindowVec2 {
        WindowVec2 { x: 0, y: 0 }
    }

    pub fn zero() -> (v: WindowVec2)
        ensures
            v == Self::origin(),
    {
        WindowVec2 { x: 0, y: 0 }
    }

    /// Whether both coordinates lie within what `levels` levels of a tree can
    /// add up to.
    pub open spec fn within(self, levels: int) -> bool {
        &&& -levels * LEVEL_REACH <= self.x <= levels * LEVEL_REACH
        &&& -levels * LEVEL_REACH <= self.y <= levels * LEVEL_REACH
    }

    /// Whether `self + by` can be held.
    pub open spec fn can_translate(self, by: Vec2) -> bool {
        &&& i64::MIN <= self.x + by.x <= i64::MAX
        &&& i64::MIN <= self.y + by.y <= i64::MAX
    }

    /// `self + by`.
    pub open spec fn translated(self, by: Vec2) -> WindowVec2 {
        WindowVec2 { x: (self.x + by.x) as i64, y: (self.y + by.y) as i64 }
    }

    pub fn translate(self, by: Vec2) -> (v: WindowVec2)
        requires
            self.can_translate(by),
        ensures
            v == self.translated(by),
            v.x == self.x + by.x,
            v.y == self.y + by.y,
    {
        WindowVec2 { x: self.x + by.x as i64, y: self.y + by.y as i64 }
    }

    /// The position this offset leads to from the window's origin.
    pub open spec fn as_point(self) -> WindowPoint {
        WindowPoint { x: self.x, y: self.y }
    }

    pub fn to_point(self) -> (p: WindowPoint)
        ensures
            p == self.as_point(),
    {
        WindowPoint { x: self.x, y: self.y }
    }
}

impl WindowPoint {
    pub fn new(x: i64, y: i64) -> (p: WindowPoint)
        ensures
            p == (WindowPoint { x, y }),
    {
        WindowPoint { x, y }
    }

    /// The offset from the window's origin to this position.
    pub open spec fn as_vec2(self) -> WindowVec2 {
        WindowVec2 { x: self.x, y: self.y }
    }

    pub fn to_vec2(self) -> (v: WindowVec2)
        ensures
            v == self.as_vec2(),
    {
        WindowVec2 { x: self.x, y: self.y }
    }
}

impl WindowRect {
    /// Whether a box of `size` placed at `origin` can be held.
    pub open spec fn can_place(origin: WindowPoint, size: Size) -> bool {
        &&& origin.x + size.width <= i64::MAX
        &&& origin.y + size.height <= i64::MAX
    }

    /// The box of `size` whose top-left corner is `origin`.
    pub open spec fn placed(origin: WindowPoint, size: Size) -> WindowRect {
        WindowRect {
            x0: origin.x,
            y0: origin.y,
            x1: (origin.x + size.width) as i64,
            y1: (origin.y + size.height) as i64,
        }
    }

    pub fn from_origin_size(origin: WindowPoint, size: Size) -> (r: WindowRect)
        requires
            Self::can_place(origin, size),
        ensures
            r == Self::placed(origin, size),
            r.x1 == origin.x + size.width,
            r.y1 == origin.y + size.height,
    {
        WindowRect {
            x0: origin.x,
            y0: origin.y,
            x1: origin.x + size.width as i64,
            y1: origin.y + size.height as i64,
        }
    }
}

} // verus!
