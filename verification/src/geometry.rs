//! Axis-aligned rectangles with intersection: the drawing-primitive
//! vocabulary the rendering-target adapter consumes, and the clipping it
//! relies on to keep every address window inside the controller's
//! physical RAM rectangle.

use vstd::prelude::*;

verus! {

/// An axis-aligned rectangle: top-left corner and size in pixels. A
/// rectangle with zero width or zero height is empty and covers no point.
#[derive(Clone, Copy, Debug, PartialEq, Eq, Structural)]
pub struct Rect {
    /// Top-left corner, x coordinate.
    pub x: i32,
    /// Top-left corner, y coordinate.
    pub y: i32,
    /// Width in pixels.
    pub width: u32,
    /// Height in pixels.
    pub height: u32,
}

impl Rect {
    /// Whether the point `(px, py)` lies inside this rectangle.
    pub open spec fn spec_contains(self, px: int, py: int) -> bool {
        &&& self.x as int <= px < self.x as int + self.width as int
        &&& self.y as int <= py < self.y as int + self.height as int
    }

    /// Whether this rectangle covers no point.
    pub open spec fn spec_is_empty(self) -> bool {
        self.width == 0 || self.height == 0
    }

    /// The largest rectangle covered by both arguments; all-zero when
    /// they share no point.
    pub open spec fn spec_intersection(a: Rect, b: Rect) -> Rect {
        let x1 = if a.x >= b.x {
            a.x
        } else {
            b.x
        };
        let y1 = if a.y >= b.y {
            a.y
        } else {
            b.y
        };
        let ax2 = a.x as int + a.width as int;
        let bx2 = b.x as int + b.width as int;
        let x2 = if ax2 <= bx2 {
            ax2
        } else {
            bx2
        };
        let ay2 = a.y as int + a.height as int;
        let by2 = b.y as int + b.height as int;
        let y2 = if ay2 <= by2 {
            ay2
        } else {
            by2
        };
        if x1 < x2 && y1 < y2 {
            Rect { x: x1, y: y1, width: (x2 - x1) as u32, height: (y2 - y1) as u32 }
        } else {
            Rect { x: 0, y: 0, width: 0, height: 0 }
        }
    }

    /// Whether this rectangle covers no point.
    pub fn is_empty(&self) -> (r: bool)
        ensures
            r == self.spec_is_empty(),
    {
        self.width == 0 || self.height == 0
    }

    /// Whether the point `(px, py)` lies inside this rectangle.
    pub fn contains(&self, px: i32, py: i32) -> (r: bool)
        ensures
            r == self.spec_contains(px as int, py as int),
    {
        px >= self.x && py >= self.y && (px as i64) < self.x as i64 + self.width as i64 && (
        py as i64) < self.y as i64 + self.height as i64
    }

    /// Returns the largest rectangle covered by both `self` and `other`,
    /// or the all-zero rectangle when they share no point.
    pub fn intersection(&self, other: &Rect) -> (r: Rect)
        ensures
            r == Rect::spec_intersection(*self, *other),
    {
        let x1: i32 = if self.x >= other.x {
            self.x
        } else {
            other.x
        };
        let y1: i32 = if self.y >= other.y {
            self.y
        } else {
            other.y
        };
        let ax2: i64 = self.x as i64 + self.width as i64;
        let bx2: i64 = other.x as i64 + other.width as i64;
        let x2: i64 = if ax2 <= bx2 {
            ax2
        } else {
            bx2
        };
        let ay2: i64 = self.y as i64 + self.height as i64;
        let by2: i64 = other.y as i64 + other.height as i64;
        let y2: i64 = if ay2 <= by2 {
            ay2
        } else {
            by2
        };
        if (x1 as i64) < x2 && (y1 as i64) < y2 {
            Rect {
                x: x1,
                y: y1,
                width: (x2 - x1 as i64) as u32,
                height: (y2 - y1 as i64) as u32,
            }
        } else {
            Rect { x: 0, y: 0, width: 0, height: 0 }
        }
    }
}

/// A point lies in the intersection of two rectangles exactly when it
/// lies in both: clipping drops the pixels outside the bounding box and
/// no others.
pub proof fn lemma_intersection_contains(a: Rect, b: Rect, px: int, py: int)
    ensures
        Rect::spec_intersection(a, b).spec_contains(px, py) <==> (a.spec_contains(px, py)
            && b.spec_contains(px, py)),
{
}

/// A rectangle that shares no point with another intersects it in the
/// empty rectangle.
pub proof fn lemma_disjoint_intersection_empty(a: Rect, b: Rect)
    requires
        forall|px: int, py: int| !(a.spec_contains(px, py) && #[trigger] b.spec_contains(px, py)),
    ensures
        Rect::spec_intersection(a, b).spec_is_empty(),
{
    let r = Rect::spec_intersection(a, b);
    if !r.spec_is_empty() {
        assert(r.spec_contains(r.x as int, r.y as int));
        assert(b.spec_contains(r.x as int, r.y as int));
    }
}

} // verus!
