//! Integer geometry for the simulation: points, axis-aligned rectangles,
//! and the overlap / containment / swept-segment tests the systems use.
//!
//! A rectangle occupies the half-open span `[x, x + w)` times `[y, y + h)`
//! for containment and overlap, and the closed cell box
//! `[x, x + w - 1]` times `[y, y + h - 1]` for the swept-segment test.
//! All arithmetic is carried out in 64 bits and clamped back into the
//! 32-bit coordinate range, so no operation here can overflow.
use vstd::prelude::*;

verus! {

/// A point in world space.
#[derive(Clone, Copy, Debug, PartialEq, Eq, Structural)]
pub struct Point {
    pub x: i32,
    pub y: i32,
}

/// An axis-aligned rectangle: top-left corner and size.
#[derive(Clone, Copy, Debug, PartialEq, Eq, Structural)]
pub struct Rect {
    pub x: i32,
    pub y: i32,
    pub w: u32,
    pub h: u32,
}

/// Clamp a mathematical integer into the `i32` range.
pub open spec fn clamp_i32(v: int) -> int {
    if v < i32::MIN as int {
        i32::MIN as int
    } else if v > i32::MAX as int {
        i32::MAX as int
    } else {
        v
    }
}

/// Saturating addition of a 64-bit offset to an `i32` coordinate.
pub fn sat_add_i32(a: i32, b: i64) -> (r: i32)
    requires
        -0x1_0000_0000_0000 <= b <= 0x1_0000_0000_0000,
    ensures
        r as int == clamp_i32(a as int + b as int),
{
    let wide: i64 = a as i64 + b;
    if wide < i32::MIN as i64 {
        i32::MIN
    } else if wide > i32::MAX as i64 {
        i32::MAX
    } else {
        wide as i32
    }
}

impl Point {
    pub fn new(x: i32, y: i32) -> (p: Point)
        ensures
            p == (Point { x, y }),
    {
        Point { x, y }
    }

    /// The point displaced by `(dx, dy)`, clamped to the coordinate range.
    pub open spec fn spec_offset(self, dx: int, dy: int) -> Point {
        Point { x: clamp_i32(self.x + dx) as i32, y: clamp_i32(self.y + dy) as i32 }
    }

    pub fn offset(self, dx: i32, dy: i32) -> (p: Point)
        ensures
            p == self.spec_offset(dx as int, dy as int),
    {
        Point { x: sat_add_i32(self.x, dx as i64), y: sat_add_i32(self.y, dy as i64) }
    }
}

/// The half-open span check: does `r` contain `p`?
pub open spec fn rect_contains(r: Rect, p: Point) -> bool {
    &&& r.x <= p.x < r.x + r.w
    &&& r.y <= p.y < r.y + r.h
}

/// Do two rectangles overlap in a region of positive area?
pub open spec fn rects_overlap(a: Rect, b: Rect) -> bool {
    &&& a.x < b.x + b.w
    &&& b.x < a.x + a.w
    &&& a.y < b.y + b.h
    &&& b.y < a.y + a.h
}

/// Does the closed interval spanned by `a1` and `a2` meet `[lo, hi]`?
pub open spec fn intervals_meet(a1: int, a2: int, lo: int, hi: int) -> bool {
    &&& (if a1 <= a2 { a1 } else { a2 }) <= hi
    &&& lo <= (if a1 <= a2 { a2 } else { a1 })
}

/// Does the axis-aligned segment from `p` to `q` touch the cell box of `r`
/// (the closed box `[r.x, r.x + r.w - 1]` times `[r.y, r.y + r.h - 1]`)?
/// Meaningful only when the segment is axis-aligned, which is the one shape
/// of movement the motion resolver produces.
pub open spec fn seg_hits_rect(p: Point, q: Point, r: Rect) -> bool {
    &&& r.w > 0
    &&& r.h > 0
    &&& intervals_meet(p.x as int, q.x as int, r.x as int, r.x + r.w - 1)
    &&& intervals_meet(p.y as int, q.y as int, r.y as int, r.y + r.h - 1)
}

/// The rectangle of size `w` by `h` whose center (rounded toward the
/// top-left) is `c`.
pub open spec fn spec_rect_from_center(c: Point, w: u32, h: u32) -> Rect {
    Rect {
        x: clamp_i32(c.x - w / 2) as i32,
        y: clamp_i32(c.y - h / 2) as i32,
        w,
        h,
    }
}

impl Rect {
    pub fn new(x: i32, y: i32, w: u32, h: u32) -> (r: Rect)
        ensures
            r == (Rect { x, y, w, h }),
    {
        Rect { x, y, w, h }
    }

    pub fn from_center(c: Point, w: u32, h: u32) -> (r: Rect)
        ensures
            r == spec_rect_from_center(c, w, h),
    {
        Rect {
            x: sat_add_i32(c.x, -((w / 2) as i64)),
            y: sat_add_i32(c.y, -((h / 2) as i64)),
            w,
            h,
        }
    }

    /// Move the rectangle, keeping its size, so that its center is `c`.
    pub fn center_on(&mut self, c: Point)
        ensures
            *final(self) == spec_rect_from_center(c, old(self).w, old(self).h),
    {
        self.x = sat_add_i32(c.x, -((self.w / 2) as i64));
        self.y = sat_add_i32(c.y, -((self.h / 2) as i64));
    }

    pub fn contains_point(&self, p: Point) -> (c: bool)
        ensures
            c == rect_contains(*self, p),
    {
        p.x as i64 >= self.x as i64 && (p.x as i64) < self.x as i64 + self.w as i64
            && p.y as i64 >= self.y as i64 && (p.y as i64) < self.y as i64 + self.h as i64
    }

    pub fn has_intersection(&self, other: &Rect) -> (o: bool)
        ensures
            o == rects_overlap(*self, *other),
    {
        (self.x as i64) < other.x as i64 + other.w as i64
            && (other.x as i64) < self.x as i64 + self.w as i64
            && (self.y as i64) < other.y as i64 + other.h as i64
            && (other.y as i64) < self.y as i64 + self.h as i64
    }
}

/// Exec counterpart of `seg_hits_rect`: the axis-aligned segment from `p`
/// to `q` against the cell box of `r`.
pub fn segment_hits_rect(p: Point, q: Point, r: &Rect) -> (hit: bool)
    requires
        p.x == q.x || p.y == q.y,
    ensures
        hit == seg_hits_rect(p, q, *r),
{
    if r.w == 0 || r.h == 0 {
        return false;
    }
    let (xlo, xhi): (i64, i64) = if p.x <= q.x {
        (p.x as i64, q.x as i64)
    } else {
        (q.x as i64, p.x as i64)
    };
    let (ylo, yhi): (i64, i64) = if p.y <= q.y {
        (p.y as i64, q.y as i64)
    } else {
        (q.y as i64, p.y as i64)
    };
    xlo <= r.x as i64 + r.w as i64 - 1 && r.x as i64 <= xhi
        && ylo <= r.y as i64 + r.h as i64 - 1 && r.y as i64 <= yhi
}

} // verus!
