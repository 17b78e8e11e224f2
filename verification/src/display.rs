//! Display metadata and conversion of global points into a display's local
//! pixel space.

use vstd::prelude::*;

use crate::geometry::Point;

verus! {

/// One attached display: an identifier, the global position of its top-left
/// pixel, and its size in pixels.
#[derive(Clone, Copy, PartialEq, Eq, Structural, Debug)]
pub struct DisplayDescriptor {
    pub id: u32,
    pub origin: Point,
    pub width: u32,
    pub height: u32,
}

impl DisplayDescriptor {
    /// A display this library can reason about: its size fits in signed
    /// 32-bit pixel coordinates, so every local coordinate does too.
    pub open spec fn wf(self) -> bool {
        self.width <= i32::MAX && self.height <= i32::MAX
    }

    /// Whether a global point lies on this display. The right and bottom
    /// boundary rows belong to the neighbouring display, so a display
    /// covers the half-open box `[x, x+width) x [y, y+height)`.
    pub open spec fn contains_spec(self, p: Point) -> bool {
        self.origin.x <= p.x < self.origin.x + self.width
        && self.origin.y <= p.y < self.origin.y + self.height
    }

    /// Tests whether the global point `p` lies on this display.
    pub fn contains(&self, p: Point) -> (b: bool)
        ensures
            b == self.contains_spec(p),
    {
        let ox = self.origin.x as i64;
        let oy = self.origin.y as i64;
        self.origin.x <= p.x
            && (p.x as i64) < ox + self.width as i64
            && self.origin.y <= p.y
            && (p.y as i64) < oy + self.height as i64
    }
}

/// A displacement clamped to the closed interval `[0, hi]`: a value beyond
/// `hi` becomes exactly `hi`, a negative value becomes 0, anything else
/// passes through unchanged.
pub open spec fn clamp_spec(v: int, hi: int) -> int {
    if v > hi {
        hi
    } else if v > 0 {
        v
    } else {
        0
    }
}

/// The local-space image of a global point on a display: the display's
/// origin is subtracted, then each axis is clamped independently to the
/// display's bounds.
pub open spec fn to_local_spec(p: Point, d: DisplayDescriptor) -> Point {
    Point {
        x: clamp_spec(p.x - d.origin.x, d.width as int) as i32,
        y: clamp_spec(p.y - d.origin.y, d.height as int) as i32,
    }
}

impl Point {
    /// Converts a global point into `display`'s local pixel space, clamped
    /// axis by axis. Total: the result always lies within
    /// `[0, width] x [0, height]` inclusive, for every global point.
    pub fn to_local(&self, display: &DisplayDescriptor) -> (r: Point)
        requires
            display.wf(),
        ensures
            r == to_local_spec(*self, *display),
            0 <= r.x <= display.width,
            0 <= r.y <= display.height,
    {
        let dx = self.x as i64 - display.origin.x as i64;
        let dy = self.y as i64 - display.origin.y as i64;
        let w = display.width as i64;
        let h = display.height as i64;
        let lx = if dx > w { w } else if dx > 0 { dx } else { 0 };
        let ly = if dy > h { h } else if dy > 0 { dy } else { 0 };
        Point { x: lx as i32, y: ly as i32 }
    }
}

/// A mapped local point always lies within `[0, width] x [0, height]`,
/// whatever global point is mapped.
pub proof fn lemma_to_local_in_bounds(p: Point, d: DisplayDescriptor)
    requires
        d.wf(),
    ensures
        0 <= to_local_spec(p, d).x <= d.width,
        0 <= to_local_spec(p, d).y <= d.height,
{
}

/// Conversion to local coordinates preserves the ordering of points on each
/// axis: clamping never swaps two ordered coordinates.
pub proof fn lemma_to_local_monotone(p: Point, q: Point, d: DisplayDescriptor)
    requires
        p.x <= q.x,
        p.y <= q.y,
        d.wf(),
    ensures
        to_local_spec(p, d).x <= to_local_spec(q, d).x,
        to_local_spec(p, d).y <= to_local_spec(q, d).y,
{
}

/// The first display of `ds`, in enumeration order, that contains `p`; its
/// position in the sequence, or `None` when `p` lies outside every display.
pub open spec fn first_display_at(ds: Seq<DisplayDescriptor>, p: Point) -> Option<int>
    decreases ds.len(),
{
    if ds.len() == 0 {
        None
    } else if ds[0].contains_spec(p) {
        Some(0int)
    } else {
        match first_display_at(ds.drop_first(), p) {
            Some(i) => Some(i + 1),
            None => None,
        }
    }
}

/// Looks up the display containing the global point `p`: the index of the
/// first display in enumeration order whose bounds contain `p`.
pub fn display_at(displays: &Vec<DisplayDescriptor>, p: Point) -> (r: Option<usize>)
    ensures
        match r {
            Some(i) => i < displays@.len()
                && displays@[i as int].contains_spec(p)
                && first_display_at(displays@, p) == Some(i as int),
            None => first_display_at(displays@, p) is None,
        },
{
    let n = displays.len();
    let mut i: usize = 0;
    while i < n
        invariant
            n == displays@.len(),
            0 <= i <= n,
            forall|j: int| 0 <= j < i ==> !displays@[j].contains_spec(p),
        decreases n - i,
    {
        if displays[i].contains(p) {
            proof {
                lemma_first_display_at_found(displays@, p, i as int);
            }
            return Some(i);
        }
        i += 1;
    }
    proof {
        lemma_first_display_at_none(displays@, p);
    }
    None
}

/// When an index `i` contains `p` and no smaller index does, `i` is exactly
/// what `first_display_at` picks.
proof fn lemma_first_display_at_found(ds: Seq<DisplayDescriptor>, p: Point, i: int)
    requires
        0 <= i < ds.len(),
        ds[i].contains_spec(p),
        forall|j: int| 0 <= j < i ==> !ds[j].contains_spec(p),
    ensures
        first_display_at(ds, p) == Some(i),
    decreases ds.len(),
{
    if i == 0 {
    } else {
        assert(forall|j: int| 0 <= j < i - 1 ==> !ds.drop_first()[j].contains_spec(p));
        assert(ds.drop_first()[i - 1] == ds[i]);
        lemma_first_display_at_found(ds.drop_first(), p, i - 1);
    }
}

/// When no display contains `p`, `first_display_at` finds none.
proof fn lemma_first_display_at_none(ds: Seq<DisplayDescriptor>, p: Point)
    requires
        forall|j: int| 0 <= j < ds.len() ==> !ds[j].contains_spec(p),
    ensures
        first_display_at(ds, p) is None,
    decreases ds.len(),
{
    if ds.len() > 0 {
        assert(forall|j: int| 0 <= j < ds.drop_first().len()
            ==> ds.drop_first()[j] == ds[j + 1] && !ds.drop_first()[j].contains_spec(p));
        lemma_first_display_at_none(ds.drop_first(), p);
    }
}

} // verus!
