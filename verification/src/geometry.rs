//! Points, rectangles, rectangle normalization and the overlap policy.

use vstd::prelude::*;

verus! {

/// A pixel position in the global coordinate space that spans all attached
/// displays (origin at the top-left of the leftmost/topmost display,
/// x increasing rightwards, y increasing downwards).
#[derive(Clone, Copy, PartialEq, Eq, Structural, Debug)]
pub struct Point {
    pub x: i32,
    pub y: i32,
}

/// An axis-aligned rectangle given by its top-left and bottom-right corners
/// in global coordinates.
#[derive(Clone, Copy, PartialEq, Eq, Structural, Debug)]
pub struct Rectangle {
    pub tl: Point,
    pub br: Point,
}

/// The canonical rectangle spanned by two arbitrary opposite corners:
/// the top-left corner takes the smaller coordinate on each axis, the
/// bottom-right corner the larger one.
pub open spec fn norm_spec(a: Point, b: Point) -> Rectangle {
    Rectangle {
        tl: Point {
            x: if a.x <= b.x { a.x } else { b.x },
            y: if a.y <= b.y { a.y } else { b.y },
        },
        br: Point {
            x: if a.x <= b.x { b.x } else { a.x },
            y: if a.y <= b.y { b.y } else { a.y },
        },
    }
}

/// Orders two arbitrary corner points into a canonical top-left/bottom-right
/// rectangle. Total: any two points are accepted, in either order.
pub fn normalize(a: Point, b: Point) -> (r: Rectangle)
    ensures
        r == norm_spec(a, b),
        r.tl.x <= r.br.x,
        r.tl.y <= r.br.y,
{
    let tl = Point {
        x: if a.x <= b.x { a.x } else { b.x },
        y: if a.y <= b.y { a.y } else { b.y },
    };
    let br = Point {
        x: if a.x <= b.x { b.x } else { a.x },
        y: if a.y <= b.y { b.y } else { a.y },
    };
    Rectangle { tl, br }
}

/// Normalization does not depend on the order in which the two corners are
/// given, and the result is always canonical: the top-left corner is at or
/// above and at or left of the bottom-right corner.
pub proof fn lemma_normalize_order_independent(a: Point, b: Point)
    ensures
        norm_spec(a, b) == norm_spec(b, a),
        norm_spec(a, b).tl.x <= norm_spec(a, b).br.x,
        norm_spec(a, b).tl.y <= norm_spec(a, b).br.y,
{
}

impl Point {
    /// The `(x, y, width, height)` form of the rectangle with `self` as its
    /// top-left corner and `point` as its bottom-right corner.
    pub fn into_rectangle(self, point: &Point) -> (r: (i32, i32, i32, i32))
        requires
            self.x <= point.x,
            self.y <= point.y,
            point.x - self.x <= i32::MAX,
            point.y - self.y <= i32::MAX,
        ensures
            r.0 == self.x,
            r.1 == self.y,
            r.2 == point.x - self.x,
            r.3 == point.y - self.y,
    {
        (self.x, self.y, point.x - self.x, point.y - self.y)
    }
}

impl Rectangle {
    /// This rectangle in `(x, y, width, height)` form.
    pub fn to_parts(self) -> (r: (i32, i32, i32, i32))
        requires
            self.tl.x <= self.br.x,
            self.tl.y <= self.br.y,
            self.br.x - self.tl.x <= i32::MAX,
            self.br.y - self.tl.y <= i32::MAX,
        ensures
            r.0 == self.tl.x,
            r.1 == self.tl.y,
            r.2 == self.br.x - self.tl.x,
            r.3 == self.br.y - self.tl.y,
    {
        self.tl.into_rectangle(&self.br)
    }

    /// The corner form of a rectangle given in `(x, y, width, height)` form.
    /// Inverse of `to_parts`: the two forms are interconvertible.
    pub fn from_parts(parts: (i32, i32, i32, i32)) -> (r: Rectangle)
        requires
            parts.2 >= 0,
            parts.3 >= 0,
            parts.0 + parts.2 <= i32::MAX,
            parts.1 + parts.3 <= i32::MAX,
        ensures
            r.tl.x == parts.0,
            r.tl.y == parts.1,
            r.br.x == parts.0 + parts.2,
            r.br.y == parts.1 + parts.3,
    {
        Rectangle {
            tl: Point { x: parts.0, y: parts.1 },
            br: Point { x: parts.0 + parts.2, y: parts.1 + parts.3 },
        }
    }
}

/// Whether the two rectangles share a boundary coordinate: equal near edges
/// on either axis, or equal far edges on either axis. Such rectangles are
/// never reported as overlapping (the edge-exclusive policy).
pub open spec fn shares_boundary(
    ax: int, ay: int, aw: int, ah: int,
    bx: int, by: int, bw: int, bh: int,
) -> bool {
    ax == bx || ay == by || ax + aw == bx + bw || ay + ah == by + bh
}

/// Strict intersection of the two rectangles' spans `[ax, ax+aw]` and
/// `[bx, bx+bw]` on the x-axis: the spans share more than a boundary
/// coordinate.
pub open spec fn x_overlapping(ax: int, aw: int, bx: int, bw: int) -> bool {
    (if ax >= bx { ax } else { bx }) < (if ax + aw <= bx + bw { ax + aw } else { bx + bw })
}

/// Strict intersection of the two rectangles' spans on the y-axis.
pub open spec fn y_overlapping(ay: int, ah: int, by: int, bh: int) -> bool {
    (if ay >= by { ay } else { by }) < (if ay + ah <= by + bh { ay + ah } else { by + bh })
}

/// The edge-exclusive overlap policy over `(x, y, width, height)`
/// rectangles: rectangles that share any boundary coordinate listed in
/// `shares_boundary` are not overlapping, and the spans must strictly
/// intersect on both axes. Rectangles that merely touch along an edge --
/// one's far edge meeting the other's near edge included -- are therefore
/// reported as non-overlapping, which may exclude a display whose boundary
/// coincides with the selection's edge.
pub open spec fn rects_overlap(
    ax: int, ay: int, aw: int, ah: int,
    bx: int, by: int, bw: int, bh: int,
) -> bool {
    !shares_boundary(ax, ay, aw, ah, bx, by, bw, bh)
    && x_overlapping(ax, aw, bx, bw)
    && y_overlapping(ay, ah, by, bh)
}

/// The overlap policy is symmetric: which rectangle is given first does not
/// change the verdict.
pub proof fn lemma_overlap_symmetric(
    ax: int, ay: int, aw: int, ah: int,
    bx: int, by: int, bw: int, bh: int,
)
    ensures
        rects_overlap(ax, ay, aw, ah, bx, by, bw, bh)
            == rects_overlap(bx, by, bw, bh, ax, ay, aw, ah),
{
}

/// Overlap test over wide coordinates, for callers whose rectangle sides
/// arise as differences of 32-bit coordinates.
pub(crate) fn overlap_wide(
    ax: i64, ay: i64, aw: i64, ah: i64,
    bx: i64, by: i64, bw: i64, bh: i64,
) -> (b: bool)
    requires
        -0x1_0000_0000 <= ax <= 0x1_0000_0000,
        -0x1_0000_0000 <= ay <= 0x1_0000_0000,
        -0x1_0000_0000 <= aw <= 0x1_0000_0000,
        -0x1_0000_0000 <= ah <= 0x1_0000_0000,
        -0x1_0000_0000 <= bx <= 0x1_0000_0000,
        -0x1_0000_0000 <= by <= 0x1_0000_0000,
        -0x1_0000_0000 <= bw <= 0x1_0000_0000,
        -0x1_0000_0000 <= bh <= 0x1_0000_0000,
    ensures
        b == rects_overlap(
            ax as int, ay as int, aw as int, ah as int,
            bx as int, by as int, bw as int, bh as int,
        ),
{
    if ax == bx || ay == by || ax + aw == bx + bw || ay + ah == by + bh {
        return false;
    }
    let xlo = if ax >= bx { ax } else { bx };
    let xhi = if ax + aw <= bx + bw { ax + aw } else { bx + bw };
    let ylo = if ay >= by { ay } else { by };
    let yhi = if ay + ah <= by + bh { ay + ah } else { by + bh };
    xlo < xhi && ylo < yhi
}

/// Tests whether two `(x, y, width, height)` rectangles intersect under the
/// edge-exclusive overlap policy.
pub fn is_overlapping(l: (i32, i32, i32, i32), r: (i32, i32, i32, i32)) -> (b: bool)
    ensures
        b == rects_overlap(
            l.0 as int, l.1 as int, l.2 as int, l.3 as int,
            r.0 as int, r.1 as int, r.2 as int, r.3 as int,
        ),
{
    overlap_wide(
        l.0 as i64, l.1 as i64, l.2 as i64, l.3 as i64,
        r.0 as i64, r.1 as i64, r.2 as i64, r.3 as i64,
    )
}

} // verus!
