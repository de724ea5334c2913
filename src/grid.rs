//! Grid coordinates: pivots, pivoted points and rectangles.
use vstd::prelude::*;

use sark_grids::Pivot;

verus! {

/// `sark_grids::Pivot`, a field-less enum of nine anchors, declared with its
/// variants visible so that specifications can match on them.
#[verifier::external_type_specification]
pub struct ExPivot(sark_grids::Pivot);

/// The largest grid side: the cell count of a grid then fits a 32-bit
/// `usize`, and pivot positions, which are computed in single-precision
/// floating point, are exact.
pub const MAX_SIDE: usize = 65535;

/// The direction of each axis of a pivot's coordinate space, as `(x, y)`.
pub open spec fn pivot_axis(p: Pivot) -> (int, int) {
    match p {
        Pivot::TopLeft => (1, -1),
        Pivot::TopCenter => (1, -1),
        Pivot::TopRight => (-1, -1),
        Pivot::LeftCenter => (1, 1),
        Pivot::RightCenter => (-1, 1),
        Pivot::BottomLeft => (1, 1),
        Pivot::BottomCenter => (1, 1),
        Pivot::BottomRight => (-1, 1),
        Pivot::Center => (1, 1),
    }
}

/// Where a pivot sits along one side of `len` cells: `0` is the low end,
/// `1` the middle, `2` the high end.
pub open spec fn side_position(anchor: int, len: int) -> int {
    if anchor == 0 {
        0
    } else if anchor == 1 {
        len / 2
    } else {
        len - 1
    }
}

/// The pivot's place on each axis: `0` low, `1` middle, `2` high.
pub open spec fn pivot_anchor(p: Pivot) -> (int, int) {
    match p {
        Pivot::TopLeft => (0, 2),
        Pivot::TopCenter => (1, 2),
        Pivot::TopRight => (2, 2),
        Pivot::LeftCenter => (0, 1),
        Pivot::RightCenter => (2, 1),
        Pivot::BottomLeft => (0, 0),
        Pivot::BottomCenter => (1, 0),
        Pivot::BottomRight => (2, 0),
        Pivot::Center => (1, 1),
    }
}

/// The grid cell that a pivot names on a grid of `w` by `h` cells.
pub open spec fn pivot_position(p: Pivot, w: int, h: int) -> (int, int) {
    (side_position(pivot_anchor(p).0, w), side_position(pivot_anchor(p).1, h))
}

/// The absolute position of `(x, y)` taken in the coordinate space of
/// `pivot` (or as it stands, without one) on a grid of `w` by `h` cells.
pub open spec fn resolve(x: int, y: int, pivot: Option<Pivot>, w: int, h: int) -> (int, int) {
    match pivot {
        None => (x, y),
        Some(p) => (
            pivot_position(p, w, h).0 + x * pivot_axis(p).0,
            pivot_position(p, w, h).1 + y * pivot_axis(p).1,
        ),
    }
}

/// Relies on `sark_grids::PivotedPoint::calculate`: the pivot's cell is
/// `round((size - 1) * n)` for its normalised place `n` in `{0, 0.5, 1}`,
/// exact for sides up to `MAX_SIDE`, plus the point scaled by the pivot's
/// axes; `i32` arithmetic that must not overflow.
#[verifier::external_body]
fn calculate_pivoted(x: i32, y: i32, pivot: Option<Pivot>, w: i32, h: i32) -> (r: (i32, i32))
    requires
        1 <= w <= MAX_SIDE,
        1 <= h <= MAX_SIDE,
        x != i32::MIN,
        y != i32::MIN,
        i32::MIN <= resolve(x as int, y as int, pivot, w as int, h as int).0 <= i32::MAX,
        i32::MIN <= resolve(x as int, y as int, pivot, w as int, h as int).1 <= i32::MAX,
    ensures
        r.0 == resolve(x as int, y as int, pivot, w as int, h as int).0,
        r.1 == resolve(x as int, y as int, pivot, w as int, h as int).1,
{
    let mut p = sark_grids::PivotedPoint::from([x, y]);
    p.pivot = pivot;
    let r = p.calculate([w, h]);
    (r.x, r.y)
}

/// A grid point that may carry a pivot: the point is then taken in the
/// pivot's coordinate space and resolved against a grid's size.
#[derive(Clone, Copy, Debug, PartialEq, Eq)]
pub struct PivotedPoint {
    pub point: [i32; 2],
    pub pivot: Option<Pivot>,
}

impl PivotedPoint {
    pub fn new(point: [i32; 2], pivot: Pivot) -> (p: PivotedPoint)
        ensures
            p == (PivotedPoint { point, pivot: Some(pivot) }),
    {
        PivotedPoint { point, pivot: Some(pivot) }
    }

    pub fn pivot(&self) -> (p: Option<Pivot>)
        ensures
            p == self.pivot,
    {
        self.pivot
    }

    /// This point with `pivot` applied when it has none of its own.
    pub fn with_default_pivot(self, pivot: Pivot) -> (p: PivotedPoint)
        ensures
            p == self.with_default_pivot_spec(pivot),
    {
        match self.pivot {
            Some(q) => PivotedPoint { point: self.point, pivot: Some(q) },
            None => PivotedPoint { point: self.point, pivot: Some(pivot) },
        }
    }

    /// This point with `pivot` applied when it has none of its own.
    pub open spec fn with_default_pivot_spec(self, pivot: Pivot) -> PivotedPoint {
        PivotedPoint {
            point: self.point,
            pivot: Some(
                match self.pivot {
                    Some(q) => q,
                    None => pivot,
                },
            ),
        }
    }

    /// The absolute position of this point on a grid of `w` by `h` cells.
    pub open spec fn resolved(self, w: int, h: int) -> (int, int) {
        resolve(self.point[0] as int, self.point[1] as int, self.pivot, w, h)
    }

    /// The point can be resolved on a grid of `w` by `h` cells with `i32`
    /// coordinates.
    pub open spec fn resolvable(self, w: int, h: int) -> bool {
        &&& 1 <= w <= MAX_SIDE
        &&& 1 <= h <= MAX_SIDE
        &&& self.point[0] != i32::MIN
        &&& self.point[1] != i32::MIN
        &&& i32::MIN <= self.resolved(w, h).0 <= i32::MAX
        &&& i32::MIN <= self.resolved(w, h).1 <= i32::MAX
    }

    /// The point resolves to a cell of a grid of `w` by `h` cells.
    pub open spec fn in_bounds(self, w: int, h: int) -> bool {
        &&& 1 <= w <= MAX_SIDE
        &&& 1 <= h <= MAX_SIDE
        &&& 0 <= self.resolved(w, h).0 < w
        &&& 0 <= self.resolved(w, h).1 < h
    }

    /// A point inside the grid can be resolved.
    pub proof fn lemma_in_bounds_resolvable(self, w: int, h: int)
        requires
            self.in_bounds(w, h),
        ensures
            self.resolvable(w, h),
    {
    }

    /// Resolve this point on a grid of `size[0]` by `size[1]` cells.
    pub fn calculate(&self, size: [usize; 2]) -> (r: (i32, i32))
        requires
            self.resolvable(size[0] as int, size[1] as int),
        ensures
            r.0 == self.resolved(size[0] as int, size[1] as int).0,
            r.1 == self.resolved(size[0] as int, size[1] as int).1,
    {
        calculate_pivoted(self.point[0], self.point[1], self.pivot, size[0] as i32, size[1] as i32)
    }
}

impl From<[i32; 2]> for PivotedPoint {
    fn from(point: [i32; 2]) -> (p: PivotedPoint) {
        PivotedPoint { point, pivot: None }
    }
}

impl vstd::std_specs::convert::FromSpecImpl<[i32; 2]> for PivotedPoint {
    open spec fn obeys_from_spec() -> bool {
        true
    }

    open spec fn from_spec(point: [i32; 2]) -> PivotedPoint {
        PivotedPoint { point, pivot: None }
    }
}

/// A rectangle of grid cells: its bottom-left cell and its size.
#[derive(Clone, Copy, Debug, PartialEq, Eq)]
pub struct GridRect {
    pub x: i32,
    pub y: i32,
    pub width: u32,
    pub height: u32,
}

impl GridRect {
    pub fn new(pos: [i32; 2], size: [u32; 2]) -> (r: GridRect)
        ensures
            r == (GridRect { x: pos[0], y: pos[1], width: size[0], height: size[1] }),
    {
        GridRect { x: pos[0], y: pos[1], width: size[0], height: size[1] }
    }

    /// The smallest rectangle holding both corner cells.
    pub fn from_points(a: [i32; 2], b: [i32; 2]) -> (r: GridRect)
        requires
            -(u32::MAX as int) < a[0] - b[0] < u32::MAX,
            -(u32::MAX as int) < a[1] - b[1] < u32::MAX,
        ensures
            r.x == if a[0] <= b[0] { a[0] } else { b[0] },
            r.y == if a[1] <= b[1] { a[1] } else { b[1] },
            r.x + r.width - 1 == if a[0] <= b[0] { b[0] } else { a[0] },
            r.y + r.height - 1 == if a[1] <= b[1] { b[1] } else { a[1] },
    {
        let (x0, x1) = if a[0] <= b[0] { (a[0], b[0]) } else { (b[0], a[0]) };
        let (y0, y1) = if a[1] <= b[1] { (a[1], b[1]) } else { (b[1], a[1]) };
        let w = (x1 as i64 - x0 as i64 + 1) as u32;
        let h = (y1 as i64 - y0 as i64 + 1) as u32;
        GridRect { x: x0, y: y0, width: w, height: h }
    }

    pub fn left(&self) -> (r: i32)
        ensures
            r == self.x,
    {
        self.x
    }

    pub fn bottom(&self) -> (r: i32)
        ensures
            r == self.y,
    {
        self.y
    }

    /// The rightmost column, as a wide integer: `x + width - 1`.
    pub fn right(&self) -> (r: i64)
        ensures
            r == self.x + self.width - 1,
    {
        self.x as i64 + self.width as i64 - 1
    }

    /// The top row, as a wide integer: `y + height - 1`.
    pub fn top(&self) -> (r: i64)
        ensures
            r == self.y + self.height - 1,
    {
        self.y as i64 + self.height as i64 - 1
    }
}

} // verus!
