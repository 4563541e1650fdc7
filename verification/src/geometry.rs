//! Integer 2D geometry used throughout the toolkit.
//!
//! All coordinates are whole device pixels. Every dimension the layout
//! engine produces is kept inside `[0, MAX_DIM]`, and every coordinate
//! inside `[-MAX_DIM, MAX_DIM]`; the saturating helpers below establish
//! those ranges, which keeps all later arithmetic free of overflow.

use vstd::prelude::*;

verus! {

/// Largest dimension (and coordinate magnitude) the toolkit works with.
pub const MAX_DIM: i64 = 0x100_0000_0000;

/// A width or height is valid when it lies in `[0, MAX_DIM]`.
pub open spec fn valid_dim(x: int) -> bool {
    0 <= x <= MAX_DIM
}

/// A coordinate is valid when its magnitude is at most `MAX_DIM`.
pub open spec fn valid_coord(x: int) -> bool {
    -MAX_DIM <= x <= MAX_DIM
}

/// Clamp an arbitrary value into the dimension range `[0, MAX_DIM]`.
pub open spec fn clamp_dim(x: int) -> int {
    if x < 0 {
        0
    } else if x > MAX_DIM {
        MAX_DIM as int
    } else {
        x
    }
}

/// Clamp an arbitrary value into the coordinate range `[-MAX_DIM, MAX_DIM]`.
pub open spec fn clamp_coord(x: int) -> int {
    if x < -MAX_DIM {
        -MAX_DIM
    } else if x > MAX_DIM {
        MAX_DIM as int
    } else {
        x
    }
}

/// Clamp a raw value into the dimension range.
pub fn clamp_dim_exec(x: i64) -> (r: i64)
    ensures
        r == clamp_dim(x as int),
{
    if x < 0 {
        0
    } else if x > MAX_DIM {
        MAX_DIM
    } else {
        x
    }
}

/// Clamp a raw value into the coordinate range.
pub fn clamp_coord_exec(x: i64) -> (r: i64)
    ensures
        r == clamp_coord(x as int),
{
    if x < -MAX_DIM {
        -MAX_DIM
    } else if x > MAX_DIM {
        MAX_DIM
    } else {
        x
    }
}

/// Add two dimensions, saturating at `MAX_DIM`.
pub fn dim_add(a: i64, b: i64) -> (r: i64)
    requires
        valid_dim(a as int),
        valid_dim(b as int),
    ensures
        r == clamp_dim(a + b),
{
    if a + b > MAX_DIM {
        MAX_DIM
    } else {
        a + b
    }
}

/// Subtract one dimension from another, saturating at zero.
pub fn dim_sub(a: i64, b: i64) -> (r: i64)
    requires
        valid_dim(a as int),
        valid_dim(b as int),
    ensures
        r == clamp_dim(a - b),
{
    if a >= b {
        a - b
    } else {
        0
    }
}

/// The larger of two dimensions.
pub fn dim_max(a: i64, b: i64) -> (r: i64)
    ensures
        r == if a >= b { a } else { b },
{
    if a >= b {
        a
    } else {
        b
    }
}

/// Translate a coordinate by subtracting an offset, clamped back into range.
pub fn coord_sub(a: i64, b: i64) -> (r: i64)
    requires
        valid_coord(a as int),
        valid_coord(b as int),
    ensures
        r == clamp_coord(a - b),
{
    clamp_coord_exec(a - b)
}

/// A point in the plane, in the coordinate space of the enclosing node.
#[derive(Clone, Copy, Debug, PartialEq, Eq, Structural)]
pub struct Point {
    pub x: i64,
    pub y: i64,
}

impl Point {
    /// Both coordinates lie in the valid range.
    pub open spec fn wf(self) -> bool {
        valid_coord(self.x as int) && valid_coord(self.y as int)
    }

    pub fn new(x: i64, y: i64) -> (r: Point)
        ensures
            r.x == x,
            r.y == y,
    {
        Point { x, y }
    }
}

impl Default for Point {
    /// The origin.
    fn default() -> (r: Point)
        ensures
            r == (Point { x: 0, y: 0 }),
    {
        Point { x: 0, y: 0 }
    }
}

/// A width/height pair.
#[derive(Clone, Copy, Debug, PartialEq, Eq, Structural)]
pub struct Size {
    pub width: i64,
    pub height: i64,
}

impl Size {
    /// Both extents lie in `[0, MAX_DIM]`.
    pub open spec fn wf(self) -> bool {
        valid_dim(self.width as int) && valid_dim(self.height as int)
    }

    pub fn new(width: i64, height: i64) -> (r: Size)
        ensures
            r.width == width,
            r.height == height,
    {
        Size { width, height }
    }
}

impl Default for Size {
    /// The empty size.
    fn default() -> (r: Size)
        ensures
            r == (Size { width: 0, height: 0 }),
    {
        Size { width: 0, height: 0 }
    }
}

/// An axis-aligned rectangle described by its origin and size.
#[derive(Clone, Copy, Debug, PartialEq, Eq, Structural)]
pub struct Rect {
    pub origin: Point,
    pub size: Size,
}

impl Rect {
    pub open spec fn wf(self) -> bool {
        self.origin.wf() && self.size.wf()
    }

    pub fn new(origin: Point, size: Size) -> (r: Rect)
        ensures
            r.origin == origin,
            r.size == size,
    {
        Rect { origin, size }
    }

    /// The rectangle with the given size placed at the origin.
    pub fn from_size(size: Size) -> (r: Rect)
        ensures
            r.origin == (Point { x: 0, y: 0 }),
            r.size == size,
    {
        Rect { origin: Point { x: 0, y: 0 }, size }
    }

    pub fn width(&self) -> (r: i64)
        ensures
            r == self.size.width,
    {
        self.size.width
    }

    pub fn height(&self) -> (r: i64)
        ensures
            r == self.size.height,
    {
        self.size.height
    }

    /// The x coordinate just past the right edge.
    pub fn right(&self) -> (r: i64)
        requires
            self.wf(),
    ensures
            r == self.origin.x + self.size.width,
    {
        self.origin.x + self.size.width
    }

    /// The vertical midpoint, rounded toward the top.
    pub fn center_y(&self) -> (r: i64)
        requires
            self.wf(),
        ensures
            r == self.origin.y + self.size.height / 2,
    {
        self.origin.y + self.size.height / 2
    }
}

/// Whether `point` falls inside the rectangle at `position` with extent
/// `size`: closed on the top/left edge, open on the bottom/right edge.
pub open spec fn point_in_rect(point: Point, position: Point, size: Size) -> bool {
    &&& position.x <= point.x < position.x + size.width
    &&& position.y <= point.y < position.y + size.height
}

/// Hit test a point against a rectangle given by position and size.
pub fn hit_test_point(point: &Point, position: &Point, size: &Size) -> (r: bool)
    requires
        point.wf(),
        position.wf(),
        size.wf(),
    ensures
        r == point_in_rect(*point, *position, *size),
{
    let x = point.x >= position.x && point.x < position.x + size.width;
    let y = point.y >= position.y && point.y < position.y + size.height;
    x && y
}

} // verus!
