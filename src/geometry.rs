use vstd::prelude::*;

verus! {

/// Whether an integer fits in a signed 32-bit value.
pub open spec fn in_i32(v: int) -> bool {
    i32::MIN <= v <= i32::MAX
}

/// Integer division by two, rounded toward zero.
pub open spec fn half_toward_zero(v: int) -> int {
    if v >= 0 {
        v / 2
    } else {
        -((-v) / 2)
    }
}

/// A point in the shared logical coordinate space.
#[derive(Debug, Default, Clone, Copy, PartialEq, Eq)]
pub struct TPoint<T: Copy> {
    pub x: T,
    pub y: T,
}

/// A point with integer coordinates.
pub type Point = TPoint<i32>;

impl<T: Copy> TPoint<T> {
    pub fn x(&self) -> (r: T)
        ensures
            r == self.x,
    {
        self.x
    }

    pub fn y(&self) -> (r: T)
        ensures
            r == self.y,
    {
        self.y
    }

    /// The vector from the origin to this point.
    pub fn as_displacement(&self) -> (r: TDisplacement<T>)
        ensures
            r.dx == self.x,
            r.dy == self.y,
    {
        TDisplacement { dx: self.x, dy: self.y }
    }
}

impl TPoint<i32> {
    pub open spec fn zero_spec() -> Point {
        TPoint { x: 0, y: 0 }
    }

    pub fn zero() -> (r: Point)
        ensures
            r == Self::zero_spec(),
    {
        TPoint { x: 0, y: 0 }
    }

    /// This point moved by `d`.
    pub fn add_displacement(&self, d: &Displacement) -> (r: Point)
        requires
            in_i32(self.x + d.dx),
            in_i32(self.y + d.dy),
        ensures
            r.x == self.x + d.dx,
            r.y == self.y + d.dy,
    {
        TPoint { x: self.x + d.dx, y: self.y + d.dy }
    }

    /// This point moved back by `d`.
    pub fn sub_displacement(&self, d: &Displacement) -> (r: Point)
        requires
            in_i32(self.x - d.dx),
            in_i32(self.y - d.dy),
        ensures
            r.x == self.x - d.dx,
            r.y == self.y - d.dy,
    {
        TPoint { x: self.x - d.dx, y: self.y - d.dy }
    }

    /// The vector that leads from `other` to this point.
    pub fn displacement_from(&self, other: &Point) -> (r: Displacement)
        requires
            in_i32(self.x - other.x),
            in_i32(self.y - other.y),
        ensures
            r.dx == self.x - other.x,
            r.dy == self.y - other.y,
    {
        TDisplacement { dx: self.x - other.x, dy: self.y - other.y }
    }
}

/// A width and a height.
#[derive(Debug, Default, Clone, Copy, PartialEq, Eq)]
pub struct Size {
    pub width: i32,
    pub height: i32,
}

impl Size {
    pub fn zero() -> (r: Size)
        ensures
            r.width == 0,
            r.height == 0,
    {
        Size { width: 0, height: 0 }
    }

    pub fn width(&self) -> (r: i32)
        ensures
            r == self.width,
    {
        self.width
    }

    pub fn height(&self) -> (r: i32)
        ensures
            r == self.height,
    {
        self.height
    }

    pub fn with_width(&self, width: i32) -> (r: Size)
        ensures
            r.width == width,
            r.height == self.height,
    {
        Size { width, height: self.height }
    }

    pub fn with_height(&self, height: i32) -> (r: Size)
        ensures
            r.width == self.width,
            r.height == height,
    {
        Size { width: self.width, height }
    }

    pub fn as_displacement(&self) -> (r: Displacement)
        ensures
            r.dx == self.width,
            r.dy == self.height,
    {
        TDisplacement { dx: self.width, dy: self.height }
    }

    /// Component-wise sum.
    pub fn add(&self, other: &Size) -> (r: Size)
        requires
            in_i32(self.width + other.width),
            in_i32(self.height + other.height),
        ensures
            r.width == self.width + other.width,
            r.height == self.height + other.height,
    {
        Size { width: self.width + other.width, height: self.height + other.height }
    }

    /// Component-wise difference.
    pub fn sub(&self, other: &Size) -> (r: Size)
        requires
            in_i32(self.width - other.width),
            in_i32(self.height - other.height),
        ensures
            r.width == self.width - other.width,
            r.height == self.height - other.height,
    {
        Size { width: self.width - other.width, height: self.height - other.height }
    }

    /// Both components halved, rounded toward zero.
    pub fn half(&self) -> (r: Size)
        ensures
            r.width == half_toward_zero(self.width as int),
            r.height == half_toward_zero(self.height as int),
    {
        Size { width: self.width / 2, height: self.height / 2 }
    }
}

/// An axis-aligned rectangle: a top-left corner and a size.
#[derive(Debug, Default, Clone, Copy, PartialEq, Eq)]
pub struct Rectangle {
    pub top_left: Point,
    pub size: Size,
}

impl Rectangle {
    /// Right edge, exclusive.
    pub open spec fn right_spec(&self) -> int {
        self.top_left.x + self.size.width
    }

    /// Bottom edge, exclusive.
    pub open spec fn bottom_spec(&self) -> int {
        self.top_left.y + self.size.height
    }

    /// The right and bottom edges are representable.
    pub open spec fn wf(&self) -> bool {
        in_i32(self.right_spec()) && in_i32(self.bottom_spec())
    }

    pub open spec fn contains_spec(&self, p: Point) -> bool {
        self.top_left.x <= p.x < self.right_spec() && self.top_left.y <= p.y < self.bottom_spec()
    }

    /// Two rectangles overlap when neither is degenerate and they are not
    /// apart on either axis; rectangles that only touch do not overlap.
    pub open spec fn overlaps_spec(&self, o: &Rectangle) -> bool {
        &&& o.top_left.x < self.right_spec()
        &&& self.top_left.x < o.right_spec()
        &&& o.top_left.y < self.bottom_spec()
        &&& self.top_left.y < o.bottom_spec()
        &&& self.size.width != 0
        &&& self.size.height != 0
        &&& o.size.width != 0
        &&& o.size.height != 0
    }

    pub fn zero() -> (r: Rectangle)
        ensures
            r.top_left.x == 0,
            r.top_left.y == 0,
            r.size.width == 0,
            r.size.height == 0,
    {
        Rectangle { top_left: Point::zero(), size: Size::zero() }
    }

    /// Whether the right and bottom edges can be represented.
    pub fn is_representable(&self) -> (r: bool)
        ensures
            r == self.wf(),
    {
        let right = self.top_left.x as i64 + self.size.width as i64;
        let bottom = self.top_left.y as i64 + self.size.height as i64;
        i32::MIN as i64 <= right && right <= i32::MAX as i64 && i32::MIN as i64 <= bottom && bottom
            <= i32::MAX as i64
    }

    pub fn left(&self) -> (r: i32)
        ensures
            r == self.top_left.x,
    {
        self.top_left.x
    }

    pub fn top(&self) -> (r: i32)
        ensures
            r == self.top_left.y,
    {
        self.top_left.y
    }

    pub fn right(&self) -> (r: i32)
        requires
            self.wf(),
        ensures
            r == self.right_spec(),
    {
        self.left() + self.width()
    }

    pub fn bottom(&self) -> (r: i32)
        requires
            self.wf(),
        ensures
            r == self.bottom_spec(),
    {
        self.top() + self.height()
    }

    pub fn center_x(&self) -> (r: i32)
        requires
            in_i32(self.top_left.x + half_toward_zero(self.size.width as int)),
        ensures
            r == self.top_left.x + half_toward_zero(self.size.width as int),
    {
        self.left() + self.width() / 2
    }

    pub fn center_y(&self) -> (r: i32)
        requires
            in_i32(self.top_left.y + half_toward_zero(self.size.height as int)),
        ensures
            r == self.top_left.y + half_toward_zero(self.size.height as int),
    {
        self.top() + self.height() / 2
    }

    pub fn width(&self) -> (r: i32)
        ensures
            r == self.size.width,
    {
        self.size.width
    }

    pub fn height(&self) -> (r: i32)
        ensures
            r == self.size.height,
    {
        self.size.height
    }

    pub fn top_left(&self) -> (r: Point)
        ensures
            r == self.top_left,
    {
        self.top_left
    }

    pub fn bottom_right(&self) -> (r: Point)
        requires
            self.wf(),
        ensures
            r.x == self.right_spec(),
            r.y == self.bottom_spec(),
    {
        TPoint { x: self.right(), y: self.bottom() }
    }

    pub fn size(&self) -> (r: Size)
        ensures
            r == self.size,
    {
        self.size
    }

    /// Half-open containment: the left and top edges belong to the
    /// rectangle, the right and bottom edges do not.
    pub fn contains(&self, point: &Point) -> (r: bool)
        requires
            self.wf(),
        ensures
            r == self.contains_spec(*point),
    {
        self.left() <= point.x && self.right() > point.x && self.top() <= point.y
            && self.bottom() > point.y
    }

    pub fn overlaps(&self, rectangle: &Rectangle) -> (r: bool)
        requires
            self.wf(),
            rectangle.wf(),
        ensures
            r == self.overlaps_spec(rectangle),
    {
        let disjoint = rectangle.left() >= self.right() || rectangle.right() <= self.left()
            || rectangle.top() >= self.bottom() || rectangle.bottom() <= self.top()
            || self.width() == 0 || self.height() == 0 || rectangle.width() == 0
            || rectangle.height() == 0;
        !disjoint
    }

    /// This rectangle moved by `d`, with its size kept.
    pub fn translate(&self, d: &Displacement) -> (r: Rectangle)
        requires
            in_i32(self.top_left.x + d.dx),
            in_i32(self.top_left.y + d.dy),
        ensures
            r.top_left.x == self.top_left.x + d.dx,
            r.top_left.y == self.top_left.y + d.dy,
            r.size == self.size,
    {
        Rectangle { top_left: self.top_left.add_displacement(d), size: self.size }
    }
}

/// A vector between two points or two sizes.
#[derive(Debug, Default, Clone, Copy, PartialEq, Eq)]
pub struct TDisplacement<T: Copy> {
    pub dx: T,
    pub dy: T,
}

/// A vector with integer components.
pub type Displacement = TDisplacement<i32>;

impl<T: Copy> TDisplacement<T> {
    pub fn delta_x(&self) -> (r: T)
        ensures
            r == self.dx,
    {
        self.dx
    }

    pub fn delta_y(&self) -> (r: T)
        ensures
            r == self.dy,
    {
        self.dy
    }
}

impl TDisplacement<i32> {
    pub fn zero() -> (r: Displacement)
        ensures
            r.dx == 0,
            r.dy == 0,
    {
        TDisplacement { dx: 0, dy: 0 }
    }

    /// Component-wise sum.
    pub fn add(&self, other: &Displacement) -> (r: Displacement)
        requires
            in_i32(self.dx + other.dx),
            in_i32(self.dy + other.dy),
        ensures
            r.dx == self.dx + other.dx,
            r.dy == self.dy + other.dy,
    {
        TDisplacement { dx: self.dx + other.dx, dy: self.dy + other.dy }
    }

    /// Component-wise difference.
    pub fn sub(&self, other: &Displacement) -> (r: Displacement)
        requires
            in_i32(self.dx - other.dx),
            in_i32(self.dy - other.dy),
        ensures
            r.dx == self.dx - other.dx,
            r.dy == self.dy - other.dy,
    {
        TDisplacement { dx: self.dx - other.dx, dy: self.dy - other.dy }
    }
}

/// A rectangle never overlaps itself unless it has positive width and height.
pub proof fn lemma_self_overlap(r: Rectangle)
    requires
        r.size.width >= 0,
        r.size.height >= 0,
    ensures
        r.overlaps_spec(&r) <==> (r.size.width != 0 && r.size.height != 0),
{
}

/// Overlap is symmetric.
pub proof fn lemma_overlap_symmetric(a: Rectangle, b: Rectangle)
    ensures
        a.overlaps_spec(&b) == b.overlaps_spec(&a),
{
}

} // verus!
