//! Points and rectangles on the integer pixel grid.
//!
//! Coordinates are kept within half the range of `i32` and sizes are at least one
//! pixel, so that no edge of a rectangle can leave the range of `i32`.

use vstd::prelude::*;

verus! {

/// The largest coordinate, and the largest width or height.
pub const MAX_COORDINATE: i32 = 0x3fff_ffff;

/// The smallest coordinate.
pub const MIN_COORDINATE: i32 = -0x4000_0000;

/// The coordinate nearest to `v`.
pub open spec fn clamp_position(v: int) -> int {
    if v > MAX_COORDINATE {
        MAX_COORDINATE as int
    } else if v < MIN_COORDINATE {
        MIN_COORDINATE as int
    } else {
        v
    }
}

/// The width or height that stands for `v`: no size is empty, none exceeds the
/// largest coordinate.
pub open spec fn clamp_size(v: int) -> int {
    if v <= 0 {
        1
    } else if v > MAX_COORDINATE {
        MAX_COORDINATE as int
    } else {
        v
    }
}

fn clamped_position(v: i64) -> (r: i32)
    ensures
        r == clamp_position(v as int),
{
    if v > MAX_COORDINATE as i64 {
        MAX_COORDINATE
    } else if v < MIN_COORDINATE as i64 {
        MIN_COORDINATE
    } else {
        v as i32
    }
}

fn clamped_size(v: u32) -> (r: u32)
    ensures
        r == clamp_size(v as int),
{
    if v == 0 {
        1
    } else if v > MAX_COORDINATE as u32 {
        MAX_COORDINATE as u32
    } else {
        v
    }
}

/// A point of the grid.
#[derive(Debug, Clone, Copy, PartialEq, Eq, Hash, Structural)]
pub struct Point {
    x: i32,
    y: i32,
}

impl Point {
    pub closed spec fn spec_x(self) -> i32 {
        self.x
    }

    pub closed spec fn spec_y(self) -> i32 {
        self.y
    }

    /// Both coordinates lie within the coordinate range. Every point that a program
    /// holds is in range.
    #[verifier::type_invariant]
    pub open spec fn in_range(self) -> bool {
        &&& MIN_COORDINATE <= self.x() <= MAX_COORDINATE
        &&& MIN_COORDINATE <= self.y() <= MAX_COORDINATE
    }

    /// The point nearest to `(x, y)`.
    pub closed spec fn at(x: int, y: int) -> Point {
        Point { x: clamp_position(x) as i32, y: clamp_position(y) as i32 }
    }

    /// This point moved by `(dx, dy)`, as far as the coordinate range allows.
    pub open spec fn shifted(self, dx: int, dy: int) -> Point {
        Point::at(self.x() + dx, self.y() + dy)
    }

    /// The coordinates of `Point::at(x, y)` are those of `(x, y)`, clamped.
    pub proof fn lemma_at(x: int, y: int)
        ensures
            Point::at(x, y).x() == clamp_position(x),
            Point::at(x, y).y() == clamp_position(y),
            Point::at(x, y).in_range(),
    {
    }

    /// Points with the same coordinates are the same point.
    pub proof fn lemma_same(self, other: Point)
        requires
            self.x() == other.x(),
            self.y() == other.y(),
        ensures
            self == other,
    {
    }

    /// A point in range is the point at its own coordinates.
    pub proof fn lemma_at_own(self)
        requires
            self.in_range(),
        ensures
            self == Point::at(self.x() as int, self.y() as int),
    {
    }

    pub fn new(x: i32, y: i32) -> (p: Point)
        ensures
            p == Point::at(x as int, y as int),
            p.x() == clamp_position(x as int),
            p.y() == clamp_position(y as int),
    {
        Point { x: clamped_position(x as i64), y: clamped_position(y as i64) }
    }

    /// The point nearest to `(x, y)`, for coordinates computed in a wider type.
    pub(crate) fn nearest(x: i64, y: i64) -> (p: Point)
        ensures
            p == Point::at(x as int, y as int),
    {
        Point { x: clamped_position(x), y: clamped_position(y) }
    }

    #[verifier::when_used_as_spec(spec_x)]
    pub fn x(self) -> (x: i32)
        ensures
            x == self.x(),
            MIN_COORDINATE <= x <= MAX_COORDINATE,
    {
        proof {
            use_type_invariant(&self);
        }
        self.x
    }

    #[verifier::when_used_as_spec(spec_y)]
    pub fn y(self) -> (y: i32)
        ensures
            y == self.y(),
            MIN_COORDINATE <= y <= MAX_COORDINATE,
    {
        proof {
            use_type_invariant(&self);
        }
        self.y
    }

    pub fn offset(self, x: i32, y: i32) -> (p: Point)
        ensures
            p == self.shifted(x as int, y as int),
            p.x() == clamp_position(self.x() + x),
            p.y() == clamp_position(self.y() + y),
    {
        Point {
            x: clamped_position(self.x as i64 + x as i64),
            y: clamped_position(self.y as i64 + y as i64),
        }
    }
}

/// A rectangle of the grid that is never empty. It covers the columns from `left()` up
/// to, not including, `right()`, and the rows from `top()` up to, not including,
/// `bottom()`.
#[derive(Debug, Clone, Copy, PartialEq, Eq, Hash, Structural)]
pub struct Rect {
    x: i32,
    y: i32,
    w: u32,
    h: u32,
}

impl Rect {
    pub closed spec fn spec_x(&self) -> i32 {
        self.x
    }

    pub closed spec fn spec_y(&self) -> i32 {
        self.y
    }

    pub closed spec fn spec_width(&self) -> u32 {
        self.w
    }

    pub closed spec fn spec_height(&self) -> u32 {
        self.h
    }

    /// The corner is in the coordinate range and neither side is empty or longer than
    /// the largest coordinate. Every rectangle that a program holds is in range.
    #[verifier::type_invariant]
    pub open spec fn in_range(&self) -> bool {
        &&& MIN_COORDINATE <= self.x() <= MAX_COORDINATE
        &&& MIN_COORDINATE <= self.y() <= MAX_COORDINATE
        &&& 1 <= self.width() <= MAX_COORDINATE
        &&& 1 <= self.height() <= MAX_COORDINATE
    }

    pub open spec fn spec_left(&self) -> i32 {
        self.x()
    }

    pub open spec fn spec_right(&self) -> i32 {
        (self.x() + self.width()) as i32
    }

    pub open spec fn spec_top(&self) -> i32 {
        self.y()
    }

    pub open spec fn spec_bottom(&self) -> i32 {
        (self.y() + self.height()) as i32
    }

    /// The middle of the rectangle, rounded towards the top left corner.
    pub open spec fn spec_center(&self) -> Point {
        Point::at(self.x() + self.width() / 2, self.y() + self.height() / 2)
    }

    /// The corner points. An edge beyond the largest coordinate gives a corner at the
    /// largest coordinate.
    pub open spec fn spec_top_left(&self) -> Point {
        Point::at(self.left() as int, self.top() as int)
    }

    pub open spec fn spec_top_right(&self) -> Point {
        Point::at(self.right() as int, self.top() as int)
    }

    pub open spec fn spec_bottom_left(&self) -> Point {
        Point::at(self.left() as int, self.bottom() as int)
    }

    pub open spec fn spec_bottom_right(&self) -> Point {
        Point::at(self.right() as int, self.bottom() as int)
    }

    /// The rectangle nearest to the one with its top left corner at `(x, y)` and of
    /// the given size.
    pub closed spec fn at(x: int, y: int, width: int, height: int) -> Rect {
        Rect {
            x: clamp_position(x) as i32,
            y: clamp_position(y) as i32,
            w: clamp_size(width) as u32,
            h: clamp_size(height) as u32,
        }
    }

    /// The rectangle of the given size around `center`. With an odd side the centre
    /// lies half a pixel nearer to the top left corner.
    pub open spec fn centered(center: Point, width: int, height: int) -> Rect {
        Rect::at(
            clamp_position(center.x() as int) - clamp_size(width) / 2,
            clamp_position(center.y() as int) - clamp_size(height) / 2,
            width,
            height,
        )
    }

    /// Whether the two rectangles share a pixel. Rectangles that only touch along an
    /// edge do not.
    pub open spec fn overlaps(&self, other: Rect) -> bool {
        &&& self.left() < other.right()
        &&& other.left() < self.right()
        &&& self.top() < other.bottom()
        &&& other.top() < self.bottom()
    }

    /// The corner and the sides of `Rect::at(..)` are the arguments, clamped.
    pub proof fn lemma_at(x: int, y: int, width: int, height: int)
        ensures
            Rect::at(x, y, width, height).x() == clamp_position(x),
            Rect::at(x, y, width, height).y() == clamp_position(y),
            Rect::at(x, y, width, height).width() == clamp_size(width),
            Rect::at(x, y, width, height).height() == clamp_size(height),
            Rect::at(x, y, width, height).in_range(),
    {
    }

    /// Rectangles with the same corner and the same sides are the same rectangle.
    pub proof fn lemma_same(&self, other: Rect)
        requires
            self.x() == other.x(),
            self.y() == other.y(),
            self.width() == other.width(),
            self.height() == other.height(),
        ensures
            *self == other,
    {
    }

    pub fn new(x: i32, y: i32, width: u32, height: u32) -> (r: Rect)
        ensures
            r == Rect::at(x as int, y as int, width as int, height as int),
            r.x() == clamp_position(x as int),
            r.y() == clamp_position(y as int),
            r.width() == clamp_size(width as int),
            r.height() == clamp_size(height as int),
    {
        Rect {
            x: clamped_position(x as i64),
            y: clamped_position(y as i64),
            w: clamped_size(width),
            h: clamped_size(height),
        }
    }

    /// The rectangle nearest to the given one, for corners computed in a wider type.
    pub(crate) fn nearest(x: i64, y: i64, width: u32, height: u32) -> (r: Rect)
        ensures
            r == Rect::at(x as int, y as int, width as int, height as int),
    {
        Rect {
            x: clamped_position(x),
            y: clamped_position(y),
            w: clamped_size(width),
            h: clamped_size(height),
        }
    }

    pub fn from_center(center: Point, width: u32, height: u32) -> (r: Rect)
        ensures
            r == Rect::centered(center, width as int, height as int),
            r.x() == clamp_position(center.x() - clamp_size(width as int) / 2),
            r.y() == clamp_position(center.y() - clamp_size(height as int) / 2),
            r.width() == clamp_size(width as int),
            r.height() == clamp_size(height as int),
    {
        proof {
            use_type_invariant(&center);
        }
        let w = clamped_size(width);
        let h = clamped_size(height);
        let cx = clamped_position(center.x() as i64);
        let cy = clamped_position(center.y() as i64);
        Rect {
            x: clamped_position(cx as i64 - (w / 2) as i64),
            y: clamped_position(cy as i64 - (h / 2) as i64),
            w,
            h,
        }
    }

    #[verifier::when_used_as_spec(spec_x)]
    pub fn x(&self) -> (x: i32)
        ensures
            x == self.x(),
    {
        self.x
    }

    #[verifier::when_used_as_spec(spec_y)]
    pub fn y(&self) -> (y: i32)
        ensures
            y == self.y(),
    {
        self.y
    }

    #[verifier::when_used_as_spec(spec_width)]
    pub fn width(&self) -> (width: u32)
        ensures
            width == self.width(),
            1 <= width <= MAX_COORDINATE,
    {
        proof {
            use_type_invariant(self);
        }
        self.w
    }

    #[verifier::when_used_as_spec(spec_height)]
    pub fn height(&self) -> (height: u32)
        ensures
            height == self.height(),
            1 <= height <= MAX_COORDINATE,
    {
        proof {
            use_type_invariant(self);
        }
        self.h
    }

    #[verifier::when_used_as_spec(spec_left)]
    pub fn left(&self) -> (left: i32)
        ensures
            left == self.left(),
    {
        self.x
    }

    #[verifier::when_used_as_spec(spec_right)]
    pub fn right(&self) -> (right: i32)
        ensures
            right == self.right(),
            right == self.x() + self.width(),
    {
        proof {
            use_type_invariant(self);
        }
        self.x + self.w as i32
    }

    #[verifier::when_used_as_spec(spec_top)]
    pub fn top(&self) -> (top: i32)
        ensures
            top == self.top(),
    {
        self.y
    }

    #[verifier::when_used_as_spec(spec_bottom)]
    pub fn bottom(&self) -> (bottom: i32)
        ensures
            bottom == self.bottom(),
            bottom == self.y() + self.height(),
    {
        proof {
            use_type_invariant(self);
        }
        self.y + self.h as i32
    }

    #[verifier::when_used_as_spec(spec_center)]
    pub fn center(&self) -> (p: Point)
        ensures
            p == self.center(),
    {
        proof {
            use_type_invariant(self);
        }
        Point::new(self.x + (self.w / 2) as i32, self.y + (self.h / 2) as i32)
    }

    #[verifier::when_used_as_spec(spec_top_left)]
    pub fn top_left(&self) -> (p: Point)
        ensures
            p == self.top_left(),
    {
        Point::new(self.left(), self.top())
    }

    #[verifier::when_used_as_spec(spec_top_right)]
    pub fn top_right(&self) -> (p: Point)
        ensures
            p == self.top_right(),
    {
        Point::new(self.right(), self.top())
    }

    #[verifier::when_used_as_spec(spec_bottom_left)]
    pub fn bottom_left(&self) -> (p: Point)
        ensures
            p == self.bottom_left(),
    {
        Point::new(self.left(), self.bottom())
    }

    #[verifier::when_used_as_spec(spec_bottom_right)]
    pub fn bottom_right(&self) -> (p: Point)
        ensures
            p == self.bottom_right(),
    {
        Point::new(self.right(), self.bottom())
    }

    pub fn has_intersection(&self, other: Rect) -> (hit: bool)
        ensures
            hit == self.overlaps(other),
    {
        proof {
            use_type_invariant(self);
            use_type_invariant(&other);
        }
        let mut a_min = self.x;
        let mut a_max = a_min + self.w as i32;
        let mut b_min = other.x;
        let mut b_max = b_min + other.w as i32;
        if b_min > a_min {
            a_min = b_min;
        }
        if b_max < a_max {
            a_max = b_max;
        }
        if a_max <= a_min {
            return false;
        }
        a_min = self.y;
        a_max = a_min + self.h as i32;
        b_min = other.y;
        b_max = b_min + other.h as i32;
        if b_min > a_min {
            a_min = b_min;
        }
        if b_max < a_max {
            a_max = b_max;
        }
        if a_max <= a_min {
            return false;
        }
        true
    }
}

} // verus!
