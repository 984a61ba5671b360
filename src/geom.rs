use vstd::prelude::*;

verus! {

/// A point with exact integer coordinates.
#[derive(Clone, Copy, Debug, PartialEq, Eq, Structural)]
pub struct Point {
    pub x: i64,
    pub y: i64,
}

/// Bit of `Curve::flags` marking a straight line stored as a degenerate quadratic.
pub const LINE_FLAG: u32 = 1;

/// A quadratic curve: start point `p0`, control point `p1`, end point `p2`.
#[derive(Clone, Copy, Debug, PartialEq, Eq, Structural)]
pub struct Curve {
    pub p0: Point,
    pub p1: Point,
    pub p2: Point,
    pub flags: u32,
}

pub open spec fn origin() -> Point {
    Point { x: 0, y: 0 }
}

impl Point {
    pub fn new(x: i64, y: i64) -> (r: Point)
        ensures
            r.x == x,
            r.y == y,
    {
        Point { x, y }
    }

    pub fn zero() -> (r: Point)
        ensures
            r == origin(),
    {
        Point { x: 0, y: 0 }
    }
}

impl Curve {
    /// The all-zero curve.
    pub open spec fn spec_zeroed() -> Curve {
        Curve { p0: origin(), p1: origin(), p2: origin(), flags: 0 }
    }

    /// A curve that has only its start point: the pending segment of an open path.
    pub open spec fn is_stub(self) -> bool {
        self.p1 == origin() && self.p2 == origin()
    }

    pub open spec fn is_line(self) -> bool {
        self.flags & LINE_FLAG == LINE_FLAG
    }

    #[must_use]
    pub fn with_p0(self, p0: Point) -> (r: Curve)
        ensures
            r == (Curve { p0, ..self }),
    {
        Curve { p0, ..self }
    }

    #[must_use]
    pub fn with_p1(self, p1: Point) -> (r: Curve)
        ensures
            r == (Curve { p1, ..self }),
    {
        Curve { p1, ..self }
    }

    #[must_use]
    pub fn with_p2(self, p2: Point) -> (r: Curve)
        ensures
            r == (Curve { p2, ..self }),
    {
        Curve { p2, ..self }
    }

    #[must_use]
    pub fn set_line_flag(self) -> (r: Curve)
        ensures
            r == (Curve { flags: self.flags | LINE_FLAG, ..self }),
            r.is_line(),
    {
        let old_flags = self.flags;
        let flags = old_flags | LINE_FLAG;
        assert(flags & 1u32 == 1u32) by (bit_vector)
            requires flags == old_flags | 1u32;
        Curve { flags, ..self }
    }

    #[must_use]
    pub fn zeroed() -> (r: Curve)
        ensures
            r == Curve::spec_zeroed(),
            r.is_stub(),
            !r.is_line(),
    {
        assert(0u32 & 1u32 != 1u32) by (bit_vector);
        Curve { p0: Point::zero(), p1: Point::zero(), p2: Point::zero(), flags: 0 }
    }
}

} // verus!
