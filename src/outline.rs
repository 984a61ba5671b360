use vstd::prelude::*;
use crate::geom::{Curve, Point, LINE_FLAG, origin};

verus! {

/// Stored curve coordinates per font unit. Path coordinates arrive in
/// 1/64 font unit and are stored doubled, so that the midpoint of two
/// path points is again an exact integer.
pub const SUBUNITS: i64 = 128;

/// Largest magnitude of a stored coordinate while an outline is built.
pub const COORD_LIMIT: i64 = 0x2_0000_0000;

/// One drawing command of a glyph path, in 1/64 font unit.
#[derive(Clone, Copy, Debug, PartialEq, Eq, Structural)]
pub enum PathEvent {
    MoveTo(i32, i32),
    LineTo(i32, i32),
    QuadTo(i32, i32, i32, i32),
    CurveTo(i32, i32, i32, i32, i32, i32),
    Close,
}

/// Why a path cannot be turned into quadratic curves.
#[derive(Clone, Copy, Debug, PartialEq, Eq, Structural)]
pub enum BuildError {
    /// A segment or a close came before any move.
    NoCurrentPoint,
    /// Cubic segments are not supported.
    Cubic,
    /// A close found the last curve already finished.
    UnfinishedClose,
}

/// The font's global bounding box, in font units.
#[derive(Clone, Copy, Debug, PartialEq, Eq, Structural)]
pub struct BBox {
    pub x_min: i16,
    pub y_min: i16,
    pub x_max: i16,
    pub y_max: i16,
}

/// An ordered sequence of quadratic curves; the order is the drawing order.
#[derive(Debug)]
pub struct Outline {
    curves: Vec<Curve>,
}

pub open spec fn even(v: i64) -> bool {
    v % 2 == 0
}

pub open spec fn coord_ok(v: i64) -> bool {
    -COORD_LIMIT <= v <= COORD_LIMIT
}

pub open spec fn point_ok(p: Point) -> bool {
    coord_ok(p.x) && coord_ok(p.y)
}

/// A path point in stored units.
pub open spec fn scaled(x: i32, y: i32) -> Point {
    Point { x: (2 * x) as i64, y: (2 * y) as i64 }
}

pub open spec fn midpoint(a: Point, b: Point) -> Point {
    Point { x: ((a.x + b.x) / 2) as i64, y: ((a.y + b.y) / 2) as i64 }
}

pub open spec fn stub_at(p: Point) -> Curve {
    Curve { p0: p, ..Curve::spec_zeroed() }
}

pub open spec fn finish_line(c: Curve, p: Point) -> Curve {
    Curve { p1: midpoint(c.p0, p), p2: p, flags: c.flags | LINE_FLAG, ..c }
}

pub open spec fn finish_quad(c: Curve, ctrl: Point, p: Point) -> Curve {
    Curve { p1: ctrl, p2: p, ..c }
}

/// The effect of one path event on the curves built so far.
pub open spec fn step(cs: Seq<Curve>, e: PathEvent) -> Result<Seq<Curve>, BuildError> {
    match e {
        PathEvent::MoveTo(x, y) => Ok(cs.push(stub_at(scaled(x, y)))),
        PathEvent::LineTo(x, y) => if cs.len() == 0 {
            Err(BuildError::NoCurrentPoint)
        } else {
            Ok(cs.drop_last().push(finish_line(cs.last(), scaled(x, y))).push(stub_at(scaled(x, y))))
        },
        PathEvent::QuadTo(x1, y1, x, y) => if cs.len() == 0 {
            Err(BuildError::NoCurrentPoint)
        } else {
            Ok(
                cs.drop_last().push(finish_quad(cs.last(), scaled(x1, y1), scaled(x, y))).push(
                    stub_at(scaled(x, y)),
                ),
            )
        },
        PathEvent::CurveTo(..) => Err(BuildError::Cubic),
        PathEvent::Close => if cs.len() == 0 {
            Err(BuildError::NoCurrentPoint)
        } else if !cs.last().is_stub() {
            Err(BuildError::UnfinishedClose)
        } else {
            Ok(cs.drop_last())
        },
    }
}

/// The curves that a whole path yields, or the first error.
pub open spec fn run(events: Seq<PathEvent>) -> Result<Seq<Curve>, BuildError>
    decreases events.len(),
{
    if events.len() == 0 {
        Ok(Seq::empty())
    } else {
        match run(events.drop_last()) {
            Ok(cs) => step(cs, events.last()),
            Err(e) => Err(e),
        }
    }
}

impl View for Outline {
    type V = Seq<Curve>;

    closed spec fn view(&self) -> Seq<Curve> {
        self.curves@
    }
}

/// Curves as the builder leaves them: start points on the doubled grid, all
/// coordinates within `COORD_LIMIT`.
pub open spec fn built_curve(c: Curve) -> bool {
    &&& even(c.p0.x)
    &&& even(c.p0.y)
    &&& point_ok(c.p0)
    &&& point_ok(c.p1)
    &&& point_ok(c.p2)
}

pub open spec fn built_curves(cs: Seq<Curve>) -> bool {
    forall|i: int| 0 <= i < cs.len() ==> built_curve(#[trigger] cs[i])
}

proof fn lemma_scaled_ok(x: i32, y: i32)
    ensures
        even(scaled(x, y).x),
        even(scaled(x, y).y),
        point_ok(scaled(x, y)),
{
}

proof fn lemma_step_keeps_built(cs: Seq<Curve>, e: PathEvent)
    requires
        built_curves(cs),
    ensures
        step(cs, e) matches Ok(n) ==> built_curves(n),
{
    match e {
        PathEvent::MoveTo(x, y) | PathEvent::LineTo(x, y) | PathEvent::QuadTo(_, _, x, y) => {
            lemma_scaled_ok(x, y);
        },
        _ => {},
    }
    match e {
        PathEvent::QuadTo(x, y, _, _) => {
            lemma_scaled_ok(x, y);
        },
        _ => {},
    }
    match step(cs, e) {
        Ok(n) => {
            assert forall|i: int| 0 <= i < n.len() implies built_curve(#[trigger] n[i]) by {
                if i < cs.len() - 1 || (i < cs.len() && e is MoveTo) {
                    assert(n[i] == cs[i]);
                } else if i == cs.len() - 1 {
                    let c = cs.last();
                    assert(n[i].p0 == c.p0);
                    assert(point_ok(c.p0) && point_ok(c.p1) && point_ok(c.p2));
                } else {
                    assert(n[i] == stub_at(n[i].p0));
                    assert(n[i].p1 == origin() && n[i].p2 == origin());
                }
            }
            assert(built_curves(n));
        },
        Err(_) => {},
    }
}

impl Outline {
    pub closed spec fn wf(&self) -> bool {
        built_curves(self.curves@)
    }

    pub fn new() -> (r: Outline)
        ensures
            r.wf(),
            r@ == Seq::<Curve>::empty(),
    {
        Outline { curves: Vec::new() }
    }

    pub fn len(&self) -> (r: usize)
        ensures
            r == self@.len(),
    {
        self.curves.len()
    }

    pub fn curves(&self) -> (r: &Vec<Curve>)
        ensures
            r@ == self@,
    {
        &self.curves
    }

    /// Starts a new sub-path at `(x, y)`.
    pub fn move_to(&mut self, x: i32, y: i32)
        requires
            old(self).wf(),
        ensures
            final(self).wf(),
            step(old(self)@, PathEvent::MoveTo(x, y)) == Ok::<Seq<Curve>, BuildError>(final(self)@),
    {
        proof { lemma_step_keeps_built(self.curves@, PathEvent::MoveTo(x, y)); }
        let p = Point::new(2 * x as i64, 2 * y as i64);
        self.curves.push(Curve::zeroed().with_p0(p));
    }

    /// Finishes the pending curve with `last` and opens a new one at `p`.
    fn finish(&mut self, last: Curve, p: Point)
        requires
            old(self)@.len() > 0,
        ensures
            final(self)@ == old(self)@.drop_last().push(last).push(stub_at(p)),
    {
        let n = self.curves.len();
        self.curves.set(n - 1, last);
        self.curves.push(Curve::zeroed().with_p0(p));
        assert(self@ =~= old(self)@.drop_last().push(last).push(stub_at(p)));
    }

    /// Draws a straight segment to `(x, y)`, stored as a degenerate quadratic.
    pub fn line_to(&mut self, x: i32, y: i32) -> (r: Result<(), BuildError>)
        requires
            old(self).wf(),
        ensures
            final(self).wf(),
            r is Ok <==> step(old(self)@, PathEvent::LineTo(x, y)) is Ok,
            step(old(self)@, PathEvent::LineTo(x, y)) matches Ok(cs) ==> final(self)@ == cs,
            step(old(self)@, PathEvent::LineTo(x, y)) matches Err(e) ==> r == Err::<(), BuildError>(e)
                && final(self)@ == old(self)@,
    {
        proof { lemma_step_keeps_built(self.curves@, PathEvent::LineTo(x, y)); }
        let n = self.curves.len();
        if n == 0 {
            return Err(BuildError::NoCurrentPoint);
        }
        let last = self.curves[n - 1];
        assert(built_curve(self@[n - 1]));
        let px = 2 * x as i64;
        let py = 2 * y as i64;
        let mx = (last.p0.x + px) / 2;
        let my = (last.p0.y + py) / 2;
        let line = last.with_p1(Point::new(mx, my)).with_p2(Point::new(px, py)).set_line_flag();
        self.finish(line, Point::new(px, py));
        Ok(())
    }

    /// Draws a quadratic segment with control point `(x1, y1)` to `(x, y)`.
    pub fn quad_to(&mut self, x1: i32, y1: i32, x: i32, y: i32) -> (r: Result<(), BuildError>)
        requires
            old(self).wf(),
        ensures
            final(self).wf(),
            r is Ok <==> step(old(self)@, PathEvent::QuadTo(x1, y1, x, y)) is Ok,
            step(old(self)@, PathEvent::QuadTo(x1, y1, x, y)) matches Ok(cs) ==> final(self)@ == cs,
            step(old(self)@, PathEvent::QuadTo(x1, y1, x, y)) matches Err(e) ==> r == Err::<
                (),
                BuildError,
            >(e) && final(self)@ == old(self)@,
    {
        proof { lemma_step_keeps_built(self.curves@, PathEvent::QuadTo(x1, y1, x, y)); }
        let n = self.curves.len();
        if n == 0 {
            return Err(BuildError::NoCurrentPoint);
        }
        let last = self.curves[n - 1];
        let p = Point::new(2 * x as i64, 2 * y as i64);
        let quad = last.with_p1(Point::new(2 * x1 as i64, 2 * y1 as i64)).with_p2(p);
        self.finish(quad, p);
        Ok(())
    }

    /// Cubic segments are refused; the outline is left as it was.
    pub fn curve_to(&mut self, x1: i32, y1: i32, x2: i32, y2: i32, x: i32, y: i32) -> (r: Result<
        (),
        BuildError,
    >)
        ensures
            r == Err::<(), BuildError>(BuildError::Cubic),
            step(old(self)@, PathEvent::CurveTo(x1, y1, x2, y2, x, y)) == Err::<Seq<Curve>, BuildError>(
                BuildError::Cubic,
            ),
            final(self)@ == old(self)@,
            final(self).wf() == old(self).wf(),
    {
        Err(BuildError::Cubic)
    }

    /// Ends the current sub-path by dropping its pending stub curve.
    pub fn close(&mut self) -> (r: Result<(), BuildError>)
        requires
            old(self).wf(),
        ensures
            final(self).wf(),
            r is Ok <==> step(old(self)@, PathEvent::Close) is Ok,
            step(old(self)@, PathEvent::Close) matches Ok(cs) ==> final(self)@ == cs,
            step(old(self)@, PathEvent::Close) matches Err(e) ==> r == Err::<(), BuildError>(e)
                && final(self)@ == old(self)@,
    {
        proof { lemma_step_keeps_built(self.curves@, PathEvent::Close); }
        let n = self.curves.len();
        if n == 0 {
            return Err(BuildError::NoCurrentPoint);
        }
        let last = self.curves[n - 1];
        if !(last.p1 == Point::zero() && last.p2 == Point::zero()) {
            return Err(BuildError::UnfinishedClose);
        }
        self.curves.pop();
        assert(self@ =~= old(self)@.drop_last());
        Ok(())
    }
}


impl Outline {
    /// Builds the curves of a whole path; stops at the first error.
    pub fn build(events: &Vec<PathEvent>) -> (r: Result<Outline, BuildError>)
        ensures
            r is Ok <==> run(events@) is Ok,
            r matches Ok(o) ==> o.wf() && run(events@) == Ok::<Seq<Curve>, BuildError>(o@),
            r matches Err(e) ==> run(events@) == Err::<Seq<Curve>, BuildError>(e),
    {
        let mut out = Outline::new();
        let mut i: usize = 0;
        while i < events.len()
            invariant
                i <= events.len(),
                out.wf(),
                run(events@.take(i as int)) == Ok::<Seq<Curve>, BuildError>(out@),
            decreases events.len() - i,
        {
            let e = events[i];
            proof {
                assert(events@.take(i + 1).drop_last() =~= events@.take(i as int));
                assert(events@.take(i + 1).last() == e);
            }
            let res = match e {
                PathEvent::MoveTo(x, y) => {
                    out.move_to(x, y);
                    Ok(())
                },
                PathEvent::LineTo(x, y) => out.line_to(x, y),
                PathEvent::QuadTo(x1, y1, x, y) => out.quad_to(x1, y1, x, y),
                PathEvent::CurveTo(x1, y1, x2, y2, x, y) => out.curve_to(x1, y1, x2, y2, x, y),
                PathEvent::Close => out.close(),
            };
            match res {
                Ok(()) => {},
                Err(err) => {
                    proof { lemma_run_error_sticks(events@, i + 1); }
                    assert(events@.take(events.len() as int) =~= events@);
                    return Err(err);
                },
            }
            i = i + 1;
        }
        assert(events@.take(events.len() as int) =~= events@);
        Ok(out)
    }
}

proof fn lemma_run_error_sticks(events: Seq<PathEvent>, k: int)
    requires
        0 <= k <= events.len(),
        run(events.take(k)) is Err,
    ensures
        run(events) == run(events.take(k)),
    decreases events.len() - k,
{
    if k < events.len() {
        assert(events.take(k + 1).drop_last() =~= events.take(k));
        lemma_run_error_sticks(events, k + 1);
    } else {
        assert(events.take(k) =~= events);
    }
}

/// Pre-flip normalized position: numerators over `x_scale(b)` and `y_scale(b)`.
pub open spec fn to_unit(p: Point, b: BBox) -> Point {
    Point { x: (p.x - SUBUNITS * b.x_min) as i64, y: (p.y - SUBUNITS * b.y_min) as i64 }
}

/// Mirrors a normalized position vertically: `y' = 1 - y`.
pub open spec fn flip(p: Point, b: BBox) -> Point {
    Point { x: p.x, y: (y_scale(b) - p.y) as i64 }
}

/// Denominator of normalized x coordinates: the box width in stored units.
pub open spec fn x_scale(b: BBox) -> int {
    SUBUNITS * (b.x_max - b.x_min)
}

/// Denominator of normalized y coordinates: the box height in stored units.
pub open spec fn y_scale(b: BBox) -> int {
    SUBUNITS * (b.y_max - b.y_min)
}

pub open spec fn normalize_point(p: Point, b: BBox) -> Point {
    flip(to_unit(p, b), b)
}

/// Normalizes, flips and then swaps the end points to restore the winding.
pub open spec fn normalize_curve(c: Curve, b: BBox) -> Curve {
    Curve {
        p0: normalize_point(c.p2, b),
        p1: normalize_point(c.p1, b),
        p2: normalize_point(c.p0, b),
        flags: c.flags,
    }
}

pub open spec fn normalized(cs: Seq<Curve>, b: BBox) -> Seq<Curve> {
    cs.map_values(|c: Curve| normalize_curve(c, b))
}

impl BBox {
    /// `x_scale` as a value.
    pub fn x_scale(&self) -> (r: i64)
        ensures
            r == x_scale(*self),
    {
        SUBUNITS * (self.x_max as i64 - self.x_min as i64)
    }

    /// `y_scale` as a value.
    pub fn y_scale(&self) -> (r: i64)
        ensures
            r == y_scale(*self),
    {
        SUBUNITS * (self.y_max as i64 - self.y_min as i64)
    }
}

fn normalize_point_exec(p: Point, b: &BBox) -> (r: Point)
    requires
        point_ok(p),
    ensures
        r == normalize_point(p, *b),
{
    let ux = p.x - SUBUNITS * b.x_min as i64;
    let uy = p.y - SUBUNITS * b.y_min as i64;
    Point::new(ux, b.y_scale() - uy)
}

impl Outline {
    /// Rescales every curve against the global box `b`, flips it vertically and
    /// swaps its end points. Afterwards coordinates are numerators over
    /// `x_scale(b)` and `y_scale(b)`.
    pub fn process(&mut self, b: &BBox)
        requires
            old(self).wf(),
        ensures
            final(self)@ == normalized(old(self)@, *b),
            final(self)@.len() == old(self)@.len(),
            forall|i: int|
                0 <= i < old(self)@.len() ==> #[trigger] final(self)@[i] == normalize_curve(
                    old(self)@[i],
                    *b,
                ),
    {
        let ghost before = self.curves@;
        let mut i: usize = 0;
        while i < self.curves.len()
            invariant
                built_curves(before),
                self.curves@.len() == before.len(),
                i <= before.len(),
                forall|j: int| 0 <= j < i ==> #[trigger] self.curves@[j] == normalize_curve(before[j], *b),
                forall|j: int| i <= j < before.len() ==> #[trigger] self.curves@[j] == before[j],
            decreases before.len() - i,
        {
            let c = self.curves[i];
            assert(built_curve(before[i as int]));
            let n = Curve {
                p0: normalize_point_exec(c.p2, b),
                p1: normalize_point_exec(c.p1, b),
                p2: normalize_point_exec(c.p0, b),
                flags: c.flags,
            };
            self.curves.set(i, n);
            i = i + 1;
        }
        assert(self@ =~= normalized(before, *b));
    }
}

/// Whether the path is between sub-paths (`Some(false)`), inside one
/// (`Some(true)`), or out of order (`None`).
pub open spec fn path_state(events: Seq<PathEvent>) -> Option<bool>
    decreases events.len(),
{
    if events.len() == 0 {
        Some(false)
    } else {
        match path_state(events.drop_last()) {
            Some(open) => match events.last() {
                PathEvent::MoveTo(..) => if open { None } else { Some(true) },
                PathEvent::LineTo(..) | PathEvent::QuadTo(..) => if open { Some(true) } else { None },
                PathEvent::Close => if open { Some(false) } else { None },
                PathEvent::CurveTo(..) => None,
            },
            None => None,
        }
    }
}

/// A path made of complete sub-paths: each a move, line or quadratic
/// segments, and a close.
pub open spec fn closed_paths(events: Seq<PathEvent>) -> bool {
    path_state(events) == Some(false)
}

pub open spec fn segment_count(events: Seq<PathEvent>) -> nat
    decreases events.len(),
{
    if events.len() == 0 {
        0
    } else {
        segment_count(events.drop_last()) + match events.last() {
            PathEvent::LineTo(..) | PathEvent::QuadTo(..) => 1nat,
            _ => 0nat,
        }
    }
}

/// End point, in stored units, of the last line or quadratic segment.
pub open spec fn last_segment_end(events: Seq<PathEvent>) -> Option<Point>
    decreases events.len(),
{
    if events.len() == 0 {
        None
    } else {
        match events.last() {
            PathEvent::LineTo(x, y) | PathEvent::QuadTo(_, _, x, y) => Some(scaled(x, y)),
            _ => last_segment_end(events.drop_last()),
        }
    }
}

proof fn lemma_run_prefix(events: Seq<PathEvent>)
    requires
        path_state(events) is Some,
    ensures
        run(events) matches Ok(cs) && {
            let open = path_state(events) == Some(true);
            &&& cs.len() == segment_count(events) + if open { 1int } else { 0int }
            &&& open ==> cs.last().is_stub()
            &&& (segment_count(events) > 0 <==> last_segment_end(events) is Some)
            &&& (open && cs.len() >= 2) ==> Some(cs[cs.len() - 2].p2) == last_segment_end(events)
            &&& (!open && cs.len() >= 1) ==> Some(cs.last().p2) == last_segment_end(events)
        },
    decreases events.len(),
{
    if events.len() > 0 {
        let pre = events.drop_last();
        lemma_run_prefix(pre);
        let cs = run(pre)->Ok_0;
        match events.last() {
            PathEvent::MoveTo(x, y) => {
                let n = cs.push(stub_at(scaled(x, y)));
                if cs.len() > 0 {
                    assert(n[n.len() - 2] == cs.last());
                }
            },
            PathEvent::LineTo(x, y) => {
                let n = cs.drop_last().push(finish_line(cs.last(), scaled(x, y))).push(stub_at(scaled(x, y)));
                assert(n[n.len() - 2] == finish_line(cs.last(), scaled(x, y)));
            },
            PathEvent::QuadTo(x1, y1, x, y) => {
                let n = cs.drop_last().push(finish_quad(cs.last(), scaled(x1, y1), scaled(x, y))).push(
                    stub_at(scaled(x, y)),
                );
                assert(n[n.len() - 2] == finish_quad(cs.last(), scaled(x1, y1), scaled(x, y)));
            },
            _ => {},
        }
    }
}

/// A path of complete sub-paths builds without error into exactly one curve
/// per line or quadratic segment, and the last curve is the one the last
/// segment finished, not a pending stub.
pub proof fn lemma_closed_path_curve_count(events: Seq<PathEvent>)
    requires
        closed_paths(events),
    ensures
        run(events) matches Ok(cs) && cs.len() == segment_count(events) && (cs.len() > 0
            ==> Some(cs.last().p2) == last_segment_end(events)),
{
    lemma_run_prefix(events);
}

/// The corners of the global box normalize, before the flip, to `(0, 0)` and
/// to `(1, 1)`, that is, to the full scales.
pub proof fn lemma_bbox_corners(b: BBox)
    ensures
        to_unit(Point { x: (SUBUNITS * b.x_min) as i64, y: (SUBUNITS * b.y_min) as i64 }, b) == origin(),
        to_unit(Point { x: (SUBUNITS * b.x_max) as i64, y: (SUBUNITS * b.y_max) as i64 }, b) == (Point {
            x: x_scale(b) as i64,
            y: y_scale(b) as i64,
        }),
{
}

/// Normalization swaps each curve's end points relative to their scaled and
/// flipped positions.
pub proof fn lemma_winding_swap(c: Curve, b: BBox)
    ensures
        normalize_curve(c, b).p0 == flip(to_unit(c.p2, b), b),
        normalize_curve(c, b).p2 == flip(to_unit(c.p0, b), b),
        normalize_curve(c, b).p1 == flip(to_unit(c.p1, b), b),
{
}

} // verus!
