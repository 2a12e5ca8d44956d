//! Heights of a surface between its points, and crossings of segments.
use crate::airfoil::points::{point, Point};
use crate::number::{abs, arithmetic, decimal, tenths, tiny, whole, Formula, Real};
use vstd::prelude::*;

verus! {

/// Whether `x` lies between two points, in either order.
#[verifier::allow_in_spec]
pub fn spans<S: Real>(a: Point<S>, b: Point<S>, x: S) -> bool
    requires
        arithmetic::<S>(),
    returns
        (a.x <= x && b.x >= x) || (b.x <= x && a.x >= x),
{
    (a.x <= x && b.x >= x) || (b.x <= x && a.x >= x)
}

/// The height at `x` of the first segment from `i` on that spans it.
pub open spec fn height_within<S: Real>(s: Seq<Point<S>>, x: S, i: int) -> Option<S>
    decreases s.len() - i,
{
    if i < 0 || i + 1 >= s.len() {
        None
    } else if spans(s[i], s[i + 1], x) {
        let dx = s[i + 1].x - s[i].x;
        let t = if abs(dx) > tenths::<S>(12) {
            (x - s[i].x) / dx
        } else {
            decimal::<S>(5, 10)
        };
        Some(s[i].y + t * (s[i + 1].y - s[i].y))
    } else {
        height_within(s, x, i + 1)
    }
}

/// The height of a surface at `x`, where one of its segments spans it.
pub fn interp_y_at_x<S: Real>(surface: &[Point<S>], x: S) -> (r: Option<S>)
    requires
        arithmetic::<S>(),
    ensures
        r == height_within(surface@, x, 0),
{
    if surface.len() < 2 {
        return None;
    }
    let mut i: usize = 0;
    while i < surface.len() - 1
        invariant
            arithmetic::<S>(),
            2 <= surface@.len(),
            i < surface@.len(),
            height_within(surface@, x, 0) == height_within(surface@, x, i as int),
        decreases surface@.len() - i,
    {
        let a: Point<S> = surface[i];
        let b: Point<S> = surface[i + 1];
        if spans(a, b, x) {
            let dx: S = b.x - a.x;
            let t: S = if abs(dx) > tiny(12) {
                (x - a.x) / dx
            } else {
                decimal(5, 10)
            };
            return Some(a.y + t * (b.y - a.y));
        }
        i = i + 1;
    }
    None
}

/// The height at `x` of the first segment from `i` on that spans it, or the end of the
/// surface. An upright segment has the height of its second point.
pub open spec fn height_or_end<S: Real>(s: Seq<Point<S>>, x: S, i: int) -> S
    decreases s.len() - i,
{
    if i < 1 || i >= s.len() {
        s.last().y
    } else if spans(s[i - 1], s[i], x) {
        let dx = s[i].x - s[i - 1].x;
        if abs(dx) < tenths::<S>(12) {
            s[i].y
        } else {
            let t = (x - s[i - 1].x) / dx;
            s[i - 1].y + t * (s[i].y - s[i - 1].y)
        }
    } else {
        height_or_end(s, x, i + 1)
    }
}

/// The height of a surface at any `x`: zero without a point, that of the only point, or that
/// of the first segment that spans `x`, and else of the last point.
pub open spec fn surface_height<S: Real>(s: Seq<Point<S>>, x: S) -> S {
    if s.len() == 0 {
        whole::<S>(0)
    } else if s.len() == 1 {
        s[0].y
    } else {
        height_or_end(s, x, 1)
    }
}

/// The height of a surface at `x`.
pub fn interp_surface<S: Real>(surface: &[Point<S>], x: S) -> (r: S)
    requires
        arithmetic::<S>(),
    ensures
        r == surface_height(surface@, x),
{
    if surface.len() == 0 {
        return whole(0);
    }
    if surface.len() == 1 {
        return surface[0].y;
    }
    let mut i: usize = 1;
    while i < surface.len()
        invariant
            arithmetic::<S>(),
            2 <= surface@.len(),
            1 <= i <= surface@.len(),
            height_or_end(surface@, x, 1) == height_or_end(surface@, x, i as int),
        decreases surface@.len() - i,
    {
        let a: Point<S> = surface[i - 1];
        let b: Point<S> = surface[i];
        if spans(a, b, x) {
            let dx: S = b.x - a.x;
            if abs(dx) < tiny(12) {
                return b.y;
            }
            let t: S = (x - a.x) / dx;
            return a.y + t * (b.y - a.y);
        }
        i = i + 1;
    }
    surface[surface.len() - 1].y
}

/// The height at `x` of the first segment from `i` on that spans it, or zero. An upright
/// segment has the height of its first point.
pub open spec fn height_or_zero<S: Real>(s: Seq<Point<S>>, x: S, i: int) -> S
    decreases s.len() - i,
{
    if i < 0 || i + 1 >= s.len() {
        whole::<S>(0)
    } else if spans(s[i], s[i + 1], x) {
        let dx = s[i + 1].x - s[i].x;
        if abs(dx) < tenths::<S>(15) {
            s[i].y
        } else {
            let t = (x - s[i].x) / dx;
            s[i].y + t * (s[i + 1].y - s[i].y)
        }
    } else {
        height_or_zero(s, x, i + 1)
    }
}

/// The height of a surface at `target_x`, or zero where none of its segments spans it.
pub fn interp_y<S: Real>(surface: &[Point<S>], target_x: S) -> (r: S)
    requires
        arithmetic::<S>(),
    ensures
        r == height_or_zero(surface@, target_x, 0),
{
    if surface.len() < 2 {
        return whole(0);
    }
    let mut i: usize = 0;
    while i < surface.len() - 1
        invariant
            arithmetic::<S>(),
            2 <= surface@.len(),
            i < surface@.len(),
            height_or_zero(surface@, target_x, 0) == height_or_zero(surface@, target_x, i as int),
        decreases surface@.len() - i,
    {
        let a: Point<S> = surface[i];
        let b: Point<S> = surface[i + 1];
        if spans(a, b, target_x) {
            let dx: S = b.x - a.x;
            if abs(dx) < tiny(15) {
                return a.y;
            }
            let t: S = (target_x - a.x) / dx;
            return a.y + t * (b.y - a.y);
        }
        i = i + 1;
    }
    whole(0)
}

/// The point at which the segments from `a1` to `a2` and from `b1` to `b2` cross. Segments
/// that are nearly parallel do not.
pub open spec fn crossing<S: Real>(
    a1: Point<S>,
    a2: Point<S>,
    b1: Point<S>,
    b2: Point<S>,
) -> Option<Point<S>> {
    let d1x = a2.x - a1.x;
    let d1y = a2.y - a1.y;
    let d2x = b2.x - b1.x;
    let d2y = b2.y - b1.y;
    let denom = d1x * d2y - d1y * d2x;
    let dx = b1.x - a1.x;
    let dy = b1.y - a1.y;
    let t = (dx * d2y - dy * d2x) / denom;
    let u = (dx * d1y - dy * d1x) / denom;
    if abs(denom) < tenths::<S>(15) {
        None
    } else if t >= whole::<S>(0) && t <= whole::<S>(1) && u >= whole::<S>(0) && u <= whole::<S>(1) {
        Some(Point { x: a1.x + t * d1x, y: a1.y + t * d1y })
    } else {
        None
    }
}

/// The point at which two segments cross.
pub fn seg_intersect<S: Real>(a1: Point<S>, a2: Point<S>, b1: Point<S>, b2: Point<S>) -> (r: Option<
    Point<S>,
>)
    requires
        arithmetic::<S>(),
    ensures
        r == crossing(a1, a2, b1, b2),
{
    let d1x: S = a2.x - a1.x;
    let d1y: S = a2.y - a1.y;
    let d2x: S = b2.x - b1.x;
    let d2y: S = b2.y - b1.y;
    let denom: S = d1x * d2y - d1y * d2x;
    if abs(denom) < tiny(15) {
        return None;
    }
    let dx: S = b1.x - a1.x;
    let dy: S = b1.y - a1.y;
    let t: S = (dx * d2y - dy * d2x) / denom;
    let u: S = (dx * d1y - dy * d1x) / denom;
    let zero: S = whole(0);
    let one: S = whole(1);
    if t >= zero && t <= one && u >= zero && u <= one {
        Some(point(a1.x + t * d1x, a1.y + t * d1y))
    } else {
        None
    }
}

} // verus!
