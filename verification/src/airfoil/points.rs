//! Points of the plane, and the flat lists of coordinates that stand for them.
use crate::callable::{mapped, tabulated};
use vstd::prelude::*;

verus! {

/// A point of the plane.
#[derive(Clone, Copy, Debug, PartialEq)]
pub struct Point<S> {
    pub x: S,
    pub y: S,
}

/// The point at `x` and `y`.
#[verifier::allow_in_spec]
pub fn point<S: Copy>(x: S, y: S) -> Point<S>
    returns
        (Point { x, y }),
{
    Point { x, y }
}

/// The points whose coordinates stand in `c`, x before y.
pub open spec fn paired<S>(c: Seq<S>) -> Seq<Point<S>> {
    Seq::new(c.len() / 2, |i: int| Point { x: c[2 * i], y: c[2 * i + 1] })
}

/// The coordinates of the points, x before y.
pub open spec fn flattened<S>(p: Seq<Point<S>>) -> Seq<S> {
    Seq::new(
        2 * p.len(),
        |i: int|
            if i % 2 == 0 {
                p[i / 2].x
            } else {
                p[i / 2].y
            },
    )
}

/// Whether a list of coordinates is that of an outline: whole points, and three of them.
pub open spec fn outline<S>(c: Seq<S>) -> bool {
    c.len() >= 6 && c.len() % 2 == 0
}

/// Whether a list of coordinates is that of an outline of at least four points.
pub open spec fn full_outline<S>(c: Seq<S>) -> bool {
    c.len() >= 8 && c.len() % 2 == 0
}

/// Whether `coords` is the list of an outline.
pub fn is_outline<S>(coords: &[S]) -> (r: bool)
    ensures
        r == outline(coords@),
{
    coords.len() >= 6 && coords.len() % 2 == 0
}

/// Whether `coords` is the list of an outline of at least four points.
pub fn is_full_outline<S>(coords: &[S]) -> (r: bool)
    ensures
        r == full_outline(coords@),
{
    coords.len() >= 8 && coords.len() % 2 == 0
}

/// The points whose coordinates stand in `coords`.
pub fn points_from_flat<S: Copy>(coords: &[S]) -> (r: Vec<Point<S>>)
    requires
        coords@.len() % 2 == 0,
    ensures
        r@ == paired(coords@),
{
    let n: usize = coords.len() / 2;
    let at = |i: usize| -> (p: Point<S>)
        requires
            i < n,
            2 * n == coords@.len(),
        ensures
            p == paired(coords@)[i as int],
        {
            Point { x: coords[2 * i], y: coords[2 * i + 1] }
        };
    let r: Vec<Point<S>> = tabulated(n, at);
    proof {
        assert forall|i: int| 0 <= i < n implies #[trigger] r@[i] == paired(coords@)[i] by {
            assert(i as usize == i);
        }
        assert(r@ =~= paired(coords@));
    }
    r
}

/// The pairs of coordinates of the points.
pub fn flat_from_points<S: Copy>(pts: &[Point<S>]) -> (r: Vec<(S, S)>)
    ensures
        r@ == pts@.map_values(|p: Point<S>| (p.x, p.y)),
{
    let pair = |p: Point<S>| -> (c: (S, S))
        ensures
            c == (p.x, p.y),
        {
            (p.x, p.y)
        };
    let r: Vec<(S, S)> = mapped(pts, pair);
    assert(r@ =~= pts@.map_values(|p: Point<S>| (p.x, p.y)));
    r
}

/// The points of an outline, where `coords` is the list of one.
pub fn parse_coords<S: Copy>(coords: &[S]) -> (r: Option<Vec<Point<S>>>)
    ensures
        r is Some <==> outline(coords@),
        r matches Some(p) ==> p@ == paired(coords@),
{
    if is_outline(coords) {
        Some(points_from_flat(coords))
    } else {
        None
    }
}

/// The coordinates of the points, x before y.
pub fn points_to_flat<S: Copy>(pts: &[Point<S>]) -> (r: Vec<S>)
    ensures
        r@ == flattened(pts@),
{
    let mut r: Vec<S> = Vec::new();
    let mut i: usize = 0;
    while i < pts.len()
        invariant
            i <= pts@.len(),
            r@ == flattened(pts@.subrange(0, i as int)),
        decreases pts@.len() - i,
    {
        let p: Point<S> = pts[i];
        let ghost before = r@;
        r.push(p.x);
        r.push(p.y);
        i = i + 1;
        proof {
            let head = pts@.subrange(0, i as int);
            assert forall|k: int| 0 <= k < r@.len() implies #[trigger] r@[k] == flattened(
                head,
            )[k] by {
                if k < before.len() {
                    assert(r@[k] == before[k]);
                    assert(before[k] == flattened(pts@.subrange(0, i - 1))[k]);
                    assert(pts@.subrange(0, i - 1)[k / 2] == head[k / 2]);
                }
            }
            assert(r@ =~= flattened(head));
        }
    }
    assert(pts@.subrange(0, pts@.len() as int) =~= pts@);
    r
}

/// Pairs whose coordinates stand in `c`.
pub open spec fn pairs_in<S>(c: Seq<S>) -> Seq<(S, S)> {
    Seq::new(c.len() / 2, |i: int| (c[2 * i], c[2 * i + 1]))
}

/// Coordinates of pairs, x before y.
pub open spec fn flat_pairs<S>(p: Seq<(S, S)>) -> Seq<S> {
    Seq::new(
        2 * p.len(),
        |i: int|
            if i % 2 == 0 {
                p[i / 2].0
            } else {
                p[i / 2].1
            },
    )
}

/// Pairs whose coordinates stand in `coords`.
pub fn pairs_from<S: Copy>(coords: &[S]) -> (r: Vec<(S, S)>)
    requires
        coords@.len() % 2 == 0,
    ensures
        r@ == pairs_in(coords@),
{
    let n: usize = coords.len() / 2;
    let at = |i: usize| -> (p: (S, S))
        requires
            i < n,
            2 * n == coords@.len(),
        ensures
            p == pairs_in(coords@)[i as int],
        {
            (coords[2 * i], coords[2 * i + 1])
        };
    let r: Vec<(S, S)> = tabulated(n, at);
    proof {
        assert forall|i: int| 0 <= i < n implies #[trigger] r@[i] == pairs_in(coords@)[i] by {
            assert(i as usize == i);
        }
        assert(r@ =~= pairs_in(coords@));
    }
    r
}

/// Coordinates of pairs, x before y.
pub fn flat_from<S: Copy>(pairs: &[(S, S)]) -> (r: Vec<S>)
    ensures
        r@ == flat_pairs(pairs@),
{
    let mut r: Vec<S> = Vec::new();
    let mut i: usize = 0;
    while i < pairs.len()
        invariant
            i <= pairs@.len(),
            r@ == flat_pairs(pairs@).subrange(0, 2 * i),
        decreases pairs@.len() - i,
    {
        let (x, y): (S, S) = pairs[i];
        r.push(x);
        r.push(y);
        i = i + 1;
        proof {
            assert((2 * i - 2) / 2 == i - 1 && (2 * i - 1) / 2 == i - 1);
            assert(flat_pairs(pairs@)[2 * i - 2] == x);
            assert(flat_pairs(pairs@)[2 * i - 1] == y);
            assert(r@ =~= flat_pairs(pairs@).subrange(0, 2 * i));
        }
    }
    assert(r@ =~= flat_pairs(pairs@));
    r
}

/// The points of the coordinates of points are the points.
pub proof fn law_points_survive<S>(p: Seq<Point<S>>)
    ensures
        paired(flattened(p)) == p,
{
    assert forall|i: int| 0 <= i < p.len() implies #[trigger] paired(flattened(p))[i] == p[i] by {
        assert((2 * i) / 2 == i && (2 * i + 1) / 2 == i);
    }
    assert(paired(flattened(p)) =~= p);
}

/// The coordinates of the points of a list of whole points are the list.
pub proof fn law_coordinates_survive<S>(c: Seq<S>)
    requires
        c.len() % 2 == 0,
    ensures
        flattened(paired(c)) == c,
{
    assert forall|i: int| 0 <= i < c.len() implies #[trigger] flattened(paired(c))[i] == c[i] by {
        assert(paired(c)[i / 2] == (Point { x: c[2 * (i / 2)], y: c[2 * (i / 2) + 1] }));
    }
    assert(flattened(paired(c)) =~= c);
}

} // verus!
