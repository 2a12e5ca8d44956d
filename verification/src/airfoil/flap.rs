//! A trailing-edge flap: the aft part of an outline turned about a hinge, and the fold that
//! this makes on one surface trimmed away.
use crate::airfoil::design::{chord_from, chord_of, find_leading_edge, leading_edge, part, reversed};
use crate::airfoil::interp::{crossing, height_within, interp_y_at_x, seg_intersect};
use crate::airfoil::points::{point, Point};
use crate::elementary::Elementary;
use crate::number::{arithmetic, clamp, radians, whole, Formula, Real};
use vstd::prelude::*;

verus! {

/// `p` turned about the hinge, down by the angle with this cosine and sine.
pub open spec fn deflected<S: Real>(p: Point<S>, hinge: Point<S>, cos_d: S, sin_d: S) -> Point<S> {
    let dx = p.x - hinge.x;
    let dy = p.y - hinge.y;
    Point { x: hinge.x + dx * cos_d + dy * sin_d, y: hinge.y - dx * sin_d + dy * cos_d }
}

/// Those of the first `n` points that lie up to the hinge, in order.
pub open spec fn fore_of<S: Real>(s: Seq<Point<S>>, hinge: Point<S>, n: nat) -> Seq<Point<S>>
    decreases n,
{
    if n == 0 {
        Seq::empty()
    } else {
        let before = fore_of(s, hinge, (n - 1) as nat);
        if s[n - 1].x <= hinge.x {
            before.push(s[n - 1])
        } else {
            before
        }
    }
}

/// Those of the first `n` points that lie past the hinge, in order and deflected.
pub open spec fn aft_of<S: Real>(
    s: Seq<Point<S>>,
    hinge: Point<S>,
    cos_d: S,
    sin_d: S,
    n: nat,
) -> Seq<Point<S>>
    decreases n,
{
    if n == 0 {
        Seq::empty()
    } else {
        let before = aft_of(s, hinge, cos_d, sin_d, (n - 1) as nat);
        if s[n - 1].x <= hinge.x {
            before
        } else {
            before.push(deflected(s[n - 1], hinge, cos_d, sin_d))
        }
    }
}

/// The first crossing of the segment `i` of `fore` with a segment of `aft` from `j` on and
/// before `end`: the index in `aft` behind the crossing, and its point.
pub open spec fn crossing_on<S: Real>(
    fore: Seq<Point<S>>,
    aft: Seq<Point<S>>,
    i: int,
    j: int,
    end: int,
) -> Option<(int, Point<S>)>
    decreases end - j,
{
    if j >= end {
        None
    } else {
        match crossing(fore[i], fore[i + 1], aft[j], aft[j + 1]) {
            Some(p) => Some((j + 1, p)),
            None => crossing_on(fore, aft, i, j + 1, end),
        }
    }
}

/// The crossing on the last segment of `fore` below `i`, and from `low` on, that has one:
/// the index of the segment, the index in `aft` behind the crossing, and its point.
pub open spec fn last_crossing<S: Real>(
    fore: Seq<Point<S>>,
    aft: Seq<Point<S>>,
    i: int,
    low: int,
    end: int,
) -> Option<(int, int, Point<S>)>
    decreases i - low,
{
    if i <= low {
        None
    } else {
        match crossing_on(fore, aft, i - 1, 0, end) {
            Some((j, p)) => Some((i - 1, j, p)),
            None => last_crossing(fore, aft, i - 1, low, end),
        }
    }
}

/// Up to how many points are looked at on either side of the hinge.
pub open spec fn search_span(n: nat) -> int {
    if n < 50 {
        n as int
    } else {
        50
    }
}

/// Where the tail of `fore` and the head of `aft` cross.
pub open spec fn fold<S: Real>(fore: Seq<Point<S>>, aft: Seq<Point<S>>) -> Option<
    (int, int, Point<S>),
> {
    last_crossing(
        fore,
        aft,
        fore.len() - 1,
        fore.len() - search_span(fore.len()),
        search_span(aft.len()) - 1,
    )
}

/// `fore` and `aft` joined: at their crossing where there is one, what is folded in between
/// left out.
pub open spec fn joined<S: Real>(fore: Seq<Point<S>>, aft: Seq<Point<S>>) -> Seq<Point<S>> {
    if fore.len() == 0 || aft.len() == 0 {
        fore + aft
    } else {
        match fold(fore, aft) {
            Some((i, j, p)) => fore.subrange(0, i + 1).push(p) + aft.subrange(
                j,
                aft.len() as int,
            ),
            None => fore + aft,
        }
    }
}

/// A surface from its leading to its trailing edge, with the flap deflected.
pub open spec fn surface_flapped<S: Real>(
    s: Seq<Point<S>>,
    hinge: Point<S>,
    cos_d: S,
    sin_d: S,
) -> Seq<Point<S>> {
    joined(fore_of(s, hinge, s.len()), aft_of(s, hinge, cos_d, sin_d, s.len()))
}

/// Where the tail of `fore` and the head of `aft` cross.
fn find_fold<S: Real>(fore: &[Point<S>], aft: &[Point<S>]) -> (r: Option<(usize, usize, Point<S>)>)
    requires
        arithmetic::<S>(),
        fore@.len() > 0,
        aft@.len() > 0,
    ensures
        match (r, fold(fore@, aft@)) {
            (Some((i, j, p)), Some((fi, fj, fp))) => i == fi && j == fj && p == fp && i + 1
                < fore@.len() && j < aft@.len(),
            (None, None) => true,
            _ => false,
        },
{
    let span: usize = if fore.len() < 50 {
        fore.len()
    } else {
        50
    };
    let low: usize = fore.len() - span;
    let end: usize = if aft.len() < 50 {
        aft.len() - 1
    } else {
        49
    };
    let mut i: usize = fore.len() - 1;
    while i > low
        invariant
            arithmetic::<S>(),
            low <= i < fore@.len(),
            low == fore@.len() - search_span(fore@.len()),
            end == search_span(aft@.len()) - 1,
            end < aft@.len(),
            fold(fore@, aft@) == last_crossing(fore@, aft@, i as int, low as int, end as int),
        decreases i,
    {
        let mut j: usize = 0;
        while j < end
            invariant
                arithmetic::<S>(),
                low < i < fore@.len(),
                j <= end < aft@.len(),
                fold(fore@, aft@) == last_crossing(fore@, aft@, i as int, low as int, end as int),
                crossing_on(fore@, aft@, i - 1, 0, end as int) == crossing_on(
                    fore@,
                    aft@,
                    i - 1,
                    j as int,
                    end as int,
                ),
            decreases end - j,
        {
            match seg_intersect(fore[i - 1], fore[i], aft[j], aft[j + 1]) {
                Some(p) => {
                    return Some((i - 1, j + 1, p));
                },
                None => {},
            }
            j = j + 1;
        }
        i = i - 1;
    }
    None
}

/// The points of `a`, and behind them those of `b` from `from` on.
pub fn appended<S: Copy>(a: Vec<Point<S>>, b: &[Point<S>], from: usize) -> (r: Vec<Point<S>>)
    requires
        from <= b@.len(),
    ensures
        r@ == a@ + b@.subrange(from as int, b@.len() as int),
{
    let mut r: Vec<Point<S>> = a;
    let mut i: usize = from;
    while i < b.len()
        invariant
            from <= i <= b@.len(),
            r@ == a@ + b@.subrange(from as int, i as int),
        decreases b@.len() - i,
    {
        r.push(b[i]);
        i = i + 1;
        assert(r@ =~= a@ + b@.subrange(from as int, i as int));
    }
    r
}

/// Deflects the flap on one surface, given from its leading to its trailing edge.
pub fn flap_surface<S: Real>(surface: &[Point<S>], hinge_x: S, hinge_y: S, cos_d: S, sin_d: S) -> (r:
    Vec<Point<S>>)
    requires
        arithmetic::<S>(),
    ensures
        r@ == surface_flapped(surface@, Point { x: hinge_x, y: hinge_y }, cos_d, sin_d),
{
    let ghost hinge = Point { x: hinge_x, y: hinge_y };
    let mut fore: Vec<Point<S>> = Vec::new();
    let mut aft: Vec<Point<S>> = Vec::new();
    let mut i: usize = 0;
    while i < surface.len()
        invariant
            arithmetic::<S>(),
            hinge == (Point { x: hinge_x, y: hinge_y }),
            i <= surface@.len(),
            fore@ == fore_of(surface@, hinge, i as nat),
            aft@ == aft_of(surface@, hinge, cos_d, sin_d, i as nat),
        decreases surface@.len() - i,
    {
        let p: Point<S> = surface[i];
        if p.x <= hinge_x {
            fore.push(p);
        } else {
            let dx: S = p.x - hinge_x;
            let dy: S = p.y - hinge_y;
            aft.push(point(hinge_x + dx * cos_d + dy * sin_d, hinge_y - dx * sin_d + dy * cos_d));
        }
        i = i + 1;
    }
    if fore.len() == 0 {
        assert(fore@ + aft@ =~= aft@);
        return aft;
    }
    if aft.len() == 0 {
        assert(fore@ + aft@ =~= fore@);
        return fore;
    }
    match find_fold(&fore, &aft) {
        Some((fi, ai, p)) => {
            let mut kept: Vec<Point<S>> = part(&fore, 0, fi + 1);
            kept.push(p);
            appended(kept, &aft, ai)
        },
        None => {
            assert(aft@.subrange(0, aft@.len() as int) =~= aft@);
            appended(fore, &aft, 0)
        },
    }
}

/// The height of a surface at the hinge, or zero where it does not reach it.
pub open spec fn height_at_hinge<S: Real>(s: Seq<Point<S>>, x: S) -> S {
    match height_within(s, x, 0) {
        Some(y) => y,
        None => whole::<S>(0),
    }
}

/// The upper surface of an outline, from its leading to its trailing edge.
pub open spec fn upper_part<S: Real>(p: Seq<Point<S>>) -> Seq<Point<S>> {
    p.subrange(0, leading_edge(p) + 1).reverse()
}

/// The lower surface of an outline, from its leading to its trailing edge.
pub open spec fn lower_part<S: Real>(p: Seq<Point<S>>) -> Seq<Point<S>> {
    p.subrange(leading_edge(p), p.len() as int)
}

/// The hinge of a flap, by its place along the chord and across the thickness.
pub open spec fn hinge_of<S: Real>(p: Seq<Point<S>>, x_frac: S, y_frac: S) -> Point<S> {
    let x = p[leading_edge(p)].x + x_frac * chord_of(p);
    let y_upper = height_at_hinge(upper_part(p), x);
    let y_lower = height_at_hinge(lower_part(p), x);
    Point {
        x,
        y: y_lower + clamp(y_frac, whole::<S>(0), whole::<S>(1)) * (y_upper - y_lower),
    }
}

/// An outline with its flap deflected by the angle with this cosine and sine: both surfaces,
/// joined at the leading edge.
pub open spec fn flapped<S: Real>(p: Seq<Point<S>>, hinge: Point<S>, cos_d: S, sin_d: S) -> Seq<
    Point<S>,
> {
    let upper = surface_flapped(upper_part(p), hinge, cos_d, sin_d);
    let lower = surface_flapped(lower_part(p), hinge, cos_d, sin_d);
    let rest = if lower.len() > 0 {
        lower.subrange(1, lower.len() as int)
    } else {
        lower
    };
    upper.reverse() + rest
}

/// Deflects the flap of an outline.
pub fn flap_impl<S: Real, E: Elementary<S>>(
    pts: &[Point<S>],
    hinge_x_frac: S,
    hinge_y_frac: S,
    deflection_deg: S,
    elementary: &E,
) -> (r: Vec<Point<S>>)
    requires
        arithmetic::<S>(),
        elementary.lawful(),
        pts@.len() > 0,
    ensures
        r@ == flapped(
            pts@,
            hinge_of(pts@, hinge_x_frac, hinge_y_frac),
            elementary.cos_of(radians(deflection_deg)),
            elementary.sin_of(radians(deflection_deg)),
        ),
{
    let le: usize = find_leading_edge(pts);
    let chord: S = chord_from(pts, le);
    let hinge_x: S = pts[le].x + hinge_x_frac * chord;
    let zero: S = whole(0);
    let upper: Vec<Point<S>> = reversed(&part(pts, 0, le + 1));
    let lower: Vec<Point<S>> = part(pts, le, pts.len());
    let y_upper: S = match interp_y_at_x(&upper, hinge_x) {
        Some(y) => y,
        None => zero,
    };
    let y_lower: S = match interp_y_at_x(&lower, hinge_x) {
        Some(y) => y,
        None => zero,
    };
    let hinge_y: S = y_lower + clamp(hinge_y_frac, zero, whole(1)) * (y_upper - y_lower);
    let rad: S = radians(deflection_deg);
    let cos_d: S = elementary.cos(rad);
    let sin_d: S = elementary.sin(rad);
    let upper_flapped: Vec<Point<S>> = flap_surface(&upper, hinge_x, hinge_y, cos_d, sin_d);
    let lower_flapped: Vec<Point<S>> = flap_surface(&lower, hinge_x, hinge_y, cos_d, sin_d);
    let first: Vec<Point<S>> = reversed(&upper_flapped);
    if lower_flapped.len() > 0 {
        appended(first, &lower_flapped, 1)
    } else {
        assert(first@ + lower_flapped@ =~= first@);
        first
    }
}

/// Nothing is lost where there is no fold: a flapped surface has as many points as the
/// surface.
pub proof fn law_flap_keeps_points<S: Real>(
    s: Seq<Point<S>>,
    hinge: Point<S>,
    cos_d: S,
    sin_d: S,
)
    requires
        fold(fore_of(s, hinge, s.len()), aft_of(s, hinge, cos_d, sin_d, s.len())) is None,
    ensures
        surface_flapped(s, hinge, cos_d, sin_d).len() == s.len(),
{
    lemma_split_counts(s, hinge, cos_d, sin_d, s.len());
}

/// A point lies either up to the hinge or past it.
proof fn lemma_split_counts<S: Real>(
    s: Seq<Point<S>>,
    hinge: Point<S>,
    cos_d: S,
    sin_d: S,
    n: nat,
)
    ensures
        fore_of(s, hinge, n).len() + aft_of(s, hinge, cos_d, sin_d, n).len() == n,
    decreases n,
{
    if n > 0 {
        lemma_split_counts(s, hinge, cos_d, sin_d, (n - 1) as nat);
    }
}

/// A surface that ends before the hinge stays as it is.
pub proof fn law_flap_leaves_the_fore_part<S: Real>(
    s: Seq<Point<S>>,
    hinge: Point<S>,
    cos_d: S,
    sin_d: S,
)
    requires
        forall|i: int| 0 <= i < s.len() ==> (#[trigger] s[i]).x <= hinge.x,
    ensures
        surface_flapped(s, hinge, cos_d, sin_d) == s,
{
    lemma_all_fore(s, hinge, cos_d, sin_d, s.len());
    assert(s.subrange(0, s.len() as int) =~= s);
    assert(s + Seq::<Point<S>>::empty() =~= s);
}

/// Where no point lies past the hinge, all lie up to it.
proof fn lemma_all_fore<S: Real>(s: Seq<Point<S>>, hinge: Point<S>, cos_d: S, sin_d: S, n: nat)
    requires
        n <= s.len(),
        forall|i: int| 0 <= i < s.len() ==> (#[trigger] s[i]).x <= hinge.x,
    ensures
        fore_of(s, hinge, n) == s.subrange(0, n as int),
        aft_of(s, hinge, cos_d, sin_d, n) == Seq::<Point<S>>::empty(),
    decreases n,
{
    if n > 0 {
        lemma_all_fore(s, hinge, cos_d, sin_d, (n - 1) as nat);
        assert(s[n - 1].x <= hinge.x);
        assert(s.subrange(0, n - 1).push(s[n - 1]) =~= s.subrange(0, n as int));
    } else {
        assert(fore_of(s, hinge, n) =~= s.subrange(0, 0));
    }
}

} // verus!
