//! What the changes of an outline come to.
use super::algebra::{
    lemma_associate, lemma_commute, lemma_difference, lemma_distribute, lemma_one, lemma_opposite,
    lemma_positive_quotient, lemma_ratio, lemma_zero,
};
use super::exact;
use crate::airfoil::design::{
    camber_at, chord_fraction, chord_of, leading_edge, stretched, turned, with_camber, with_nose,
    with_te_gap, with_thickness,
};
use crate::airfoil::flap::{aft_of, deflected, fold, fore_of, surface_flapped};
use crate::airfoil::morph::{counterpart, lerp, numbers_between, points_between};
use crate::airfoil::naca::{half_thickness, section};
use crate::airfoil::points::Point;
use crate::elementary::Elementary;
use crate::number::{abs, clamp, decimal, tenths, whole, Formula, Real};
use vstd::prelude::*;

verus! {

/// Two points are at one place.
pub open spec fn coincide<S: Real>(v: spec_fn(S) -> real, p: Point<S>, q: Point<S>) -> bool {
    v(p.x) == v(q.x) && v(p.y) == v(q.y)
}

/// Between two numbers, the way from 0 to 1 leads from the one to the other.
pub proof fn law_lerp_ends<S: Real>(v: spec_fn(S) -> real, a: S, b: S, t: S)
    requires
        exact(v),
    ensures
        v(t) == 0real ==> v(lerp(a, b, t)) == v(a),
        v(t) == 1real ==> v(lerp(a, b, t)) == v(b),
{
    lemma_zero(v(a));
    lemma_zero(v(b));
    lemma_one(v(a));
    lemma_one(v(b));
}

/// A morph leads from the one list to the other: all the way it is the list that it leads to,
/// and at its start the list that it comes from, where that has as many entries. The lists are
/// not empty, and lists of points hold whole points.
pub proof fn law_morph_ends<S: Real, E: Elementary<S>>(
    v: spec_fn(S) -> real,
    elementary: &E,
    from: Seq<S>,
    to: Seq<S>,
    t: S,
    i: int,
)
    requires
        exact(v),
        from.len() > 0,
        0 <= i < to.len(),
    ensures
        v(t) == 1real ==> v(numbers_between(elementary, from, to, t)[i]) == v(to[i]),
        v(t) == 0real && from.len() == to.len() ==> v(
            numbers_between(elementary, from, to, t)[i],
        ) == v(from[i]),
        v(t) == 1real && from.len() % 2 == 0 && to.len() % 2 == 0 ==> v(
            points_between(elementary, from, to, t)[i],
        ) == v(to[i]),
        v(t) == 0real && from.len() == to.len() ==> v(
            points_between(elementary, from, to, t)[i],
        ) == v(from[i]),
{
    if from.len() == to.len() {
        law_lerp_ends(v, from[i], to[i], t);
    } else {
        let b = counterpart::<S, E>(elementary, i, from.len() as int, to.len() as int);
        law_lerp_ends(v, lerp(from[b.low as int], from[b.high as int], b.t), to[i], t);
        let c = counterpart::<S, E>(elementary, i / 2, from.len() as int / 2, to.len() as int / 2);
        law_lerp_ends(
            v,
            lerp(from[c.low * 2 + i % 2], from[c.high * 2 + i % 2], c.t),
            to[i],
            t,
        );
    }
}

/// A vector turned by an angle and back.
proof fn lemma_turned_back(x: real, y: real, c: real, s: real)
    requires
        c * c + s * s == 1real,
    ensures
        (x * c - y * s) * c - (x * s + y * c) * -s == x,
        (x * c - y * s) * -s + (x * s + y * c) * c == y,
{
    let p = x * c;
    let q = y * s;
    let r = x * s;
    let t = y * c;
    lemma_opposite(r + t, s);
    lemma_opposite(p - q, s);
    lemma_commute(p - q, c);
    lemma_difference(c, p, q);
    lemma_commute(p - q, s);
    lemma_difference(s, p, q);
    lemma_commute(r + t, s);
    lemma_distribute(s, r, t);
    lemma_commute(r + t, c);
    lemma_distribute(c, r, t);
    lemma_commute(c, p);
    lemma_commute(c, q);
    lemma_commute(c, r);
    lemma_commute(c, t);
    lemma_commute(s, p);
    lemma_commute(s, q);
    lemma_commute(s, r);
    lemma_commute(s, t);
    lemma_associate(x, c, c);
    lemma_associate(x, s, s);
    lemma_associate(x, c, s);
    lemma_associate(x, s, c);
    lemma_associate(y, c, c);
    lemma_associate(y, s, s);
    lemma_associate(y, c, s);
    lemma_associate(y, s, c);
    lemma_commute(c, s);
    lemma_distribute(x, c * c, s * s);
    lemma_distribute(y, c * c, s * s);
    lemma_one(x);
    lemma_one(y);
}

/// A rotation is undone by the opposite rotation.
pub proof fn law_rotation_is_undone<S: Real>(
    v: spec_fn(S) -> real,
    p: Point<S>,
    center: Point<S>,
    cos_a: S,
    sin_a: S,
)
    requires
        exact(v),
        v(cos_a) * v(cos_a) + v(sin_a) * v(sin_a) == 1real,
    ensures
        coincide(v, turned(turned(p, center, cos_a, sin_a), center, cos_a, -sin_a), p),
{
    let q = turned(p, center, cos_a, sin_a);
    let x = v(p.x) - v(center.x);
    let y = v(p.y) - v(center.y);
    let c = v(cos_a);
    let s = v(sin_a);
    lemma_turned_back(x, y, c, s);
    assert(v(q.x - center.x) == x * c - y * s);
    assert(v(q.y - center.y) == x * s + y * c);
}

/// A stretch is undone by the inverse stretch.
pub proof fn law_scaling_is_undone<S: Real>(
    v: spec_fn(S) -> real,
    p: Point<S>,
    sx: S,
    sy: S,
    tx: S,
    ty: S,
    cx: S,
    cy: S,
)
    requires
        exact(v),
        v(sx) * v(tx) == 1real,
        v(sy) * v(ty) == 1real,
    ensures
        coincide(v, stretched(stretched(p, sx, sy, cx, cy), tx, ty, cx, cy), p),
{
    let q = stretched(p, sx, sy, cx, cy);
    let x = v(p.x) - v(cx);
    let y = v(p.y) - v(cy);
    lemma_associate(x, v(sx), v(tx));
    lemma_associate(y, v(sy), v(ty));
    lemma_one(x);
    lemma_one(y);
    assert(v(q.x - cx) == x * v(sx));
    assert(v(q.y - cy) == y * v(sy));
}

/// A move is undone by the opposite move.
pub proof fn law_translation_is_undone<S: Real>(v: spec_fn(S) -> real, x: S, d: S)
    requires
        exact(v),
    ensures
        v(x + d + -d) == v(x),
{
}

/// The gap at the trailing edge is the one that was asked for, in chords, where the outline
/// starts and ends at its aft end.
pub proof fn law_te_gap_is_set<S: Real>(
    v: spec_fn(S) -> real,
    p: Seq<Point<S>>,
    target_gap: S,
    blend_fraction: S,
)
    requires
        exact(v),
        0 <= leading_edge(p) < p.len() - 1,
        v(chord_fraction(p, p[0].x)) == 1real,
        v(chord_fraction(p, p.last().x)) == 1real,
    ensures
        v(with_te_gap(p, target_gap, blend_fraction, 0).y) - v(
            with_te_gap(p, target_gap, blend_fraction, p.len() - 1).y,
        ) == v(target_gap) * v(chord_of(p)),
{
    let one = whole::<S>(1);
    let tenth = decimal::<S>(1, 10);
    lemma_positive_quotient(1real, 10real);
    assert(v(tenth) == 1real / 10real);
    let blend = clamp(blend_fraction, tenth, one);
    let b = v(blend);
    assert(b > 0real);
    lemma_ratio(b);
    let delta = target_gap * chord_of(p) - (p[0].y - p.last().y);
    let d = v(delta);
    let h = v(decimal::<S>(5, 10));
    assert(h == 5real / 10real);
    lemma_one(1real);
    lemma_one(h);
    lemma_one(h * d);
    lemma_opposite(h, 1real);
    lemma_commute(-1real, h);
    lemma_opposite(d, h);
    lemma_commute(-h, d);
    lemma_commute(h, d);
    lemma_one(-(h * d));
    let eta = chord_fraction(p, p[0].x);
    let last = chord_fraction(p, p.last().x);
    let inner = (eta - (one - blend)) / blend;
    let inner_last = (last - (one - blend)) / blend;
    assert(v(eta - (one - blend)) == b);
    assert(v(inner) == 1real);
    assert(v(last - (one - blend)) == b);
    assert(v(inner_last) == 1real);
    assert(eta > one - blend);
    assert(last > one - blend);
    assert(v(inner * inner) == 1real);
    assert(v(inner_last * inner_last) == 1real);
    assert(v(one * decimal::<S>(5, 10)) == h);
    assert(v(-one * decimal::<S>(5, 10)) == -h);
    assert(v(one * decimal::<S>(5, 10) * delta * (inner * inner)) == h * d);
    assert(v(-one * decimal::<S>(5, 10) * delta * (inner_last * inner_last)) == -(h * d));
    assert(h * d + h * d == d) by {
        lemma_commute(h, d);
        lemma_distribute(d, h, h);
        lemma_one(d);
    }
}

/// Thickness, camber and nose stay as they are where they are scaled by one.
pub proof fn law_scaled_by_one<S: Real>(
    v: spec_fn(S) -> real,
    p: Seq<Point<S>>,
    factor: S,
    q: Point<S>,
)
    requires
        exact(v),
        v(factor) == 1real,
    ensures
        coincide(v, with_thickness(p, factor, q), q),
        coincide(v, with_camber(p, factor, q), q),
        coincide(v, with_nose(p, factor, q), q),
{
    let camber = camber_at(p, q.x);
    let one = whole::<S>(1);
    lemma_one(v(q.y - camber));
    lemma_one(v(camber));
    let extent = decimal::<S>(15, 100);
    let local = chord_fraction(p, q.x) / extent;
    lemma_zero(v(one - local * local));
    lemma_one(v(q.y));
}

/// Where the thickness is scaled to nothing, a point comes to lie on the camber line; where
/// the camber is, it keeps its height over the camber line.
pub proof fn law_scaled_by_zero<S: Real>(
    v: spec_fn(S) -> real,
    p: Seq<Point<S>>,
    factor: S,
    q: Point<S>,
)
    requires
        exact(v),
        v(factor) == 0real,
    ensures
        v(with_thickness(p, factor, q).y) == v(camber_at(p, q.x)),
        v(with_camber(p, factor, q).y) == v(q.y) - v(camber_at(p, q.x)),
{
    let camber = camber_at(p, q.x);
    lemma_zero(v(q.y - camber));
    lemma_zero(v(camber));
}

/// A section without camber is symmetric about the chord.
pub proof fn law_section_without_camber<S: Real, E: Elementary<S>>(
    v: spec_fn(S) -> real,
    elementary: &E,
    m: S,
    p: S,
    t: S,
    x: S,
)
    requires
        exact(v),
        abs(m) < tenths::<S>(10),
        v(elementary.sin_of(elementary.atan_of(whole::<S>(0)))) == 0real,
    ensures
        ({
            let (upper, lower) = section(elementary, m, p, t, x);
            v(upper.x) == v(lower.x) && v(upper.y) == -v(lower.y)
        }),
{
    lemma_zero(v(half_thickness(elementary, t, x)));
}

/// Past the hinge, a surface keeps its points where the flap is not deflected.
proof fn lemma_undeflected<S: Real>(
    v: spec_fn(S) -> real,
    s: Seq<Point<S>>,
    hinge: Point<S>,
    cos_d: S,
    sin_d: S,
    k: int,
    n: nat,
)
    requires
        exact(v),
        v(cos_d) == 1real,
        v(sin_d) == 0real,
        0 <= k <= s.len(),
        n <= s.len(),
        forall|i: int| 0 <= i < s.len() ==> ((#[trigger] s[i]).x <= hinge.x <==> i < k),
    ensures
        fore_of(s, hinge, n) == s.subrange(
            0,
            if n < k {
                n as int
            } else {
                k
            },
        ),
        aft_of(s, hinge, cos_d, sin_d, n).len() == (if n < k {
            0
        } else {
            n - k
        }),
        forall|i: int|
            0 <= i < n - k ==> coincide(
                v,
                #[trigger] aft_of(s, hinge, cos_d, sin_d, n)[i],
                s[k + i],
            ),
    decreases n,
{
    if n > 0 {
        lemma_undeflected(v, s, hinge, cos_d, sin_d, k, (n - 1) as nat);
        let p = s[n - 1];
        if n - 1 < k {
            assert(s.subrange(0, n - 1).push(p) =~= s.subrange(0, n as int));
        } else {
            let q = deflected(p, hinge, cos_d, sin_d);
            lemma_one(v(p.x - hinge.x));
            lemma_one(v(p.y - hinge.y));
            lemma_zero(v(p.x - hinge.x));
            lemma_zero(v(p.y - hinge.y));
            assert(coincide(v, q, p));
            let before = aft_of(s, hinge, cos_d, sin_d, (n - 1) as nat);
            assert(aft_of(s, hinge, cos_d, sin_d, n) == before.push(q));
        }
    } else {
        assert(fore_of(s, hinge, n) =~= s.subrange(0, 0));
    }
}

/// A flap that is not deflected leaves every point of a surface where it is: where the
/// surface passes the hinge once, and does not cross itself there.
pub proof fn law_no_deflection<S: Real>(
    v: spec_fn(S) -> real,
    s: Seq<Point<S>>,
    hinge: Point<S>,
    cos_d: S,
    sin_d: S,
    k: int,
)
    requires
        exact(v),
        v(cos_d) == 1real,
        v(sin_d) == 0real,
        0 <= k <= s.len(),
        forall|i: int| 0 <= i < s.len() ==> ((#[trigger] s[i]).x <= hinge.x <==> i < k),
        fold(fore_of(s, hinge, s.len()), aft_of(s, hinge, cos_d, sin_d, s.len())) is None,
    ensures
        surface_flapped(s, hinge, cos_d, sin_d).len() == s.len(),
        forall|i: int|
            0 <= i < s.len() ==> coincide(
                v,
                #[trigger] surface_flapped(s, hinge, cos_d, sin_d)[i],
                s[i],
            ),
{
    lemma_undeflected(v, s, hinge, cos_d, sin_d, k, s.len());
    let aft = aft_of(s, hinge, cos_d, sin_d, s.len());
    assert forall|i: int| 0 <= i < s.len() implies coincide(
        v,
        #[trigger] surface_flapped(s, hinge, cos_d, sin_d)[i],
        s[i],
    ) by {
        if i >= k {
            assert(coincide(v, aft[i - k], s[k + (i - k)]));
        }
    }
}

} // verus!
