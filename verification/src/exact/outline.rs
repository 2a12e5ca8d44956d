//! Where the changes of an outline put its points.
use super::algebra::{
    lemma_associate, lemma_cancel, lemma_commute, lemma_difference, lemma_distribute, lemma_one,
    lemma_opposite, lemma_positive_product, lemma_quotient, lemma_ratio, lemma_swap, lemma_zero,
    lemma_zero_over,
};
use super::spacing::lemma_count;
use super::{exact, lemma_not_small, lemma_tenths};
use crate::airfoil::design::{
    camber_at, chord_fraction, chord_of, foremost, leading_edge, moved_by, stretched, turned,
    with_camber, with_nose, with_te_gap, with_thickness,
};
use crate::airfoil::flap::{deflected, height_at_hinge, hinge_of, lower_part, upper_part};
use crate::airfoil::interp::{
    crossing, height_or_end, height_or_zero, height_within, spans, surface_height,
};
use crate::airfoil::layer::{
    displaced, effective_body, normal, tangent, trailing_normal, upper_fraction, upper_share,
    wake_blend, wake_displaced, BlRow,
};
use crate::airfoil::morph::{counterpart, lerp};
use crate::airfoil::points::Point;
use crate::elementary::Elementary;
use crate::number::{abs, clamp, count, decimal, tenths, whole, Formula, Real};
use vstd::prelude::*;

verus! {

/// The product of the lengths of two vectors and the cosine of the angle between them.
pub open spec fn dot(ax: real, ay: real, bx: real, by: real) -> real {
    ax * bx + ay * by
}

/// The product of the lengths of two vectors and the sine of the angle from the one to the
/// other, counted against the clock.
pub open spec fn cross(ax: real, ay: real, bx: real, by: real) -> real {
    ax * by - ay * bx
}

/// A vector and the one that it turns to.
proof fn lemma_turn(x: real, y: real, c: real, s: real)
    ensures
        dot(x, y, x * c - y * s, x * s + y * c) == c * (x * x + y * y),
        cross(x, y, x * c - y * s, x * s + y * c) == s * (x * x + y * y),
{
    lemma_difference(x, x * c, y * s);
    lemma_distribute(y, x * s, y * c);
    lemma_distribute(x, x * s, y * c);
    lemma_difference(y, x * c, y * s);
    lemma_associate(x, x, c);
    lemma_associate(y, y, c);
    lemma_associate(x, x, s);
    lemma_associate(y, y, s);
    lemma_associate(x, y, s);
    lemma_associate(y, x, s);
    lemma_associate(x, y, c);
    lemma_associate(y, x, c);
    lemma_commute(x, y);
    lemma_commute(x * x, c);
    lemma_commute(y * y, c);
    lemma_commute(x * x, s);
    lemma_commute(y * y, s);
    lemma_distribute(c, x * x, y * y);
    lemma_distribute(s, x * x, y * y);
}

/// A rotation turns every point about its centre by the angle whose cosine and sine it is
/// given, against the clock, and keeps its distance.
pub proof fn law_rotation_turns<S: Real>(
    v: spec_fn(S) -> real,
    p: Point<S>,
    c: Point<S>,
    cos_a: S,
    sin_a: S,
)
    requires
        exact(v),
    ensures
        ({
            let r = turned(p, c, cos_a, sin_a);
            let (x, y) = (v(p.x) - v(c.x), v(p.y) - v(c.y));
            let (rx, ry) = (v(r.x) - v(c.x), v(r.y) - v(c.y));
            &&& dot(x, y, rx, ry) == v(cos_a) * (x * x + y * y)
            &&& cross(x, y, rx, ry) == v(sin_a) * (x * x + y * y)
        }),
{
    lemma_turn(v(p.x) - v(c.x), v(p.y) - v(c.y), v(cos_a), v(sin_a));
}

/// A deflection turns every point of a flap about the hinge with the clock: the trailing edge
/// goes down where the angle is positive.
pub proof fn law_deflection_turns_down<S: Real>(
    v: spec_fn(S) -> real,
    p: Point<S>,
    hinge: Point<S>,
    cos_d: S,
    sin_d: S,
)
    requires
        exact(v),
    ensures
        ({
            let r = deflected(p, hinge, cos_d, sin_d);
            let (x, y) = (v(p.x) - v(hinge.x), v(p.y) - v(hinge.y));
            let (rx, ry) = (v(r.x) - v(hinge.x), v(r.y) - v(hinge.y));
            &&& dot(x, y, rx, ry) == v(cos_d) * (x * x + y * y)
            &&& cross(x, y, rx, ry) == -(v(sin_d) * (x * x + y * y))
        }),
{
    let (x, y) = (v(p.x) - v(hinge.x), v(p.y) - v(hinge.y));
    let s = v(sin_d);
    lemma_turn(x, y, v(cos_d), -s);
    lemma_opposite(x, s);
    lemma_opposite(y, s);
    let n = x * x + y * y;
    lemma_commute(-s, n);
    lemma_opposite(n, s);
    lemma_commute(n, s);
}

/// A stretch keeps its centre, and scales the distances from it in either direction.
pub proof fn law_scaling_stretches<S: Real>(
    v: spec_fn(S) -> real,
    p: Point<S>,
    sx: S,
    sy: S,
    cx: S,
    cy: S,
)
    requires
        exact(v),
    ensures
        ({
            let r = stretched(p, sx, sy, cx, cy);
            &&& v(r.x) - v(cx) == v(sx) * (v(p.x) - v(cx))
            &&& v(r.y) - v(cy) == v(sy) * (v(p.y) - v(cy))
        }),
{
    lemma_commute(v(p.x) - v(cx), v(sx));
    lemma_commute(v(p.y) - v(cy), v(sy));
}

/// A move takes every point the same way, and keeps the way from one point to another.
pub proof fn law_translation_moves<S: Real>(
    v: spec_fn(S) -> real,
    p: Point<S>,
    q: Point<S>,
    dx: S,
    dy: S,
)
    requires
        exact(v),
    ensures
        ({
            let r = moved_by(p, dx, dy);
            let t = moved_by(q, dx, dy);
            &&& v(r.x) - v(p.x) == v(dx) && v(r.y) - v(p.y) == v(dy)
            &&& v(t.x) - v(r.x) == v(q.x) - v(p.x) && v(t.y) - v(r.y) == v(q.y) - v(p.y)
        }),
{
}

/// A scaled thickness: the height over the camber line is scaled, and the place along the
/// chord kept. A scaled camber: the height over the camber line is kept, and the camber
/// scaled. The camber line lies halfway between the surfaces.
pub proof fn law_thickness_and_camber_scale<S: Real>(
    v: spec_fn(S) -> real,
    p: Seq<Point<S>>,
    factor: S,
    q: Point<S>,
)
    requires
        exact(v),
    ensures
        ({
            let le = leading_edge(p);
            let camber = v(camber_at(p, q.x));
            let back = surface_height(p.subrange(le, p.len() as int), q.x);
            let front = surface_height(p.subrange(0, le + 1).reverse(), q.x);
            let t = with_thickness(p, factor, q);
            let c = with_camber(p, factor, q);
            &&& v(front) - camber == camber - v(back)
            &&& v(t.x) == v(q.x) && v(t.y) - camber == v(factor) * (v(q.y) - camber)
            &&& v(c.x) == v(q.x) && v(c.y) - v(factor) * camber == v(q.y) - camber
        }),
{
    let camber = camber_at(p, q.x);
    let le = leading_edge(p);
    let back = surface_height(p.subrange(le, p.len() as int), q.x);
    let front = surface_height(p.subrange(0, le + 1).reverse(), q.x);
    assert(camber == (back + front) / whole::<S>(2));
    assert(v(camber) == (v(back) + v(front)) / 2real);
    let t = with_thickness(p, factor, q);
    assert(t.y == camber + (q.y - camber) * factor);
    assert(v(t.y) - v(camber) == (v(q.y) - v(camber)) * v(factor));
    lemma_commute(v(q.y) - v(camber), v(factor));
    lemma_commute(v(camber), v(factor));
    let c = with_camber(p, factor, q);
    assert(v(c.y) == v(camber) * v(factor) + (v(q.y) - v(camber)));
}

/// A scaled nose: the heights of the first 15 percent of the chord are scaled, by the whole
/// factor at the leading edge and by less and less behind it, by the square of the place.
/// Nothing changes behind.
pub proof fn law_nose_scales<S: Real>(
    v: spec_fn(S) -> real,
    p: Seq<Point<S>>,
    factor: S,
    q: Point<S>,
)
    requires
        exact(v),
    ensures
        ({
            let eta = v(chord_fraction(p, q.x));
            let r = with_nose(p, factor, q);
            let extent = 15real / 100real;
            &&& v(r.x) == v(q.x)
            &&& eta >= extent ==> r == q
            &&& eta == 0real ==> v(r.y) == v(factor) * v(q.y)
            &&& eta < extent ==> (v(r.y) - v(q.y)) * (extent * extent) == v(q.y) * ((v(factor)
                - 1real) * (extent * extent - eta * eta))
        }),
{
    let one = whole::<S>(1);
    let extent = decimal::<S>(15, 100);
    let e = 15real / 100real;
    assert(v(extent) == e);
    let eta = chord_fraction(p, q.x);
    let a = v(eta);
    let r = with_nose(p, factor, q);
    if a < e {
        let l = a / e;
        let f = v(factor) - 1real;
        let y = v(q.y);
        lemma_quotient(a, e);
        let k = f * (1real - l * l);
        assert(v(r.y) == y * (1real + k));
        lemma_distribute(y, 1real, k);
        lemma_one(y);
        let m = e * e;
        lemma_associate(y, k, m);
        lemma_associate(f, 1real - l * l, m);
        lemma_commute(1real - l * l, m);
        lemma_difference(m, 1real, l * l);
        lemma_one(m);
        lemma_square(l, e);
        lemma_commute(m, l * l);
        assert((l * l) * m == a * a);
        if a == 0real {
            lemma_zero(e);
            lemma_zero_over(e);
            lemma_zero(0real);
            lemma_one(f);
            assert(k == f);
            assert(1real + k == v(factor));
            lemma_commute(y, v(factor));
        }
    }
}

/// The square of a product.
proof fn lemma_square(l: real, e: real)
    ensures
        (l * l) * (e * e) == (l * e) * (l * e),
{
    lemma_associate(l * e, l, e);
    lemma_commute(l * e, l);
    lemma_associate(l, l, e);
    lemma_associate(l * l, e, e);
}

/// A point lies on the line through two others.
pub open spec fn on_line<S: Real>(
    v: spec_fn(S) -> real,
    p: Point<S>,
    q: Point<S>,
    x: real,
    y: real,
) -> bool {
    (y - v(p.y)) * (v(q.x) - v(p.x)) == (v(q.y) - v(p.y)) * (x - v(p.x))
}

/// A point that is put between two others by its abscissa.
proof fn lemma_on_line<S: Real>(v: spec_fn(S) -> real, p: Point<S>, q: Point<S>, x: S)
    requires
        exact(v),
        v(q.x) - v(p.x) != 0real,
    ensures
        on_line(
            v,
            p,
            q,
            v(x),
            v(p.y + (x - p.x) / (q.x - p.x) * (q.y - p.y)),
        ),
{
    let d = v(q.x) - v(p.x);
    let w = v(x) - v(p.x);
    let h = v(q.y) - v(p.y);
    let t = w / d;
    lemma_quotient(w, d);
    lemma_commute(t, h);
    lemma_associate(h, t, d);
}

/// The height at an abscissa, by the segments of a surface: that of the first segment that
/// spans it, on the line through its ends; where none spans it, there is none.
pub proof fn law_heights_lie_on_segments<S: Real>(
    v: spec_fn(S) -> real,
    s: Seq<Point<S>>,
    x: S,
    i: int,
)
    requires
        exact(v),
        0 <= i,
    ensures
        match height_within(s, x, i) {
            Some(y) => exists|k: int|
                {
                    &&& i <= k < s.len() - 1
                    &&& #[trigger] spans(s[k], s[k + 1], x)
                    &&& abs(s[k + 1].x - s[k].x) > tenths::<S>(12) ==> on_line(
                        v,
                        s[k],
                        s[k + 1],
                        v(x),
                        v(y),
                    )
                    &&& !(abs(s[k + 1].x - s[k].x) > tenths::<S>(12)) ==> 2real * v(y) == v(s[k].y)
                        + v(s[k + 1].y)
                },
            None => forall|k: int|
                i <= k < s.len() - 1 ==> !#[trigger] spans(s[k], s[k + 1], x),
        },
    decreases s.len() - i,
{
    if i + 1 < s.len() {
        if spans(s[i], s[i + 1], x) {
            let dx = s[i + 1].x - s[i].x;
            if abs(dx) > tenths::<S>(12) {
                lemma_tenths(v, 12);
                lemma_on_line(v, s[i], s[i + 1], x);
            } else {
                let h = decimal::<S>(5, 10);
                assert(v(h) == 5real / 10real);
                let d = v(s[i + 1].y) - v(s[i].y);
                assert(v(h * (s[i + 1].y - s[i].y)) == 5real / 10real * d);
            }
            assert(spans(s[i], s[i + 1], x));
        } else {
            law_heights_lie_on_segments(v, s, x, i + 1);
        }
    }
}

/// The height of a surface at an abscissa: on the line through the ends of the first segment
/// that spans it, and that of the last point where none does.
pub proof fn law_surface_heights_lie_on_segments<S: Real>(
    v: spec_fn(S) -> real,
    s: Seq<Point<S>>,
    x: S,
    i: int,
)
    requires
        exact(v),
        1 <= i,
        s.len() >= 1,
    ensures
        ({
            let y = height_or_end(s, x, i);
            ||| exists|k: int|
                {
                    &&& i <= k < s.len()
                    &&& #[trigger] spans(s[k - 1], s[k], x)
                    &&& !(abs(s[k].x - s[k - 1].x) < tenths::<S>(12)) ==> on_line(
                        v,
                        s[k - 1],
                        s[k],
                        v(x),
                        v(y),
                    )
                    &&& abs(s[k].x - s[k - 1].x) < tenths::<S>(12) ==> y == s[k].y
                }
            ||| y == s.last().y && forall|k: int|
                i <= k < s.len() ==> !#[trigger] spans(s[k - 1], s[k], x)
        }),
    decreases s.len() - i,
{
    if i < s.len() {
        if spans(s[i - 1], s[i], x) {
            let dx = s[i].x - s[i - 1].x;
            if !(abs(dx) < tenths::<S>(12)) {
                lemma_not_small(v, dx, 12);
                lemma_on_line(v, s[i - 1], s[i], x);
            }
            assert(spans(s[i - 1], s[i], x));
        } else {
            law_surface_heights_lie_on_segments(v, s, x, i + 1);
        }
    }
}

/// The same, with zero where no segment spans the abscissa.
pub proof fn law_heights_or_zero_lie_on_segments<S: Real>(
    v: spec_fn(S) -> real,
    s: Seq<Point<S>>,
    x: S,
    i: int,
)
    requires
        exact(v),
        0 <= i,
    ensures
        ({
            let y = height_or_zero(s, x, i);
            ||| exists|k: int|
                {
                    &&& i <= k < s.len() - 1
                    &&& #[trigger] spans(s[k], s[k + 1], x)
                    &&& !(abs(s[k + 1].x - s[k].x) < tenths::<S>(15)) ==> on_line(
                        v,
                        s[k],
                        s[k + 1],
                        v(x),
                        v(y),
                    )
                    &&& abs(s[k + 1].x - s[k].x) < tenths::<S>(15) ==> y == s[k].y
                }
            ||| v(y) == 0real && forall|k: int|
                i <= k < s.len() - 1 ==> !#[trigger] spans(s[k], s[k + 1], x)
        }),
    decreases s.len() - i,
{
    if i + 1 < s.len() {
        if spans(s[i], s[i + 1], x) {
            let dx = s[i + 1].x - s[i].x;
            if !(abs(dx) < tenths::<S>(15)) {
                lemma_not_small(v, dx, 15);
                lemma_on_line(v, s[i], s[i + 1], x);
            }
            assert(spans(s[i], s[i + 1], x));
        } else {
            law_heights_or_zero_lie_on_segments(v, s, x, i + 1);
        }
    }
}

/// The part of the way at which two lines cross.
proof fn lemma_crossing(p: real, q: real, r: real, s: real, x: real, y: real)
    requires
        p * s - q * r != 0real,
    ensures
        ({
            let d = p * s - q * r;
            let t = (x * s - y * r) / d;
            let u = (x * q - y * p) / d;
            &&& t * p == x + u * r
            &&& t * q == y + u * s
        }),
{
    let d = p * s - q * r;
    let m = x * s - y * r;
    let n = x * q - y * p;
    let t = m / d;
    let u = n / d;
    lemma_quotient(m, d);
    lemma_quotient(n, d);
    // The abscissa.
    lemma_swap(d, t, p);
    lemma_swap(d, u, r);
    lemma_commute(d, t);
    lemma_commute(p, d * t);
    lemma_commute(t, p);
    lemma_difference(p, x * s, y * r);
    lemma_difference(r, x * q, y * p);
    lemma_difference(x, p * s, q * r);
    lemma_swap(p, x, s);
    lemma_swap(p, y, r);
    lemma_commute(p, r);
    lemma_swap(r, x, q);
    lemma_swap(r, y, p);
    lemma_commute(r, q);
    assert(p * m == x * (p * s) - y * (p * r));
    assert(r * n == x * (q * r) - y * (p * r));
    assert(p * m - r * n == x * d);
    lemma_associate(d, t, p);
    lemma_associate(d, u, r);
    lemma_commute(m, p);
    lemma_commute(n, r);
    lemma_commute(d, u);
    assert(d * (t * p) == p * m);
    assert(d * (u * r) == r * n);
    lemma_commute(x, d);
    lemma_distribute(d, x, u * r);
    lemma_cancel(d, t * p);
    lemma_cancel(d, x + u * r);
    // The ordinate.
    lemma_difference(q, x * s, y * r);
    lemma_difference(s, x * q, y * p);
    lemma_difference(y, p * s, q * r);
    lemma_swap(q, x, s);
    lemma_swap(q, y, r);
    lemma_swap(s, x, q);
    lemma_commute(s, q);
    lemma_swap(s, y, p);
    lemma_commute(s, p);
    assert(q * m == x * (q * s) - y * (q * r));
    assert(s * n == x * (q * s) - y * (p * s));
    assert(q * m - s * n == y * d);
    lemma_associate(d, t, q);
    lemma_associate(d, u, s);
    lemma_commute(m, q);
    lemma_commute(n, s);
    assert(d * (t * q) == q * m);
    assert(d * (u * s) == s * n);
    lemma_commute(y, d);
    lemma_distribute(d, y, u * s);
    lemma_cancel(d, t * q);
    lemma_cancel(d, y + u * s);
}

/// The crossing of two segments lies on both, between their ends.
pub proof fn law_crossing_lies_on_both<S: Real>(
    v: spec_fn(S) -> real,
    a1: Point<S>,
    a2: Point<S>,
    b1: Point<S>,
    b2: Point<S>,
)
    requires
        exact(v),
        crossing(a1, a2, b1, b2) is Some,
    ensures
        ({
            let c = crossing(a1, a2, b1, b2)->0;
            &&& exists|t: real| #[trigger] lies_at(v, a1, a2, c, t) && 0real <= t <= 1real
            &&& exists|u: real| #[trigger] lies_at(v, b1, b2, c, u) && 0real <= u <= 1real
        }),
{
    let d1x = a2.x - a1.x;
    let d1y = a2.y - a1.y;
    let d2x = b2.x - b1.x;
    let d2y = b2.y - b1.y;
    let denom = d1x * d2y - d1y * d2x;
    let dx = b1.x - a1.x;
    let dy = b1.y - a1.y;
    let t = (dx * d2y - dy * d2x) / denom;
    let u = (dx * d1y - dy * d1x) / denom;
    let c = crossing(a1, a2, b1, b2)->0;
    lemma_not_small(v, denom, 15);
    lemma_crossing(v(d1x), v(d1y), v(d2x), v(d2y), v(dx), v(dy));
    assert(lies_at(v, a1, a2, c, v(t)));
    assert(lies_at(v, b1, b2, c, v(u)));
}

/// A point lies the part `t` of the way from one point to another.
pub open spec fn lies_at<S: Real>(
    v: spec_fn(S) -> real,
    p: Point<S>,
    q: Point<S>,
    c: Point<S>,
    t: real,
) -> bool {
    &&& v(c.x) == v(p.x) + t * (v(q.x) - v(p.x))
    &&& v(c.y) == v(p.y) + t * (v(q.y) - v(p.y))
}

/// Between two numbers, the way is even: each part of it leads over the same part of their
/// difference.
pub proof fn law_lerp_is_even<S: Real>(v: spec_fn(S) -> real, a: S, b: S, t: S)
    requires
        exact(v),
    ensures
        v(lerp(a, b, t)) - v(a) == v(t) * (v(b) - v(a)),
{
    lemma_difference(v(t), v(b), v(a));
    lemma_commute(v(a), 1real - v(t));
    lemma_commute(1real - v(t), v(a));
    lemma_difference(v(a), 1real, v(t));
    lemma_one(v(a));
    lemma_commute(v(a), v(t));
    lemma_commute(v(b), v(t));
    lemma_commute(v(b) - v(a), v(t));
}

/// The share of the upper side in the wake is that of its displacement thickness in the sum
/// of both.
pub proof fn law_wake_is_shared<S: Real>(v: spec_fn(S) -> real, upper: S, lower: S)
    requires
        exact(v),
        v(upper) + v(lower) > v(tenths::<S>(12)),
    ensures
        v(upper_fraction(upper, lower)) * (v(upper) + v(lower)) == v(upper),
        v(upper_share(upper, lower)) * (v(upper) + v(lower)) == v(upper),
{
    lemma_tenths(v, 12);
    lemma_quotient(v(upper), v(upper) + v(lower));
}

/// A station of the effective body is moved out at right angles to its surface, by its
/// displacement thickness, to the left of the way along the upper surface and to the right of
/// that along the lower one.
pub proof fn law_stations_are_moved_out<S: Real, E: Elementary<S>>(
    v: spec_fn(S) -> real,
    elementary: &E,
    rows: Seq<BlRow<S>>,
    i: int,
    sign: S,
)
    requires
        exact(v),
        0 <= i < rows.len(),
        v(sign) == 1real || v(sign) == -1real,
        ({
            let (tx, ty) = tangent(rows, i, sign);
            let l = v(elementary.sqrt_of(tx * tx + ty * ty));
            &&& l * l == v(tx) * v(tx) + v(ty) * v(ty)
            &&& l >= v(tenths::<S>(10))
        }),
    ensures
        ({
            let (tx, ty) = tangent(rows, i, sign);
            let r = displaced(elementary, rows, i, sign);
            let (dx, dy) = (v(r.x) - v(rows[i].x_coord), v(r.y) - v(rows[i].y_coord));
            let d = v(rows[i].dstr);
            &&& dot(v(tx), v(ty), dx, dy) == 0real
            &&& cross(v(tx), v(ty), dx, dy) == v(sign) * d * v(
                elementary.sqrt_of(tx * tx + ty * ty),
            )
            &&& dx * dx + dy * dy == d * d
        }),
{
    let (tx, ty) = tangent(rows, i, sign);
    lemma_tenths(v, 10);
    let l = v(elementary.sqrt_of(tx * tx + ty * ty));
    let (x, y, s, d) = (v(tx), v(ty), v(sign), v(rows[i].dstr));
    let (nx, ny) = normal(elementary, rows, i, sign);
    let r = displaced(elementary, rows, i, sign);
    let (dx, dy) = (v(r.x) - v(rows[i].x_coord), v(r.y) - v(rows[i].y_coord));
    assert(v(nx) == -y / l * s);
    assert(v(ny) == x / l * s);
    let (p, q) = (-y / l, x / l);
    lemma_quotient(-y, l);
    lemma_quotient(x, l);
    let k = s * d;
    lemma_associate(p, s, d);
    lemma_associate(q, s, d);
    assert(dx == p * k && dy == q * k);
    lemma_commute(p, k);
    lemma_commute(q, k);
    // Along the surface.
    lemma_swap(x, k, p);
    lemma_swap(y, k, q);
    let e = x * p + y * q;
    lemma_distribute(k, x * p, y * q);
    lemma_swap(l, x, p);
    lemma_swap(l, y, q);
    lemma_distribute(l, x * p, y * q);
    lemma_opposite(x, y);
    lemma_commute(x, y);
    assert(l * e == 0real);
    lemma_cancel(l, e);
    lemma_zero_over(l);
    lemma_zero(k);
    // Across it.
    lemma_swap(x, k, q);
    lemma_swap(y, k, p);
    let f = x * q - y * p;
    lemma_difference(k, x * q, y * p);
    lemma_swap(l, x, q);
    lemma_swap(l, y, p);
    lemma_difference(l, x * q, y * p);
    lemma_opposite(y, y);
    assert(l * f == l * l);
    lemma_cancel(l, f);
    lemma_cancel(l, l);
    assert(cross(x, y, dx, dy) == k * l);
    // The length.
    lemma_square(k, p);
    lemma_square(k, q);
    lemma_square(l, p);
    lemma_square(l, q);
    lemma_opposite(-y, y);
    lemma_commute(-y, y);
    let g = p * p + q * q;
    lemma_distribute(k * k, p * p, q * q);
    lemma_distribute(l * l, p * p, q * q);
    assert((l * l) * g == l * l);
    lemma_positive_product(l, l);
    lemma_cancel(l * l, g);
    lemma_ratio(l * l);
    assert(g == 1real);
    lemma_one(k * k);
    lemma_square(s, d);
    lemma_signs(s);
    lemma_one(d * d);
}

/// The square of a sign.
proof fn lemma_signs(s: real)
    by (nonlinear_arith)
    requires
        s == 1real || s == -1real,
    ensures
        s * s == 1real,
{
}

/// The leading edge is a foremost point of an outline, and the first of them.
pub proof fn law_leading_edge_is_foremost<S: Real>(
    v: spec_fn(S) -> real,
    p: Seq<Point<S>>,
    n: nat,
)
    requires
        exact(v),
        1 <= n <= p.len(),
    ensures
        0 <= foremost(p, n) < n,
        forall|i: int| 0 <= i < n ==> v(p[foremost(p, n)].x) <= v((#[trigger] p[i]).x),
        forall|i: int| 0 <= i < foremost(p, n) ==> v(p[foremost(p, n)].x) < v((#[trigger] p[i]).x),
    decreases n,
{
    if n > 1 {
        law_leading_edge_is_foremost(v, p, (n - 1) as nat);
    }
}

/// A change of the trailing-edge gap is shared by both surfaces in equal parts, grows with
/// the square of the way into the blended part of the chord, and leaves what lies before it as
/// it is.
pub proof fn law_gap_fades_out<S: Real>(
    v: spec_fn(S) -> real,
    p: Seq<Point<S>>,
    target_gap: S,
    blend_fraction: S,
    i: int,
)
    requires
        exact(v),
        0 <= i < p.len(),
        1real / 10real <= v(blend_fraction) <= 1real,
    ensures
        ({
            let b = v(blend_fraction);
            let r = with_te_gap(p, target_gap, blend_fraction, i);
            let way = v(chord_fraction(p, p[i].x)) - (1real - b);
            let missing = v(target_gap) * v(chord_of(p)) - (v(p[0].y) - v(p.last().y));
            let rise = v(r.y) - v(p[i].y);
            &&& v(r.x) == v(p[i].x)
            &&& way <= 0real ==> rise == 0real
            &&& way > 0real && i <= leading_edge(p) ==> 2real * (b * b) * rise == missing * (way
                * way)
            &&& way > 0real && i > leading_edge(p) ==> 2real * (b * b) * rise == -(missing * (way
                * way))
        }),
{
    let one = whole::<S>(1);
    assert(v(decimal::<S>(1, 10)) == 1real / 10real);
    let blend = clamp(blend_fraction, decimal::<S>(1, 10), one);
    let b = v(blend);
    assert(b == v(blend_fraction));
    let eta = chord_fraction(p, p[i].x);
    let way = v(eta) - (1real - b);
    let delta = target_gap * chord_of(p) - (p[0].y - p.last().y);
    let d = v(delta);
    let half = decimal::<S>(5, 10);
    assert(v(half) == 5real / 10real);
    let inner = (eta - (one - blend)) / blend;
    let q = way / b;
    assert(v(inner) == q);
    lemma_quotient(way, b);
    lemma_square(q, b);
    assert((q * q) * (b * b) == way * way);
    let r = with_te_gap(p, target_gap, blend_fraction, i);
    let rise = v(r.y) - v(p[i].y);
    if way > 0real {
        assert(eta > one - blend);
        let m = b * b;
        let n = q * q;
        if i <= leading_edge(p) {
            assert(rise == 1real * (5real / 10real) * d * n);
            lemma_halves(1real, d, n, m);
        } else {
            assert(rise == -1real * (5real / 10real) * d * n);
            lemma_halves(-1real, d, n, m);
        }
    } else {
        assert(!(eta > one - blend));
        lemma_zero(v(if i <= leading_edge(p) {
            one
        } else {
            -one
        }) * (5real / 10real) * d);
    }
}

/// Half of a product, with its sign.
proof fn lemma_halves(s: real, d: real, n: real, m: real)
    requires
        s == 1real || s == -1real,
    ensures
        2real * m * (s * (5real / 10real) * d * n) == (if s == 1real {
            d * (n * m)
        } else {
            -(d * (n * m))
        }),
{
    let h = d / 2real;
    lemma_half_of(s, d);
    lemma_commute(m, h * n);
    lemma_associate(2real, m, h * n);
    lemma_associate(h, n, m);
    lemma_half_product(d, n * m);
    let g = -h;
    lemma_commute(g, n);
    lemma_opposite(n, h);
    lemma_commute(n, h);
    lemma_associate(2real, m, g * n);
    lemma_opposite(m, h * n);
}

/// Half of a number, with its sign.
proof fn lemma_half_of(s: real, d: real)
    by (nonlinear_arith)
    requires
        s == 1real || s == -1real,
    ensures
        s == 1real ==> s * (5real / 10real) * d == d / 2real,
        s == -1real ==> s * (5real / 10real) * d == -(d / 2real),
{
}

/// Twice a product with a half.
proof fn lemma_half_product(d: real, k: real)
    by (nonlinear_arith)
    ensures
        2real * (d / 2real * k) == d * k,
{
}

/// The entry of one list that an entry of another corresponds to lies as far along its list:
/// between the two neighbours that it is given, by the part that it is given.
pub proof fn law_counterpart_lies_as_far<S: Real, E: Elementary<S>>(
    v: spec_fn(S) -> real,
    elementary: &E,
    i: int,
    from: int,
    to: int,
)
    requires
        exact(v),
        1 <= from <= usize::MAX,
        2 <= to <= usize::MAX,
        0 <= i < to,
    ensures
        ({
            let b = counterpart::<S, E>(elementary, i, from, to);
            &&& (v(b.t) + b.low as real) * (to - 1) as real == i as real * (from - 1) as real
            &&& b.low < from && b.high < from
            &&& b.high == b.low + 1 || b.high == b.low == from - 1
        }),
{
    lemma_count(v, i as usize);
    lemma_count(v, (from - 1) as usize);
    lemma_count(v, (to - 1) as usize);
    let b = counterpart::<S, E>(elementary, i, from, to);
    lemma_count(v, b.low);
    let scale = count::<S>((from - 1) as usize) / count::<S>((to - 1) as usize);
    let at = count::<S>(i as usize) * scale;
    let (f, t) = ((from - 1) as real, (to - 1) as real);
    lemma_quotient(f, t);
    lemma_associate(i as real, f / t, t);
    assert(v(at) * t == i as real * f);
    assert(v(b.t) + b.low as real == v(at));
}

/// The hinge of a flap lies at its place along the chord, behind the leading edge, and at its
/// place across the thickness there: on the lower surface at zero, on the upper one at one,
/// and never outside of both.
pub proof fn law_hinge_lies_in_the_section<S: Real>(
    v: spec_fn(S) -> real,
    p: Seq<Point<S>>,
    x_frac: S,
    y_frac: S,
)
    requires
        exact(v),
    ensures
        ({
            let h = hinge_of(p, x_frac, y_frac);
            let upper = v(height_at_hinge(upper_part(p), h.x));
            let lower = v(height_at_hinge(lower_part(p), h.x));
            let part = if v(y_frac) < 0real {
                0real
            } else if v(y_frac) > 1real {
                1real
            } else {
                v(y_frac)
            };
            &&& v(h.x) - v(p[leading_edge(p)].x) == v(x_frac) * v(chord_of(p))
            &&& v(h.y) - lower == part * (upper - lower)
            &&& upper - v(h.y) == (1real - part) * (upper - lower)
        }),
{
    let h = hinge_of(p, x_frac, y_frac);
    let upper = v(height_at_hinge(upper_part(p), h.x));
    let lower = v(height_at_hinge(lower_part(p), h.x));
    let part = v(clamp(y_frac, whole::<S>(0), whole::<S>(1)));
    let d = upper - lower;
    lemma_commute(1real - part, d);
    lemma_difference(d, 1real, part);
    lemma_one(d);
    lemma_commute(d, part);
}

/// A point of the wake of the effective body lies as far from the wake as its share of the
/// displacement thickness says, along the normal of the wake.
pub proof fn law_wake_is_moved_out<S: Real, E: Elementary<S>>(
    v: spec_fn(S) -> real,
    elementary: &E,
    wake: Seq<BlRow<S>>,
    te: (S, S),
    lower: bool,
    part: S,
    i: int,
)
    requires
        exact(v),
        0 <= i < wake.len(),
        ({
            let n = blended_normal(elementary, wake, te, lower, i);
            let l = v(elementary.sqrt_of(n.x * n.x + n.y * n.y));
            &&& l * l == v(n.x) * v(n.x) + v(n.y) * v(n.y)
            &&& l >= v(tenths::<S>(10))
        }),
    ensures
        ({
            let n = blended_normal(elementary, wake, te, lower, i);
            let r = wake_displaced(elementary, wake, te, lower, part, i);
            let (dx, dy) = (v(r.x) - v(wake[i].x_coord), v(r.y) - v(wake[i].y_coord));
            let d = v(wake[i].dstr) * v(part);
            &&& dx * dx + dy * dy == d * d
            &&& cross(v(n.x), v(n.y), dx, dy) == 0real
            &&& d > 0real ==> dot(v(n.x), v(n.y), dx, dy) > 0real
        }),
{
    lemma_tenths(v, 10);
    let n = blended_normal(elementary, wake, te, lower, i);
    let l = v(elementary.sqrt_of(n.x * n.x + n.y * n.y));
    let (x, y) = (v(n.x), v(n.y));
    let r = wake_displaced(elementary, wake, te, lower, part, i);
    let d = v(wake[i].dstr) * v(part);
    let (dx, dy) = (v(r.x) - v(wake[i].x_coord), v(r.y) - v(wake[i].y_coord));
    let (p, q) = (x / l, y / l);
    assert(dx == p * d && dy == q * d);
    lemma_quotient(x, l);
    lemma_quotient(y, l);
    lemma_commute(p, d);
    lemma_commute(q, d);
    lemma_square(d, p);
    lemma_square(d, q);
    lemma_square(l, p);
    lemma_square(l, q);
    lemma_commute(l, p);
    lemma_commute(l, q);
    let g = p * p + q * q;
    lemma_distribute(d * d, p * p, q * q);
    lemma_distribute(l * l, p * p, q * q);
    assert((l * l) * g == l * l);
    lemma_positive_product(l, l);
    lemma_cancel(l * l, g);
    lemma_ratio(l * l);
    lemma_one(d * d);
    // Along the normal.
    lemma_swap(x, d, q);
    lemma_swap(y, d, p);
    lemma_swap(l, p, q);
    lemma_associate(l, p, q);
    lemma_associate(l, q, p);
    lemma_commute(p, q);
    assert(x == l * p && y == l * q);
    lemma_commute(q, p);
    assert(x * q == y * p) by {
        lemma_commute(l, p);
    }
    lemma_swap(x, d, p);
    lemma_swap(y, d, q);
    lemma_distribute(d, x * p, y * q);
    lemma_associate(l, p, p);
    lemma_associate(l, q, q);
    lemma_distribute(l, p * p, q * q);
    lemma_one(l);
    assert(x * p + y * q == l);
    if d > 0real {
        lemma_positive_product(d, l);
    }
}

/// The normal of a wake, turned from that of the trailing edge to its own over the first
/// points.
pub open spec fn blended_normal<S: Real, E: Elementary<S>>(
    elementary: &E,
    wake: Seq<BlRow<S>>,
    te: (S, S),
    lower: bool,
    i: int,
) -> Point<S> {
    let one = whole::<S>(1);
    let (wx, wy) = normal(elementary, wake, i, one);
    let t = wake_blend::<S>(i, wake.len() as int);
    Point {
        x: te.0 * (one - t) + (if lower {
            -wx
        } else {
            wx
        }) * t,
        y: te.1 * (one - t) + (if lower {
            -wy
        } else {
            wy
        }) * t,
    }
}

/// The normal of a wake lies between that of the trailing edge and its own, to which it has
/// turned after five points, or at the end of a shorter wake.
pub open spec fn blends<S: Real, E: Elementary<S>>(
    v: spec_fn(S) -> real,
    elementary: &E,
    wake: Seq<BlRow<S>>,
    te: (S, S),
    lower: bool,
    i: int,
    n: Point<S>,
) -> bool {
    let (wx, wy) = normal(elementary, wake, i, whole::<S>(1));
    let side = if lower {
        -1real
    } else {
        1real
    };
    &&& i == 0 ==> v(n.x) == v(te.0) && v(n.y) == v(te.1)
    &&& i >= 5 ==> v(n.x) == side * v(wx) && v(n.y) == side * v(wy)
}

/// The normal of a wake does lie so.
pub proof fn law_wake_normals_blend<S: Real, E: Elementary<S>>(
    v: spec_fn(S) -> real,
    elementary: &E,
    wake: Seq<BlRow<S>>,
    te: (S, S),
    lower: bool,
    i: int,
)
    requires
        exact(v),
        0 <= i < wake.len() <= usize::MAX,
    ensures
        blends(v, elementary, wake, te, lower, i, blended_normal(elementary, wake, te, lower, i)),
{
    let one = whole::<S>(1);
    let (wx, wy) = normal(elementary, wake, i, one);
    let t = wake_blend::<S>(i, wake.len() as int);
    let steps = if wake.len() < 5 {
        wake.len() as int
    } else {
        5
    };
    lemma_count(v, i as usize);
    lemma_count(v, steps as usize);
    if i == 0 {
        lemma_zero_over(steps as real);
        assert(v(t) == 0real);
        lemma_one(v(te.0));
        lemma_one(v(te.1));
        lemma_zero(v(wx));
        lemma_zero(v(wy));
        lemma_zero(-v(wx));
        lemma_zero(-v(wy));
    }
    if i >= 5 {
        assert(v(t) == 1real);
        lemma_zero(v(te.0));
        lemma_zero(v(te.1));
        lemma_one(v(wx));
        lemma_one(v(wy));
        lemma_one(-v(wx));
        lemma_one(-v(wy));
        lemma_minus(v(wx));
        lemma_minus(v(wy));
    }
}

/// A product with minus one.
proof fn lemma_minus(x: real)
    by (nonlinear_arith)
    ensures
        -1real * x == -x,
{
}

/// The effective body runs along the upper surface and the upper side of the wake, and back
/// along the lower side of the wake and the lower surface: the two sides of the wake share its
/// displacement thickness as the surfaces do at the trailing edge.
pub proof fn law_effective_body_runs_round<S: Real, E: Elementary<S>>(
    v: spec_fn(S) -> real,
    elementary: &E,
    upper: Seq<BlRow<S>>,
    lower: Seq<BlRow<S>>,
    wake: Seq<BlRow<S>>,
    i: int,
)
    requires
        exact(v),
        upper.len() > 0,
        lower.len() > 0,
        v(upper.last().dstr) + v(lower.last().dstr) > v(tenths::<S>(12)),
    ensures
        ({
            let r = effective_body(elementary, upper, lower, wake);
            let (nu, nw, nl) = (upper.len() as int, wake.len() as int, lower.len() as int);
            let one = whole::<S>(1);
            let total = v(upper.last().dstr) + v(lower.last().dstr);
            exists|p: S, q: S|
                {
                    &&& #[trigger] shares(v, p, q, v(upper.last().dstr), total)
                    &&& r.len() == nu + 2 * nw + nl
                    &&& 0 <= i < nu ==> r[i] == displaced(elementary, upper, i, one)
                    &&& 0 <= i < nw ==> r[nu + i] == wake_displaced(
                        elementary,
                        wake,
                        trailing_normal(elementary, upper, one),
                        false,
                        p,
                        i,
                    )
                    &&& 0 <= i < nw ==> r[nu + nw + i] == wake_displaced(
                        elementary,
                        wake,
                        trailing_normal(elementary, lower, -one),
                        true,
                        q,
                        nw - 1 - i,
                    )
                    &&& 0 <= i < nl ==> r[nu + 2 * nw + i] == displaced(
                        elementary,
                        lower,
                        nl - 1 - i,
                        -one,
                    )
                }
        }),
{
    let p = upper_share(upper.last().dstr, lower.last().dstr);
    let q = whole::<S>(1) - p;
    law_wake_is_shared(v, upper.last().dstr, lower.last().dstr);
    assert(shares(v, p, q, v(upper.last().dstr), v(upper.last().dstr) + v(lower.last().dstr)));
}

/// Two shares of a whole, the first of them in proportion to `first` of `total`.
pub open spec fn shares<S: Real>(
    v: spec_fn(S) -> real,
    p: S,
    q: S,
    first: real,
    total: real,
) -> bool {
    v(p) + v(q) == 1real && v(p) * total == first
}

} // verus!
