//! The shape of a section of the four-digit series.
use super::algebra::{
    lemma_associate, lemma_cancel, lemma_commute, lemma_difference, lemma_distribute, lemma_one,
    lemma_opposite, lemma_positive_product, lemma_product_order, lemma_quotient,
    lemma_quotient_order, lemma_swap, lemma_zero, lemma_zero_over,
};
use super::change::takes_roots;
use super::exact;
use super::spacing::lemma_count;
use crate::airfoil::naca::{
    camber_line, cosine_spaced, designation, half_thickness, naca4, proportions, section,
};
use crate::elementary::Elementary;
use crate::number::{abs, count, decimal, pi, tenths, whole, Formula, Real};
use vstd::prelude::*;

verus! {

/// A section has camber: the camber `m` and its place `p` are not negligible, and the place
/// lies within the chord.
pub open spec fn cambered<S: Real>(v: spec_fn(S) -> real, m: S, p: S) -> bool {
    &&& !(abs(m) < tenths::<S>(10))
    &&& !(abs(p) < tenths::<S>(10))
    &&& 0real < v(p) < 1real
}

/// The square of a difference.
proof fn lemma_square_of_difference(a: real, b: real)
    ensures
        (a - b) * (a - b) == a * a - 2real * (a * b) + b * b,
{
    lemma_difference(a - b, a, b);
    lemma_commute(a - b, a);
    lemma_commute(a - b, b);
    lemma_difference(a, a, b);
    lemma_difference(b, a, b);
    lemma_commute(a, b);
}

/// The product of a quotient and its divisor with a third number between them.
proof fn lemma_scaled_quotient(m: real, d: real, y: real)
    requires
        d != 0real,
    ensures
        m / d * y * d == m * y,
{
    lemma_commute(m / d, y);
    lemma_associate(y, m / d, d);
    lemma_quotient(m, d);
    lemma_commute(y, m);
}

/// Twice a product, in any order.
proof fn lemma_twice(a: real, b: real)
    ensures
        2real * a * b == 2real * (a * b),
{
    lemma_associate(2real, a, b);
}

/// The camber line is made of two parabolas with their vertex at the place of the camber, as
/// high as the camber: one comes from the leading edge, the other goes to the trailing edge.
proof fn lemma_parabolas<S: Real>(v: spec_fn(S) -> real, m: S, p: S, x: S)
    requires
        exact(v),
        cambered(v, m, p),
    ensures
        ({
            let b = if v(x) < v(p) {
                v(p)
            } else {
                1real - v(p)
            };
            let (y, slope) = camber_line(m, p, x);
            &&& (v(m) - v(y)) * (b * b) == v(m) * ((v(x) - v(p)) * (v(x) - v(p)))
            &&& v(slope) * (b * b) == 2real * v(m) * (v(p) - v(x))
            &&& b * b > 0real
        }),
{
    let one = whole::<S>(1);
    let two = whole::<S>(2);
    let (y, slope) = camber_line(m, p, x);
    let (rm, rp, rx) = (v(m), v(p), v(x));
    lemma_square_of_difference(rx, rp);
    lemma_commute(rx, rp);
    lemma_twice(rp, rx);
    if rx < rp {
        let d = rp * rp;
        lemma_positive_product(rp, rp);
        assert(x.spec_lt(p));
        assert(v(p * p) == d);
        let w = 2real * rp * rx - rx * rx;
        assert(v(two * p * x - x * x) == w);
        assert(v(y) == rm / d * w);
        lemma_scaled_quotient(rm, d, w);
        lemma_commute(rm - v(y), d);
        lemma_difference(d, rm, v(y));
        lemma_commute(d, v(y));
        lemma_commute(d, rm);
        lemma_difference(rm, d, w);
        assert(v(slope) == 2real * rm / d * (rp - rx));
        lemma_scaled_quotient(2real * rm, d, rp - rx);
    } else {
        let q = 1real - rp;
        let d = q * q;
        lemma_positive_product(q, q);
        assert(!x.spec_lt(p));
        assert(v((one - p) * (one - p)) == d);
        let w = (1real - 2real * rp) + 2real * rp * rx - rx * rx;
        assert(v((one - two * p) + two * p * x - x * x) == w);
        assert(v(y) == rm / d * w);
        lemma_scaled_quotient(rm, d, w);
        lemma_square_of_difference(1real, rp);
        lemma_one(rp);
        lemma_commute(rm - v(y), d);
        lemma_difference(d, rm, v(y));
        lemma_commute(d, v(y));
        lemma_commute(d, rm);
        lemma_difference(rm, d, w);
        assert(v(slope) == 2real * rm / d * (rp - rx));
        lemma_scaled_quotient(2real * rm, d, rp - rx);
    }
}

/// Numbers whose products with a third are the same are the same.
proof fn lemma_same_factor(a: real, b: real, d: real)
    requires
        d > 0real,
        a * d == b * d,
    ensures
        a == b,
{
    lemma_cancel(d, a);
    lemma_cancel(d, b);
    lemma_commute(a, d);
    lemma_commute(b, d);
}

/// The camber line of a section, halfway between its surfaces: it starts and ends on the
/// chord, reaches the camber at its place, whichever part it is approached along, and lies
/// between the chord and the camber.
pub proof fn law_camber_line<S: Real, E: Elementary<S>>(
    v: spec_fn(S) -> real,
    elementary: &E,
    m: S,
    p: S,
    t: S,
    x: S,
)
    requires
        exact(v),
        cambered(v, m, p),
    ensures
        ({
            let (upper, lower) = section(elementary, m, p, t, x);
            let y = (v(upper.y) + v(lower.y)) / 2real;
            let b = if v(x) < v(p) {
                v(p)
            } else {
                1real - v(p)
            };
            &&& v(upper.x) + v(lower.x) == 2real * v(x)
            &&& v(x) == 0real || v(x) == 1real ==> y == 0real
            &&& v(x) == v(p) ==> y == v(m)
            &&& (v(m) - y) * (b * b) == v(m) * ((v(x) - v(p)) * (v(x) - v(p)))
        }),
{
    let (y, slope) = camber_line(m, p, x);
    let (upper, lower) = section(elementary, m, p, t, x);
    lemma_parabolas(v, m, p, x);
    let mid = (v(upper.y) + v(lower.y)) / 2real;
    assert(mid == v(y));
    let b = if v(x) < v(p) {
        v(p)
    } else {
        1real - v(p)
    };
    let d = b * b;
    if v(x) == 0real {
        lemma_opposite(v(p), v(p));
        lemma_opposite(-v(p), v(p));
        lemma_commute(-v(p), v(p));
        lemma_same_factor(v(m) - v(y), v(m), d);
    } else if v(x) == 1real {
        lemma_same_factor(v(m) - v(y), v(m), d);
    }
    if v(x) == v(p) {
        lemma_zero(0real);
        lemma_zero(v(m));
        lemma_zero(d);
        lemma_same_factor(v(m) - v(y), 0real, d);
    }
}

/// The slope by which the thickness is laid off is that of the camber line: between two
/// places on the same part the line departs from its tangent by a term of second order
/// alone.
pub proof fn law_camber_slope<S: Real>(v: spec_fn(S) -> real, m: S, p: S, x: S, z: S)
    requires
        exact(v),
        cambered(v, m, p),
        v(x) < v(p) <==> v(z) < v(p),
    ensures
        ({
            let b = if v(x) < v(p) {
                v(p)
            } else {
                1real - v(p)
            };
            let (y, slope) = camber_line(m, p, x);
            let h = v(z) - v(x);
            (v(camber_line(m, p, z).0) - (v(y) + v(slope) * h)) * (b * b) == -(v(m) * (h * h))
        }),
{
    let b = if v(x) < v(p) {
        v(p)
    } else {
        1real - v(p)
    };
    let d = b * b;
    let (y, slope) = camber_line(m, p, x);
    let far = v(camber_line(m, p, z).0);
    lemma_parabolas(v, m, p, x);
    lemma_parabolas(v, m, p, z);
    let (rm, e, f) = (v(m), v(x) - v(p), v(z) - v(p));
    let h = f - e;
    assert(h == v(z) - v(x));
    // The square of the farther distance.
    lemma_square_of_difference(f, e);
    assert(h * h == f * f - 2real * (f * e) + e * e);
    lemma_difference(e, f, e);
    lemma_commute(e, f);
    assert(e * h == f * e - e * e);
    // Each term times the divisor.
    let near = v(y);
    let s = v(slope);
    lemma_commute(rm - far, d);
    lemma_difference(d, rm, far);
    lemma_commute(rm - near, d);
    lemma_difference(d, rm, near);
    lemma_commute(far - (near + s * h), d);
    lemma_difference(d, far, near + s * h);
    lemma_distribute(d, near, s * h);
    lemma_associate(d, s, h);
    lemma_commute(d, s);
    assert(s * d == 2real * rm * (-e));
    lemma_opposite(2real * rm, e);
    let g = 2real * rm * e;
    assert(d * (s * h) == (-g) * h);
    lemma_commute(-g, h);
    lemma_opposite(h, g);
    lemma_commute(h, g);
    lemma_associate(2real * rm, e, h);
    assert(d * (s * h) == -(2real * rm * (e * h)));
    lemma_associate(2real, rm, e * h);
    // Sums of products with the camber.
    lemma_difference(rm, f * f - 2real * (f * e), -(e * e));
    lemma_difference(rm, f * f, 2real * (f * e));
    lemma_opposite(rm, e * e);
    lemma_difference(rm, f * e, e * e);
    lemma_swap_two(rm, f * e);
}

/// A product with twice a number.
proof fn lemma_swap_two(a: real, b: real)
    ensures
        a * (2real * b) == 2real * (a * b),
{
    lemma_swap(a, 2real, b);
}

/// The thickness is laid off at right angles to the camber line, in equal parts: where `sin`
/// and `cos` of the angle of the slope are those of that angle, the surfaces are as far from
/// each other as the thickness says, and the upper one lies above.
pub proof fn law_thickness_is_across<S: Real, E: Elementary<S>>(
    v: spec_fn(S) -> real,
    elementary: &E,
    m: S,
    p: S,
    t: S,
    x: S,
)
    requires
        exact(v),
        ({
            let theta = elementary.atan_of(camber_line(m, p, x).1);
            let sin = v(elementary.sin_of(theta));
            let cos = v(elementary.cos_of(theta));
            &&& sin == v(camber_line(m, p, x).1) * cos
            &&& sin * sin + cos * cos == 1real
            &&& cos > 0real
        }),
    ensures
        ({
            let (upper, lower) = section(elementary, m, p, t, x);
            let slope = v(camber_line(m, p, x).1);
            let dx = v(upper.x) - v(lower.x);
            let dy = v(upper.y) - v(lower.y);
            let thick = 2real * v(half_thickness(elementary, t, x));
            &&& dx + slope * dy == 0real
            &&& dx * dx + dy * dy == thick * thick
            &&& thick > 0real ==> dy > 0real
            &&& thick == 0real ==> dx == 0real && dy == 0real
        }),
{
    let slope = v(camber_line(m, p, x).1);
    let theta = elementary.atan_of(camber_line(m, p, x).1);
    let sin = v(elementary.sin_of(theta));
    let cos = v(elementary.cos_of(theta));
    let y = v(half_thickness(elementary, t, x));
    let (upper, lower) = section(elementary, m, p, t, x);
    let dx = v(upper.x) - v(lower.x);
    let dy = v(upper.y) - v(lower.y);
    let k = 2real * y;
    lemma_associate(2real, y, sin);
    lemma_associate(2real, y, cos);
    assert(dx == -(k * sin));
    assert(dy == k * cos);
    lemma_swap(slope, k, cos);
    assert(slope * dy == k * (slope * cos));
    // The squares.
    lemma_opposite(dx, k * sin);
    lemma_commute(dx, k * sin);
    lemma_opposite(k * sin, k * sin);
    assert(dx * dx == (k * sin) * (k * sin));
    lemma_squares(k, sin);
    lemma_squares(k, cos);
    lemma_distribute(k * k, sin * sin, cos * cos);
    lemma_one(k * k);
    if k > 0real {
        lemma_positive_product(k, cos);
    }
    if k == 0real {
        lemma_zero(sin);
        lemma_zero(cos);
    }
}

/// The square of a product.
proof fn lemma_squares(k: real, s: real)
    ensures
        (k * s) * (k * s) == (k * k) * (s * s),
{
    lemma_associate(k * s, k, s);
    lemma_commute(k * s, k);
    lemma_associate(k, k, s);
    lemma_associate(k * k, s, s);
}

/// A number whose square lies between those of two others lies between them.
proof fn lemma_root(r: real, low: real, high: real)
    requires
        r >= 0real,
        low >= 0real,
        high >= 0real,
        low * low <= r * r <= high * high,
    ensures
        low <= r <= high,
{
    if r < low {
        lemma_squares_order(r, low);
    }
    if r > high {
        lemma_squares_order(high, r);
    }
}

/// Squares are in the order of their roots.
proof fn lemma_squares_order(a: real, b: real)
    by (nonlinear_arith)
    requires
        0real <= a < b,
    ensures
        a * a < b * b,
{
}

/// The form of the thickness, per unit of it, at the place `x` with the root `r`.
spec fn form(r: real, x: real) -> real {
    let q = x * x;
    5real * (2969real / 10000real * r - 1260real / 10000real * x - 3516real / 10000real * q
        + 2843real / 10000real * (x * q) - 1015real / 10000real * (q * q))
}

/// Half the thickness is the form times the thickness.
proof fn lemma_form<S: Real, E: Elementary<S>>(v: spec_fn(S) -> real, elementary: &E, t: S, x: S)
    requires
        exact(v),
    ensures
        v(half_thickness(elementary, t, x)) == v(t) * form(v(elementary.sqrt_of(x)), v(x)),
{
    let r = v(elementary.sqrt_of(x));
    let a = v(x);
    let q = a * a;
    let g = 2969real / 10000real * r - 1260real / 10000real * a - 3516real / 10000real * q
        + 2843real / 10000real * (a * q) - 1015real / 10000real * (q * q);
    assert(v(half_thickness(elementary, t, x)) == 5real * v(t) * g);
    lemma_commute(5real, v(t));
    lemma_associate(v(t), 5real, g);
}

/// Products of the places at which the form is looked at.
proof fn lemma_places()
    by (nonlinear_arith)
    ensures
        1real / 10real * (1real / 10real) == 1real / 100real,
        1real / 10real * (1real / 100real) == 1real / 1000real,
        1real / 100real * (1real / 100real) == 1real / 10000real,
        3real / 10real * (3real / 10real) == 9real / 100real,
        3real / 10real * (9real / 100real) == 27real / 1000real,
        9real / 100real * (9real / 100real) == 81real / 10000real,
        6real / 10real * (6real / 10real) == 36real / 100real,
        6real / 10real * (36real / 100real) == 216real / 1000real,
        36real / 100real * (36real / 100real) == 1296real / 10000real,
        316real / 1000real * (316real / 1000real) == 99856real / 1000000real,
        317real / 1000real * (317real / 1000real) == 100489real / 1000000real,
        547real / 1000real * (547real / 1000real) == 299209real / 1000000real,
        548real / 1000real * (548real / 1000real) == 300304real / 1000000real,
        774real / 1000real * (774real / 1000real) == 599076real / 1000000real,
        775real / 1000real * (775real / 1000real) == 600625real / 1000000real,
        1real * 1real == 1real,
        0real * 0real == 0real,
{
}

/// The thickness of a section: it is closed at the leading edge, open by 21 thousandths of
/// the thickness at the trailing edge, as thick as it is called at three tenths of the chord,
/// and has the ordinates of the series before and behind.
pub proof fn law_thickness_of_the_series<S: Real, E: Elementary<S>>(
    v: spec_fn(S) -> real,
    elementary: &E,
    t: S,
    x: S,
)
    requires
        exact(v),
        takes_roots(v, |x: S| elementary.sqrt_of(x)),
        v(t) >= 0real,
        v(x) >= 0real,
    ensures
        ({
            let y = v(half_thickness(elementary, t, x));
            &&& v(x) == 0real ==> y == 0real
            &&& v(x) == 1real ==> 2real * y == v(t) * (21real / 1000real)
            &&& v(x) == 1real / 10real ==> v(t) * (389real / 1000real) <= y <= v(t) * (392real
                / 1000real)
            &&& v(x) == 3real / 10real ==> v(t) * (499real / 1000real) <= y <= v(t) * (501real
                / 1000real)
            &&& v(x) == 6real / 10real ==> v(t) * (379real / 1000real) <= y <= v(t) * (382real
                / 1000real)
        }),
{
    let f = |x: S| elementary.sqrt_of(x);
    let r = v(f(x));
    assert(r >= 0real && r * r == v(x));
    let y = v(half_thickness(elementary, t, x));
    let g = form(r, v(x));
    lemma_form(v, elementary, t, x);
    lemma_places();
    let w = v(t);
    lemma_commute(w, g);
    if v(x) == 0real {
        lemma_root(r, 0real, 0real);
        assert(g == 0real);
        lemma_zero(w);
    } else if v(x) == 1real {
        lemma_root(r, 1real, 1real);
        assert(g == 105real / 10000real);
        assert(2real * y == w * (2real * g)) by {
            lemma_swap(2real, w, g);
        }
    } else if v(x) == 1real / 10real {
        lemma_root(r, 316real / 1000real, 317real / 1000real);
        lemma_between(w, g, 389real / 1000real, 392real / 1000real);
    } else if v(x) == 3real / 10real {
        lemma_root(r, 547real / 1000real, 548real / 1000real);
        lemma_between(w, g, 499real / 1000real, 501real / 1000real);
    } else if v(x) == 6real / 10real {
        lemma_root(r, 774real / 1000real, 775real / 1000real);
        lemma_between(w, g, 379real / 1000real, 382real / 1000real);
    }
}

/// A product lies between those of the bounds of its second factor.
proof fn lemma_between(w: real, g: real, low: real, high: real)
    requires
        w >= 0real,
        low <= g <= high,
    ensures
        w * low <= w * g <= w * high,
{
    lemma_product_order(low, g, w);
    lemma_product_order(g, high, w);
    lemma_commute(low, w);
    lemma_commute(g, w);
    lemma_commute(high, w);
}

/// The abscissas of a section run from the leading edge to the trailing edge, in order, and
/// as many in its front half as in its rear half: where the cosine is one at zero, minus one
/// at half a turn, falls in between, and turns its sign about a quarter turn.
pub proof fn law_abscissas_run_along_the_chord<S: Real, E: Elementary<S>>(
    v: spec_fn(S) -> real,
    elementary: &E,
    i: int,
    j: int,
    n: int,
)
    requires
        exact(v),
        2 <= n <= usize::MAX,
        0 <= i <= j < n,
        forall|a: S| v(a) == 0real ==> v(#[trigger] elementary.cos_of(a)) == 1real,
        forall|a: S| v(a) == v(pi::<S>()) ==> v(#[trigger] elementary.cos_of(a)) == -1real,
        forall|a: S, b: S|
            0real <= v(a) <= v(b) <= v(pi::<S>()) ==> v(#[trigger] elementary.cos_of(a)) >= v(
                #[trigger] elementary.cos_of(b),
            ),
        forall|a: S, b: S|
            v(a) + v(b) == v(pi::<S>()) ==> v(#[trigger] elementary.cos_of(a)) == -v(
                #[trigger] elementary.cos_of(b),
            ),
        v(pi::<S>()) > 0real,
    ensures
        ({
            let x = v(cosine_spaced(elementary, i, n));
            let z = v(cosine_spaced(elementary, j, n));
            &&& x <= z
            &&& i == 0 ==> x == 0real
            &&& j == n - 1 ==> z == 1real
            &&& i + j == n - 1 ==> x + z == 1real
        }),
{
    let p = v(pi::<S>());
    let d = (n - 1) as real;
    lemma_count(v, i as usize);
    lemma_count(v, j as usize);
    lemma_count(v, (n - 1) as usize);
    let a = pi::<S>() * count::<S>(i as usize) / count::<S>((n - 1) as usize);
    let b = pi::<S>() * count::<S>(j as usize) / count::<S>((n - 1) as usize);
    assert(v(a) == p * (i as real) / d);
    assert(v(b) == p * (j as real) / d);
    lemma_product_order(0real, i as real, p);
    lemma_product_order(i as real, j as real, p);
    lemma_product_order(j as real, d, p);
    lemma_commute(i as real, p);
    lemma_commute(j as real, p);
    lemma_commute(d, p);
    lemma_zero(p);
    lemma_quotient_order(0real, p * (i as real), d);
    lemma_quotient_order(p * (i as real), p * (j as real), d);
    lemma_quotient_order(p * (j as real), p * d, d);
    lemma_zero_over(d);
    lemma_cancel(d, p);
    assert(0real <= v(a) <= v(b) <= p);
    assert(v(elementary.cos_of(a)) >= v(elementary.cos_of(b)));
    assert(v(decimal::<S>(5, 10)) == 5real / 10real);
    if i + j == n - 1 {
        lemma_sum_over(p * (i as real), p * (j as real), d);
        lemma_distribute(p, i as real, j as real);
        assert(i as real + j as real == d);
        assert(v(a) + v(b) == p);
        assert(v(elementary.cos_of(a)) == -v(elementary.cos_of(b)));
    }
}

/// The sum of two quotients.
proof fn lemma_sum_over(a: real, b: real, d: real)
    by (nonlinear_arith)
    requires
        d > 0real,
    ensures
        a / d + b / d == (a + b) / d,
{
}

/// A designation of four digits: the first is the camber in hundredths of the chord, the
/// second its place in tenths, and the last two the thickness in hundredths.
pub proof fn law_designation<S: Real>(v: spec_fn(S) -> real, digits: Seq<char>, d: Seq<int>)
    requires
        exact(v),
        digits.len() == 4,
        d.len() == 4,
        forall|i: int|
            0 <= i < 4 ==> 0 <= #[trigger] d[i] <= 9 && digits[i] as int == '0' as int + d[i],
    ensures
        designation(digits) matches Some(n) && ({
            let (m, p, t) = proportions::<S>(n);
            &&& 100real * v(m) == d[0] as real
            &&& 10real * v(p) == d[1] as real
            &&& 100real * v(t) == (10 * d[2] + d[3]) as real
        }),
{
    assert(0 <= d[0] <= 9 && 0 <= d[1] <= 9 && 0 <= d[2] <= 9 && 0 <= d[3] <= 9);
    assert(digits[0] as int == '0' as int + d[0]);
    assert(digits[1] as int == '0' as int + d[1]);
    assert(digits[2] as int == '0' as int + d[2]);
    assert(digits[3] as int == '0' as int + d[3]);
    let n = designation(digits)->0;
    assert(n.0 == d[0] && n.1 == d[1] && n.2 == 10 * d[2] + d[3]);
    lemma_quotient(n.0 as real, 100real);
    lemma_quotient(n.1 as real, 10real);
    lemma_quotient(n.2 as real, 100real);
}

/// The outline runs round the section: from the leading edge, its two surfaces take the same
/// abscissas one by one, the upper towards the start of the outline and the lower towards its
/// end, halfway between them on the camber line.
pub proof fn law_outline_runs_round<S: Real, E: Elementary<S>>(
    v: spec_fn(S) -> real,
    elementary: &E,
    m: S,
    p: S,
    t: S,
    n: int,
    j: int,
)
    requires
        exact(v),
        n >= 10,
        1 <= j < n,
    ensures
        ({
            let o = naca4(elementary, m, p, t, n);
            let x = cosine_spaced(elementary, j, n);
            let upper = o[n - 1 - j];
            let lower = o[n - 1 + j];
            &&& v(upper.x) + v(lower.x) == 2real * v(x)
            &&& v(upper.y) + v(lower.y) == 2real * v(camber_line(m, p, x).0)
            &&& v(upper.y) - v(lower.y) == 2real * (v(half_thickness(elementary, t, x)) * v(
                elementary.cos_of(elementary.atan_of(camber_line(m, p, x).1)),
            ))
            &&& o[n - 1] == section(elementary, m, p, t, cosine_spaced(elementary, 0, n)).0
        }),
{
    let o = naca4(elementary, m, p, t, n);
    let x = cosine_spaced(elementary, j, n);
    let (upper, lower) = section(elementary, m, p, t, x);
    assert(o[n - 1 - j] == upper);
    assert(o[n - 1 + j] == lower);
}

} // verus!
