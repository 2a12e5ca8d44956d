//! Airfoils of the four-digit series.
use crate::airfoil::points::{flattened, point, points_to_flat, Point};
use crate::elementary::Elementary;
use crate::number::{
    abs, arithmetic, count, decimal, pi, tenths, tiny, whole, Formula, Real,
};
use vstd::prelude::*;
use vstd::string::StrSliceExecFns;

verus! {

/// How many points a surface gets: ten at least.
#[verifier::allow_in_spec]
pub fn points_per_surface(n_points: usize) -> usize
    returns
        (if n_points < 10 {
            10
        } else {
            n_points
        }),
{
    if n_points < 10 {
        10
    } else {
        n_points
    }
}

/// The abscissa `i` of `n` with cosine spacing.
pub open spec fn cosine_spaced<S: Real, E: Elementary<S>>(elementary: &E, i: int, n: int) -> S {
    let beta = pi::<S>() * count::<S>(i as usize) / count::<S>((n - 1) as usize);
    decimal::<S>(5, 10) * (whole::<S>(1) - elementary.cos_of(beta))
}

/// Half the thickness at `x`, of an airfoil as thick as `t`. The trailing edge is open.
pub open spec fn half_thickness<S: Real, E: Elementary<S>>(elementary: &E, t: S, x: S) -> S {
    whole::<S>(5) * t * (decimal::<S>(2969, 10000) * elementary.sqrt_of(x) - decimal::<S>(
        1260,
        10000,
    ) * x - decimal::<S>(3516, 10000) * (x * x) + decimal::<S>(2843, 10000) * (x * (x * x))
        - decimal::<S>(1015, 10000) * ((x * x) * (x * x)))
}

/// Height and slope of the camber line at `x`, with the camber `m` at `p`.
pub open spec fn camber_line<S: Real>(m: S, p: S, x: S) -> (S, S) {
    let one = whole::<S>(1);
    let two = whole::<S>(2);
    let q = one - p;
    if abs(m) < tenths::<S>(10) || abs(p) < tenths::<S>(10) {
        (whole::<S>(0), whole::<S>(0))
    } else if x < p {
        ((m / (p * p)) * (two * p * x - x * x), (two * m / (p * p)) * (p - x))
    } else {
        (
            (m / (q * q)) * ((one - two * p) + two * p * x - x * x),
            (two * m / (q * q)) * (p - x),
        )
    }
}

/// The points of the upper and of the lower surface above and below `x`.
pub open spec fn section<S: Real, E: Elementary<S>>(elementary: &E, m: S, p: S, t: S, x: S) -> (
    Point<S>,
    Point<S>,
) {
    let (y_c, dy_c) = camber_line(m, p, x);
    let y_t = half_thickness(elementary, t, x);
    let theta = elementary.atan_of(dy_c);
    let sin_t = elementary.sin_of(theta);
    let cos_t = elementary.cos_of(theta);
    (
        Point { x: x - y_t * sin_t, y: y_c + y_t * cos_t },
        Point { x: x + y_t * sin_t, y: y_c - y_t * cos_t },
    )
}

/// The outline of the airfoil with `n` points on either surface: from the trailing edge along
/// the upper surface to the leading edge, along the lower surface back, and the first point
/// again.
pub open spec fn naca4<S: Real, E: Elementary<S>>(elementary: &E, m: S, p: S, t: S, n: int) -> Seq<
    Point<S>,
> {
    Seq::new(
        (2 * n) as nat,
        |k: int|
            if k < n {
                section(elementary, m, p, t, cosine_spaced(elementary, n - 1 - k, n)).0
            } else if k < 2 * n - 1 {
                section(elementary, m, p, t, cosine_spaced(elementary, k - n + 1, n)).1
            } else {
                section(elementary, m, p, t, cosine_spaced(elementary, n - 1, n)).0
            },
    )
}

/// The points of both surfaces at `x`.
fn section_at<S: Real, E: Elementary<S>>(elementary: &E, m: S, p: S, t: S, x: S) -> (r: (
    Point<S>,
    Point<S>,
))
    requires
        arithmetic::<S>(),
        elementary.lawful(),
    ensures
        r == section(elementary, m, p, t, x),
{
    let one: S = whole(1);
    let two: S = whole(2);
    let y_t: S = whole::<S>(5) * t * (decimal::<S>(2969, 10000) * elementary.sqrt(x)
        - decimal::<S>(1260, 10000) * x - decimal::<S>(3516, 10000) * (x * x) + decimal::<S>(
        2843,
        10000,
    ) * (x * (x * x)) - decimal::<S>(1015, 10000) * ((x * x) * (x * x)));
    let (y_c, dy_c): (S, S) = if abs(m) < tiny(10) || abs(p) < tiny(10) {
        (whole(0), whole(0))
    } else if x < p {
        ((m / (p * p)) * (two * p * x - x * x), (two * m / (p * p)) * (p - x))
    } else {
        let q: S = one - p;
        (
            (m / (q * q)) * ((one - two * p) + two * p * x - x * x),
            (two * m / (q * q)) * (p - x),
        )
    };
    let theta: S = elementary.atan(dy_c);
    let sin_t: S = elementary.sin(theta);
    let cos_t: S = elementary.cos(theta);
    (
        point(x - y_t * sin_t, y_c + y_t * cos_t),
        point(x + y_t * sin_t, y_c - y_t * cos_t),
    )
}

/// The points of an airfoil with the camber `m` at `p` and the thickness `t`.
pub fn generate_naca4_impl<S: Real, E: Elementary<S>>(
    m: S,
    p: S,
    t: S,
    n_points: usize,
    elementary: &E,
) -> (r: Vec<Point<S>>)
    requires
        arithmetic::<S>(),
        elementary.lawful(),
    ensures
        r@ == naca4(elementary, m, p, t, points_per_surface(n_points) as int),
{
    let n: usize = points_per_surface(n_points);
    let ghost shape = naca4(elementary, m, p, t, n as int);
    let mut upper: Vec<Point<S>> = Vec::new();
    let mut lower: Vec<Point<S>> = Vec::new();
    let mut i: usize = 0;
    while i < n
        invariant
            arithmetic::<S>(),
            elementary.lawful(),
            10 <= n,
            i <= n,
            upper@.len() == i,
            lower@.len() == i,
            forall|k: int|
                0 <= k < i ==> (#[trigger] upper@[k], lower@[k]) == section(
                    elementary,
                    m,
                    p,
                    t,
                    cosine_spaced(elementary, k, n as int),
                ),
        decreases n - i,
    {
        let beta: S = pi::<S>() * count(i) / count(n - 1);
        let x: S = decimal::<S>(5, 10) * (whole::<S>(1) - elementary.cos(beta));
        let (u, l): (Point<S>, Point<S>) = section_at(elementary, m, p, t, x);
        upper.push(u);
        lower.push(l);
        i = i + 1;
    }
    let mut coords: Vec<Point<S>> = Vec::new();
    let mut k: usize = 0;
    while k < n
        invariant
            k <= n,
            upper@.len() == n,
            lower@.len() == n,
            shape == naca4(elementary, m, p, t, n as int),
            forall|j: int|
                0 <= j < n ==> (#[trigger] upper@[j], lower@[j]) == section(
                    elementary,
                    m,
                    p,
                    t,
                    cosine_spaced(elementary, j, n as int),
                ),
            coords@ == shape.subrange(0, k as int),
        decreases n - k,
    {
        coords.push(upper[n - 1 - k]);
        proof {
            assert((upper@[n - 1 - k], lower@[n - 1 - k]).0 == shape[k as int]);
            assert(coords@ =~= shape.subrange(0, k + 1));
        }
        k = k + 1;
    }
    k = 1;
    while k < n
        invariant
            1 <= k <= n,
            upper@.len() == n,
            lower@.len() == n,
            shape == naca4(elementary, m, p, t, n as int),
            forall|j: int|
                0 <= j < n ==> (#[trigger] upper@[j], lower@[j]) == section(
                    elementary,
                    m,
                    p,
                    t,
                    cosine_spaced(elementary, j, n as int),
                ),
            coords@ == shape.subrange(0, n + k - 1),
        decreases n - k,
    {
        coords.push(lower[k]);
        proof {
            assert((upper@[k as int], lower@[k as int]).1 == shape[n + k - 1]);
            assert(coords@ =~= shape.subrange(0, n + k));
        }
        k = k + 1;
    }
    let first: Point<S> = coords[0];
    coords.push(first);
    proof {
        assert(shape[0] == shape[2 * n - 1]);
        assert(coords@ =~= shape);
    }
    coords
}

/// The coordinates of an airfoil with the camber `m` at `p` and the thickness `t`.
pub fn generate_naca4<S: Real, E: Elementary<S>>(
    m: S,
    p: S,
    t: S,
    n_points: usize,
    elementary: &E,
) -> (r: Vec<S>)
    requires
        arithmetic::<S>(),
        elementary.lawful(),
    ensures
        r@ == flattened(naca4(elementary, m, p, t, points_per_surface(n_points) as int)),
{
    points_to_flat(&generate_naca4_impl(m, p, t, n_points, elementary))
}

/// The value of a decimal digit.
pub open spec fn digit(c: char) -> Option<u32> {
    if '0' <= c <= '9' {
        Some((c as u32 - '0' as u32) as u32)
    } else {
        None
    }
}

/// The value of a decimal digit.
fn digit_of(c: char) -> (r: Option<u32>)
    ensures
        r == digit(c),
{
    if '0' <= c && c <= '9' {
        Some(c as u32 - '0' as u32)
    } else {
        None
    }
}

/// The number written with two decimal digits.
pub open spec fn two_digits(a: char, b: char) -> Option<u32> {
    match (digit(a), digit(b)) {
        (Some(x), Some(y)) => Some((10 * x + y) as u32),
        _ => None,
    }
}

/// What a designation of four digits stands for: camber in hundredths, its place in
/// tenths, thickness in hundredths.
pub open spec fn designation(digits: Seq<char>) -> Option<(u32, u32, u32)> {
    if digits.len() != 4 {
        None
    } else {
        match (digit(digits[0]), digit(digits[1]), two_digits(digits[2], digits[3])) {
            (Some(m), Some(p), Some(t)) => Some((m, p, t)),
            _ => None,
        }
    }
}

/// Camber, its place and thickness of a designation, in chords.
pub open spec fn proportions<S: Real>(d: (u32, u32, u32)) -> (S, S, S) {
    (decimal::<S>(d.0, 100), decimal::<S>(d.1, 10), decimal::<S>(d.2, 100))
}

/// The coordinates of the airfoil with the designation `digits`, or none.
pub fn generate_naca4_from_string<S: Real, E: Elementary<S>>(
    digits: &str,
    n_points: usize,
    elementary: &E,
) -> (r: Vec<S>)
    requires
        arithmetic::<S>(),
        elementary.lawful(),
    ensures
        r@ == (match designation(digits@) {
            Some(d) => flattened(
                naca4(
                    elementary,
                    proportions::<S>(d).0,
                    proportions::<S>(d).1,
                    proportions::<S>(d).2,
                    points_per_surface(n_points) as int,
                ),
            ),
            None => Seq::<S>::empty(),
        }),
{
    if digits.unicode_len() != 4 {
        return Vec::new();
    }
    let m: u32 = match digit_of(digits.get_char(0)) {
        Some(d) => d,
        None => return Vec::new(),
    };
    let p: u32 = match digit_of(digits.get_char(1)) {
        Some(d) => d,
        None => return Vec::new(),
    };
    let t: u32 = match (digit_of(digits.get_char(2)), digit_of(digits.get_char(3))) {
        (Some(x), Some(y)) => 10 * x + y,
        _ => return Vec::new(),
    };
    generate_naca4(decimal(m, 100), decimal(p, 10), decimal(t, 100), n_points, elementary)
}

/// The outline is closed: it ends with the point that it starts with.
pub proof fn law_outline_is_closed<S: Real, E: Elementary<S>>(
    elementary: &E,
    m: S,
    p: S,
    t: S,
    n: int,
)
    requires
        n >= 10,
    ensures
        naca4(elementary, m, p, t, n).len() == 2 * n,
        naca4(elementary, m, p, t, n).first() == naca4(elementary, m, p, t, n).last(),
{
}

/// A surface gets as many points as are asked for, and ten at least.
pub proof fn law_points_per_surface(n_points: usize)
    ensures
        points_per_surface(n_points) >= 10,
        points_per_surface(n_points) >= n_points,
        points_per_surface(n_points) == 10 || points_per_surface(n_points) == n_points,
{
}

} // verus!
