//! Changes of an outline: moves, trailing-edge gap, flap, nose, thickness and camber.
//!
//! An outline runs from the trailing edge along the upper surface to the leading edge, and
//! along the lower surface back.
use crate::airfoil::interp::{interp_surface, surface_height};
use crate::airfoil::points::{
    flattened, full_outline, outline, paired, parse_coords, point, points_to_flat, Point,
};
use crate::airfoil::report::{message, text};
use crate::callable::{list_gives, mapped, tabulated};
use crate::elementary::Elementary;
use crate::number::{
    arithmetic, clamp, decimal, infinity, larger, radians, tenths, tiny, whole, Formula, Real,
};
use core::ops::Neg;
use vstd::prelude::*;

verus! {

/// The result of a change of an outline, as a list of coordinates.
#[derive(Clone, Debug)]
pub struct GeometryResult<S> {
    pub coords: Vec<S>,
    pub success: bool,
    pub error: Option<String>,
}

impl<S> GeometryResult<S> {
    /// The result holds `outcome`: coordinates, or a message.
    pub open spec fn reports(&self, outcome: Result<Seq<S>, Seq<char>>) -> bool {
        match outcome {
            Ok(c) => self.coords@ == c && self.success && self.error is None,
            Err(m) => self.coords@.len() == 0 && !self.success && text(self.error) == Some(m),
        }
    }
}

/// The result of a change that could not be made.
pub fn geometry_error<S>(m: &str) -> (r: GeometryResult<S>)
    ensures
        r.reports(Err(m@)),
{
    GeometryResult { coords: Vec::new(), success: false, error: message(m) }
}

/// The result of a change that led to the points `pts`.
fn geometry<S: Copy>(pts: &[Point<S>]) -> (r: GeometryResult<S>)
    ensures
        r.reports(Ok(flattened(pts@))),
{
    GeometryResult { coords: points_to_flat(pts), success: true, error: None }
}

/// What a change of the points of an outline comes to, for a list of coordinates.
pub open spec fn changed<S>(c: Seq<S>, to: Seq<Point<S>>) -> Result<Seq<S>, Seq<char>> {
    if outline(c) {
        Ok(flattened(to))
    } else {
        Err("Invalid coordinates"@)
    }
}

/// What a change comes to that needs four points.
pub open spec fn changed_four<S>(c: Seq<S>, to: Seq<Point<S>>) -> Result<Seq<S>, Seq<char>> {
    if !outline(c) {
        Err("Invalid coordinates"@)
    } else if c.len() < 8 {
        Err("Need at least 4 points"@)
    } else {
        Ok(flattened(to))
    }
}

/// `p` turned about `c`, by the angle with this cosine and sine.
pub open spec fn turned<S: Real>(p: Point<S>, c: Point<S>, cos_a: S, sin_a: S) -> Point<S> {
    let dx = p.x - c.x;
    let dy = p.y - c.y;
    Point { x: c.x + dx * cos_a - dy * sin_a, y: c.y + dx * sin_a + dy * cos_a }
}

/// Rotates an outline by an angle in degrees about the point at `cx` and `cy`.
pub fn gdes_rotate<S: Real, E: Elementary<S>>(
    coords: &[S],
    angle_deg: S,
    cx: S,
    cy: S,
    elementary: &E,
) -> (r: GeometryResult<S>)
    requires
        arithmetic::<S>(),
        elementary.lawful(),
    ensures
        r.reports(
            changed(
                coords@,
                paired(coords@).map_values(
                    |p: Point<S>|
                        turned(
                            p,
                            Point { x: cx, y: cy },
                            elementary.cos_of(radians(angle_deg)),
                            elementary.sin_of(radians(angle_deg)),
                        ),
                ),
            ),
        ),
{
    match parse_coords(coords) {
        Some(pts) => {
            let rad: S = radians(angle_deg);
            let cos_a: S = elementary.cos(rad);
            let sin_a: S = elementary.sin(rad);
            let turn = |p: Point<S>| -> (q: Point<S>)
                requires
                    arithmetic::<S>(),
                ensures
                    q == turned(p, Point { x: cx, y: cy }, cos_a, sin_a),
                {
                    let dx: S = p.x - cx;
                    let dy: S = p.y - cy;
                    point(cx + dx * cos_a - dy * sin_a, cy + dx * sin_a + dy * cos_a)
                };
            let moved: Vec<Point<S>> = mapped(&pts, turn);
            assert(moved@ =~= pts@.map_values(
                |p: Point<S>| turned(p, Point { x: cx, y: cy }, cos_a, sin_a),
            ));
            geometry(&moved)
        },
        None => geometry_error("Invalid coordinates"),
    }
}

/// `p` stretched from the point at `cx` and `cy`.
pub open spec fn stretched<S: Real>(p: Point<S>, sx: S, sy: S, cx: S, cy: S) -> Point<S> {
    Point { x: cx + (p.x - cx) * sx, y: cy + (p.y - cy) * sy }
}

/// Scales an outline about the point at `cx` and `cy`.
pub fn gdes_scale<S: Real>(coords: &[S], sx: S, sy: S, cx: S, cy: S) -> (r: GeometryResult<S>)
    requires
        arithmetic::<S>(),
    ensures
        r.reports(
            changed(
                coords@,
                paired(coords@).map_values(|p: Point<S>| stretched(p, sx, sy, cx, cy)),
            ),
        ),
{
    match parse_coords(coords) {
        Some(pts) => {
            let stretch = |p: Point<S>| -> (q: Point<S>)
                requires
                    arithmetic::<S>(),
                ensures
                    q == stretched(p, sx, sy, cx, cy),
                {
                    point(cx + (p.x - cx) * sx, cy + (p.y - cy) * sy)
                };
            let moved: Vec<Point<S>> = mapped(&pts, stretch);
            assert(moved@ =~= pts@.map_values(|p: Point<S>| stretched(p, sx, sy, cx, cy)));
            geometry(&moved)
        },
        None => geometry_error("Invalid coordinates"),
    }
}

/// `p` moved by `dx` and `dy`.
pub open spec fn moved_by<S: Real>(p: Point<S>, dx: S, dy: S) -> Point<S> {
    Point { x: p.x + dx, y: p.y + dy }
}

/// Moves an outline by `dx` and `dy`.
pub fn gdes_translate<S: Real>(coords: &[S], dx: S, dy: S) -> (r: GeometryResult<S>)
    requires
        arithmetic::<S>(),
    ensures
        r.reports(
            changed(
                coords@,
                paired(coords@).map_values(|p: Point<S>| moved_by(p, dx, dy)),
            ),
        ),
{
    match parse_coords(coords) {
        Some(pts) => {
            let shift = |p: Point<S>| -> (q: Point<S>)
                requires
                    arithmetic::<S>(),
                ensures
                    q == moved_by(p, dx, dy),
                {
                    point(p.x + dx, p.y + dy)
                };
            let moved: Vec<Point<S>> = mapped(&pts, shift);
            assert(moved@ =~= pts@.map_values(|p: Point<S>| moved_by(p, dx, dy)));
            geometry(&moved)
        },
        None => geometry_error("Invalid coordinates"),
    }
}

/// The first of the foremost among the first `n` points.
pub open spec fn foremost<S: Real>(p: Seq<Point<S>>, n: nat) -> int
    decreases n,
{
    if n <= 1 {
        0
    } else {
        let best = foremost(p, (n - 1) as nat);
        if p[best].x > p[n - 1].x {
            n - 1
        } else {
            best
        }
    }
}

/// The index of the leading edge.
pub open spec fn leading_edge<S: Real>(p: Seq<Point<S>>) -> int {
    foremost(p, p.len())
}

/// The largest abscissa of the first `n` points.
pub open spec fn aft_end<S: Real>(p: Seq<Point<S>>, n: nat) -> S
    decreases n,
{
    if n == 0 {
        -infinity::<S>()
    } else {
        larger(aft_end(p, (n - 1) as nat), p[n - 1].x)
    }
}

/// The chord of an outline, from its leading edge to its aft end.
pub open spec fn chord_of<S: Real>(p: Seq<Point<S>>) -> S {
    larger(aft_end(p, p.len()) - p[leading_edge(p)].x, tenths::<S>(10))
}

/// The place of an abscissa along the chord, from 0 to 1.
pub open spec fn chord_fraction<S: Real>(p: Seq<Point<S>>, x: S) -> S {
    clamp((x - p[leading_edge(p)].x) / chord_of(p), whole::<S>(0), whole::<S>(1))
}

/// The index of the leading edge of an outline.
pub fn find_leading_edge<S: Real>(pts: &[Point<S>]) -> (r: usize)
    requires
        arithmetic::<S>(),
        pts@.len() > 0,
    ensures
        r == leading_edge(pts@),
        r < pts@.len(),
{
    let mut best: usize = 0;
    let mut i: usize = 1;
    while i < pts.len()
        invariant
            arithmetic::<S>(),
            1 <= i <= pts@.len(),
            best < i,
            best == foremost(pts@, i as nat),
        decreases pts@.len() - i,
    {
        if pts[best].x > pts[i].x {
            best = i;
        }
        i = i + 1;
    }
    best
}

/// The chord of an outline with the leading edge `le`.
pub fn chord_from<S: Real>(pts: &[Point<S>], le: usize) -> (r: S)
    requires
        arithmetic::<S>(),
        le < pts@.len(),
        le == leading_edge(pts@),
    ensures
        r == chord_of(pts@),
{
    let mut x_max: S = infinity::<S>().neg();
    let mut i: usize = 0;
    while i < pts.len()
        invariant
            arithmetic::<S>(),
            i <= pts@.len(),
            x_max == aft_end(pts@, i as nat),
        decreases pts@.len() - i,
    {
        x_max = larger(x_max, pts[i].x);
        i = i + 1;
    }
    larger(x_max - pts[le].x, tiny(10))
}

/// The point `i` of an outline whose trailing-edge gap is set to `target_gap` chords, the
/// change fading out over the aft part `blend_fraction` of the chord.
pub open spec fn with_te_gap<S: Real>(
    p: Seq<Point<S>>,
    target_gap: S,
    blend_fraction: S,
    i: int,
) -> Point<S> {
    let one = whole::<S>(1);
    let delta = target_gap * chord_of(p) - (p[0].y - p.last().y);
    let blend = clamp(blend_fraction, decimal::<S>(1, 10), one);
    let eta = chord_fraction(p, p[i].x);
    let inner = (eta - (one - blend)) / blend;
    let ramp = if eta > one - blend {
        inner * inner
    } else {
        whole::<S>(0)
    };
    let sign = if i <= leading_edge(p) {
        one
    } else {
        -one
    };
    Point { x: p[i].x, y: p[i].y + sign * decimal::<S>(5, 10) * delta * ramp }
}

/// The points of an outline with another trailing-edge gap.
pub fn set_te_gap_impl<S: Real>(pts: &[Point<S>], target_gap: S, blend_fraction: S) -> (r: Vec<
    Point<S>,
>)
    requires
        arithmetic::<S>(),
        pts@.len() > 0,
    ensures
        r@ == Seq::new(
            pts@.len(),
            |i: int| with_te_gap(pts@, target_gap, blend_fraction, i),
        ),
{
    let n: usize = pts.len();
    let le: usize = find_leading_edge(pts);
    let x_min: S = pts[le].x;
    let chord: S = chord_from(pts, le);
    let one: S = whole(1);
    let zero: S = whole(0);
    let delta: S = target_gap * chord - (pts[0].y - pts[n - 1].y);
    let blend: S = clamp(blend_fraction, decimal(1, 10), one);
    let at = |i: usize| -> (q: Point<S>)
        requires
            arithmetic::<S>(),
            i < n,
            n == pts@.len(),
            le == leading_edge(pts@),
            le < n,
            x_min == pts@[le as int].x,
            chord == chord_of(pts@),
            one == whole::<S>(1),
            zero == whole::<S>(0),
            delta == target_gap * chord_of(pts@) - (pts@[0].y - pts@.last().y),
            blend == clamp(blend_fraction, decimal::<S>(1, 10), whole::<S>(1)),
        ensures
            q == with_te_gap(pts@, target_gap, blend_fraction, i as int),
        {
            let p: Point<S> = pts[i];
            let eta: S = clamp((p.x - x_min) / chord, zero, one);
            let ramp: S = if eta > one - blend {
                let inner: S = (eta - (one - blend)) / blend;
                inner * inner
            } else {
                zero
            };
            let sign: S = if i <= le {
                one
            } else {
                one.neg()
            };
            point(p.x, p.y + sign * decimal(5, 10) * delta * ramp)
        };
    let r: Vec<Point<S>> = tabulated(n, at);
    proof {
        let to = Seq::new(pts@.len(), |i: int| with_te_gap(pts@, target_gap, blend_fraction, i));
        assert forall|i: int| 0 <= i < n implies #[trigger] r@[i] == to[i] by {
            assert(i as usize == i);
        }
        assert(r@ =~= to);
    }
    r
}

/// Sets the trailing-edge gap of an outline.
pub fn gdes_set_te_gap<S: Real>(coords: &[S], gap: S, blend_fraction: S) -> (r: GeometryResult<S>)
    requires
        arithmetic::<S>(),
    ensures
        r.reports(
            changed_four(
                coords@,
                Seq::new(
                    paired(coords@).len(),
                    |i: int| with_te_gap(paired(coords@), gap, blend_fraction, i),
                ),
            ),
        ),
{
    match parse_coords(coords) {
        Some(pts) => if pts.len() < 4 {
            geometry_error("Need at least 4 points")
        } else {
            geometry(&set_te_gap_impl(&pts, gap, blend_fraction))
        },
        None => geometry_error("Invalid coordinates"),
    }
}

/// A point of an outline whose nose is scaled by `factor`, over the first 15 percent of the
/// chord.
pub open spec fn with_nose<S: Real>(p: Seq<Point<S>>, factor: S, q: Point<S>) -> Point<S> {
    let one = whole::<S>(1);
    let extent = decimal::<S>(15, 100);
    let eta = chord_fraction(p, q.x);
    let local = eta / extent;
    if eta < extent {
        Point { x: q.x, y: q.y * (one + (factor - one) * (one - local * local)) }
    } else {
        q
    }
}

/// The points of an outline with another leading-edge radius.
pub fn set_le_radius_impl<S: Real>(pts: &[Point<S>], factor: S) -> (r: Vec<Point<S>>)
    requires
        arithmetic::<S>(),
        pts@.len() > 0,
    ensures
        r@ == pts@.map_values(|q: Point<S>| with_nose(pts@, factor, q)),
{
    let le: usize = find_leading_edge(pts);
    let x_min: S = pts[le].x;
    let chord: S = chord_from(pts, le);
    let one: S = whole(1);
    let zero: S = whole(0);
    let extent: S = decimal(15, 100);
    let at = |p: Point<S>| -> (q: Point<S>)
        requires
            arithmetic::<S>(),
            le == leading_edge(pts@),
            x_min == pts@[le as int].x,
            chord == chord_of(pts@),
            one == whole::<S>(1),
            zero == whole::<S>(0),
            extent == decimal::<S>(15, 100),
        ensures
            q == with_nose(pts@, factor, p),
        {
            let eta: S = clamp((p.x - x_min) / chord, zero, one);
            if eta < extent {
                let local: S = eta / extent;
                let scale: S = one + (factor - one) * (one - local * local);
                point(p.x, p.y * scale)
            } else {
                p
            }
        };
    let r: Vec<Point<S>> = mapped(pts, at);
    assert(r@ =~= pts@.map_values(|q: Point<S>| with_nose(pts@, factor, q)));
    r
}

/// Scales the leading-edge radius of an outline.
pub fn gdes_set_le_radius<S: Real>(coords: &[S], le_radius_factor: S) -> (r: GeometryResult<S>)
    requires
        arithmetic::<S>(),
    ensures
        r.reports(
            changed_four(
                coords@,
                paired(coords@).map_values(
                    |q: Point<S>| with_nose(paired(coords@), le_radius_factor, q),
                ),
            ),
        ),
{
    match parse_coords(coords) {
        Some(pts) => if pts.len() < 4 {
            geometry_error("Need at least 4 points")
        } else {
            geometry(&set_le_radius_impl(&pts, le_radius_factor))
        },
        None => geometry_error("Invalid coordinates"),
    }
}

/// The height of the camber line of an outline at `x`: half-way between its surfaces.
pub open spec fn camber_at<S: Real>(p: Seq<Point<S>>, x: S) -> S {
    let le = leading_edge(p);
    let back = p.subrange(le, p.len() as int);
    let front = p.subrange(0, le + 1).reverse();
    (surface_height(back, x) + surface_height(front, x)) / whole::<S>(2)
}

/// The points of `pts` from `from` up to `to`.
pub fn part<S: Copy>(pts: &[Point<S>], from: usize, to: usize) -> (r: Vec<Point<S>>)
    requires
        from <= to <= pts@.len(),
    ensures
        r@ == pts@.subrange(from as int, to as int),
{
    let mut r: Vec<Point<S>> = Vec::with_capacity(to - from);
    let mut i: usize = from;
    while i < to
        invariant
            from <= i <= to <= pts@.len(),
            r@ == pts@.subrange(from as int, i as int),
        decreases to - i,
    {
        r.push(pts[i]);
        i = i + 1;
    }
    r
}

/// The points of `pts` in reverse.
pub fn reversed<S: Copy>(pts: &[Point<S>]) -> (r: Vec<Point<S>>)
    ensures
        r@ == pts@.reverse(),
{
    let n: usize = pts.len();
    let mut r: Vec<Point<S>> = Vec::with_capacity(n);
    let mut i: usize = 0;
    while i < n
        invariant
            i <= n == pts@.len(),
            r@ == pts@.reverse().subrange(0, i as int),
        decreases n - i,
    {
        r.push(pts[n - 1 - i]);
        i = i + 1;
        assert(r@ =~= pts@.reverse().subrange(0, i as int));
    }
    assert(r@ =~= pts@.reverse());
    r
}

/// The height of the camber line at every point of an outline.
fn camber_line<S: Real>(pts: &[Point<S>]) -> (r: Vec<S>)
    requires
        arithmetic::<S>(),
        pts@.len() > 0,
    ensures
        r@.len() == pts@.len(),
        forall|i: int| 0 <= i < pts@.len() ==> #[trigger] r@[i] == camber_at(pts@, pts@[i].x),
{
    let le: usize = find_leading_edge(pts);
    let back: Vec<Point<S>> = part(pts, le, pts.len());
    let front: Vec<Point<S>> = reversed(&part(pts, 0, le + 1));
    let two: S = whole(2);
    let mut r: Vec<S> = Vec::with_capacity(pts.len());
    let mut i: usize = 0;
    while i < pts.len()
        invariant
            arithmetic::<S>(),
            i <= pts@.len(),
            r@.len() == i,
            le == leading_edge(pts@),
            back@ == pts@.subrange(le as int, pts@.len() as int),
            front@ == pts@.subrange(0, le + 1).reverse(),
            two == whole::<S>(2),
            forall|k: int| 0 <= k < i ==> #[trigger] r@[k] == camber_at(pts@, pts@[k].x),
        decreases pts@.len() - i,
    {
        let x: S = pts[i].x;
        r.push((interp_surface(&back, x) + interp_surface(&front, x)) / two);
        i = i + 1;
    }
    r
}

/// A point of an outline whose thickness is scaled by `factor`, the camber line kept.
pub open spec fn with_thickness<S: Real>(p: Seq<Point<S>>, factor: S, q: Point<S>) -> Point<S> {
    let camber = camber_at(p, q.x);
    Point { x: q.x, y: camber + (q.y - camber) * factor }
}

/// A point of an outline whose camber is scaled by `factor`, the thickness kept.
pub open spec fn with_camber<S: Real>(p: Seq<Point<S>>, factor: S, q: Point<S>) -> Point<S> {
    let camber = camber_at(p, q.x);
    Point { x: q.x, y: camber * factor + (q.y - camber) }
}

/// The points of an outline with its thickness scaled.
pub fn scale_thickness_impl<S: Real>(pts: &[Point<S>], factor: S) -> (r: Vec<Point<S>>)
    requires
        arithmetic::<S>(),
        pts@.len() > 0,
    ensures
        r@ == pts@.map_values(|q: Point<S>| with_thickness(pts@, factor, q)),
{
    let n: usize = pts.len();
    let camber: Vec<S> = camber_line(pts);
    let at = |i: usize| -> (q: Point<S>)
        requires
            arithmetic::<S>(),
            i < n,
            n == pts@.len(),
            camber@.len() == n,
            forall|k: int| 0 <= k < n ==> #[trigger] camber@[k] == camber_at(pts@, pts@[k].x),
        ensures
            q == with_thickness(pts@, factor, pts@[i as int]),
        {
            let p: Point<S> = pts[i];
            let c: S = camber[i];
            point(p.x, c + (p.y - c) * factor)
        };
    let r: Vec<Point<S>> = tabulated(n, at);
    proof {
        let to = pts@.map_values(|q: Point<S>| with_thickness(pts@, factor, q));
        assert forall|i: int| 0 <= i < n implies #[trigger] r@[i] == to[i] by {
            assert(i as usize == i);
        }
        assert(r@ =~= to);
    }
    r
}

/// The points of an outline with its camber scaled.
pub fn scale_camber_impl<S: Real>(pts: &[Point<S>], factor: S) -> (r: Vec<Point<S>>)
    requires
        arithmetic::<S>(),
        pts@.len() > 0,
    ensures
        r@ == pts@.map_values(|q: Point<S>| with_camber(pts@, factor, q)),
{
    let n: usize = pts.len();
    let camber: Vec<S> = camber_line(pts);
    let at = |i: usize| -> (q: Point<S>)
        requires
            arithmetic::<S>(),
            i < n,
            n == pts@.len(),
            camber@.len() == n,
            forall|k: int| 0 <= k < n ==> #[trigger] camber@[k] == camber_at(pts@, pts@[k].x),
        ensures
            q == with_camber(pts@, factor, pts@[i as int]),
        {
            let p: Point<S> = pts[i];
            let c: S = camber[i];
            point(p.x, c * factor + (p.y - c))
        };
    let r: Vec<Point<S>> = tabulated(n, at);
    proof {
        let to = pts@.map_values(|q: Point<S>| with_camber(pts@, factor, q));
        assert forall|i: int| 0 <= i < n implies #[trigger] r@[i] == to[i] by {
            assert(i as usize == i);
        }
        assert(r@ =~= to);
    }
    r
}

/// Scales the thickness of an outline.
pub fn gdes_scale_thickness<S: Real>(coords: &[S], factor: S) -> (r: GeometryResult<S>)
    requires
        arithmetic::<S>(),
    ensures
        r.reports(
            changed_four(
                coords@,
                paired(coords@).map_values(
                    |q: Point<S>| with_thickness(paired(coords@), factor, q),
                ),
            ),
        ),
{
    match parse_coords(coords) {
        Some(pts) => if pts.len() < 4 {
            geometry_error("Need at least 4 points")
        } else {
            geometry(&scale_thickness_impl(&pts, factor))
        },
        None => geometry_error("Invalid coordinates"),
    }
}

/// Scales the camber of an outline.
pub fn gdes_scale_camber<S: Real>(coords: &[S], factor: S) -> (r: GeometryResult<S>)
    requires
        arithmetic::<S>(),
    ensures
        r.reports(
            changed_four(
                coords@,
                paired(coords@).map_values(|q: Point<S>| with_camber(paired(coords@), factor, q)),
            ),
        ),
{
    match parse_coords(coords) {
        Some(pts) => if pts.len() < 4 {
            geometry_error("Need at least 4 points")
        } else {
            geometry(&scale_camber_impl(&pts, factor))
        },
        None => geometry_error("Invalid coordinates"),
    }
}

/// Applies a trailing-edge flap to an outline, by the function `flap` of the points, the
/// place of the hinge along the chord and across the thickness, and the angle in degrees.
pub fn gdes_flap<S: Real, F: Fn(&Vec<Point<S>>, (S, S, S)) -> Vec<Point<S>>>(
    coords: &[S],
    hinge_x_frac: S,
    hinge_y_frac: S,
    deflection_deg: S,
    flap: &F,
) -> (r: GeometryResult<S>)
    requires
        forall|p: Vec<Point<S>>, a: (S, S, S)| p@.len() >= 4 ==> #[trigger] call_requires(
            *flap,
            (&p, a),
        ),
    ensures
        exists|to: Vec<Point<S>>|
            {
                &&& #[trigger] r.reports(changed_four(coords@, to@))
                &&& full_outline(coords@) ==> list_gives(
                    *flap,
                    paired(coords@),
                    (hinge_x_frac, hinge_y_frac, deflection_deg),
                    to,
                )
            },
{
    match parse_coords(coords) {
        Some(pts) => if pts.len() < 4 {
            let r: GeometryResult<S> = geometry_error("Need at least 4 points");
            assert(r.reports(changed_four(coords@, pts@)));
            r
        } else {
            let args: (S, S, S) = (hinge_x_frac, hinge_y_frac, deflection_deg);
            let to: Vec<Point<S>> = flap(&pts, args);
            let r: GeometryResult<S> = geometry(&to);
            assert(list_gives(*flap, pts@, args, to));
            assert(r.reports(changed_four(coords@, to@)));
            r
        },
        None => {
            let empty: Vec<Point<S>> = Vec::new();
            let r: GeometryResult<S> = geometry_error("Invalid coordinates");
            assert(r.reports(changed_four(coords@, empty@)));
            r
        },
    }
}

} // verus!
