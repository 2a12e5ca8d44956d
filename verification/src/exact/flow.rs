//! What single relations of the flow come to.
use super::algebra::{
    lemma_associate, lemma_commute, lemma_difference, lemma_distribute, lemma_one, lemma_opposite,
    lemma_positive_product, lemma_product_order, lemma_quotient, lemma_quotient_order, lemma_ratio,
    lemma_zero, lemma_zero_over,
};
use super::change::takes_roots;
use super::spacing::lemma_count;
use super::station::keeps_primary;
use super::{exact, lemma_not_small, lemma_tenths, lemma_tenths_small};
use crate::airfoil::faithful::{arc_to, pressures};
use crate::airfoil::layer::{sources, BlRow};
use crate::airfoil::points::Point;
use crate::airfoil::spacing::{
    bends, blended, density_at, density_between, density_of, in_order, largest, step, Knot, SAMPLES,
};
use crate::airfoil::spline::Splines;
use crate::closure::BlLaws;
use crate::elementary::Elementary;
use crate::global_newton::influence::{
    induced_velocity, points_of, ruled_points, surface_sum, EdgePoint, MassRule,
};
use crate::global_newton::system::GlobalNewtonSystem;
use crate::global_newton::update::{normalised, previewed_new, UpdatePoint};
use crate::march::config::{brackets, strip_arc_length};
use crate::march::station::{starting_ctau, transition_ctau, wake_target, StationState, StationTask};
use crate::march::surface::{March, MarchFlow};
use crate::number::{
    abs, count, decimal, is_finite, larger, pi, radians, tenths, whole, Formula, Real,
};
use crate::station::{BlStation, Matrix};
use crate::viscal::panel::{
    closed_values, first_writer, last_writer, node_value, GammaWriteOrder, NodeValue,
};
use crate::viscal::two_surfaces::{edge_thickness, stagnation_sides, verdict, wake_gap};
use vstd::prelude::*;

verus! {

/// Points with the same panels and masses.
spec fn alike<S: Real>(
    v: spec_fn(S) -> real,
    p: Seq<EdgePoint<S>>,
    q: Seq<EdgePoint<S>>,
) -> bool {
    &&& p.len() == q.len()
    &&& forall|j: int|
        1 <= j < p.len() ==> #[trigger] p[j].panel_idx == q[j].panel_idx && v(p[j].mass) == v(
            q[j].mass,
        )
}

/// Sums over points that are alike.
proof fn lemma_alike<S: Real>(
    v: spec_fn(S) -> real,
    a: S,
    b: S,
    dij: &Matrix<S>,
    si: usize,
    panel_i: usize,
    sj: usize,
    p: Seq<EdgePoint<S>>,
    q: Seq<EdgePoint<S>>,
    n: int,
)
    requires
        exact(v),
        alike(v, p, q),
        n <= p.len(),
        v(a) == v(b),
    ensures
        v(surface_sum(a, dij, si, panel_i, sj, p, n)) == v(
            surface_sum(b, dij, si, panel_i, sj, q, n),
        ),
    decreases n,
{
    if n > 1 {
        lemma_alike(v, a, b, dij, si, panel_i, sj, p, q, n - 1);
        assert(p[n - 1].panel_idx == q[n - 1].panel_idx);
    }
}

/// Stations whose mass defects were changed by a step.
pub open spec fn carry_the_step<S: Real>(
    v: spec_fn(S) -> real,
    system: &GlobalNewtonSystem<S>,
    surface: int,
    stations: Seq<BlStation<S>>,
    deltas: Seq<[S; 3]>,
    after: Seq<BlStation<S>>,
) -> bool {
    &&& after.len() == stations.len()
    &&& forall|j: int|
        0 <= j < stations.len() ==> {
            let iv = system.row_of(surface, j);
            &&& (#[trigger] after[j]).panel_idx == stations[j].panel_idx
            &&& v(after[j].mass_defect) == v(stations[j].mass_defect) + (if iv < deltas.len() {
                v(deltas[iv][2])
            } else {
                0real
            })
        }
}

/// The velocities that are previewed for a step are those that the mass defects induce after
/// it, at every station behind the stagnation point that the matrix has a row for.
pub proof fn law_preview_is_induced<S: Real>(
    v: spec_fn(S) -> real,
    upper: Seq<BlStation<S>>,
    lower: Seq<BlStation<S>>,
    deltas: Seq<[S; 3]>,
    system: &GlobalNewtonSystem<S>,
    dij: &Matrix<S>,
    inviscid: (Seq<S>, Seq<S>),
    surface: usize,
    i: int,
    after: (Seq<BlStation<S>>, Seq<BlStation<S>>),
)
    requires
        exact(v),
        surface <= 1,
        carry_the_step(v, system, 0, upper, deltas, after.0),
        carry_the_step(v, system, 1, lower, deltas, after.1),
        1 <= i < (if surface == 0 {
            upper.len()
        } else {
            lower.len()
        }),
        i < (if surface == 0 {
            inviscid.0.len()
        } else {
            inviscid.1.len()
        }),
        (if surface == 0 {
            upper[i].panel_idx
        } else {
            lower[i].panel_idx
        }) < dij.nrows,
    ensures
        v(
            previewed_new(
                upper,
                lower,
                deltas,
                system,
                Some(dij),
                Some(inviscid.0),
                Some(inviscid.1),
                surface,
            )[i],
        ) == v(
            induced_velocity(
                points_of(after.0),
                points_of(after.1),
                (if surface == 0 {
                    inviscid.0
                } else {
                    inviscid.1
                }),
                dij,
                surface,
                i,
            ),
        ),
{
    let p = ruled_points(MassRule::Proposed, system, 0, points_of(upper), deltas);
    let q = ruled_points(MassRule::Proposed, system, 1, points_of(lower), deltas);
    let a = points_of(after.0);
    let b = points_of(after.1);
    let zero = whole::<S>(0);
    let panel = if surface == 0 {
        upper[i].panel_idx
    } else {
        lower[i].panel_idx
    };
    assert forall|j: int| 1 <= j < p.len() implies #[trigger] p[j].panel_idx == a[j].panel_idx && v(
        p[j].mass,
    ) == v(a[j].mass) by {
        assert(after.0[j].panel_idx == upper[j].panel_idx);
    }
    assert forall|j: int| 1 <= j < q.len() implies #[trigger] q[j].panel_idx == b[j].panel_idx && v(
        q[j].mass,
    ) == v(b[j].mass) by {
        assert(after.1[j].panel_idx == lower[j].panel_idx);
    }
    lemma_alike(v, zero, zero, dij, surface, panel, 0, p, a, p.len() as int);
    let m = surface_sum(zero, dij, surface, panel, 0, p, p.len() as int);
    let n = surface_sum(zero, dij, surface, panel, 0, a, a.len() as int);
    lemma_alike(v, m, n, dij, surface, panel, 1, q, b, q.len() as int);
    assert(after.0.len() == upper.len() && after.1.len() == lower.len());
    if surface == 0 {
        assert(after.0[i].panel_idx == upper[i].panel_idx);
    } else {
        assert(after.1[i].panel_idx == lower[i].panel_idx);
    }
}

/// The amplification grows by its rate over the step; and where it passes the critical one,
/// transition lies where it reaches it on the way, as it grows evenly.
pub proof fn law_transition_is_interpolated<S: Real, T>(
    v: spec_fn(S) -> real,
    flow: MarchFlow<S>,
    m: March<S>,
    s: BlStation<S>,
    ds: S,
    laws: BlLaws<S, T>,
)
    requires
        exact(v),
        keeps_primary(laws),
        m.stations.len() > 0,
    ensures
        ({
            let prev = m.stations.last();
            let (after, r) = flow.with_growth(m, s, ds, laws);
            let grown = v(r.ampl) - v(prev.ampl);
            &&& grown == v((laws.axset)(prev, s, flow.config.ncrit)) * v(ds)
            &&& r.ampl == prev.ampl + (laws.axset)(prev, s, flow.config.ncrit) * ds
            &&& !(laws.transitions)(r.ampl, flow.config.ncrit) ==> after == m
            &&& (laws.transitions)(r.ampl, flow.config.ncrit) && grown > v(tenths::<S>(20)) ==> {
                &&& !after.laminar
                &&& after.x_transition matches Some(xt)
                &&& (v(xt) - v(prev.x)) * grown == (v(flow.config.ncrit) - v(prev.ampl)) * v(ds)
            }
        }),
{
    let prev = m.stations.last();
    let ncrit = flow.config.ncrit;
    let ampl = prev.ampl + (laws.axset)(prev, s, ncrit) * ds;
    let (after, r) = flow.with_growth(m, s, ds, laws);
    assert(r.ampl == ampl);
    let grown = v(ampl) - v(prev.ampl);
    if (laws.transitions)(ampl, ncrit) && grown > v(tenths::<S>(20)) {
        lemma_tenths(v, 20);
        let d = larger(ampl - prev.ampl, tenths::<S>(20));
        assert(v(d) == grown);
        let need = v(ncrit) - v(prev.ampl);
        let f = need / grown;
        lemma_quotient(need, grown);
        let xt = after.x_transition->0;
        assert(v(xt) - v(prev.x) == f * v(ds));
        lemma_commute(f, v(ds));
        lemma_associate(v(ds), f, grown);
        lemma_commute(v(ds), need);
    }
}

/// The velocity of a station that answers to its mass: it moves by the influence of its own
/// mass on itself, times the change of the mass defect from the station upstream, a thousandth
/// of the weight of the settings of it.
pub proof fn law_velocity_answers_to_its_mass<S: Real, T>(
    v: spec_fn(S) -> real,
    flow: MarchFlow<S>,
    prev: BlStation<S>,
    s: BlStation<S>,
    laminar: bool,
    influence: S,
    laws: BlLaws<S, T>,
)
    requires
        exact(v),
        keeps_primary(laws),
    ensures
        ({
            let r = flow.displaced(prev, s, laminar, influence, laws);
            let change = v(s.u) * v(s.delta_star) - v(prev.mass_defect);
            &&& 1000real * (v(r.u) - v(s.u)) == v(flow.config.senswt) * (v(influence) * change)
            &&& r.theta == s.theta && r.delta_star == s.delta_star
        }),
{
    let c = v(influence) * (v(s.u) * v(s.delta_star) - v(prev.mass_defect));
    let w = v(flow.config.senswt);
    lemma_quotient(c * w, 1000real);
    lemma_commute(c, w);
}

/// The wake gap starts with the thickness of the edge, closes two and a half thicknesses
/// downstream and stays closed, never passes the thickness, and is as wide at one place as it
/// is short of the thickness at the place that lies as far from the other end.
pub proof fn law_wake_gap_closes<S: Real>(
    v: spec_fn(S) -> real,
    ante: S,
    x_te: S,
    x: S,
    mirrored: S,
)
    requires
        exact(v),
        v(ante) > 0real,
        v(x_te) <= v(x),
        v(x_te) <= v(mirrored),
        v(x) + v(mirrored) - 2real * v(x_te) == 5real / 2real * v(ante),
    ensures
        v(x) == v(x_te) ==> v(wake_gap(ante, x_te, x)) == v(ante),
        v(x) - v(x_te) >= 5real / 2real * v(ante) ==> v(wake_gap(ante, x_te, x)) == 0real,
        v(wake_gap(ante, x_te, x)) + v(wake_gap(ante, x_te, mirrored)) == v(ante),
        0real <= v(wake_gap(ante, x_te, x)) <= v(ante),
{
    let a = v(ante);
    let l = 5real / 2real * a;
    let d = v(x) - v(x_te);
    let e = v(mirrored) - v(x_te);
    assert(v(decimal::<S>(5, 2)) == 5real / 2real);
    lemma_positive_product(5real / 2real, a);
    let z = 1real - d / l;
    let y = 1real - e / l;
    lemma_zero_over(l);
    lemma_ratio(l);
    lemma_quotient_order(0real, d, l);
    lemma_quotient_order(d, l, l);
    lemma_quotient_order(0real, e, l);
    lemma_quotient_order(e, l, l);
    lemma_parts(d, e, l);
    assert(z + y == 1real);
    assert(0real <= z <= 1real && 0real <= y <= 1real);
    let g = v(wake_gap(ante, x_te, x));
    let h = v(wake_gap(ante, x_te, mirrored));
    let minus = -whole::<S>(2);
    assert(v(minus) == -2real);
    lemma_cubic(a, z);
    lemma_cubic(a, y);
    assert(g == a * (3real + -2real * z) * z * z);
    assert(h == a * (3real + -2real * y) * y * y);
    lemma_mirrored(z, y);
    lemma_cubic_range(z);
    lemma_distribute(a, cubic(z), cubic(y));
    lemma_one(a);
    lemma_product_order(0real, cubic(z), a);
    lemma_product_order(cubic(z), 1real, a);
    lemma_commute(cubic(z), a);
    lemma_zero(a);
}

/// The form of a wake gap.
spec fn cubic(z: real) -> real {
    (3real - 2real * z) * z * z
}

/// Parts of a length.
proof fn lemma_parts(d: real, e: real, l: real)
    by (nonlinear_arith)
    requires
        l > 0real,
        d + e == l,
    ensures
        d / l + e / l == 1real,
{
}

/// The form of a wake gap, times its thickness.
proof fn lemma_cubic(a: real, z: real)
    ensures
        a * (3real + -2real * z) * z * z == a * cubic(z),
{
    let k = 3real - 2real * z;
    lemma_associate(a, k, z);
    lemma_associate(a, k * z, z);
}

/// The form of a wake gap at places that mirror each other.
proof fn lemma_mirrored(z: real, y: real)
    by (nonlinear_arith)
    requires
        z + y == 1real,
    ensures
        (3real - 2real * z) * z * z + (3real - 2real * y) * y * y == 1real,
        z == 1real ==> (3real - 2real * z) * z * z == 1real,
        z == 0real ==> (3real - 2real * z) * z * z == 0real,
{
}

/// The range of the form of a wake gap.
proof fn lemma_cubic_range(z: real)
    by (nonlinear_arith)
    requires
        0real <= z <= 1real,
    ensures
        0real <= (3real - 2real * z) * z * z <= 1real,
{
    assert((3real - 2real * z) * z * z >= 0real);
    assert(1real - (3real - 2real * z) * z * z == (1real - z) * (1real - z) * (1real + 2real * z));
}

/// The thickness of the trailing edge is the distance of its two nodes.
pub proof fn law_edge_thickness_is_the_distance<S: Real>(
    v: spec_fn(S) -> real,
    x: Seq<S>,
    y: Seq<S>,
    upper: int,
    lower: int,
    sqrt: spec_fn(S) -> S,
)
    requires
        exact(v),
        takes_roots(v, sqrt),
        0 <= upper < x.len(),
        0 <= lower < x.len(),
    ensures
        ({
            let r = v(edge_thickness(x, y, upper, lower, sqrt));
            let dx = v(x[upper]) - v(x[lower]);
            let dy = v(y[upper]) - v(y[lower]);
            r >= 0real && r * r == dx * dx + dy * dy
        }),
{
    let dx = x[upper] - x[lower];
    let dy = y[upper] - y[lower];
    lemma_not_negative(v(dx));
    lemma_not_negative(v(dy));
    assert(v(dx * dx + dy * dy) >= 0real);
}

/// Squares are not negative.
proof fn lemma_not_negative(x: real)
    by (nonlinear_arith)
    ensures
        x * x >= 0real,
{
}

/// The arc length to a node is longer than that to the one before by their distance.
pub proof fn law_arc_lengths_add_up<S: Real, E: Elementary<S>>(
    v: spec_fn(S) -> real,
    elementary: &E,
    nodes: Seq<Point<S>>,
    i: int,
)
    requires
        exact(v),
        takes_roots(v, |x: S| elementary.sqrt_of(x)),
        0 < i < nodes.len(),
    ensures
        ({
            let step = v(arc_to(elementary, nodes, i)) - v(arc_to(elementary, nodes, i - 1));
            let dx = v(nodes[i].x) - v(nodes[i - 1].x);
            let dy = v(nodes[i].y) - v(nodes[i - 1].y);
            step >= 0real && step * step == dx * dx + dy * dy
        }),
        v(arc_to(elementary, nodes, 0)) == 0real,
{
    let dx = nodes[i].x - nodes[i - 1].x;
    let dy = nodes[i].y - nodes[i - 1].y;
    lemma_not_negative(v(dx));
    lemma_not_negative(v(dy));
    let f = |x: S| elementary.sqrt_of(x);
    let q = dx * dx + dy * dy;
    assert(v(q) >= 0real);
    assert(v(f(q)) >= 0real && v(f(q)) * v(f(q)) == v(q));
}

/// Pressure and velocity belong together: the pressure coefficient and the square of the
/// velocity add up to one.
pub proof fn law_pressures<S: Real>(v: spec_fn(S) -> real, gamma: Seq<S>, i: int)
    requires
        exact(v),
        0 <= i < gamma.len(),
    ensures
        pressures(gamma).len() == gamma.len(),
        v(pressures(gamma)[i]) + v(gamma[i]) * v(gamma[i]) == 1real,
{
}

/// The density between two knots is that of the line through them.
pub proof fn law_density_is_linear_between_knots<S: Real>(
    v: spec_fn(S) -> real,
    k: Seq<Knot<S>>,
    s: S,
    i: int,
)
    requires
        exact(v),
        0 <= i,
        k.len() >= 2,
        forall|a: int, b: int|
            0 <= a < b < k.len() ==> v((#[trigger] k[a]).0) < v((#[trigger] k[b]).0),
        i < k.len() - 1,
        v(k[i].0) <= v(s) <= v(k.last().0),
    ensures
        exists|j: int|
            {
                &&& i <= j < k.len() - 1
                &&& v((#[trigger] k[j]).0) <= v(s) <= v(k[j + 1].0)
                &&& (v(density_between(k, s, i)) - v(k[j].1)) * (v(k[j + 1].0) - v(k[j].0)) == (v(
                    k[j + 1].1,
                ) - v(k[j].1)) * (v(s) - v(k[j].0))
            },
    decreases k.len() - i,
{
    if s >= k[i].0 && s <= k[i + 1].0 {
        let d = v(k[i + 1].0) - v(k[i].0);
        let w = v(s) - v(k[i].0);
        let h = v(k[i + 1].1) - v(k[i].1);
        let t = w / d;
        assert(v(k[i].0) < v(k[i + 1].0));
        lemma_quotient(w, d);
        lemma_commute(t, h);
        lemma_associate(h, t, d);
        assert(v(k[i].0) <= v(s));
    } else {
        if i + 2 == k.len() {
            assert(k[i + 1] == k.last());
        }
        law_density_is_linear_between_knots(v, k, s, i + 1);
    }
}

/// The density that curvature asks for: one where the outline is bent most, three tenths
/// where it is straight, and over three tenths as the root of the curvature in between.
pub proof fn law_density_grows_with_curvature<S: Real, E: Elementary<S>>(
    v: spec_fn(S) -> real,
    elementary: &E,
    k: Seq<S>,
    i: int,
)
    requires
        exact(v),
        takes_roots(v, |x: S| elementary.sqrt_of(x)),
        0 <= i < k.len(),
        v(k[i]) >= 0real,
        v(largest(k, k.len())) >= v(tenths::<S>(10)),
    ensures
        ({
            let over = v(density_of(elementary, k)[i]) - 3real / 10real;
            let top = v(largest(k, k.len()));
            &&& over >= 0real
            &&& over * over * top == 7real / 10real * (7real / 10real) * v(k[i])
        }),
{
    let top = largest(k, k.len());
    lemma_tenths(v, 10);
    let base = decimal::<S>(3, 10);
    assert(v(base) == 3real / 10real);
    let q = k[i] / top;
    lemma_quotient(v(k[i]), v(top));
    lemma_quotient_order(0real, v(k[i]), v(top));
    lemma_zero_over(v(top));
    let f = |x: S| elementary.sqrt_of(x);
    let r = v(f(q));
    assert(r >= 0real && r * r == v(q));
    let c = 7real / 10real;
    let over = v(density_of(elementary, k)[i]) - 3real / 10real;
    assert(over == c * r);
    lemma_product_order(0real, r, c);
    lemma_zero(c);
    lemma_commute(r, c);
    lemma_associate(c * r, c, r);
    lemma_commute(c * r, c);
    lemma_associate(c, c, r);
    lemma_associate(c * c, r, r);
    assert(over * over == (c * c) * (r * r));
    lemma_associate(c * c, r * r, v(top));
}

/// The weight between knots and curvature goes evenly from the one to the other.
pub proof fn law_blend_is_even<S: Real, Z, P: Splines<S, Z>, E: Elementary<S>>(
    v: spec_fn(S) -> real,
    splines: &P,
    z: Z,
    knots: Seq<Knot<S>>,
    w: S,
    elementary: &E,
    i: int,
)
    requires
        exact(v),
        0 <= i < SAMPLES,
    ensures
        ({
            let n = SAMPLES as int;
            let asked = v(density_at(knots, step::<S>(i, n)));
            let bent = v(density_of(elementary, bends(splines, z, n))[i]);
            v(blended(splines, z, knots, w, elementary)[i]) - asked == v(w) * (bent - asked)
        }),
{
    let n = SAMPLES as int;
    let asked = v(density_at(knots, step::<S>(i, n)));
    let bent = v(density_of(elementary, bends(splines, z, n))[i]);
    lemma_commute(1real - v(w), asked);
    lemma_difference(asked, 1real, v(w));
    lemma_one(asked);
    lemma_commute(asked, v(w));
    lemma_difference(v(w), bent, asked);
}

/// A node of the upper surface has the value of its station, and a node of the lower surface
/// that of its station with the sign turned.
pub proof fn law_lower_values_turn_their_sign<S: Real>(
    v: spec_fn(S) -> real,
    upper: Seq<NodeValue<S>>,
    lower: Seq<NodeValue<S>>,
    order: GammaWriteOrder,
    p: int,
)
    requires
        exact(v),
    ensures
        ({
            let r = v(node_value(upper, lower, order, p));
            let u = last_writer(upper, p, upper.len() as int);
            let first = first_writer(lower, p, lower.len() as int);
            let last = last_writer(lower, p, lower.len() as int);
            &&& u > 0 && last == 0 && first == 0 ==> r == v(upper[u].value)
            &&& u == 0 && last == first && last > 0 ==> r + v(lower[last].value) == 0real
            &&& u == 0 && last == 0 && first == 0 ==> r == 0real
        }),
{
}

/// The shape parameter of a relaxing wake is found by Newton's method on the equation of its
/// decay: every step meets the tangent of that equation. Without a distance it stays.
pub proof fn law_wake_relaxes<S: Real>(v: spec_fn(S) -> real, hk: S, c: S, n: nat)
    requires
        exact(v),
        n > 0,
        ({
            let d = v(wake_target(hk, c, (n - 1) as nat)) - 1real;
            1real + 3real * v(c) * (d * d) != 0real
        }),
    ensures
        ({
            let k = v(wake_target(hk, c, (n - 1) as nat));
            let r = v(wake_target(hk, c, n));
            let d = k - 1real;
            (k + v(c) * (d * d * d) - v(hk)) + (1real + 3real * v(c) * (d * d)) * (r - k) == 0real
        }),
{
    let k = wake_target(hk, c, (n - 1) as nat);
    let one = whole::<S>(1);
    let d = k - one;
    let f = k + c * (d * d * d) - hk;
    let g = one + whole::<S>(3) * c * (d * d);
    let q = v(f) / v(g);
    lemma_quotient(v(f), v(g));
    assert(v(wake_target(hk, c, n)) == v(k) - q);
    lemma_opposite(v(g), q);
}

/// The target of the inverse form: a laminar shape parameter rises by three hundredths of
/// the distance in momentum thicknesses, a turbulent one falls by fifteen, and through
/// transition it does both in turn; but it does not fall below the largest of the direct form.
pub proof fn law_target_of_the_inverse_form<S: Real>(
    v: spec_fn(S) -> real,
    task: StationTask<S>,
    st: StationState<S>,
)
    requires
        exact(v),
        !task.is_wake,
        v(task.prev.theta) >= v(tenths::<S>(12)),
    ensures
        ({
            let p = task.prev;
            let r = v(task.target(st));
            let rise = (r - v(p.hk)) * v(p.theta);
            let dx = v(task.x_new) - v(p.x);
            let least = v(task.hmax(st));
            &&& r >= least
            &&& r > least && st.laminar ==> rise == 3real / 100real * dx
            &&& r > least && !st.laminar && st.xt is None ==> rise == -(15real / 100real * dx)
            &&& r > least && !st.laminar ==> (st.xt matches Some(xt) ==> rise == 3real / 100real * (
            v(xt) - v(p.x)) - 15real / 100real * (v(st.station.x) - v(xt)))
        }),
{
    let p = task.prev;
    lemma_tenths(v, 12);
    let theta = larger(p.theta, tenths::<S>(12));
    assert(v(theta) == v(p.theta));
    let up = decimal::<S>(3, 100);
    let down = decimal::<S>(15, 100);
    assert(v(up) == 3real / 100real);
    assert(v(down) == 15real / 100real);
    let dx = v(task.x_new) - v(p.x);
    lemma_quotient(3real / 100real * dx, v(theta));
    lemma_quotient(15real / 100real * dx, v(theta));
    lemma_commute(-(15real / 100real * dx / v(theta)), v(theta));
    lemma_opposite(v(theta), 15real / 100real * dx / v(theta));
    lemma_commute(v(theta), 15real / 100real * dx / v(theta));
    match st.xt {
        Some(xt) => {
            let w = 3real / 100real * (v(xt) - v(p.x)) - 15real / 100real * (v(st.station.x) - v(
                xt,
            ));
            lemma_quotient(w, v(theta));
        },
        None => {},
    }
}

/// The residuals of a system: none is larger than the largest, which one of them is, or zero.
pub proof fn law_largest_residual<S: Real>(
    v: spec_fn(S) -> real,
    system: &GlobalNewtonSystem<S>,
    n: nat,
)
    requires
        exact(v),
    ensures
        v(system.residual_bound(n)) >= 0real,
        forall|i: int|
            0 <= i < n ==> {
                let r = v(#[trigger] residual(system, i));
                -v(system.residual_bound(n)) <= r <= v(system.residual_bound(n))
            },
        v(system.residual_bound(n)) == 0real || exists|i: int|
            0 <= i < n && (v(#[trigger] residual(system, i)) == v(system.residual_bound(n)) || v(
                residual(system, i),
            ) == -v(system.residual_bound(n))),
    decreases n,
{
    if n > 0 {
        law_largest_residual(v, system, (n - 1) as nat);
        let last = residual(system, n - 1);
        let before = system.residual_bound((n - 1) as nat);
        assert(system.residual_bound(n) == larger(before, abs(last)));
        if before < abs(last) {
            assert(v(residual(system, n - 1)) == v(last));
        } else if v(before) != 0real {
            let i = choose|i: int|
                0 <= i < n - 1 && (v(#[trigger] residual(system, i)) == v(before) || v(
                    residual(system, i),
                ) == -v(before));
            assert(v(residual(system, i)) == v(before) || v(residual(system, i)) == -v(before));
        }
    }
}

/// Residual `i` of a system, row by row, from the first row on.
pub open spec fn residual<S: Real>(system: &GlobalNewtonSystem<S>, i: int) -> S {
    system.vdel@[i / 3 + 1][i % 3]
}

/// The arc length at a chordwise position lies between those of the stations that hold the
/// position, in the same proportion; where no stations hold it, it is that of the last.
pub proof fn law_strip_is_interpolated<S: Real>(
    v: spec_fn(S) -> real,
    stations: Seq<BlStation<S>>,
    xstrip: S,
    te_x: S,
    i: int,
)
    requires
        exact(v),
        1 <= i,
    ensures
        ({
            let r = strip_arc_length(stations, xstrip, te_x, i);
            ||| exists|k: int|
                {
                    &&& i <= k < stations.len()
                    &&& #[trigger] brackets(stations, xstrip, k)
                    &&& !(abs(stations[k].x_coord - stations[k - 1].x_coord) < tenths::<S>(15))
                        ==> (v(r) - v(stations[k - 1].x)) * (v(stations[k].x_coord) - v(
                        stations[k - 1].x_coord,
                    )) == (v(stations[k].x) - v(stations[k - 1].x)) * (v(xstrip) - v(
                        stations[k - 1].x_coord,
                    ))
                    &&& abs(stations[k].x_coord - stations[k - 1].x_coord) < tenths::<S>(15) ==> r
                        == stations[k - 1].x
                }
            ||| r == te_x && forall|k: int|
                i <= k < stations.len() ==> !#[trigger] brackets(stations, xstrip, k)
        }),
    decreases stations.len() - i,
{
    if i < stations.len() {
        if brackets(stations, xstrip, i) {
            let a = stations[i - 1];
            let b = stations[i];
            let dx = b.x_coord - a.x_coord;
            if !(abs(dx) < tenths::<S>(15)) {
                lemma_not_small(v, dx, 15);
                let w = v(xstrip) - v(a.x_coord);
                let h = v(b.x) - v(a.x);
                let t = w / v(dx);
                lemma_quotient(w, v(dx));
                lemma_commute(t, h);
                lemma_associate(h, t, v(dx));
            }
            assert(brackets(stations, xstrip, i));
        } else {
            law_strip_is_interpolated(v, stations, xstrip, te_x, i + 1);
        }
    }
}

/// On either side of the stagnation point: the vorticity is that of the first station behind
/// it, positive on the upper and negative on the lower side, and the arc length counts from
/// the lower side to the upper one.
pub proof fn law_sides_of_the_stagnation_point<S: Real>(
    v: spec_fn(S) -> real,
    upper_ue: Seq<S>,
    lower_ue: Seq<S>,
    upper_arc: Seq<S>,
    lower_arc: Seq<S>,
)
    requires
        exact(v),
        upper_ue.len() > 1,
        lower_ue.len() > 1,
        upper_arc.len() > 1,
        lower_arc.len() > 1,
    ensures
        ({
            let (g, s) = stagnation_sides(upper_ue, lower_ue, upper_arc, lower_arc);
            let small = v(tenths::<S>(8));
            &&& v(g[0]) >= 0real && (v(g[0]) == v(upper_ue[1]) || v(g[0]) == -v(upper_ue[1]))
            &&& v(g[1]) <= 0real && (v(g[1]) == v(lower_ue[1]) || v(g[1]) == -v(lower_ue[1]))
            &&& v(s[0]) <= -small && small <= v(s[1])
            &&& v(upper_arc[1]) >= small ==> v(s[1]) == v(upper_arc[1])
            &&& v(lower_arc[1]) >= small ==> v(s[0]) == -v(lower_arc[1])
        }),
{
    lemma_tenths(v, 8);
}

/// The changes of a station that its step is scaled by are relative ones: of the momentum
/// thickness to itself, of the displacement thickness, at the change of mass defect and
/// velocity that is asked for, to itself, of the amplification to ten, of the shear stress to
/// itself, and of the velocity to a quarter.
pub proof fn law_changes_are_relative<S: Real>(
    v: spec_fn(S) -> real,
    p: UpdatePoint<S>,
    delta: [S; 3],
    due: S,
)
    requires
        exact(v),
        v(p.theta) > v(tenths::<S>(12)),
        v(p.dstr) > v(tenths::<S>(12)),
        v(p.u) > v(tenths::<S>(12)),
        v(p.ctau) > v(tenths::<S>(10)) || p.is_laminar,
    ensures
        ({
            let n = normalised(p, delta, due);
            let dd = v(n[2]) * v(p.dstr);
            &&& v(n[1]) * v(p.theta) == v(delta[1])
            &&& v(p.u) * dd + v(p.dstr) * v(due) == v(delta[2])
            &&& p.is_laminar ==> v(n[0]) * 10real == v(delta[0])
            &&& !p.is_laminar ==> v(n[0]) * v(p.ctau) == v(delta[0])
            &&& v(n[3]) >= 0real && (v(n[3]) == 4real * v(due) || v(n[3]) == -(4real * v(due)))
        }),
{
    lemma_tenths(v, 12);
    lemma_tenths(v, 10);
    let n = normalised(p, delta, due);
    lemma_quotient(v(delta[1]), v(p.theta));
    lemma_quotient(v(delta[0]), 10real);
    if !p.is_laminar {
        lemma_quotient(v(delta[0]), v(p.ctau));
    }
    let m = v(delta[2]) - v(p.dstr) * v(due);
    assert(v(larger(p.u, tenths::<S>(12))) == v(p.u));
    let w = m / v(p.u);
    lemma_quotient(m, v(p.u));
    lemma_quotient(w, v(p.dstr));
    assert(v(n[2]) == w / v(p.dstr));
    let q = decimal::<S>(1, 4);
    assert(v(q) == 1real / 4real);
    let a = v(abs(due));
    lemma_quarter(a);
}

/// A number over a quarter.
proof fn lemma_quarter(a: real)
    by (nonlinear_arith)
    ensures
        a / (1real / 4real) == 4real * a,
{
}

/// The density at a place before the first knot is that of the first, and behind the last
/// that of the last; without knots it is one everywhere.
pub proof fn law_density_is_constant_outside<S: Real>(
    v: spec_fn(S) -> real,
    knots: Seq<Knot<S>>,
    s: S,
)
    requires
        exact(v),
    ensures
        knots.len() == 0 ==> v(density_at(knots, s)) == 1real,
        knots.len() == 1 ==> density_at(knots, s) == knots[0].1,
        knots.len() > 1 ==> {
            let k = in_order(knots, knots.len());
            &&& v(s) <= v(k[0].0) ==> density_at(knots, s) == k[0].1
            &&& v(s) > v(k[0].0) && v(s) >= v(k.last().0) ==> density_at(knots, s) == k.last().1
        },
{
}

/// The values at the nodes end with zero, for the node that closes the outline.
pub proof fn law_values_close<S: Real>(
    v: spec_fn(S) -> real,
    upper: Seq<NodeValue<S>>,
    lower: Seq<NodeValue<S>>,
    n: nat,
)
    requires
        exact(v),
        n > 0,
    ensures
        closed_values(upper, lower, n).len() == n,
        v(closed_values(upper, lower, n).last()) == 0real,
        forall|p: int|
            0 <= p < n - 1 ==> #[trigger] closed_values(upper, lower, n)[p] == node_value(
                upper,
                lower,
                GammaWriteOrder::LowerOverwritesShared,
                p,
            ),
{
}

/// An angle of 180 degrees is half a turn, and angles add up.
pub proof fn law_radians<S: Real>(v: spec_fn(S) -> real, a: S, b: S)
    requires
        exact(v),
    ensures
        v(a) == 180real ==> v(radians(a)) == v(pi::<S>()),
        v(radians(a + b)) == v(radians(a)) + v(radians(b)),
        3141592real / 1000000real < v(pi::<S>()) < 3141593real / 1000000real,
{
    let k = v(pi::<S>()) / 180real;
    lemma_quotient(v(pi::<S>()), 180real);
    lemma_commute(v(a) + v(b), k);
    lemma_distribute(k, v(a), v(b));
    lemma_commute(v(a), k);
    lemma_commute(v(b), k);
    lemma_pi();
}

/// The digits of half a turn.
proof fn lemma_pi()
    by (nonlinear_arith)
    ensures
        3141592real / 1000000real < (3141592real * 1000000000real + 653589793real) / (1000000real
            * 1000000000real) < 3141593real / 1000000real,
{
}

/// The shear stress at transition is in proportion to that of equilibrium, and rises with
/// the shape parameter, where the exponential does and the constants are positive.
pub proof fn law_transition_stress<S: Real>(
    v: spec_fn(S) -> real,
    hk: S,
    fuller: S,
    cq: S,
    ctrcon: S,
    ctrcex: S,
    exp: spec_fn(S) -> S,
)
    requires
        exact(v),
        forall|a: S, b: S| v(a) <= v(b) ==> v(#[trigger] exp(a)) <= v(#[trigger] exp(b)),
        v(ctrcon) >= 0real,
        v(ctrcex) >= 0real,
        v(cq) >= 0real,
        11real / 10real <= v(hk) <= v(fuller),
    ensures
        ({
            let r = v(transition_ctau(hk, cq, ctrcon, ctrcex, exp));
            &&& r <= v(transition_ctau(fuller, cq, ctrcon, ctrcex, exp))
            &&& v(transition_ctau(hk, cq + cq, ctrcon, ctrcex, exp)) == 2real * r
        }),
{
    let one = whole::<S>(1);
    let tenth = decimal::<S>(1, 10);
    assert(v(tenth) == 1real / 10real);
    let p = larger(hk - one, tenth);
    let q = larger(fuller - one, tenth);
    assert(v(p) == v(hk) - 1real && v(q) == v(fuller) - 1real);
    let c = v(ctrcex);
    lemma_falls(c, v(p), v(q));
    let a = -ctrcex / p;
    let b = -ctrcex / q;
    assert(v(a) <= v(b));
    assert(v(exp(a)) <= v(exp(b)));
    lemma_product_order(v(exp(a)), v(exp(b)), v(ctrcon));
    lemma_commute(v(exp(a)), v(ctrcon));
    lemma_commute(v(exp(b)), v(ctrcon));
    lemma_product_order(v(ctrcon) * v(exp(a)), v(ctrcon) * v(exp(b)), v(cq));
    lemma_distribute(v(ctrcon) * v(exp(a)), v(cq), v(cq));
}

/// A negative quotient grows with its divisor.
proof fn lemma_falls(c: real, p: real, q: real)
    by (nonlinear_arith)
    requires
        c >= 0real,
        0real < p <= q,
    ensures
        -c / p <= -c / q,
{
}

/// What is made of the change of an iteration: below the tolerance it has converged; above
/// 1e10, or from the seventh iteration on above five times the change before, it is given up.
pub proof fn law_verdict<S: Real>(
    v: spec_fn(S) -> real,
    residual: S,
    tolerance: S,
    iter: int,
    previous: S,
)
    requires
        exact(v),
    ensures
        ({
            let r = v(residual);
            let runs_away = r > 10000000000real || iter > 5 && r > 5real * v(previous);
            &&& verdict(residual, tolerance, iter, previous) is Converged <==> r < v(tolerance)
            &&& verdict(residual, tolerance, iter, previous) is Rejected <==> r >= v(tolerance)
                && runs_away
            &&& verdict(residual, tolerance, iter, previous) is Continue <==> r >= v(tolerance)
                && !runs_away
        }),
{
    assert(100000real * 100000real == 10000000000real) by (nonlinear_arith);
    assert(v(whole::<S>(100000) * whole::<S>(100000)) == 10000000000real);
    assert(is_finite(residual));
    lemma_commute(v(previous), 5real);
}

/// A node takes the mass defect of the last row that lies at it, and keeps what it had where
/// none does.
pub proof fn law_sources_are_the_masses<S: Real>(
    before: Seq<S>,
    rows: Seq<BlRow<S>>,
    k: nat,
    p: int,
)
    requires
        k <= rows.len(),
        0 <= p < before.len(),
    ensures
        sources(before, rows, k).len() == before.len(),
        (forall|j: int| 0 <= j < k ==> (#[trigger] rows[j]).panel_idx != p) ==> sources(
            before,
            rows,
            k,
        )[p] == before[p],
        forall|j: int|
            0 <= j < k && (#[trigger] rows[j]).panel_idx == p && (forall|l: int|
                j < l < k ==> (#[trigger] rows[l]).panel_idx != p) ==> sources(before, rows, k)[p]
                == rows[j].mass,
    decreases k,
{
    if k > 0 {
        law_sources_are_the_masses(before, rows, (k - 1) as nat, p);
        let last = rows[k - 1];
        assert forall|j: int|
            0 <= j < k && (#[trigger] rows[j]).panel_idx == p && (forall|l: int|
                j < l < k ==> (#[trigger] rows[l]).panel_idx != p) implies sources(
            before,
            rows,
            k,
        )[p] == rows[j].mass by {
            if j < k - 1 {
                assert(rows[k - 1].panel_idx != p);
            }
        }
    }
}

/// The sum of the squares of the first `n` residuals.
pub open spec fn squares_of<S: Real>(
    v: spec_fn(S) -> real,
    system: &GlobalNewtonSystem<S>,
    n: nat,
) -> real
    decreases n,
{
    if n == 0 {
        0real
    } else {
        squares_of(v, system, (n - 1) as nat) + v(residual(system, n - 1)) * v(
            residual(system, n - 1),
        )
    }
}

/// The sum of squares is that of the residuals.
proof fn lemma_squares<S: Real>(v: spec_fn(S) -> real, system: &GlobalNewtonSystem<S>, n: nat)
    requires
        exact(v),
    ensures
        v(system.residual_squares(n)) == squares_of(v, system, n),
    decreases n,
{
    if n > 0 {
        lemma_squares(v, system, (n - 1) as nat);
    }
}

/// The mean square of the residuals is that of three for every row.
pub proof fn law_mean_square_of_the_residuals<S: Real>(
    v: spec_fn(S) -> real,
    system: &GlobalNewtonSystem<S>,
)
    requires
        exact(v),
        system.nsys > 0,
    ensures
        v(system.mean_square()) * (3real * system.nsys as real) == squares_of(
            v,
            system,
            3 * system.nsys as nat,
        ),
{
    lemma_squares(v, system, 3 * system.nsys as nat);
    lemma_count(v, system.nsys);
    let d = 3real * (system.nsys as real);
    assert(v(whole::<S>(3) * count::<S>(system.nsys)) == d);
    lemma_quotient(v(system.residual_squares(3 * system.nsys as nat)), d);
}

/// The shear stress with which the turbulent part of a transition interval starts lies within
/// its bounds, whatever the closure relations give.
pub proof fn law_starting_stress_is_bounded<S: Real, T>(
    v: spec_fn(S) -> real,
    prev: BlStation<S>,
    curr: BlStation<S>,
    wf1: S,
    wf2: S,
    xt: S,
    ctrcon: S,
    ctrcex: S,
    msq: S,
    re: S,
    laws: BlLaws<S, T>,
)
    requires
        exact(v),
    ensures
        ({
            let r = v(starting_ctau(prev, curr, wf1, wf2, xt, ctrcon, ctrcex, msq, re, laws));
            let theta = v(prev.theta) * v(wf1) + v(curr.theta) * v(wf2);
            &&& v(tenths::<S>(7)) <= r <= 3real / 10real
            &&& theta <= v(tenths::<S>(20)) ==> r == 3real / 100real
        }),
{
    lemma_tenths_small::<S>(v, 7);
    assert(v(decimal::<S>(3, 10)) == 3real / 10real);
    assert(v(decimal::<S>(3, 100)) == 3real / 100real);
}

} // verus!
