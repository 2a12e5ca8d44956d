//! The Newton steps of the mixed march.
use super::algebra::{
    lemma_associate, lemma_commute, lemma_difference, lemma_distribute, lemma_one, lemma_opposite,
    lemma_quotient, lemma_quotient_order, lemma_swap, lemma_zero,
};
use super::station::{answer, lemma_part, lemma_scale, lemma_scaled_answer, satisfies_part};
use super::{exact, lemma_tenths, lemma_tenths_small};
use crate::closure::{BlLaws, IntervalBlock};
use crate::march::linear::closed_system;
use crate::march::mixed::{shape_limit, velocity_response, MixedState, MixedTask};
use crate::march::station::step_scale;
use crate::number::{abs, decimal, is_finite, larger, tenths, whole, Formula, Real};
use crate::station::BlStation;
use vstd::prelude::*;

verus! {

/// Four numbers satisfy an equation.
pub open spec fn meets<S: Real>(v: spec_fn(S) -> real, row: [S; 4], x: [S; 4], rhs: S) -> bool {
    v(row[0]) * v(x[0]) + v(row[1]) * v(x[1]) + v(row[2]) * v(x[2]) + v(row[3]) * v(x[3]) == v(rhs)
}

/// Four numbers satisfy a system.
pub open spec fn solved<S: Real>(
    v: spec_fn(S) -> real,
    a: [[S; 4]; 4],
    b: [S; 4],
    x: [S; 4],
) -> bool {
    forall|k: int| 0 <= k < 4 ==> #[trigger] meets(v, a[k], x, b[k])
}

/// The reference values of a state are not next to nothing.
pub open spec fn referred<S: Real>(v: spec_fn(S) -> real, now: MixedState<S>) -> bool {
    &&& v(now.ueref) >= v(tenths::<S>(12))
    &&& v(now.hkref) >= v(tenths::<S>(12))
}

/// Changes of both thicknesses and of the velocity, to first order, keep the velocity at the
/// first station, and put velocity and kinematic shape parameter on a line through their
/// reference values at any other: its slope is given by the weight of the velocity.
pub open spec fn on_the_line<S: Real>(
    v: spec_fn(S) -> real,
    task: MixedTask<S>,
    now: MixedState<S>,
    d1: real,
    d2: real,
    d3: real,
) -> bool {
    let s = now.station;
    let hk = v(s.hk) + v(s.derivs.hk_h) * v(s.derivs.h_theta) * d1 + v(s.derivs.hk_h) * v(
        s.derivs.h_delta_star,
    ) * d2;
    let u = v(s.u) + d3;
    if task.simi {
        u == v(now.ueref)
    } else {
        v(now.hkref) * (hk - v(now.hkref)) + v(now.sens) * (u / v(now.ueref) - 1real) == 0real
    }
}

/// The fourth equation of the mixed march ties the velocity to the shape parameter.
pub proof fn law_fourth_equation<S: Real>(
    v: spec_fn(S) -> real,
    task: MixedTask<S>,
    now: MixedState<S>,
    x: [S; 4],
)
    requires
        exact(v),
        referred(v, now),
        meets(v, task.fourth_equation(now).0, x, task.fourth_equation(now).1),
    ensures
        on_the_line(v, task, now, v(x[1]), v(x[2]), v(x[3])),
{
    let s = now.station;
    let (x0, x1, x2, x3) = (v(x[0]), v(x[1]), v(x[2]), v(x[3]));
    lemma_zero(x0);
    lemma_zero(x1);
    lemma_zero(x2);
    lemma_one(x3);
    if !task.simi {
        lemma_tenths(v, 12);
        let small = tenths::<S>(12);
        let h = v(now.hkref);
        let u = v(now.ueref);
        assert(v(larger(now.ueref, small)) == u);
        assert(v(larger(now.hkref, small)) == h);
        let t = v(s.derivs.hk_h) * v(s.derivs.h_theta);
        let d = v(s.derivs.hk_h) * v(s.derivs.h_delta_star);
        let c = v(now.sens);
        let hk = v(s.hk);
        let su = v(s.u);
        lemma_zero(h);
        let (row, rhs) = task.fourth_equation(now);
        assert(v(row[1]) == t * h);
        assert(v(row[2]) == d * h);
        assert(v(row[3]) == c / u);
        assert(v(rhs) == -(h * h) * (hk / h - 1real) - c * (su / u - 1real));
        // The shape parameter.
        lemma_commute(t * h, x1);
        lemma_commute(t, h);
        lemma_swap(x1, h, t);
        lemma_commute(x1, t);
        assert(t * h * x1 == h * (t * x1));
        lemma_commute(d * h, x2);
        lemma_commute(d, h);
        lemma_swap(x2, h, d);
        lemma_commute(x2, d);
        assert(d * h * x2 == h * (d * x2));
        lemma_difference(h * h, hk / h, 1real);
        lemma_one(h * h);
        lemma_associate(h, h, hk / h);
        lemma_quotient(hk, h);
        assert((h * h) * (hk / h - 1real) == h * hk - h * h);
        lemma_commute(-(h * h), hk / h - 1real);
        lemma_opposite(hk / h - 1real, h * h);
        lemma_commute(hk / h - 1real, h * h);
        lemma_distribute(h, hk, t * x1);
        lemma_distribute(h, hk + t * x1, d * x2);
        lemma_difference(h, hk + t * x1 + d * x2, h);
        // The velocity.
        lemma_ratio_sum(su, x3, u);
        lemma_difference(c, su / u, 1real);
        lemma_distribute(c, su / u, x3 / u);
        lemma_difference(c, su / u + x3 / u, 1real);
        lemma_quotient_product(c, x3, u);
    }
}

/// The quotient of a sum.
proof fn lemma_ratio_sum(a: real, b: real, u: real)
    by (nonlinear_arith)
    requires
        u != 0real,
    ensures
        (a + b) / u == a / u + b / u,
{
}

/// A quotient times a number.
proof fn lemma_quotient_product(c: real, x: real, u: real)
    by (nonlinear_arith)
    requires
        u != 0real,
    ensures
        c / u * x == c * (x / u),
{
}

/// The change of the first variable of a station of the mixed march.
pub open spec fn first_of<S: Real>(
    v: spec_fn(S) -> real,
    task: MixedTask<S>,
    now: MixedState<S>,
    s: BlStation<S>,
    r: BlStation<S>,
) -> real {
    if task.laminar && !now.tran {
        v(r.ampl) - v(s.ampl)
    } else {
        v(r.ctau) - v(s.ctau)
    }
}

/// A part of a step goes the same part of the way to the line.
pub open spec fn towards_the_line<S: Real>(
    v: spec_fn(S) -> real,
    task: MixedTask<S>,
    now: MixedState<S>,
    w: real,
    d1: real,
    d2: real,
    d3: real,
) -> bool {
    w > 0real && on_the_line(v, task, now, d1 / w, d2 / w, d3 / w)
}

/// An iteration of the mixed march is a step of Newton's method: where the shape parameter,
/// the amplification and the shear stress end off their bounds, the changes of the variables
/// satisfy the linearised equations to the part to which the step was taken, and go the same
/// part of the way to the line that ties velocity and shape parameter. A step that ends the
/// iteration by convergence, at a tolerance of three tenths or less, is taken whole.
pub proof fn law_mixed_step_is_newton<S: Real, T>(
    v: spec_fn(S) -> real,
    task: MixedTask<S>,
    st: MixedState<S>,
    it: int,
    laws: BlLaws<S, T>,
)
    requires
        exact(v),
        ({
            let block = task.linearised(st, it, laws);
            let now = task.weighted(task.looked(st, it, laws), block, it, laws);
            let (row4, rhs4) = task.fourth_equation(now);
            let (a, b) = closed_system(block.vs2, block.residuals, row4, rhs4);
            let r = task.iteration(st, it, laws).0.station;
            let laminar = task.laminar && !now.tran;
            let limit = if task.wake {
                100005real / 100000real
            } else {
                102real / 100real
            };
            &&& solved(v, a, b, (laws.solve_4x4)(a, b))
            &&& referred(v, now)
            &&& v(r.delta_star) - v(task.gap) > limit * v(r.theta)
            &&& laminar ==> v(r.ampl) > 0real
            &&& !laminar ==> v(tenths::<S>(7)) < v(r.ctau) < 3real / 10real
        }),
    ensures
        ({
            let block = task.linearised(st, it, laws);
            let now = task.weighted(task.looked(st, it, laws), block, it, laws);
            let (after, done) = task.iteration(st, it, laws);
            let s = task.looked(st, it, laws).station;
            let r = after.station;
            let d0 = first_of(v, task, now, s, r);
            let d1 = v(r.theta) - v(s.theta);
            let d2 = v(r.delta_star) - v(s.delta_star);
            let d3 = v(r.u) - v(s.u);
            let theta = v(larger(s.theta, tenths::<S>(12)));
            let dstar = v(larger(s.delta_star, tenths::<S>(12)));
            exists|w: real|
                {
                    &&& #[trigger] satisfies_part(v, block, w, d0, d1, d2, d3)
                    &&& towards_the_line(v, task, now, w, d1, d2, d3)
                    &&& 0real < w <= 1real
                    &&& done && v(task.config.deps) <= 3real / 10real ==> w == 1real
                    &&& -(3real / 10real * theta) <= d1 <= 3real / 10real * theta
                    &&& -(3real / 10real * dstar) <= d2 <= 3real / 10real * dstar
                }
        }),
{
    let block = task.linearised(st, it, laws);
    let looked = task.looked(st, it, laws);
    let now = task.weighted(looked, block, it, laws);
    let (row4, rhs4) = task.fourth_equation(now);
    let (a, b) = closed_system(block.vs2, block.residuals, row4, rhs4);
    let x = (laws.solve_4x4)(a, b);
    let s = looked.station;
    assert(now.station == s);
    assert(is_finite(x[0]) && is_finite(x[1]) && is_finite(x[2]) && is_finite(x[3]));
    let dmax = task.largest_change(now, x);
    let rlx = step_scale(dmax);
    let w = v(rlx);
    let (after, done) = task.iteration(st, it, laws);
    let r = after.station;
    assert(r == task.stepped(now, x, rlx));
    let small = tenths::<S>(12);
    lemma_tenths(v, 12);
    lemma_tenths_small::<S>(v, 7);
    lemma_scale(v, dmax);
    assert(v(decimal::<S>(3, 10)) == 3real / 10real);
    let d0 = first_of(v, task, now, s, r);
    let d1 = v(r.theta) - v(s.theta);
    let d2 = v(r.delta_star) - v(s.delta_star);
    let d3 = v(r.u) - v(s.u);
    assert(d1 == w * v(x[1]));
    assert(d3 == w * v(x[3]));
    let lim = shape_limit::<S>(task.wake);
    assert(v(lim * r.theta) == v(lim) * v(r.theta));
    assert(d2 == w * v(x[2]));
    assert(d0 == w * v(x[0]));
    assert forall|k: int| 0 <= k < 3 implies #[trigger] answer(v, block.vs2[k], d0, d1, d2, d3)
        == w * v(block.residuals[k]) by {
        lemma_scaled_answer(v, block.vs2[k], w, v(x[0]), v(x[1]), v(x[2]), v(x[3]));
        assert(meets(v, a[k], x, b[k]));
    }
    assert(satisfies_part(v, block, w, d0, d1, d2, d3));
    assert(meets(v, a[3], x, b[3]));
    law_fourth_equation(v, task, now, x);
    lemma_unscaled(w, v(x[1]));
    lemma_unscaled(w, v(x[2]));
    lemma_unscaled(w, v(x[3]));
    let theta = larger(s.theta, small);
    let dstar = larger(s.delta_star, small);
    let c1 = abs(x[1]) / theta;
    let c2 = abs(x[2]) / dstar;
    lemma_magnitude(v, x[1], theta);
    lemma_magnitude(v, x[2], dstar);
    assert(v(c1) <= v(dmax));
    assert(v(c2) <= v(dmax));
    lemma_part(v(x[1]), v(theta), v(dmax), w);
    lemma_part(v(x[2]), v(dstar), v(dmax), w);
    assert(d1 / w == v(x[1]) && d2 / w == v(x[2]) && d3 / w == v(x[3]));
    assert(towards_the_line(v, task, now, w, d1, d2, d3));
    assert(done ==> v(dmax) <= v(task.config.deps));
}

/// A scaled number over its scale.
proof fn lemma_unscaled(w: real, x: real)
    by (nonlinear_arith)
    requires
        w > 0real,
    ensures
        w * x / w == x,
{
}

/// A quotient lies within that of the magnitude.
proof fn lemma_magnitude<S: Real>(v: spec_fn(S) -> real, x: S, size: S)
    requires
        exact(v),
        v(size) > 0real,
    ensures
        -v(abs(x) / size) <= v(x) / v(size) <= v(abs(x) / size),
{
    let a = abs(x);
    lemma_quotient_order(v(x), v(a), v(size));
    lemma_quotient_order(-v(a), v(x), v(size));
    lemma_quotient(v(a), v(size));
    lemma_negated(v(a), v(size));
}

/// The quotient of an opposite.
proof fn lemma_negated(a: real, u: real)
    by (nonlinear_arith)
    requires
        u != 0real,
    ensures
        (-a) / u == -(a / u),
{
}

/// The response of the velocity to the shape parameter is the change of the velocity that
/// goes, in the linearised equations, with a change of the kinematic shape parameter by one.
pub proof fn law_velocity_response<S: Real, T>(
    v: spec_fn(S) -> real,
    block: IntervalBlock<S>,
    hk2_t: S,
    hk2_d: S,
    hk2_u: S,
    laws: BlLaws<S, T>,
)
    requires
        exact(v),
        forall|a: [[S; 4]; 4], b: [S; 4]|
            asks_for_one(v, block, hk2_t, hk2_d, hk2_u, a, b) ==> solved(
                v,
                a,
                b,
                #[trigger] (laws.solve_4x4)(a, b),
            ),
    ensures
        exists|d0: real, d1: real, d2: real, d3: real|
            {
                &&& #[trigger] satisfies_part(v, block, 1real, d0, d1, d2, d3)
                &&& v(hk2_t) * d1 + v(hk2_d) * d2 + v(hk2_u) * d3 == 1real
                &&& d3 == v(velocity_response(block, hk2_t, hk2_d, hk2_u, laws))
            },
{
    let (a, b) = closed_system(
        block.vs2,
        block.residuals,
        [whole::<S>(0), hk2_t, hk2_d, hk2_u],
        whole::<S>(1),
    );
    let x = (laws.solve_4x4)(a, b);
    assert(asks_for_one(v, block, hk2_t, hk2_d, hk2_u, a, b));
    assert(solved(v, a, b, x));
    let d3 = v(velocity_response(block, hk2_t, hk2_d, hk2_u, laws));
    assert forall|k: int| 0 <= k < 3 implies #[trigger] answer(
        v,
        block.vs2[k],
        v(x[0]),
        v(x[1]),
        v(x[2]),
        d3,
    ) == 1real * v(block.residuals[k]) by {
        assert(meets(v, a[k], x, b[k]));
        lemma_one(v(block.residuals[k]));
    }
    assert(satisfies_part(v, block, 1real, v(x[0]), v(x[1]), v(x[2]), d3));
    assert(meets(v, a[3], x, b[3]));
    lemma_zero(v(x[0]));
}

/// A system holds the linearised equations, and asks for a change of the kinematic shape
/// parameter by one.
pub open spec fn asks_for_one<S: Real>(
    v: spec_fn(S) -> real,
    block: IntervalBlock<S>,
    hk2_t: S,
    hk2_d: S,
    hk2_u: S,
    a: [[S; 4]; 4],
    b: [S; 4],
) -> bool {
    &&& forall|k: int, j: int|
        0 <= k < 3 && 0 <= j < 4 ==> #[trigger] a[k][j] == block.vs2[k][j]
    &&& forall|k: int| 0 <= k < 3 ==> #[trigger] b[k] == block.residuals[k]
    &&& v(a[3][0]) == 0real
    &&& a[3][1] == hk2_t && a[3][2] == hk2_d && a[3][3] == hk2_u
    &&& v(b[3]) == 1real
}

/// The weight of the velocity: behind the first station it is that of the settings times the
/// response of the velocity to the shape parameter, in terms of their reference values. The
/// first five iterations take it as it comes, the next ten its mean with the weight before,
/// and later ones keep it.
pub proof fn law_weight_of_the_velocity<S: Real, T>(
    v: spec_fn(S) -> real,
    task: MixedTask<S>,
    now: MixedState<S>,
    block: IntervalBlock<S>,
    it: int,
    laws: BlLaws<S, T>,
)
    requires
        exact(v),
        referred(v, now),
        !task.simi,
    ensures
        ({
            let s = now.station;
            let r = task.weighted(now, block, it, laws);
            let response = velocity_response(
                block,
                s.derivs.hk_h * s.derivs.h_theta,
                s.derivs.hk_h * s.derivs.h_delta_star,
                whole::<S>(0),
                laws,
            );
            &&& v(r.sennew) * v(now.ueref) == v(task.config.senswt) * v(response) * v(now.hkref)
            &&& it < 5 ==> r.sens == r.sennew
            &&& 5 <= it < 15 ==> 2real * v(r.sens) == v(now.sens) + v(r.sennew)
            &&& it >= 15 ==> r.sens == now.sens
            &&& r.station == s
        }),
{
    let s = now.station;
    lemma_tenths(v, 12);
    let response = velocity_response(
        block,
        s.derivs.hk_h * s.derivs.h_theta,
        s.derivs.hk_h * s.derivs.h_delta_star,
        whole::<S>(0),
        laws,
    );
    let r = task.weighted(now, block, it, laws);
    let w = v(task.config.senswt) * v(response) * v(now.hkref);
    assert(v(larger(now.ueref, tenths::<S>(12))) == v(now.ueref));
    lemma_quotient(w, v(now.ueref));
    let half = decimal::<S>(1, 2);
    assert(v(half) == 1real / 2real);
    let sum = v(now.sens) + v(r.sennew);
    assert(5 <= it < 15 ==> v(r.sens) == 1real / 2real * sum);
    lemma_half_of(sum);
}

/// Half of a number.
proof fn lemma_half_of(x: real)
    by (nonlinear_arith)
    ensures
        2real * (1real / 2real * x) == x,
{
}

/// A station that the mixed march starts with or has moved lies within its bounds: its shape
/// parameter, without the wake gap, is not below its limit, its shear stress and its
/// amplification stay within theirs, and it starts with a positive velocity.
pub proof fn law_mixed_stays_within_bounds<S: Real>(
    v: spec_fn(S) -> real,
    task: MixedTask<S>,
    now: MixedState<S>,
    d: [S; 4],
    rlx: S,
)
    requires
        exact(v),
    ensures
        ({
            let p = task.prepared(now.station);
            let r = task.stepped(now, d, rlx);
            let limit = if task.wake {
                100005real / 100000real
            } else {
                102real / 100real
            };
            &&& v(p.u) >= v(tenths::<S>(7))
            &&& v(now.station.u) >= v(tenths::<S>(7)) ==> v(p.u) == v(now.station.u)
            &&& v(p.delta_star) - v(task.gap) >= limit * v(p.theta)
            &&& v(now.station.delta_star) - v(task.gap) >= limit * v(p.theta) ==> v(p.delta_star)
                == v(now.station.delta_star)
            &&& v(p.ctau) > 0real
            &&& p.theta == now.station.theta
            &&& v(r.delta_star) - v(task.gap) >= limit * v(r.theta)
            &&& task.laminar && !now.tran ==> v(r.ampl) >= 0real && r.ctau == now.station.ctau
            &&& !(task.laminar && !now.tran) ==> v(tenths::<S>(7)) <= v(r.ctau) <= 3real / 10real
                && r.ampl == now.station.ampl
        }),
{
    lemma_tenths(v, 7);
    lemma_tenths_small::<S>(v, 7);
    assert(v(decimal::<S>(3, 10)) == 3real / 10real);
    assert(v(decimal::<S>(3, 100)) == 3real / 100real);
    let lim = shape_limit::<S>(task.wake);
    let p = task.prepared(now.station);
    let r = task.stepped(now, d, rlx);
    assert(v(lim * p.theta) == v(lim) * v(p.theta));
    assert(v(lim * r.theta) == v(lim) * v(r.theta));
}

} // verus!
