//! The Newton steps of the stations of a march.
use super::algebra::{
    lemma_associate, lemma_cancel, lemma_commute, lemma_difference, lemma_distribute, lemma_one,
    lemma_opposite, lemma_positive_product, lemma_positive_quotient, lemma_product_order,
    lemma_quotient, lemma_swap, lemma_zero,
};
use super::change::takes_roots;
use super::{exact, lemma_tenths, lemma_tenths_small};
use crate::closure::{BlLaws, Interval, IntervalBlock, StationSystem};
use crate::march::laws::keeps_regime;
use crate::march::station::{
    first_state, largest_change, similarity_iteration, stagnation_station, step_scale, stepped,
    StationState, StationTask,
};
use crate::number::{abs, decimal, larger, tenths, whole, Formula, Real};
use crate::station::{BlStation, FlowType};
use vstd::prelude::*;

verus! {

/// What an equation with these coefficients makes of changes of the four variables.
pub open spec fn answer<S: Real>(
    v: spec_fn(S) -> real,
    row: [S; 5],
    d0: real,
    d1: real,
    d2: real,
    d3: real,
) -> real {
    v(row[0]) * d0 + v(row[1]) * d1 + v(row[2]) * d2 + v(row[3]) * d3
}

/// Changes of the four variables satisfy the linearised equations, taken to the part `w`.
pub open spec fn satisfies_part<S: Real>(
    v: spec_fn(S) -> real,
    block: IntervalBlock<S>,
    w: real,
    d0: real,
    d1: real,
    d2: real,
    d3: real,
) -> bool {
    forall|k: int|
        0 <= k < 3 ==> #[trigger] answer(v, block.vs2[k], d0, d1, d2, d3) == w * v(
            block.residuals[k],
        )
}

/// The solver solves the linear system of a station: the three equations, and with them the
/// velocity stays or the kinematic shape parameter reaches its target.
pub open spec fn solver_solves<S: Real, T>(
    v: spec_fn(S) -> real,
    laws: BlLaws<S, T>,
    q: StationSystem<S>,
) -> bool {
    let (a, b) = (laws.station_system)(q);
    let x = (laws.solve_4x4)(a, b);
    &&& forall|k: int|
        0 <= k < 3 ==> #[trigger] answer(
            v,
            q.vs2[k],
            v(x[0]),
            v(x[1]),
            v(x[2]),
            v(x[3]),
        ) == v(q.residuals[k])
    &&& q.direct ==> v(x[3]) == 0real
    &&& !q.direct ==> v(q.hk2_t) * v(x[1]) + v(q.hk2_d) * v(x[2]) + v(q.hk2_u) * v(x[3]) == v(
        q.htarg,
    ) - v(q.hk)
}

/// A linear system is that of the state of a station, with these equations.
pub open spec fn is_system_of<S: Real>(
    v: spec_fn(S) -> real,
    q: StationSystem<S>,
    now: StationState<S>,
    block: IntervalBlock<S>,
) -> bool {
    let s = now.station;
    &&& q.vs2 == block.vs2
    &&& q.residuals == block.residuals
    &&& q.direct == now.direct
    &&& v(q.hk2_t) == v(s.derivs.hk_h) * v(s.derivs.h_theta)
    &&& v(q.hk2_d) == v(s.derivs.hk_h) * v(s.derivs.h_delta_star)
    &&& v(q.hk2_u) == 0real
    &&& q.htarg == now.htarg
    &&& q.hk == s.hk
}

/// The secondary variables of a station do not decide the primary ones.
pub open spec fn keeps_primary<S: Real, T>(laws: BlLaws<S, T>) -> bool {
    forall|s: BlStation<S>, flow: FlowType, msq: S, re: S|
        {
            let r = #[trigger] (laws.blvar)(s, flow, msq, re);
            (r.u, r.theta, r.delta_star, r.ctau, r.ampl, r.dw) == (
                s.u,
                s.theta,
                s.delta_star,
                s.ctau,
                s.ampl,
                s.dw,
            )
        }
}

/// No variable of a station lies at one of its bounds.
pub open spec fn off_bounds<S: Real>(
    v: spec_fn(S) -> real,
    s: BlStation<S>,
    laminar: bool,
    is_wake: bool,
) -> bool {
    let small = v(tenths::<S>(12));
    let gap = if is_wake && v(s.dw) > 0real {
        v(s.dw)
    } else {
        0real
    };
    let limit = if is_wake {
        100005real / 100000real
    } else {
        102real / 100real
    };
    &&& v(s.theta) > small
    &&& v(s.delta_star) > small
    &&& v(s.delta_star) - gap > limit * v(s.theta)
    &&& laminar ==> v(s.ampl) > 0real
    &&& !laminar ==> v(tenths::<S>(7)) < v(s.ctau) < 3real / 10real
}

/// The change of the first variable, the amplification or the shear stress.
pub open spec fn first_change<S: Real>(
    v: spec_fn(S) -> real,
    s: BlStation<S>,
    r: BlStation<S>,
    laminar: bool,
) -> real {
    if laminar {
        v(r.ampl) - v(s.ampl)
    } else {
        v(r.ctau) - v(s.ctau)
    }
}

/// The scale of a step whose largest relative change is `dmax`.
pub proof fn lemma_scale<S: Real>(v: spec_fn(S) -> real, dmax: S)
    requires
        exact(v),
    ensures
        0real < v(step_scale(dmax)) <= 1real,
        v(dmax) <= 3real / 10real ==> v(step_scale(dmax)) == 1real,
        v(step_scale(dmax)) * v(dmax) <= 3real / 10real,
{
    let limit = decimal::<S>(3, 10);
    assert(v(limit) == 3real / 10real);
    let d = v(dmax);
    lemma_one(d);
    if dmax > limit {
        lemma_positive_quotient(3real / 10real, d);
        lemma_quotient(3real / 10real, d);
        let q = 3real / 10real / d;
        if q > 1real {
            lemma_product_order(1real, q, d);
        }
    }
}

/// A change that is a part of the largest relative change, after it was scaled.
pub proof fn lemma_part(x: real, size: real, dmax: real, w: real)
    requires
        size > 0real,
        w > 0real,
        -dmax <= x / size <= dmax,
        w * dmax <= 3real / 10real,
    ensures
        -(3real / 10real * size) <= w * x <= 3real / 10real * size,
{
    let q = x / size;
    lemma_quotient(x, size);
    lemma_product_order(q, dmax, w);
    lemma_product_order(-dmax, q, w);
    lemma_commute(q, w);
    lemma_commute(dmax, w);
    lemma_commute(-dmax, w);
    lemma_opposite(w, dmax);
    assert(-(3real / 10real) <= w * q <= 3real / 10real);
    lemma_product_order(w * q, 3real / 10real, size);
    lemma_product_order(-(3real / 10real), w * q, size);
    lemma_associate(w, q, size);
    lemma_commute(-(3real / 10real), size);
    lemma_opposite(size, 3real / 10real);
    lemma_commute(3real / 10real, size);
}

/// Every change of a step is at most the largest one, in proportion.
proof fn lemma_largest<S: Real>(
    v: spec_fn(S) -> real,
    s: BlStation<S>,
    x: [S; 4],
    laminar: bool,
    direct: bool,
)
    requires
        exact(v),
    ensures
        ({
            let d = v(largest_change(s, x, laminar, direct));
            let small = tenths::<S>(12);
            let theta = v(larger(s.theta, small));
            let dstar = v(larger(s.delta_star, small));
            &&& theta > 0real && dstar > 0real
            &&& -d <= v(x[1]) / theta <= d
            &&& -d <= v(x[2]) / dstar <= d
            &&& laminar ==> -d <= v(x[0]) / 10real <= d
            &&& !direct ==> v(larger(s.u, tenths::<S>(6))) > 0real && -d <= v(x[3]) / v(
                larger(s.u, tenths::<S>(6)),
            ) <= d
            &&& d >= 0real
        }),
{
    lemma_tenths(v, 12);
    lemma_tenths(v, 6);
    let small = tenths::<S>(12);
    let ctau = larger(s.ctau, tenths::<S>(6));
    assert(v(ctau) > 0real);
    let theta = larger(s.theta, small);
    let dstar = larger(s.delta_star, small);
    let u = larger(s.u, tenths::<S>(6));
    assert(v(x[1] / theta) == v(x[1]) / v(theta));
    assert(v(x[2] / dstar) == v(x[2]) / v(dstar));
    assert(v(x[3] / u) == v(x[3]) / v(u));
    assert(v(x[0] / whole::<S>(10)) == v(x[0]) / 10real);
}

/// A scaled solution satisfies the scaled equation.
pub proof fn lemma_scaled_answer<S: Real>(
    v: spec_fn(S) -> real,
    row: [S; 5],
    w: real,
    x0: real,
    x1: real,
    x2: real,
    x3: real,
)
    ensures
        answer(v, row, w * x0, w * x1, w * x2, w * x3) == w * answer(v, row, x0, x1, x2, x3),
{
    let (a, b, c, d) = (v(row[0]), v(row[1]), v(row[2]), v(row[3]));
    lemma_swap(a, w, x0);
    lemma_swap(b, w, x1);
    lemma_swap(c, w, x2);
    lemma_swap(d, w, x3);
    lemma_distribute(w, a * x0 + b * x1 + c * x2, d * x3);
    lemma_distribute(w, a * x0 + b * x1, c * x2);
    lemma_distribute(w, a * x0, b * x1);
}

/// A step that ends off the bounds is the scaled solution itself.
proof fn lemma_stepped<S: Real>(
    v: spec_fn(S) -> real,
    s: BlStation<S>,
    x: [S; 4],
    rlx: S,
    laminar: bool,
    direct: bool,
    is_wake: bool,
)
    requires
        exact(v),
        off_bounds(v, stepped(s, x, rlx, laminar, direct, is_wake), laminar, is_wake),
    ensures
        ({
            let r = stepped(s, x, rlx, laminar, direct, is_wake);
            let w = v(rlx);
            &&& v(r.theta) - v(s.theta) == w * v(x[1])
            &&& v(r.delta_star) - v(s.delta_star) == w * v(x[2])
            &&& first_change(v, s, r, laminar) == w * v(x[0])
            &&& direct ==> r.u == s.u
            &&& !direct ==> v(r.u) - v(s.u) == w * v(x[3])
            &&& laminar ==> r.ctau == s.ctau
            &&& !laminar ==> r.ampl == s.ampl
        }),
{
    let r = stepped(s, x, rlx, laminar, direct, is_wake);
    let small = tenths::<S>(12);
    lemma_tenths(v, 12);
    let theta = larger(s.theta + rlx * x[1], small);
    let delta_star = larger(s.delta_star + rlx * x[2], small);
    let gap = larger(s.dw, whole::<S>(0));
    let hklim = if is_wake {
        decimal::<S>(100005, 100000)
    } else {
        decimal::<S>(102, 100)
    };
    let dsw = if is_wake {
        delta_star - gap
    } else {
        delta_star
    };
    assert(r.theta == theta);
    assert(v(theta) > v(small));
    assert(v(decimal::<S>(3, 10)) == 3real / 10real);
    if dsw / larger(theta, small) < hklim {
        assert(v(hklim * theta) == v(hklim) * v(theta));
        assert(false);
    }
    assert(r.delta_star == delta_star);
}

/// An iteration at a station that keeps its form is a step of Newton's method: where it ends
/// off the bounds, the changes of the variables satisfy the linearised equations, to the part
/// `w` to which the step was taken. In the direct form the velocity stays; in the inverse form
/// the kinematic shape parameter goes the same part of the way to its target, to first order.
/// The step is taken whole where no change is above three tenths, and never changes a
/// thickness by more than three tenths of it.
pub proof fn law_station_step_is_newton<S: Real, T>(
    v: spec_fn(S) -> real,
    task: StationTask<S>,
    st: StationState<S>,
    laws: BlLaws<S, T>,
)
    requires
        exact(v),
        keeps_primary(laws),
        forall|q: StationSystem<S>|
            is_system_of(v, q, task.looked(st, laws), task.linearised(st, laws))
                ==> #[trigger] solver_solves(v, laws, q),
        task.iteration(st, laws).0.direct == task.looked(st, laws).direct,
        off_bounds(
            v,
            task.iteration(st, laws).0.station,
            task.looked(st, laws).laminar,
            task.is_wake,
        ),
    ensures
        ({
            let now = task.looked(st, laws);
            let block = task.linearised(st, laws);
            let (after, _) = task.iteration(st, laws);
            let s = now.station;
            let r = after.station;
            let d0 = first_change(v, s, r, now.laminar);
            let d1 = v(r.theta) - v(s.theta);
            let d2 = v(r.delta_star) - v(s.delta_star);
            let d3 = v(r.u) - v(s.u);
            let theta = v(larger(s.theta, tenths::<S>(12)));
            let dstar = v(larger(s.delta_star, tenths::<S>(12)));
            exists|w: real|
                {
                    &&& #[trigger] satisfies_part(v, block, w, d0, d1, d2, d3)
                    &&& 0real < w <= 1real
                    &&& v(after.dmax) <= 3real / 10real ==> w == 1real
                    &&& now.direct ==> d3 == 0real
                    &&& !now.direct ==> v(s.derivs.hk_h) * v(s.derivs.h_theta) * d1 + v(
                        s.derivs.hk_h,
                    ) * v(s.derivs.h_delta_star) * d2 == w * (v(now.htarg) - v(s.hk))
                    &&& -(3real / 10real * theta) <= d1 <= 3real / 10real * theta
                    &&& -(3real / 10real * dstar) <= d2 <= 3real / 10real * dstar
                }
        }),
{
    let now = task.looked(st, laws);
    let block = task.linearised(st, laws);
    let (after, _) = task.iteration(st, laws);
    let s = now.station;
    let r = after.station;
    let x = task.newton_step(now, block, laws);
    let dmax = largest_change(s, x, now.laminar, now.direct);
    let rlx = step_scale(dmax);
    let w = v(rlx);
    let q = StationSystem {
        vs2: block.vs2,
        residuals: block.residuals,
        direct: now.direct,
        hk2_t: s.derivs.hk_h * s.derivs.h_theta,
        hk2_d: s.derivs.hk_h * s.derivs.h_delta_star,
        hk2_u: whole::<S>(0),
        htarg: now.htarg,
        hk: s.hk,
    };
    assert(is_system_of(v, q, now, block));
    assert(solver_solves(v, laws, q));
    let moved = stepped(s, x, rlx, now.laminar, now.direct, task.is_wake);
    assert(after.dmax == dmax);
    assert(r == (laws.blvar)(moved, now.flow, task.msq, task.re));
    lemma_stepped(v, s, x, rlx, now.laminar, now.direct, task.is_wake);
    lemma_scale(v, dmax);
    lemma_largest(v, s, x, now.laminar, now.direct);
    let d0 = first_change(v, s, r, now.laminar);
    let d1 = v(r.theta) - v(s.theta);
    let d2 = v(r.delta_star) - v(s.delta_star);
    let d3 = v(r.u) - v(s.u);
    if now.direct {
        lemma_zero(w);
        assert(v(x[3]) == 0real);
    }
    assert(d3 == w * v(x[3]));
    assert forall|k: int| 0 <= k < 3 implies #[trigger] answer(v, block.vs2[k], d0, d1, d2, d3)
        == w * v(block.residuals[k]) by {
        lemma_scaled_answer(v, block.vs2[k], w, v(x[0]), v(x[1]), v(x[2]), v(x[3]));
        assert(answer(v, q.vs2[k], v(x[0]), v(x[1]), v(x[2]), v(x[3])) == v(q.residuals[k]));
    }
    assert(satisfies_part(v, block, w, d0, d1, d2, d3));
    let theta = v(larger(s.theta, tenths::<S>(12)));
    let dstar = v(larger(s.delta_star, tenths::<S>(12)));
    lemma_part(v(x[1]), theta, v(dmax), w);
    lemma_part(v(x[2]), dstar, v(dmax), w);
    if !now.direct {
        let t = v(s.derivs.hk_h) * v(s.derivs.h_theta);
        let d = v(s.derivs.hk_h) * v(s.derivs.h_delta_star);
        lemma_zero(v(x[3]));
        assert(t * v(x[1]) + d * v(x[2]) == v(now.htarg) - v(s.hk));
        lemma_swap(t, w, v(x[1]));
        lemma_swap(d, w, v(x[2]));
        lemma_distribute(w, t * v(x[1]), d * v(x[2]));
    }
}

/// A station that an iteration moved lies within its bounds.
pub proof fn law_station_stays_within_bounds<S: Real, T>(
    v: spec_fn(S) -> real,
    task: StationTask<S>,
    st: StationState<S>,
    laws: BlLaws<S, T>,
)
    requires
        exact(v),
        keeps_primary(laws),
        task.iteration(st, laws).0.direct == task.looked(st, laws).direct,
    ensures
        ({
            let now = task.looked(st, laws);
            let r = task.iteration(st, laws).0.station;
            let gap = if task.is_wake && v(now.station.dw) > 0real {
                v(now.station.dw)
            } else {
                0real
            };
            let limit = if task.is_wake {
                100005real / 100000real
            } else {
                102real / 100real
            };
            &&& v(r.theta) >= v(tenths::<S>(12))
            &&& v(r.delta_star) - gap >= limit * v(r.theta)
            &&& now.laminar ==> v(r.ampl) >= 0real && r.ctau == now.station.ctau
            &&& !now.laminar ==> v(tenths::<S>(7)) <= v(r.ctau) <= 3real / 10real && r.ampl
                == now.station.ampl
        }),
{
    let now = task.looked(st, laws);
    let block = task.linearised(st, laws);
    let s = now.station;
    let x = task.newton_step(now, block, laws);
    let rlx = step_scale(largest_change(s, x, now.laminar, now.direct));
    let r = stepped(s, x, rlx, now.laminar, now.direct, task.is_wake);
    let small = tenths::<S>(12);
    lemma_tenths(v, 12);
    lemma_tenths_small::<S>(v, 7);
    assert(task.iteration(st, laws).0.station == (laws.blvar)(r, now.flow, task.msq, task.re));
    assert(v(decimal::<S>(3, 10)) == 3real / 10real);
    let delta_star = larger(s.delta_star + rlx * x[2], small);
    let gap = larger(s.dw, whole::<S>(0));
    let dsw = if task.is_wake {
        delta_star - gap
    } else {
        delta_star
    };
    let hklim = if task.is_wake {
        decimal::<S>(100005, 100000)
    } else {
        decimal::<S>(102, 100)
    };
    let theta = v(r.theta);
    assert(v(larger(r.theta, small)) == theta);
    assert(v(hklim * r.theta) == v(hklim) * theta);
    if !(dsw / larger(r.theta, small) < hklim) {
        lemma_quotient(v(dsw), theta);
        lemma_product_order(v(hklim), v(dsw) / theta, theta);
    }
}

/// A pair of equations, by its determinant.
proof fn lemma_cramer(a: real, b: real, c: real, d: real, p: real, q: real)
    requires
        a * d - b * c != 0real,
    ensures
        ({
            let det = a * d - b * c;
            let x = (p * d - q * b) / det;
            let y = (a * q - c * p) / det;
            &&& a * x + b * y == p
            &&& c * x + d * y == q
        }),
{
    let det = a * d - b * c;
    let m = p * d - q * b;
    let n = a * q - c * p;
    let x = m / det;
    let y = n / det;
    lemma_quotient(m, det);
    lemma_quotient(n, det);
    // The first equation.
    lemma_swap(a, x, det);
    lemma_associate(a, x, det);
    lemma_associate(b, y, det);
    let l = a * x + b * y;
    lemma_commute(l, det);
    lemma_distribute(det, a * x, b * y);
    lemma_commute(det, a * x);
    lemma_commute(det, b * y);
    assert(l * det == a * m + b * n);
    lemma_difference(a, p * d, q * b);
    lemma_difference(b, a * q, c * p);
    lemma_swap(a, p, d);
    lemma_swap(b, a, q);
    lemma_commute(q, b);
    lemma_swap(b, c, p);
    lemma_commute(b, c);
    lemma_difference(p, a * d, b * c);
    lemma_swap(a, q, b);
    lemma_swap(p, b, c);
    assert(l * det == p * det);
    lemma_commute(p, det);
    lemma_cancel(det, l);
    lemma_cancel(det, p);
    // The second equation.
    let r = c * x + d * y;
    lemma_associate(c, x, det);
    lemma_associate(d, y, det);
    lemma_commute(r, det);
    lemma_distribute(det, c * x, d * y);
    lemma_commute(det, c * x);
    lemma_commute(det, d * y);
    assert(r * det == c * m + d * n);
    lemma_difference(c, p * d, q * b);
    lemma_difference(d, a * q, c * p);
    lemma_swap(c, p, d);
    lemma_swap(d, c, p);
    lemma_commute(d, p);
    lemma_swap(c, q, b);
    lemma_commute(c, b);
    lemma_swap(d, a, q);
    lemma_swap(a, d, q);
    lemma_commute(d, q);
    lemma_swap(a, q, d);
    lemma_difference(q, a * d, b * c);
    assert(r * det == q * det);
    lemma_commute(q, det);
    lemma_cancel(det, r);
    lemma_cancel(det, q);
}

/// Changes of both thicknesses satisfy the two equations of the similarity station, taken to
/// the part `w`.
pub open spec fn satisfies_similarity<S: Real>(
    v: spec_fn(S) -> real,
    block: IntervalBlock<S>,
    w: real,
    d1: real,
    d2: real,
) -> bool {
    &&& v(block.vs2[1][1]) * d1 + v(block.vs2[1][2]) * d2 == w * v(block.residuals[1])
    &&& v(block.vs2[2][1]) * d1 + v(block.vs2[2][2]) * d2 == w * v(block.residuals[2])
}

/// An iteration at the similarity station is a step of Newton's method: where both
/// thicknesses end off their bounds, their changes satisfy the linearised equations of
/// momentum and shape, to the part to which the step was taken. A step that ends the iteration
/// by convergence, at a tolerance of three tenths or less, is taken whole.
pub proof fn law_similarity_step_is_newton<S: Real, T>(
    v: spec_fn(S) -> real,
    s: BlStation<S>,
    msq: S,
    re: S,
    tolerance: S,
    laws: BlLaws<S, T>,
)
    requires
        exact(v),
        keeps_primary(laws),
        ({
            let r = similarity_iteration(s, msq, re, tolerance, laws).0;
            &&& v(r.theta) > v(tenths::<S>(12))
            &&& v(r.delta_star) > v(tenths::<S>(12))
        }),
        ({
            let m = (laws.equations)(
                Interval::Similarity { s2: s, flow: FlowType::Laminar },
                whole::<S>(9),
                msq,
                re,
            ).vs2;
            let det = v(m[1][1]) * v(m[2][2]) - v(m[1][2]) * v(m[2][1]);
            det >= v(tenths::<S>(20)) || det <= -v(tenths::<S>(20))
        }),
    ensures
        ({
            let block = (laws.equations)(
                Interval::Similarity { s2: s, flow: FlowType::Laminar },
                whole::<S>(9),
                msq,
                re,
            );
            let (r, done) = similarity_iteration(s, msq, re, tolerance, laws);
            let d1 = v(r.theta) - v(s.theta);
            let d2 = v(r.delta_star) - v(s.delta_star);
            let theta = v(larger(s.theta, tenths::<S>(12)));
            let dstar = v(larger(s.delta_star, tenths::<S>(12)));
            exists|w: real|
                {
                    &&& #[trigger] satisfies_similarity(v, block, w, d1, d2)
                    &&& 0real < w <= 1real
                    &&& done && v(tolerance) <= 3real / 10real ==> w == 1real
                    &&& -(3real / 10real * theta) <= d1 <= 3real / 10real * theta
                    &&& -(3real / 10real * dstar) <= d2 <= 3real / 10real * dstar
                }
        }),
{
    let block = (laws.equations)(
        Interval::Similarity { s2: s, flow: FlowType::Laminar },
        whole::<S>(9),
        msq,
        re,
    );
    let small = tenths::<S>(12);
    lemma_tenths(v, 12);
    lemma_tenths(v, 20);
    let a11 = block.vs2[1][1];
    let a12 = block.vs2[1][2];
    let a21 = block.vs2[2][1];
    let a22 = block.vs2[2][2];
    let b1 = block.residuals[1];
    let b2 = block.residuals[2];
    let det = a11 * a22 - a12 * a21;
    assert(!(abs(det) < tenths::<S>(20)));
    let d_theta = (b1 * a22 - b2 * a12) / det;
    let d_dstar = (a11 * b2 - a21 * b1) / det;
    lemma_cramer(v(a11), v(a12), v(a21), v(a22), v(b1), v(b2));
    let theta = larger(s.theta, small);
    let dstar = larger(s.delta_star, small);
    let dmax = larger(abs(d_theta / theta), abs(d_dstar / dstar));
    assert(v(d_theta / theta) == v(d_theta) / v(theta));
    assert(v(d_dstar / dstar) == v(d_dstar) / v(dstar));
    let w = v(step_scale(dmax));
    lemma_scale(v, dmax);
    lemma_part(v(d_theta), v(theta), v(dmax), w);
    lemma_part(v(d_dstar), v(dstar), v(dmax), w);
    let r = similarity_iteration(s, msq, re, tolerance, laws).0;
    let d1 = v(r.theta) - v(s.theta);
    let d2 = v(r.delta_star) - v(s.delta_star);
    assert(d1 == w * v(d_theta));
    assert(d2 == w * v(d_dstar));
    lemma_swap(v(a11), w, v(d_theta));
    lemma_swap(v(a12), w, v(d_dstar));
    lemma_distribute(w, v(a11) * v(d_theta), v(a12) * v(d_dstar));
    lemma_swap(v(a21), w, v(d_theta));
    lemma_swap(v(a22), w, v(d_dstar));
    lemma_distribute(w, v(a21) * v(d_theta), v(a22) * v(d_dstar));
    assert(satisfies_similarity(v, block, w, d1, d2));
}

/// The first station satisfies the formula of Thwaites for a stagnation flow, and has the
/// shape parameter of such a flow.
pub proof fn law_stagnation_flow<S: Real, T>(
    v: spec_fn(S) -> real,
    x: S,
    ue: S,
    re: S,
    laws: BlLaws<S, T>,
)
    requires
        exact(v),
        takes_roots(v, laws.sqrt),
        v(x) > 0real,
        v(ue) > 0real,
        v(re) > 0real,
        forall|s: BlStation<S>| #[trigger] refreshes_mass_alone(laws, s),
        v(stagnation_station(x, ue, re, laws).theta) > v(tenths::<S>(12)),
    ensures
        ({
            let s = stagnation_station(x, ue, re, laws);
            let theta = v(s.theta);
            &&& v(ue) / v(x) * 6real * (3real * v(re)) * (theta * theta) == 45real / 100real
            &&& v(s.delta_star) == 22real / 10real * theta
            &&& v(s.r_theta) == v(re) * v(ue) * theta
            &&& s.x == x && s.u == ue
            &&& s.is_laminar && !s.is_turbulent && !s.is_wake
        }),
{
    let k = ue / x * whole::<S>(6) * (whole::<S>(3) * re);
    lemma_positive_quotient(v(ue), v(x));
    lemma_positive_product(v(ue) / v(x), 6real);
    lemma_positive_product(3real, v(re));
    lemma_positive_product(v(ue) / v(x) * 6real, 3real * v(re));
    let rk = v(k);
    assert(rk == v(ue) / v(x) * 6real * (3real * v(re)));
    let c = decimal::<S>(45, 100);
    assert(v(c) == 45real / 100real);
    let tsq = c / k;
    assert(v(tsq) == 45real / 100real / rk);
    lemma_positive_quotient(45real / 100real, rk);
    lemma_quotient(45real / 100real, rk);
    let theta = larger((laws.sqrt)(tsq), tenths::<S>(12));
    let delta_star = decimal::<S>(22, 10) * theta;
    let h = delta_star / theta;
    let bare = BlStation {
        x,
        u: ue,
        theta,
        delta_star,
        h,
        hk: h,
        ampl: whole::<S>(0),
        ctau: decimal::<S>(3, 100),
        is_laminar: true,
        is_turbulent: false,
        is_wake: false,
        r_theta: re * ue * theta,
        ..laws.blank
    };
    assert(refreshes_mass_alone(laws, bare));
    assert(stagnation_station(x, ue, re, laws) == (laws.refreshed)(bare));
    assert(theta == (laws.sqrt)(tsq));
    lemma_commute(rk, v(tsq));
}

/// To refresh the mass defect of a station changes nothing else.
pub open spec fn refreshes_mass_alone<S: Real, T>(laws: BlLaws<S, T>, s: BlStation<S>) -> bool {
    let r = (laws.refreshed)(s);
    r == (BlStation { mass_defect: r.mass_defect, ..s })
}

/// A thickness has the shape parameter `h` against another, the smaller of which is kept from
/// zero.
pub open spec fn shaped<S: Real>(v: spec_fn(S) -> real, h: S, dstar: real, theta: real) -> bool {
    v(h) * theta == dstar
}

/// A station keeps the direct form only with a kinematic shape parameter below its limit, and
/// leaves it only where the step would not keep it there: then the station stays as it is,
/// and the inverse form takes over with its target.
pub proof fn law_direct_form_keeps_its_shape<S: Real, T>(
    v: spec_fn(S) -> real,
    task: StationTask<S>,
    st: StationState<S>,
    laws: BlLaws<S, T>,
)
    requires
        exact(v),
        keeps_primary(laws),
        task.looked(st, laws).direct,
        off_bounds(
            v,
            task.iteration(st, laws).0.station,
            task.looked(st, laws).laminar,
            task.is_wake,
        ),
    ensures
        ({
            let now = task.looked(st, laws);
            let (after, converged) = task.iteration(st, laws);
            let r = after.station;
            &&& after.direct ==> exists|h: S| #[trigger]
                shaped(v, h, v(r.delta_star), v(r.theta)) && (laws.hkin)(h, task.msq).0
                    < task.hmax(now)
            &&& !after.direct ==> r == now.station && after.htarg == task.target(now)
                && !converged
            &&& converged ==> v(after.dmax) <= v(task.tolerance)
        }),
{
    let now = task.looked(st, laws);
    let block = task.linearised(st, laws);
    let s = now.station;
    let x = task.newton_step(now, block, laws);
    let rlx = step_scale(largest_change(s, x, now.laminar, now.direct));
    let (after, converged) = task.iteration(st, laws);
    if after.direct {
        let small = tenths::<S>(12);
        lemma_tenths(v, 12);
        lemma_stepped(v, s, x, rlx, now.laminar, now.direct, task.is_wake);
        let theta = larger(s.theta + rlx * x[1], small);
        let dstar = s.delta_star + rlx * x[2];
        let h = dstar / theta;
        let r = after.station;
        assert(v(theta) == v(r.theta));
        assert(v(dstar) == v(r.delta_star));
        lemma_quotient(v(dstar), v(theta));
        assert(shaped(v, h, v(r.delta_star), v(r.theta)));
    }
}

/// Where transition is found first, the station turns turbulent, with three hundredths of
/// shear stress and the amplification that was found, and keeps its thicknesses and its
/// velocity; where none is found, nothing changes.
pub proof fn law_transition_turns_the_station<S: Real, T>(
    v: spec_fn(S) -> real,
    task: StationTask<S>,
    st: StationState<S>,
    laws: BlLaws<S, T>,
)
    requires
        exact(v),
        keeps_primary(laws),
    ensures
        ({
            let tr = task.check(st.station, laws);
            let now = task.looked(st, laws);
            let found = v(task.ncrit) > 0real && (st.laminar || st.active || task.x_forced is Some)
                && tr.transition;
            let (s, r) = (st.station, now.station);
            &&& !found ==> now == st
            &&& found ==> now.xt == Some(tr.xt) && now.active
            &&& found && st.active ==> r == s && now.laminar == st.laminar
            &&& found && !st.active ==> {
                &&& !now.laminar && now.flow == FlowType::Turbulent && now.htarg == task.htmax
                &&& v(r.ctau) == 3real / 100real && r.ampl == tr.ampl2
                &&& (r.theta, r.delta_star, r.u) == (s.theta, s.delta_star, s.u)
            }
            &&& now.direct == st.direct
        }),
{
    assert(v(decimal::<S>(3, 100)) == 3real / 100real);
}

/// The iteration of a station starts at its arc length, with the velocity that is given for
/// it and with the thicknesses and the amplification of the guess, or else of the station
/// upstream; in the direct form, laminar as it is told.
pub proof fn law_iteration_starts<S: Real, T>(
    v: spec_fn(S) -> real,
    task: StationTask<S>,
    guess: Option<BlStation<S>>,
    ue_new: S,
    is_laminar: bool,
    laws: BlLaws<S, T>,
)
    requires
        exact(v),
        keeps_primary(laws),
        keeps_regime(laws),
    ensures
        ({
            let from = match guess {
                Some(g) => g,
                None => task.prev,
            };
            let st = first_state(task, guess, ue_new, is_laminar, laws);
            let s = st.station;
            &&& s.x == task.x_new && s.u == ue_new
            &&& (s.theta, s.delta_star, s.ampl) == (from.theta, from.delta_star, from.ampl)
            &&& is_laminar ==> v(s.ctau) == 3real / 100real && st.htarg == task.hlmax
            &&& !is_laminar ==> s.ctau == from.ctau && st.htarg == task.htmax
            &&& st.direct && !st.active && st.laminar == is_laminar && st.xt is None
            &&& (s.is_laminar, s.is_turbulent, s.is_wake) == (is_laminar, !is_laminar, task.is_wake)
        }),
{
    assert(v(decimal::<S>(3, 100)) == 3real / 100real);
}

} // verus!
