//! Where a Newton step moves the boundary layer.
use super::algebra::{
    lemma_associate, lemma_cancel, lemma_commute, lemma_difference, lemma_one, lemma_quotient,
    lemma_swap, lemma_zero, lemma_zero_over,
};
use super::{exact, lemma_tenths};
use crate::callable::value;
use crate::closure::BlLaws;
use crate::global_newton::newton_state::CanonicalNewtonRow;
use crate::global_newton::system::GlobalNewtonSystem;
use crate::global_newton::update::{
    interval_flow, limited_dstr, stepped_row, stepped_station, velocity_change, RowForms, Step,
};
use crate::number::{abs, decimal, larger, tenths, whole, Formula, Real};
use crate::station::{BlStation, FlowType};
use vstd::prelude::*;

verus! {

/// The change of variable `k` that the solution of row `iv` asks for, at the change `dac` of
/// the operating variable.
pub open spec fn asked<S: Real>(v: spec_fn(S) -> real, step: Step<S>, iv: int, k: int) -> real {
    match step.operating {
        Some(op) if iv < op.len() => v(step.deltas[iv][k]) - v(step.dac) * v(op[iv][k]),
        _ => v(step.deltas[iv][k]),
    }
}

/// The velocity that was previewed for a station, at the change `dac` of the operating
/// variable.
pub open spec fn foreseen<S: Real>(
    v: spec_fn(S) -> real,
    step: Step<S>,
    u_new: Seq<S>,
    u_ac: Seq<S>,
    i: int,
) -> real {
    v(u_new[i]) + v(step.dac) * v(u_ac[i])
}

/// The part `w` of the way from `a` to `b`.
pub open spec fn part_way(a: real, b: real, w: real) -> real {
    (1real - w) * a + w * b
}

/// A step that is taken in part, in two forms.
proof fn lemma_part_way(a: real, b: real, w: real)
    ensures
        part_way(a, b, w) == a + w * (b - a),
        w == 1real ==> part_way(a, b, w) == b,
        w == 0real ==> part_way(a, b, w) == a,
{
    lemma_commute(1real - w, a);
    lemma_difference(a, 1real, w);
    lemma_one(a);
    lemma_commute(a, w);
    lemma_difference(w, b, a);
    lemma_one(b);
    lemma_zero(a);
    lemma_zero(b);
}

/// The change of a variable that a solution asks for.
proof fn lemma_asked<S: Real>(v: spec_fn(S) -> real, step: Step<S>, iv: int, k: int)
    requires
        exact(v),
        0 <= iv < step.deltas.len(),
        0 <= k < 3,
    ensures
        v(step.delta(iv)[k]) == asked(v, step, iv, k),
{
    lemma_zero(v(step.dac));
}

/// The displacement thickness whose mass defect changes as the solution asks for, to first
/// order, from the thickness `total` at the velocity `u`.
pub open spec fn carries_the_mass(
    total: real,
    after: real,
    u: real,
    goal: real,
    dm: real,
    w: real,
) -> bool {
    u * (after - total) + total * (w * (goal - u)) == w * dm
}

/// The thickness of a step, from its definition.
proof fn lemma_thickness(total: real, u: real, due: real, dm: real, w: real, after: real)
    requires
        u != 0real,
        carries_the_mass(total, after, u, u + due, dm, w),
    ensures
        after == total + w * ((dm - total * due) / u),
{
    let q = (dm - total * due) / u;
    lemma_quotient(dm - total * due, u);
    lemma_swap(u, w, q);
    assert(u * (w * q) == w * (dm - total * due));
    lemma_difference(w, dm, total * due);
    lemma_swap(total, w, due);
    assert(u * (after - total) == u * (w * q));
    lemma_cancel(u, after - total);
    lemma_cancel(u, w * q);
}

/// `thin` was raised to `r` by the limit on the kinematic shape parameter: at the shape `a`
/// of `thin` the parameter lies below its limit, by what the rise makes up for to first
/// order.
pub open spec fn raised<S: Real>(
    v: spec_fn(S) -> real,
    hkin: spec_fn(S, S) -> (S, S),
    msq: S,
    is_wake: bool,
    theta: real,
    thin: real,
    r: real,
    a: S,
) -> bool {
    let (hk, hk_h) = hkin(a, msq);
    let limit = if is_wake {
        100005real / 100000real
    } else {
        102real / 100real
    };
    &&& v(a) * theta == thin
    &&& v(hk) < limit
    &&& v(hk_h) * (r - thin) == theta * (limit - v(hk))
}

/// The thickness `thin` is kept, or raised by the limit on the kinematic shape parameter.
pub open spec fn limited_to<S: Real>(
    v: spec_fn(S) -> real,
    hkin: spec_fn(S, S) -> (S, S),
    msq: S,
    is_wake: bool,
    theta: real,
    thin: real,
    r: real,
) -> bool {
    r == thin || exists|a: S| #[trigger] raised(v, hkin, msq, is_wake, theta, thin, r, a)
}

/// What the limit on the kinematic shape parameter does to a thickness.
proof fn lemma_limited<S: Real>(
    v: spec_fn(S) -> real,
    hkin: spec_fn(S, S) -> (S, S),
    msq: S,
    is_wake: bool,
    theta: S,
    thin: S,
)
    requires
        exact(v),
        v(theta) >= v(tenths::<S>(12)),
    ensures
        ({
            let r = limited_dstr(is_wake, theta, thin, msq, hkin);
            limited_to(v, hkin, msq, is_wake, v(theta), v(thin), v(r))
        }),
{
    let r = limited_dstr(is_wake, theta, thin, msq, hkin);
    lemma_tenths(v, 12);
    let hklim = if is_wake {
        decimal::<S>(100005, 100000)
    } else {
        decimal::<S>(102, 100)
    };
    let thickness = larger(theta, tenths::<S>(12));
    let a = thin / thickness;
    assert(v(thickness) == v(theta));
    lemma_quotient(v(thin), v(theta));
    let (hk, hk_h) = hkin(a, msq);
    if abs(hk_h) > tenths::<S>(12) {
        let lift = larger(hklim - hk, whole::<S>(0));
        assert(v(hk_h) != 0real);
        assert(v(r) == v(thin) + v(lift) / v(hk_h) * v(theta));
        if v(lift) == 0real {
            lemma_zero_over(v(hk_h));
            lemma_zero(v(theta));
        } else {
            let q = v(lift) / v(hk_h);
            lemma_quotient(v(lift), v(hk_h));
            lemma_associate(v(hk_h), q, v(theta));
            lemma_commute(v(lift), v(theta));
            assert(raised(v, hkin, msq, is_wake, v(theta), v(thin), v(r), a));
        }
    }
}

/// A step moves every variable of a station that has a row towards what the solution asks
/// for, as far as its scale says: the velocity towards the previewed one, which a whole step
/// meets, the momentum thickness and the amplification or shear stress by their changes, and
/// the displacement thickness such that the mass defect changes as asked for, to first order.
/// The shear stress ends at a quarter, and the limit on the shape parameter may raise the
/// displacement thickness.
pub proof fn law_step_meets_the_solution<S: Real>(
    v: spec_fn(S) -> real,
    step: Step<S>,
    system: &GlobalNewtonSystem<S>,
    surface: int,
    stations: Seq<BlStation<S>>,
    u_new: Seq<S>,
    u_ac: Seq<S>,
    rlx: S,
    msq: S,
    hkin: spec_fn(S, S) -> (S, S),
    i: int,
    after: real,
)
    requires
        exact(v),
        0 < i < stations.len(),
        i < u_new.len(),
        i < u_ac.len(),
        0 <= system.row_of(surface, i) < step.deltas.len(),
        v(stations[i].u) != 0real,
        carries_the_mass(
            v(stations[i].delta_star) + (if stations[i].is_wake {
                v(stations[i].dw)
            } else {
                0real
            }),
            after,
            v(stations[i].u),
            foreseen(v, step, u_new, u_ac, i),
            asked(v, step, system.row_of(surface, i), 2),
            v(rlx),
        ),
    ensures
        ({
            let s = stations[i];
            let r = step.moved(system, surface, stations, u_new, u_ac, rlx, msq, hkin, i);
            let iv = system.row_of(surface, i);
            let w = v(rlx);
            let first = w * asked(v, step, iv, 0);
            let gap = if s.is_wake {
                v(s.dw)
            } else {
                0real
            };
            &&& v(r.u) == part_way(v(s.u), foreseen(v, step, u_new, u_ac, i), w)
            &&& w == 1real ==> v(r.u) == foreseen(v, step, u_new, u_ac, i)
            &&& v(r.theta) == v(s.theta) + w * asked(v, step, iv, 1)
            &&& s.is_laminar ==> v(r.ampl) == v(s.ampl) + first && r.ctau == s.ctau
            &&& !s.is_laminar ==> r.ampl == s.ampl && v(r.ctau) == (if v(s.ctau) + first > 1real
                / 4real {
                1real / 4real
            } else {
                v(s.ctau) + first
            })
            &&& v(r.theta) >= v(tenths::<S>(12)) ==> limited_to(
                v,
                hkin,
                msq,
                s.is_wake,
                v(r.theta),
                after - gap - v(s.dw),
                v(r.delta_star) - v(s.dw),
            )
        }),
{
    let s = stations[i];
    let iv = system.row_of(surface, i);
    let delta = step.delta(iv);
    let due = velocity_change(u_new, u_ac, step.dac, s.u, i);
    let goal = foreseen(v, step, u_new, u_ac, i);
    let w = v(rlx);
    lemma_asked(v, step, iv, 0);
    lemma_asked(v, step, iv, 1);
    lemma_asked(v, step, iv, 2);
    assert(v(due) == goal - v(s.u));
    lemma_part_way(v(s.u), goal, w);
    let t = stepped_station(s, delta, due, rlx);
    let total = v(s.delta_star) + (if s.is_wake {
        v(s.dw)
    } else {
        0real
    });
    lemma_thickness(total, v(s.u), v(due), v(delta[2]), w, after);
    assert(v(decimal::<S>(1, 4)) == 1real / 4real);
    let r = step.moved(system, surface, stations, u_new, u_ac, rlx, msq, hkin, i);
    assert(r.u == t.u && r.theta == t.theta);
    let gap = if s.is_wake {
        v(s.dw)
    } else {
        0real
    };
    assert(v(t.delta_star) + gap == after);
    let first = w * asked(v, step, iv, 0);
    assert(v(r.theta) == v(s.theta) + w * asked(v, step, iv, 1));
    if s.is_laminar {
        assert(v(r.ampl) == v(s.ampl) + first);
    } else {
        assert(v(s.ctau + rlx * delta[0]) == v(s.ctau) + first);
        assert(v(r.ctau) == (if v(s.ctau) + first > 1real / 4real {
            1real / 4real
        } else {
            v(s.ctau) + first
        }));
    }
    if v(r.theta) >= v(tenths::<S>(12)) {
        let thin = t.delta_star - t.dw;
        lemma_limited(v, hkin, msq, s.is_wake, t.theta, thin);
        let full = limited_dstr(s.is_wake, t.theta, thin, msq, hkin);
        assert(r.delta_star == full + t.dw);
        assert(v(full) == v(r.delta_star) - v(s.dw));
        assert(v(thin) == after - gap - v(s.dw));
    }
}

/// The variables of a row survive its turn to a station and back: the secondary variables do
/// not decide them.
pub open spec fn rows_survive<
    S: Real,
    T,
    A: Fn((CanonicalNewtonRow<S>, FlowType)) -> BlStation<S>,
    C: Fn((CanonicalNewtonRow<S>, BlStation<S>)) -> CanonicalNewtonRow<S>,
>(forms: RowForms<A, C>, laws: BlLaws<S, T>) -> bool {
    &&& forall|row: CanonicalNewtonRow<S>, flow: FlowType|
        (#[trigger] value(forms.as_station, (row, flow))).is_wake == row.is_wake
    &&& forall|s: BlStation<S>, flow: FlowType, msq: S, re: S|
        {
            let r = #[trigger] (laws.blvar)(s, flow, msq, re);
            (r.u, r.theta, r.delta_star, r.ctau, r.ampl) == (
                s.u,
                s.theta,
                s.delta_star,
                s.ctau,
                s.ampl,
            )
        }
    &&& forall|row: CanonicalNewtonRow<S>, s: BlStation<S>|
        {
            let r = #[trigger] value(forms.overwrite, (row, s));
            (r.uedg, r.theta, r.dstr, r.ctau, r.ampl) == (
                s.u,
                s.theta,
                s.delta_star,
                s.ctau,
                s.ampl,
            )
        }
}

/// A step moves every variable of a row of a view as it does those of a station.
pub proof fn law_step_on_rows_meets_the_solution<
    S: Real,
    T,
    A: Fn((CanonicalNewtonRow<S>, FlowType)) -> BlStation<S>,
    C: Fn((CanonicalNewtonRow<S>, BlStation<S>)) -> CanonicalNewtonRow<S>,
>(
    v: spec_fn(S) -> real,
    step: Step<S>,
    system: &GlobalNewtonSystem<S>,
    surface: int,
    rows: Seq<CanonicalNewtonRow<S>>,
    flow_types: Seq<FlowType>,
    u_new: Seq<S>,
    u_ac: Seq<S>,
    rlx: S,
    msq: S,
    re: S,
    forms: RowForms<A, C>,
    laws: BlLaws<S, T>,
    i: int,
    after: real,
)
    requires
        exact(v),
        rows_survive(forms, laws),
        0 < i < rows.len(),
        i < u_new.len(),
        i < u_ac.len(),
        0 <= system.row_of(surface, i) < step.deltas.len(),
        v(rows[i].uedg) >= v(tenths::<S>(12)),
        carries_the_mass(
            v(rows[i].dstr) + (if rows[i].is_wake {
                v(rows[i].dw)
            } else {
                0real
            }),
            after,
            v(rows[i].uedg),
            foreseen(v, step, u_new, u_ac, i),
            asked(v, step, system.row_of(surface, i), 2),
            v(rlx),
        ),
    ensures
        ({
            let s = rows[i];
            let r = step.moved_row(
                system,
                surface,
                rows,
                flow_types,
                u_new,
                u_ac,
                rlx,
                msq,
                re,
                forms,
                laws,
                i,
            );
            let iv = system.row_of(surface, i);
            let w = v(rlx);
            let first = w * asked(v, step, iv, 0);
            let gap = if s.is_wake {
                v(s.dw)
            } else {
                0real
            };
            &&& v(r.uedg) == part_way(v(s.uedg), foreseen(v, step, u_new, u_ac, i), w)
            &&& w == 1real ==> v(r.uedg) == foreseen(v, step, u_new, u_ac, i)
            &&& v(r.theta) == v(s.theta) + w * asked(v, step, iv, 1)
            &&& s.is_laminar ==> v(r.ampl) == v(s.ampl) + first && r.ctau == s.ctau
            &&& !s.is_laminar ==> r.ampl == s.ampl && v(r.ctau) == (if v(s.ctau) + first > 1real
                / 4real {
                1real / 4real
            } else {
                v(s.ctau) + first
            })
            &&& v(r.theta) >= v(tenths::<S>(12)) ==> limited_to(
                v,
                laws.hkin,
                msq,
                s.is_wake,
                v(r.theta),
                after - gap,
                v(r.dstr),
            )
        }),
{
    let s = rows[i];
    let iv = system.row_of(surface, i);
    let delta = step.delta(iv);
    let due = velocity_change(u_new, u_ac, step.dac, s.uedg, i);
    let goal = foreseen(v, step, u_new, u_ac, i);
    let w = v(rlx);
    lemma_asked(v, step, iv, 0);
    lemma_asked(v, step, iv, 1);
    lemma_asked(v, step, iv, 2);
    lemma_tenths(v, 12);
    assert(v(due) == goal - v(s.uedg));
    lemma_part_way(v(s.uedg), goal, w);
    let t = stepped_row(s, delta, due, rlx);
    let gap = if s.is_wake {
        v(s.dw)
    } else {
        0real
    };
    let total = v(s.dstr) + gap;
    lemma_thickness(total, v(s.uedg), v(due), v(delta[2]), w, after);
    assert(v(decimal::<S>(1, 4)) == 1real / 4real);
    let r = step.moved_row(
        system,
        surface,
        rows,
        flow_types,
        u_new,
        u_ac,
        rlx,
        msq,
        re,
        forms,
        laws,
        i,
    );
    let station = value(forms.as_station, (t, interval_flow(flow_types, i)));
    assert(station.is_wake == s.is_wake);
    assert(r.uedg == t.uedg && r.theta == t.theta && r.ctau == t.ctau && r.ampl == t.ampl);
    assert(v(t.dstr) + gap == after);
    let first = w * asked(v, step, iv, 0);
    if !s.is_laminar {
        assert(v(s.ctau + rlx * delta[0]) == v(s.ctau) + first);
    }
    if v(r.theta) >= v(tenths::<S>(12)) {
        lemma_limited(v, laws.hkin, msq, s.is_wake, t.theta, t.dstr);
        assert(v(t.dstr) == after - gap);
    }
}

} // verus!
