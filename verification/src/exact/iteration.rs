//! What one Newton iteration of both surfaces solves.
use super::algebra::{
    lemma_cancel, lemma_commute, lemma_difference, lemma_distribute, lemma_quotient, lemma_zero,
    lemma_zero_over,
};
use super::coupling::{
    changes_by_mass, changes_of_velocity, follows, follows_at_the_edge, gap_changes,
    law_mass_columns_are_derivatives, law_right_hand_sides, law_velocity_answers_to_mass,
    row_answer, runs, Changes,
};
use super::flow::carry_the_step;
use super::newton::{block, edge_block, left_side, masses, weighted};
use super::{exact, lemma_tenths};
use crate::closure::{BlLaws, Conditions};
use crate::global_newton::assemble::RowTables;
use crate::global_newton::coupling::{surface_of, velocity_by_mass, SurfaceInputs};
use crate::global_newton::influence::{
    both_surfaces_sum, direction, induced_velocity, influence, points_of, surface_sum, EdgePoint,
};
use crate::global_newton::system::GlobalNewtonSystem;
use crate::number::{whole, Formula, Real};
use crate::station::{BlStation, Matrix};
use vstd::prelude::*;

verus! {

/// The sum of `f(l)`, from `from` up to, but not including, `to`.
pub open spec fn total(f: spec_fn(int) -> real, from: int, to: int) -> real
    decreases to - from,
{
    if to <= from {
        0real
    } else {
        total(f, from, to - 1) + f(to - 1)
    }
}

/// A weighted sum, with its last term apart.
proof fn lemma_last_weight(c: spec_fn(int) -> real, x: spec_fn(int) -> real, from: int, to: int)
    requires
        from < to,
    ensures
        weighted(c, x, from, to) == weighted(c, x, from, to - 1) + c(to - 1) * x(to - 1),
    decreases to - from,
{
    if from + 1 < to {
        lemma_last_weight(c, x, from + 1, to);
    } else {
        assert(weighted(c, x, from + 1, to) == 0real);
        assert(weighted(c, x, from, to - 1) == 0real);
    }
}

/// A sum in two parts.
proof fn lemma_parts(f: spec_fn(int) -> real, from: int, mid: int, to: int)
    requires
        from <= mid <= to,
    ensures
        total(f, from, to) == total(f, from, mid) + total(f, mid, to),
    decreases to - mid,
{
    if mid < to {
        lemma_parts(f, from, mid, to - 1);
    }
}

/// A sum with at most one term that is not zero.
proof fn lemma_one_term(f: spec_fn(int) -> real, at: int, from: int, to: int)
    requires
        from <= to,
        forall|l: int| from <= l < to && l != at ==> #[trigger] f(l) == 0real,
    ensures
        total(f, from, to) == (if from <= at < to {
            f(at)
        } else {
            0real
        }),
    decreases to - from,
{
    if from < to {
        lemma_one_term(f, at, from, to - 1);
    }
}

/// What a row makes of the sum of two changes.
proof fn lemma_row_answer<S: Real>(
    v: spec_fn(S) -> real,
    t: RowTables<S>,
    k: int,
    a: (real, real, real, real, real),
    b: (real, real, real, real, real),
)
    ensures
        row_answer(v, t, k, a.0 + b.0, a.1 + b.1, a.2 + b.2, a.3 + b.3, a.4 + b.4) == row_answer(
            v,
            t,
            k,
            a.0,
            a.1,
            a.2,
            a.3,
            a.4,
        ) + row_answer(v, t, k, b.0, b.1, b.2, b.3, b.4),
        row_answer(v, t, k, 0real, 0real, 0real, 0real, 0real) == 0real,
{
    lemma_distribute(v(t.vs1_delta[k]), a.0, b.0);
    lemma_distribute(v(t.vs1_ue[k]), a.1, b.1);
    lemma_distribute(v(t.vs2_delta[k]), a.2, b.2);
    lemma_distribute(v(t.vs2_ue[k]), a.3, b.3);
    lemma_distribute(v(t.vs1_x[k]) + v(t.vs2_x[k]), a.4, b.4);
    lemma_zero(v(t.vs1_delta[k]));
    lemma_zero(v(t.vs1_ue[k]));
    lemma_zero(v(t.vs2_delta[k]));
    lemma_zero(v(t.vs2_ue[k]));
    lemma_zero(v(t.vs1_x[k]) + v(t.vs2_x[k]));
}

/// The change of thickness that goes with changes of mass defect and velocity.
spec fn thick<S: Real>(v: spec_fn(S) -> real, s: BlStation<S>, dm: real, du: real) -> real {
    (dm - v(s.mass_defect) / v(s.u) * du) / v(s.u)
}

/// The same at the trailing edge.
spec fn thick_edge<S: Real>(v: spec_fn(S) -> real, s: BlStation<S>, dm: real, du: real) -> real {
    (dm - v(s.delta_star) * du) / v(s.u)
}

/// The change of thickness is the one that goes with the others.
proof fn lemma_thick<S: Real>(v: spec_fn(S) -> real, s: BlStation<S>, dm: real, du: real, dd: real)
    requires
        exact(v),
        runs(v, s),
    ensures
        follows(v, s, dm, du, thick(v, s, dm, du)),
        follows_at_the_edge(v, s, dm, du, thick_edge(v, s, dm, du)),
        follows(v, s, dm, du, dd) ==> dd == thick(v, s, dm, du),
        follows_at_the_edge(v, s, dm, du, dd) ==> dd == thick_edge(v, s, dm, du),
{
    lemma_tenths(v, 12);
    let u = v(s.u);
    lemma_quotient(dm - v(s.mass_defect) / u * du, u);
    lemma_quotient(dm - v(s.delta_star) * du, u);
    lemma_cancel(u, dd);
}

/// Changes of thickness add up as the others do.
proof fn lemma_thick_sum<S: Real>(
    v: spec_fn(S) -> real,
    s: BlStation<S>,
    a: (real, real),
    b: (real, real),
)
    requires
        exact(v),
        runs(v, s),
    ensures
        thick(v, s, a.0 + b.0, a.1 + b.1) == thick(v, s, a.0, a.1) + thick(v, s, b.0, b.1),
        thick_edge(v, s, a.0 + b.0, a.1 + b.1) == thick_edge(v, s, a.0, a.1) + thick_edge(
            v,
            s,
            b.0,
            b.1,
        ),
        thick(v, s, a.0 - b.0, a.1 - b.1) == thick(v, s, a.0, a.1) - thick(v, s, b.0, b.1),
        thick_edge(v, s, a.0 - b.0, a.1 - b.1) == thick_edge(v, s, a.0, a.1) - thick_edge(
            v,
            s,
            b.0,
            b.1,
        ),
        thick(v, s, 0real, 0real) == 0real,
        thick_edge(v, s, 0real, 0real) == 0real,
{
    lemma_tenths(v, 12);
    let u = v(s.u);
    let m = v(s.mass_defect) / u;
    let d = v(s.delta_star);
    lemma_distribute(m, a.1, b.1);
    lemma_distribute(d, a.1, b.1);
    lemma_difference(m, a.1, b.1);
    lemma_difference(d, a.1, b.1);
    lemma_over(a.0 - m * a.1, b.0 - m * b.1, u);
    lemma_over(a.0 - d * a.1, b.0 - d * b.1, u);
    lemma_zero(m);
    lemma_zero(d);
    lemma_zero_over(u);
}

/// Sums and differences of quotients.
proof fn lemma_over(a: real, b: real, u: real)
    by (nonlinear_arith)
    requires
        u != 0real,
    ensures
        (a + b) / u == a / u + b / u,
        (a - b) / u == a / u - b / u,
{
}

/// The changes that the solution of row `jv` makes alone.
spec fn single<S: Real>(
    v: spec_fn(S) -> real,
    system: &GlobalNewtonSystem<S>,
    upper: Seq<BlStation<S>>,
    lower: Seq<BlStation<S>>,
    dij: &Matrix<S>,
    x: Seq<[S; 3]>,
    jv: int,
) -> Changes {
    let (sj, j) = system.station_of(jv);
    changes_by_mass(
        v,
        upper,
        lower,
        dij,
        sj,
        j,
        surface_of(upper, lower, sj)[j].mass_defect + x[jv][2],
    )
}

/// The changes that the solutions of the rows before `to` make together.
spec fn gathered<S: Real>(
    v: spec_fn(S) -> real,
    system: &GlobalNewtonSystem<S>,
    upper: Seq<BlStation<S>>,
    lower: Seq<BlStation<S>>,
    dij: &Matrix<S>,
    x: Seq<[S; 3]>,
    to: int,
) -> Changes {
    Changes {
        du: |s: int, i: int|
            total(
                |jv: int| (single(v, system, upper, lower, dij, x, jv).du)(s, i),
                1,
                to,
            ),
        dm: |s: int, i: int|
            total(
                |jv: int| (single(v, system, upper, lower, dij, x, jv).dm)(s, i),
                1,
                to,
            ),
    }
}

/// The changes of thickness at the near end of the interval of row `iv`.
spec fn near<S: Real>(
    v: spec_fn(S) -> real,
    system: &GlobalNewtonSystem<S>,
    upper: Seq<BlStation<S>>,
    lower: Seq<BlStation<S>>,
    c: Changes,
    iv: int,
) -> real {
    let (surface, i) = system.station_of(iv);
    thick(v, surface_of(upper, lower, surface)[i], (c.dm)(surface, i), (c.du)(surface, i))
}

/// The changes of thickness at the far end of the interval of row `iv`.
spec fn far<S: Real>(
    v: spec_fn(S) -> real,
    system: &GlobalNewtonSystem<S>,
    upper: Seq<BlStation<S>>,
    lower: Seq<BlStation<S>>,
    c: Changes,
    iv: int,
) -> (real, real) {
    let (surface, i) = system.station_of(iv);
    let te = (system.iblte_upper as int, system.iblte_lower as int);
    if iv == system.first_wake_row() {
        (
            thick_edge(v, upper[te.0], (c.dm)(0, te.0), (c.du)(0, te.0)),
            thick_edge(v, lower[te.1], (c.dm)(1, te.1), (c.du)(1, te.1)),
        )
    } else if i > 1 {
        (
            thick(
                v,
                surface_of(upper, lower, surface)[i - 1],
                (c.dm)(surface, i - 1),
                (c.du)(surface, i - 1),
            ),
            0real,
        )
    } else {
        (0real, 0real)
    }
}

/// The thickness changes go with the others, and are the only ones that do, but for the far
/// end of the first interval.
proof fn lemma_ends<S: Real>(
    v: spec_fn(S) -> real,
    system: &GlobalNewtonSystem<S>,
    upper: Seq<BlStation<S>>,
    lower: Seq<BlStation<S>>,
    c: Changes,
    iv: int,
    dd1: (real, real),
    dd2: real,
)
    requires
        exact(v),
        system.flows(v, upper, lower, iv),
    ensures
        system.thickens(
            v,
            upper,
            lower,
            c,
            iv,
            far(v, system, upper, lower, c, iv),
            near(v, system, upper, lower, c, iv),
        ),
        system.thickens(v, upper, lower, c, iv, dd1, dd2) ==> dd2 == near(
            v,
            system,
            upper,
            lower,
            c,
            iv,
        ) && (system.station_of(iv).1 > 1 || iv == system.first_wake_row() ==> dd1 == far(
            v,
            system,
            upper,
            lower,
            c,
            iv,
        )),
{
    let (surface, i) = system.station_of(iv);
    let stations = surface_of(upper, lower, surface);
    let te = (system.iblte_upper as int, system.iblte_lower as int);
    lemma_thick(v, stations[i], (c.dm)(surface, i), (c.du)(surface, i), dd2);
    if iv == system.first_wake_row() {
        lemma_thick(v, upper[te.0], (c.dm)(0, te.0), (c.du)(0, te.0), dd1.0);
        lemma_thick(v, lower[te.1], (c.dm)(1, te.1), (c.du)(1, te.1), dd1.1);
    } else if i > 1 {
        lemma_thick(v, stations[i - 1], (c.dm)(surface, i - 1), (c.du)(surface, i - 1), dd1.0);
    }
}

/// The answer of a row to changes, with the thicknesses that go with them.
spec fn whole_answer<S: Real>(
    v: spec_fn(S) -> real,
    system: &GlobalNewtonSystem<S>,
    upper: Seq<BlStation<S>>,
    lower: Seq<BlStation<S>>,
    c: Changes,
    iv: int,
    k: int,
) -> real {
    let (si, i) = system.station_of(iv);
    let d = far(v, system, upper, lower, c, iv);
    row_answer(
        v,
        system.row(iv),
        k,
        d.0 + d.1,
        (c.du)(si, i - 1),
        near(v, system, upper, lower, c, iv),
        (c.du)(si, i),
        system.arc_change(v, c, si),
    )
}

/// `c` is the sum of `a` and `b`, or their difference.
spec fn adds(c: Changes, a: Changes, b: Changes, minus: bool) -> bool {
    &&& forall|s: int, i: int| 0 <= i ==> #[trigger] (c.du)(s, i) == (a.du)(s, i) + (if minus {
        -(b.du)(s, i)
    } else {
        (b.du)(s, i)
    })
    &&& forall|s: int, i: int| 0 <= i ==> #[trigger] (c.dm)(s, i) == (a.dm)(s, i) + (if minus {
        -(b.dm)(s, i)
    } else {
        (b.dm)(s, i)
    })
}

/// The answer of a row to a sum or a difference of changes.
proof fn lemma_whole_answer<S: Real>(
    v: spec_fn(S) -> real,
    system: &GlobalNewtonSystem<S>,
    upper: Seq<BlStation<S>>,
    lower: Seq<BlStation<S>>,
    c: Changes,
    a: Changes,
    b: Changes,
    minus: bool,
    iv: int,
    k: int,
)
    requires
        exact(v),
        system.wf(),
        1 <= iv <= system.nsys,
        system.flows(v, upper, lower, iv),
        adds(c, a, b, minus),
    ensures
        whole_answer(v, system, upper, lower, c, iv, k) == whole_answer(
            v,
            system,
            upper,
            lower,
            a,
            iv,
            k,
        ) + (if minus {
            -whole_answer(v, system, upper, lower, b, iv, k)
        } else {
            whole_answer(v, system, upper, lower, b, iv, k)
        }),
{
    let (si, i) = system.station_of(iv);
    let stations = surface_of(upper, lower, si);
    let te = (system.iblte_upper as int, system.iblte_lower as int);
    assert(i >= 1);
    assert((c.du)(si, i) == (a.du)(si, i) + (if minus {
        -(b.du)(si, i)
    } else {
        (b.du)(si, i)
    }));
    lemma_thick_sum(
        v,
        stations[i],
        ((a.dm)(si, i), (a.du)(si, i)),
        ((b.dm)(si, i), (b.du)(si, i)),
    );
    if iv == system.first_wake_row() {
        lemma_thick_sum(
            v,
            upper[te.0],
            ((a.dm)(0, te.0), (a.du)(0, te.0)),
            ((b.dm)(0, te.0), (b.du)(0, te.0)),
        );
        lemma_thick_sum(
            v,
            lower[te.1],
            ((a.dm)(1, te.1), (a.du)(1, te.1)),
            ((b.dm)(1, te.1), (b.du)(1, te.1)),
        );
        assert((c.du)(0, te.0) == (c.du)(0, te.0) && (c.du)(1, te.1) == (c.du)(1, te.1));
        assert((c.dm)(0, te.0) == (c.dm)(0, te.0) && (c.dm)(1, te.1) == (c.dm)(1, te.1));
    } else if i > 1 {
        lemma_thick_sum(
            v,
            stations[i - 1],
            ((a.dm)(si, i - 1), (a.du)(si, i - 1)),
            ((b.dm)(si, i - 1), (b.du)(si, i - 1)),
        );
        assert((c.dm)(si, i - 1) == (c.dm)(si, i - 1));
    }
    assert((c.dm)(si, i) == (c.dm)(si, i));
    assert((c.du)(si, i - 1) == (c.du)(si, i - 1));
    assert((c.du)(0, 1) == (c.du)(0, 1) && (c.du)(1, 1) == (c.du)(1, 1));
    let (g, h) = (v(system.sst_go), v(system.sst_gp));
    lemma_distribute(g, (a.du)(0, 1), (b.du)(0, 1));
    lemma_distribute(h, (a.du)(1, 1), (b.du)(1, 1));
    lemma_difference(g, (a.du)(0, 1), (b.du)(0, 1));
    lemma_difference(h, (a.du)(1, 1), (b.du)(1, 1));
    let fa = far(v, system, upper, lower, a, iv);
    let fb = far(v, system, upper, lower, b, iv);
    let fc = far(v, system, upper, lower, c, iv);
    let t = system.row(iv);
    let qa = (
        fa.0 + fa.1,
        (a.du)(si, i - 1),
        near(v, system, upper, lower, a, iv),
        (a.du)(si, i),
        system.arc_change(v, a, si),
    );
    let qb = (
        fb.0 + fb.1,
        (b.du)(si, i - 1),
        near(v, system, upper, lower, b, iv),
        (b.du)(si, i),
        system.arc_change(v, b, si),
    );
    let qc = (
        fc.0 + fc.1,
        (c.du)(si, i - 1),
        near(v, system, upper, lower, c, iv),
        (c.du)(si, i),
        system.arc_change(v, c, si),
    );
    if minus {
        assert(qa == (qc.0 + qb.0, qc.1 + qb.1, qc.2 + qb.2, qc.3 + qb.3, qc.4 + qb.4));
        lemma_row_answer(v, t, k, qc, qb);
    } else {
        assert(qc == (qa.0 + qb.0, qa.1 + qb.1, qa.2 + qb.2, qa.3 + qb.3, qa.4 + qb.4));
        lemma_row_answer(v, t, k, qa, qb);
    }
}

/// The sums over the mass columns of a row are its answer to the gathered changes.
proof fn lemma_columns<S: Real, T>(
    v: spec_fn(S) -> real,
    system: &GlobalNewtonSystem<S>,
    before: &GlobalNewtonSystem<S>,
    upper: Seq<BlStation<S>>,
    lower: Seq<BlStation<S>>,
    on_upper: SurfaceInputs<S>,
    on_lower: SurfaceInputs<S>,
    dij: &Matrix<S>,
    iteration: usize,
    laws: BlLaws<S, T>,
    flow: Conditions<S>,
    x: Seq<[S; 3]>,
    iv: int,
    k: int,
    to: int,
)
    requires
        exact(v),
        system.wf(),
        system.built(before, upper, lower, on_upper, on_lower, dij, iteration, laws, flow),
        upper.len() == system.n_upper >= 2,
        lower.len() == system.n_lower >= 2,
        1 <= iv <= system.nsys,
        0 <= k < 3,
        1 <= to <= system.nsys + 1,
        system.flows(v, upper, lower, iv),
    ensures
        weighted(|l: int| v(system.vm@[iv]@[l][k]), masses(v, x), 1, to) == whole_answer(
            v,
            system,
            upper,
            lower,
            gathered(v, system, upper, lower, dij, x, to),
            iv,
            k,
        ),
    decreases to,
{
    let cols = |l: int| v(system.vm@[iv]@[l][k]);
    let ms = masses(v, x);
    let g = gathered(v, system, upper, lower, dij, x, to);
    if to == 1 {
        lemma_zero_answer(v, system, upper, lower, g, iv, k);
    } else {
        let jv = to - 1;
        lemma_columns(
            v,
            system,
            before,
            upper,
            lower,
            on_upper,
            on_lower,
            dij,
            iteration,
            laws,
            flow,
            x,
            iv,
            k,
            jv,
        );
        lemma_last_weight(cols, ms, 1, to);
        let a = gathered(v, system, upper, lower, dij, x, jv);
        let b = single(v, system, upper, lower, dij, x, jv);
        assert(adds(g, a, b, false));
        lemma_whole_answer(v, system, upper, lower, g, a, b, false, iv, k);
        let (sj, j) = system.station_of(jv);
        let mass = surface_of(upper, lower, sj)[j].mass_defect + x[jv][2];
        let dd1 = far(v, system, upper, lower, b, iv);
        let dd2 = near(v, system, upper, lower, b, iv);
        lemma_ends(v, system, upper, lower, b, iv, dd1, dd2);
        law_mass_columns_are_derivatives(
            v,
            system,
            before,
            upper,
            lower,
            on_upper,
            on_lower,
            dij,
            iteration,
            laws,
            flow,
            iv,
            jv,
            mass,
            dd1,
            dd2,
            k,
        );
        assert((b.dm)(sj, j) == ms(jv));
        lemma_commute(ms(jv), cols(jv));
    }
}

/// The answer of a row to no changes.
proof fn lemma_zero_answer<S: Real>(
    v: spec_fn(S) -> real,
    system: &GlobalNewtonSystem<S>,
    upper: Seq<BlStation<S>>,
    lower: Seq<BlStation<S>>,
    c: Changes,
    iv: int,
    k: int,
)
    requires
        exact(v),
        system.wf(),
        1 <= iv <= system.nsys,
        system.flows(v, upper, lower, iv),
        forall|s: int, i: int| #[trigger] (c.du)(s, i) == 0real,
        forall|s: int, i: int| #[trigger] (c.dm)(s, i) == 0real,
    ensures
        whole_answer(v, system, upper, lower, c, iv, k) == 0real,
{
    assert(adds(c, c, c, true));
    lemma_whole_answer(v, system, upper, lower, c, c, c, true, iv, k);
}

/// The sum over a surface, when the masses of its stations change.
proof fn lemma_sum_changes<S: Real>(
    v: spec_fn(S) -> real,
    a: S,
    b: S,
    dij: &Matrix<S>,
    si: usize,
    panel_i: usize,
    sj: usize,
    p: Seq<EdgePoint<S>>,
    q: Seq<EdgePoint<S>>,
    f: spec_fn(int) -> real,
    base: int,
    n: int,
)
    requires
        exact(v),
        p.len() == q.len(),
        1 <= n <= p.len(),
        forall|j: int| 1 <= j < p.len() ==> (#[trigger] p[j]).panel_idx == q[j].panel_idx,
        forall|j: int|
            1 <= j < p.len() ==> f(base + j) == (if (#[trigger] p[j]).panel_idx < dij.ncols {
                v(influence(dij, si, panel_i, sj, p[j].panel_idx)) * (v(q[j].mass) - v(p[j].mass))
            } else {
                0real
            }),
    ensures
        v(surface_sum(b, dij, si, panel_i, sj, q, n)) - v(
            surface_sum(a, dij, si, panel_i, sj, p, n),
        ) == v(b) - v(a) + total(f, base + 1, base + n),
    decreases n,
{
    if n > 1 {
        lemma_sum_changes(v, a, b, dij, si, panel_i, sj, p, q, f, base, n - 1);
        assert(p[n - 1].panel_idx == q[n - 1].panel_idx);
        assert(base + n - 1 == base + (n - 1));
        if p[n - 1].panel_idx < dij.ncols {
            lemma_difference(
                v(influence(dij, si, panel_i, sj, p[n - 1].panel_idx)),
                v(q[n - 1].mass),
                v(p[n - 1].mass),
            );
        }
    }
}

/// The gathered changes of a velocity are those of the velocity that the masses induce.
proof fn lemma_induced<S: Real>(
    v: spec_fn(S) -> real,
    system: &GlobalNewtonSystem<S>,
    upper: Seq<BlStation<S>>,
    lower: Seq<BlStation<S>>,
    inviscid: Seq<S>,
    dij: &Matrix<S>,
    x: Seq<[S; 3]>,
    after: (Seq<BlStation<S>>, Seq<BlStation<S>>),
    s: int,
    i: int,
)
    requires
        exact(v),
        system.wf(),
        upper.len() == system.n_upper >= 2,
        lower.len() == system.n_lower >= 2,
        x.len() == system.nsys + 1,
        carry_the_step(v, system, 0, upper, x, after.0),
        carry_the_step(v, system, 1, lower, x, after.1),
        0 <= s <= 1,
        0 <= i < surface_of(upper, lower, s).len(),
    ensures
        (gathered(v, system, upper, lower, dij, x, system.nsys + 1).du)(s, i) == v(
            induced_velocity(
                points_of(after.0),
                points_of(after.1),
                inviscid,
                dij,
                s as usize,
                i,
            ),
        ) - v(
            induced_velocity(points_of(upper), points_of(lower), inviscid, dij, s as usize, i),
        ),
{
    let f = |jv: int| (single(v, system, upper, lower, dij, x, jv).du)(s, i);
    let nu = system.n_upper as int;
    let end = system.nsys + 1;
    let at = surface_of(upper, lower, s)[i];
    let panel = at.panel_idx;
    let si = s as usize;
    let none = Seq::<S>::empty();
    assert forall|jv: int| 1 <= jv < end implies #[trigger] f(jv) == v(x[jv][2]) * v(
        velocity_by_mass(
            dij,
            direction::<S>(si),
            panel,
            direction::<S>(system.station_of(jv).0 as usize),
            surface_of(upper, lower, system.station_of(jv).0)[system.station_of(jv).1].panel_idx,
        ),
    ) by {
        let (sj, j) = system.station_of(jv);
        let mass = surface_of(upper, lower, sj)[j].mass_defect + x[jv][2];
        law_velocity_answers_to_mass(v, upper, lower, none, dij, sj, j, mass, s, i);
    }
    let up = points_of(upper);
    let lo = points_of(lower);
    let up2 = points_of(after.0);
    let lo2 = points_of(after.1);
    let zero = whole::<S>(0);
    assert(after.0[0].panel_idx == upper[0].panel_idx);
    if s == 0 {
        assert(after.0[i].panel_idx == upper[i].panel_idx);
    } else {
        assert(after.1[i].panel_idx == lower[i].panel_idx);
    }
    if panel < dij.nrows {
        assert forall|j: int| 1 <= j < up.len() implies (#[trigger] up[j]).panel_idx
            == up2[j].panel_idx && f(0 + j) == (if up[j].panel_idx < dij.ncols {
            v(influence(dij, si, panel, 0, up[j].panel_idx)) * (v(up2[j].mass) - v(up[j].mass))
        } else {
            0real
        }) by {
            assert(after.0[j].panel_idx == upper[j].panel_idx);
            assert(system.station_of(j) == (0int, j));
            assert(system.row_of(0, j) == j);
            assert(f(j) == v(x[j][2]) * v(
                velocity_by_mass(
                    dij,
                    direction::<S>(si),
                    panel,
                    direction::<S>(0),
                    upper[j].panel_idx,
                ),
            ));
            lemma_commute(
                v(influence(dij, si, panel, 0, up[j].panel_idx)),
                v(x[j][2]),
            );
            lemma_zero(v(x[j][2]));
        }
        assert forall|j: int| 1 <= j < lo.len() implies (#[trigger] lo[j]).panel_idx
            == lo2[j].panel_idx && f(nu - 1 + j) == (if lo[j].panel_idx < dij.ncols {
            v(influence(dij, si, panel, 1, lo[j].panel_idx)) * (v(lo2[j].mass) - v(lo[j].mass))
        } else {
            0real
        }) by {
            assert(after.1[j].panel_idx == lower[j].panel_idx);
            let jv = nu - 1 + j;
            assert(system.station_of(jv) == (1int, j));
            assert(system.row_of(1, j) == jv);
            assert(f(jv) == v(x[jv][2]) * v(
                velocity_by_mass(
                    dij,
                    direction::<S>(si),
                    panel,
                    direction::<S>(1),
                    lower[j].panel_idx,
                ),
            ));
            lemma_commute(
                v(influence(dij, si, panel, 1, lo[j].panel_idx)),
                v(x[jv][2]),
            );
            lemma_zero(v(x[jv][2]));
        }
        lemma_sum_changes(v, zero, zero, dij, si, panel, 0, up, up2, f, 0, nu);
        let a = surface_sum(zero, dij, si, panel, 0, up, nu);
        let b = surface_sum(zero, dij, si, panel, 0, up2, nu);
        let nl = lower.len() as int;
        lemma_sum_changes(v, a, b, dij, si, panel, 1, lo, lo2, f, nu - 1, nl);
        lemma_parts(f, 1, nu, end);
        assert(nu - 1 + nl == end);
        assert(both_surfaces_sum(zero, dij, si, panel, up, lo) == surface_sum(
            a,
            dij,
            si,
            panel,
            1,
            lo,
            nl,
        ));
        assert(both_surfaces_sum(zero, dij, si, panel, up2, lo2) == surface_sum(
            b,
            dij,
            si,
            panel,
            1,
            lo2,
            nl,
        ));
    } else {
        assert forall|l: int| 1 <= l < end && l != 0 implies #[trigger] f(l) == 0real by {
            lemma_zero(v(x[l][2]));
        }
        lemma_one_term(f, 0, 1, end);
    }
}

/// The gathered change of a mass defect is that of the solution of its row.
proof fn lemma_gathered_mass<S: Real>(
    v: spec_fn(S) -> real,
    system: &GlobalNewtonSystem<S>,
    upper: Seq<BlStation<S>>,
    lower: Seq<BlStation<S>>,
    dij: &Matrix<S>,
    x: Seq<[S; 3]>,
    s: int,
    i: int,
)
    requires
        exact(v),
        system.wf(),
        upper.len() == system.n_upper >= 2,
        lower.len() == system.n_lower >= 2,
        0 <= s <= 1,
        0 <= i < surface_of(upper, lower, s).len(),
    ensures
        (gathered(v, system, upper, lower, dij, x, system.nsys + 1).dm)(s, i) == (if i == 0 {
            0real
        } else {
            v(x[system.row_of(s, i)][2])
        }),
{
    let f = |jv: int| (single(v, system, upper, lower, dij, x, jv).dm)(s, i);
    let end = system.nsys + 1;
    let at = if i == 0 {
        0
    } else {
        system.row_of(s, i)
    };
    assert forall|jv: int| 1 <= jv < end && jv != at implies #[trigger] f(jv) == 0real by {
        let (sj, j) = system.station_of(jv);
        assert((sj, j) != (s, i));
    }
    if i > 0 {
        assert(system.station_of(at) == (s, i));
        assert(f(at) == v(x[at][2]));
    }
    lemma_one_term(f, at, 1, end);
}

/// The changes of a Newton step: of the velocities, from the current ones to those that the
/// mass defects induce after the step, and of the mass defects, as the solution says.
pub open spec fn step_changes<S: Real>(
    v: spec_fn(S) -> real,
    system: &GlobalNewtonSystem<S>,
    upper: Seq<BlStation<S>>,
    lower: Seq<BlStation<S>>,
    on_upper: SurfaceInputs<S>,
    on_lower: SurfaceInputs<S>,
    dij: &Matrix<S>,
    x: Seq<[S; 3]>,
    after: (Seq<BlStation<S>>, Seq<BlStation<S>>),
) -> Changes {
    Changes {
        du: |s: int, i: int|
            {
                let on = if s == 0 {
                    on_upper
                } else {
                    on_lower
                };
                v(
                    induced_velocity(
                        points_of(after.0),
                        points_of(after.1),
                        on.inviscid,
                        dij,
                        (if s == 0 {
                            0usize
                        } else {
                            1usize
                        }),
                        i,
                    ),
                ) - v(on.current[i])
            },
        dm: |s: int, i: int|
            if i == 0 {
                0real
            } else {
                v(x[system.row_of(s, i)][2])
            },
    }
}

/// A Newton step solves the coupled equations, to first order: where `x` satisfies the built
/// system, the changes that it makes satisfy the linearised equations of every row. The
/// velocities go from the current ones to those that the mass defects induce after the step,
/// the thicknesses with them and with the mass defects, the stagnation point with the
/// velocities beside it, and the rest as `x` says.
pub proof fn law_newton_step_solves_the_coupled_equations<S: Real, T>(
    v: spec_fn(S) -> real,
    system: &GlobalNewtonSystem<S>,
    before: &GlobalNewtonSystem<S>,
    upper: Seq<BlStation<S>>,
    lower: Seq<BlStation<S>>,
    on_upper: SurfaceInputs<S>,
    on_lower: SurfaceInputs<S>,
    dij: &Matrix<S>,
    iteration: usize,
    laws: BlLaws<S, T>,
    flow: Conditions<S>,
    x: Seq<[S; 3]>,
    after: (Seq<BlStation<S>>, Seq<BlStation<S>>),
    iv: int,
    k: int,
    dd1: (real, real),
    dd2: real,
)
    requires
        exact(v),
        system.wf(),
        system.built(before, upper, lower, on_upper, on_lower, dij, iteration, laws, flow),
        upper.len() == system.n_upper >= 2,
        lower.len() == system.n_lower >= 2,
        on_upper.current.len() == upper.len(),
        on_lower.current.len() == lower.len(),
        on_upper.from_mass.len() != upper.len(),
        on_lower.from_mass.len() != lower.len(),
        x.len() == system.nsys + 1,
        carry_the_step(v, system, 0, upper, x, after.0),
        carry_the_step(v, system, 1, lower, x, after.1),
        1 <= iv <= system.nsys,
        0 <= k < 3,
        system.flows(v, upper, lower, iv),
        left_side(v, *system, x, iv, k) == v(system.vdel@[iv][k]),
        system.thickens(
            v,
            upper,
            lower,
            step_changes(v, system, upper, lower, on_upper, on_lower, dij, x, after),
            iv,
            dd1,
            dd2,
        ),
    ensures
        ({
            let (si, i) = system.station_of(iv);
            let te = system.upper_te_row();
            let c = step_changes(v, system, upper, lower, on_upper, on_lower, dij, x, after);
            let own = block(v, system.va@[iv], x[iv], k);
            let upstream = if iv > 1 {
                block(v, system.vb@[iv], x[iv - 1], k)
            } else {
                0real
            };
            let edge = if iv == system.first_wake_row() && te >= 1 {
                edge_block(v, system.vz, x[te], k)
            } else {
                0real
            };
            let residuals = before.base_row(
                upper,
                lower,
                on_upper.flow_types,
                on_lower.flow_types,
                laws,
                flow,
                iv,
            ).vdel;
            own + upstream + edge + row_answer(
                v,
                system.row(iv),
                k,
                dd1.0 + dd1.1,
                (c.du)(si, i - 1),
                dd2,
                (c.du)(si, i),
                system.arc_change(v, c, si),
            ) == v(residuals[k])
        }),
{
    let (si, i) = system.station_of(iv);
    let c = step_changes(v, system, upper, lower, on_upper, on_lower, dij, x, after);
    let a = gathered(v, system, upper, lower, dij, x, system.nsys + 1);
    let g = gap_changes(v, upper, lower, on_upper, on_lower, dij);
    let o = changes_of_velocity(v, on_upper.operating, on_lower.operating);
    lemma_columns(
        v,
        system,
        before,
        upper,
        lower,
        on_upper,
        on_lower,
        dij,
        iteration,
        laws,
        flow,
        x,
        iv,
        k,
        system.nsys + 1,
    );
    let f1 = far(v, system, upper, lower, g, iv);
    let f2 = near(v, system, upper, lower, g, iv);
    let o1 = far(v, system, upper, lower, o, iv);
    let o2 = near(v, system, upper, lower, o, iv);
    lemma_ends(v, system, upper, lower, g, iv, f1, f2);
    lemma_ends(v, system, upper, lower, o, iv, o1, o2);
    lemma_ends(v, system, upper, lower, c, iv, dd1, dd2);
    law_right_hand_sides(
        v,
        system,
        before,
        upper,
        lower,
        on_upper,
        on_lower,
        dij,
        iteration,
        laws,
        flow,
        iv,
        f1,
        f2,
        o1,
        o2,
        k,
    );
    // Within the stations, the changes are those of the masses less the gaps.
    let d = Changes {
        du: |s: int, m: int| (a.du)(s, m) - (g.du)(s, m),
        dm: |s: int, m: int| (a.dm)(s, m) - (g.dm)(s, m),
    };
    assert(adds(d, a, g, true));
    lemma_whole_answer(v, system, upper, lower, d, a, g, true, iv, k);
    assert forall|s: int, m: int|
        0 <= s <= 1 && 0 <= m < surface_of(upper, lower, s).len() implies #[trigger] (c.du)(s, m)
        == (d.du)(s, m) && (c.dm)(s, m) == (d.dm)(s, m) by {
        let on = if s == 0 {
            on_upper
        } else {
            on_lower
        };
        lemma_induced(v, system, upper, lower, on.inviscid, dij, x, after, s, m);
        lemma_gathered_mass(v, system, upper, lower, dij, x, s, m);
        assert((g.dm)(s, m) == 0real);
    }
    let te = (system.iblte_upper as int, system.iblte_lower as int);
    assert((c.du)(si, i) == (d.du)(si, i));
    assert((c.du)(si, i - 1) == (d.du)(si, i - 1));
    assert((c.du)(0, 1) == (d.du)(0, 1) && (c.du)(1, 1) == (d.du)(1, 1));
    if iv == system.first_wake_row() {
        assert((c.du)(0, te.0) == (d.du)(0, te.0) && (c.du)(1, te.1) == (d.du)(1, te.1));
    }
    assert(near(v, system, upper, lower, c, iv) == near(v, system, upper, lower, d, iv));
    assert(far(v, system, upper, lower, c, iv) == far(v, system, upper, lower, d, iv));
    let t = system.row(iv);
    let whole_c = whole_answer(v, system, upper, lower, c, iv, k);
    assert(whole_c == whole_answer(v, system, upper, lower, d, iv, k));
    // On the first interval the thickness upstream does not enter.
    if !(i > 1 || iv == system.first_wake_row()) {
        let base = before.base_row(
            upper,
            lower,
            on_upper.flow_types,
            on_lower.flow_types,
            laws,
            flow,
            iv,
        );
        assert(before.station_of(iv) == system.station_of(iv));
        assert(before.first_wake_row() == system.first_wake_row());
        assert(t.vs1_delta == base.vs1_delta);
        assert(v(t.vs1_delta[k]) == 0real);
        lemma_zero(dd1.0 + dd1.1);
        lemma_zero(far(v, system, upper, lower, c, iv).0 + far(v, system, upper, lower, c, iv).1);
    }
}

} // verus!
