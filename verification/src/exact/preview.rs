//! The velocities after a step depend on the operating variable in a linear way.
use super::algebra::{lemma_distribute, lemma_opposite, lemma_swap, lemma_zero};
use super::exact;
use crate::global_newton::influence::{
    influence, operating_velocity, points_of, ruled_points, stepped_velocity, surface_sum,
    EdgePoint, MassRule,
};
use crate::global_newton::system::GlobalNewtonSystem;
use crate::global_newton::update::{previewed_new, previewed_operating};
use crate::number::{whole, Formula, Real};
use crate::station::{BlStation, Matrix};
use crate::viscal::two_surfaces::corrected;
use vstd::prelude::*;

verus! {

/// The masses of `q` are those of `p`, moved by `d` times those of `r`.
spec fn moved_by<S: Real>(
    v: spec_fn(S) -> real,
    d: real,
    p: Seq<EdgePoint<S>>,
    q: Seq<EdgePoint<S>>,
    r: Seq<EdgePoint<S>>,
) -> bool {
    &&& q.len() == p.len()
    &&& r.len() == p.len()
    &&& forall|j: int|
        0 <= j < p.len() ==> {
            &&& #[trigger] q[j].panel_idx == p[j].panel_idx
            &&& r[j].panel_idx == p[j].panel_idx
            &&& v(q[j].mass) == v(p[j].mass) + d * v(r[j].mass)
        }
}

/// The sum over a surface is linear in the masses.
proof fn lemma_surface_sum<S: Real>(
    v: spec_fn(S) -> real,
    d: real,
    start: (S, S, S),
    dij: &Matrix<S>,
    si: usize,
    panel_i: usize,
    sj: usize,
    p: Seq<EdgePoint<S>>,
    q: Seq<EdgePoint<S>>,
    r: Seq<EdgePoint<S>>,
    n: int,
)
    requires
        exact(v),
        n <= p.len(),
        moved_by(v, d, p, q, r),
        v(start.1) == v(start.0) + d * v(start.2),
    ensures
        v(surface_sum(start.1, dij, si, panel_i, sj, q, n)) == v(
            surface_sum(start.0, dij, si, panel_i, sj, p, n),
        ) + d * v(surface_sum(start.2, dij, si, panel_i, sj, r, n)),
    decreases n,
{
    if n > 1 {
        lemma_surface_sum(v, d, start, dij, si, panel_i, sj, p, q, r, n - 1);
        let k = n - 1;
        assert(q[k].panel_idx == p[k].panel_idx);
        if p[k].panel_idx < dij.ncols {
            let c = v(influence(dij, si, panel_i, sj, p[k].panel_idx));
            let m = v(p[k].mass);
            let o = v(r[k].mass);
            lemma_distribute(c, m, d * o);
            lemma_swap(c, d, o);
            let before = v(surface_sum(start.2, dij, si, panel_i, sj, r, k));
            lemma_distribute(d, before, c * o);
        }
    }
}

/// The masses of a corrected step.
proof fn lemma_masses<S: Real>(
    v: spec_fn(S) -> real,
    system: &GlobalNewtonSystem<S>,
    surface: usize,
    points: Seq<EdgePoint<S>>,
    deltas: Seq<[S; 3]>,
    operating: Seq<[S; 3]>,
    dac: S,
)
    requires
        exact(v),
        deltas.len() == operating.len(),
        surface == 0 || system.n_upper >= 1,
    ensures
        moved_by(
            v,
            v(dac),
            ruled_points(MassRule::Proposed, system, surface, points, deltas),
            ruled_points(
                MassRule::Proposed,
                system,
                surface,
                points,
                corrected(deltas, operating, dac),
            ),
            ruled_points(MassRule::Reversed, system, surface, points, operating),
        ),
{
    let p = ruled_points(MassRule::Proposed, system, surface, points, deltas);
    let q = ruled_points(
        MassRule::Proposed,
        system,
        surface,
        points,
        corrected(deltas, operating, dac),
    );
    let r = ruled_points(MassRule::Reversed, system, surface, points, operating);
    assert forall|j: int| 0 <= j < p.len() implies {
        &&& #[trigger] q[j].panel_idx == p[j].panel_idx
        &&& r[j].panel_idx == p[j].panel_idx
        &&& v(q[j].mass) == v(p[j].mass) + v(dac) * v(r[j].mass)
    } by {
        let iv = system.row_of(surface as int, j);
        if iv < deltas.len() {
            lemma_opposite(v(dac), v(operating[iv][2]));
        } else {
            lemma_zero(v(dac));
        }
    }
}

/// The velocities `ue`, moved by `dac` times their sensitivities.
pub open spec fn moved_velocities<S: Real>(ue: Seq<S>, sensitivity: Seq<S>, dac: S) -> Seq<S> {
    Seq::new(ue.len(), |i: int| ue[i] + dac * sensitivity[i])
}

/// The velocity of one point.
proof fn lemma_velocity<S: Real>(
    v: spec_fn(S) -> real,
    upper: Seq<EdgePoint<S>>,
    lower: Seq<EdgePoint<S>>,
    deltas: Seq<[S; 3]>,
    operating: Seq<[S; 3]>,
    dac: S,
    system: &GlobalNewtonSystem<S>,
    dij: &Matrix<S>,
    surface: usize,
    inviscid: Seq<S>,
    sensitivity: Seq<S>,
    i: int,
)
    requires
        exact(v),
        deltas.len() == operating.len(),
        system.n_upper >= 1,
        0 <= i < inviscid.len(),
        inviscid.len() == sensitivity.len(),
    ensures
        v(
            stepped_velocity(
                upper,
                lower,
                corrected(deltas, operating, dac),
                system,
                dij,
                surface,
                moved_velocities(inviscid, sensitivity, dac),
                i,
            ),
        ) == v(stepped_velocity(upper, lower, deltas, system, dij, surface, inviscid, i)) + v(dac)
            * v(
            operating_velocity(
                MassRule::Reversed,
                upper,
                lower,
                operating,
                system,
                dij,
                surface,
                sensitivity,
                i,
            ),
        ),
{
    let d = v(dac);
    let point = if surface == 0 {
        upper[i]
    } else {
        lower[i]
    };
    if i == 0 || point.panel_idx >= dij.nrows {
        lemma_zero(d);
    } else {
        let panel = point.panel_idx;
        let zero = whole::<S>(0);
        let direct = sensitivity[i];
        let fixed = corrected(deltas, operating, dac);
        let p0 = ruled_points(MassRule::Proposed, system, 0, upper, deltas);
        let q0 = ruled_points(MassRule::Proposed, system, 0, upper, fixed);
        let r0 = ruled_points(MassRule::Reversed, system, 0, upper, operating);
        let p1 = ruled_points(MassRule::Proposed, system, 1, lower, deltas);
        let q1 = ruled_points(MassRule::Proposed, system, 1, lower, fixed);
        let r1 = ruled_points(MassRule::Reversed, system, 1, lower, operating);
        lemma_masses(v, system, 0, upper, deltas, operating, dac);
        lemma_masses(v, system, 1, lower, deltas, operating, dac);
        let moved = zero + dac * direct;
        let n0 = upper.len() as int;
        let n1 = lower.len() as int;
        lemma_surface_sum(v, d, (zero, moved, direct), dij, surface, panel, 0, p0, q0, r0, n0);
        let s = (
            surface_sum(zero, dij, surface, panel, 0, p0, n0),
            surface_sum(moved, dij, surface, panel, 0, q0, n0),
            surface_sum(direct, dij, surface, panel, 0, r0, n0),
        );
        lemma_surface_sum(v, d, s, dij, surface, panel, 1, p1, q1, r1, n1);
        lemma_start(v, zero, moved, dij, surface, panel, 0, q0, n0);
        lemma_start(
            v,
            surface_sum(zero, dij, surface, panel, 0, q0, n0),
            s.1,
            dij,
            surface,
            panel,
            1,
            q1,
            n1,
        );
    }
}

/// A sum over a surface adds to what it starts from.
proof fn lemma_start<S: Real>(
    v: spec_fn(S) -> real,
    a: S,
    b: S,
    dij: &Matrix<S>,
    si: usize,
    panel_i: usize,
    sj: usize,
    points: Seq<EdgePoint<S>>,
    n: int,
)
    requires
        exact(v),
    ensures
        v(surface_sum(b, dij, si, panel_i, sj, points, n)) - v(
            surface_sum(a, dij, si, panel_i, sj, points, n),
        ) == v(b) - v(a),
    decreases n,
{
    if n > 1 {
        lemma_start(v, a, b, dij, si, panel_i, sj, points, n - 1);
    }
}

/// The preview of a step that is corrected for a change of the operating variable is the
/// preview of the step, moved by that change times the sensitivities that came with it.
pub proof fn law_preview_is_linear<S: Real>(
    v: spec_fn(S) -> real,
    upper: Seq<BlStation<S>>,
    lower: Seq<BlStation<S>>,
    deltas: Seq<[S; 3]>,
    operating: Seq<[S; 3]>,
    dac: S,
    system: &GlobalNewtonSystem<S>,
    dij: &Matrix<S>,
    inviscid: (Seq<S>, Seq<S>),
    sensitivity: (Seq<S>, Seq<S>),
    surface: usize,
    i: int,
)
    requires
        exact(v),
        deltas.len() == operating.len(),
        system.n_upper >= 1,
        inviscid.0.len() == upper.len(),
        inviscid.1.len() == lower.len(),
        sensitivity.0.len() == upper.len(),
        sensitivity.1.len() == lower.len(),
        0 <= i < (if surface == 0 {
            upper.len()
        } else {
            lower.len()
        }),
    ensures
        v(
            previewed_new(
                upper,
                lower,
                corrected(deltas, operating, dac),
                system,
                Some(dij),
                Some(moved_velocities(inviscid.0, sensitivity.0, dac)),
                Some(moved_velocities(inviscid.1, sensitivity.1, dac)),
                surface,
            )[i],
        ) == v(
            previewed_new(
                upper,
                lower,
                deltas,
                system,
                Some(dij),
                Some(inviscid.0),
                Some(inviscid.1),
                surface,
            )[i],
        ) + v(dac) * v(
            previewed_operating(
                upper,
                lower,
                Some(operating),
                system,
                Some(dij),
                Some(sensitivity.0),
                Some(sensitivity.1),
                surface,
            )[i],
        ),
{
    let (inv, sens) = if surface == 0 {
        (inviscid.0, sensitivity.0)
    } else {
        (inviscid.1, sensitivity.1)
    };
    lemma_velocity(
        v,
        points_of(upper),
        points_of(lower),
        deltas,
        operating,
        dac,
        system,
        dij,
        surface,
        inv,
        sens,
        i,
    );
}

} // verus!
