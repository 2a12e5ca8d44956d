//! Edge velocities from mass defects.
//!
//! The mass defect of every station moves every edge velocity, in proportion to an entry
//! of the influence matrix and with a sign that tells whether the two stations lie on the
//! same surface. The stagnation points do not take part.
use crate::global_newton::system::GlobalNewtonSystem;
use crate::number::{arithmetic, whole, Formula, Real};
use crate::station::{entry_or, seq_or, BlStation, Matrix};
use vstd::prelude::*;

verus! {

/// What the influence sums read of a station.
#[derive(Clone, Copy, Debug)]
pub struct EdgePoint<S> {
    pub panel_idx: usize,
    pub u: S,
    pub mass: S,
}

/// The direction of a surface: one for the upper, minus one for the lower.
#[verifier::allow_in_spec]
pub fn direction<S: Real>(surface: usize) -> S
    requires
        arithmetic::<S>(),
    returns
        (if surface == 0 {
            whole::<S>(1)
        } else {
            -whole::<S>(1)
        }),
{
    let one: S = whole(1);
    if surface == 0 {
        one
    } else {
        one.neg()
    }
}

/// The change of the velocity at `panel_i` of surface `si` by unit mass at `panel_j` of
/// surface `sj`.
pub open spec fn influence<S: Real>(
    dij: &Matrix<S>,
    si: usize,
    panel_i: usize,
    sj: usize,
    panel_j: usize,
) -> S {
    -direction::<S>(si) * direction::<S>(sj) * dij.entry(panel_i as int, panel_j as int)
}

/// `start`, and the influence on `panel_i` of surface `si` of the stations of surface `sj`
/// behind the stagnation point and before `n`. A station that the matrix has no column for
/// is left out.
pub open spec fn surface_sum<S: Real>(
    start: S,
    dij: &Matrix<S>,
    si: usize,
    panel_i: usize,
    sj: usize,
    points: Seq<EdgePoint<S>>,
    n: int,
) -> S
    decreases n,
{
    if n <= 1 {
        start
    } else {
        let before = surface_sum(start, dij, si, panel_i, sj, points, n - 1);
        let p = points[n - 1];
        if p.panel_idx < dij.ncols {
            before + influence(dij, si, panel_i, sj, p.panel_idx) * p.mass
        } else {
            before
        }
    }
}

/// `start`, and the influence of both surfaces on `panel_i` of surface `si`.
pub open spec fn both_surfaces_sum<S: Real>(
    start: S,
    dij: &Matrix<S>,
    si: usize,
    panel_i: usize,
    upper: Seq<EdgePoint<S>>,
    lower: Seq<EdgePoint<S>>,
) -> S {
    surface_sum(
        surface_sum(start, dij, si, panel_i, 0, upper, upper.len() as int),
        dij,
        si,
        panel_i,
        1,
        lower,
        lower.len() as int,
    )
}

/// The sum over both surfaces.
pub fn sum_both_surfaces<S: Real>(
    start: S,
    dij: &Matrix<S>,
    si: usize,
    panel_i: usize,
    upper: &[EdgePoint<S>],
    lower: &[EdgePoint<S>],
) -> (r: S)
    requires
        arithmetic::<S>(),
        dij.wf(),
        panel_i < dij.nrows,
    ensures
        r == both_surfaces_sum(start, dij, si, panel_i, upper@, lower@),
{
    let mid: S = sum_surface(start, dij, si, panel_i, 0, upper);
    sum_surface(mid, dij, si, panel_i, 1, lower)
}

/// The sum over one surface.
fn sum_surface<S: Real>(
    start: S,
    dij: &Matrix<S>,
    si: usize,
    panel_i: usize,
    sj: usize,
    points: &[EdgePoint<S>],
) -> (r: S)
    requires
        arithmetic::<S>(),
        dij.wf(),
        panel_i < dij.nrows,
    ensures
        r == surface_sum(start, dij, si, panel_i, sj, points@, points@.len() as int),
{
    let mut r: S = start;
    let sign: S = direction::<S>(si).neg() * direction::<S>(sj);
    let mut j: usize = 1;
    while j < points.len()
        invariant
            arithmetic::<S>(),
            dij.wf(),
            panel_i < dij.nrows,
            1 <= j,
            j <= points@.len() || j == 1,
            sign == -direction::<S>(si) * direction::<S>(sj),
            r == surface_sum(start, dij, si, panel_i, sj, points@, j as int),
        decreases points@.len() - j,
    {
        let p: EdgePoint<S> = points[j];
        if p.panel_idx < dij.ncols {
            r = r + sign * dij.rows[panel_i][p.panel_idx] * p.mass;
        }
        j = j + 1;
    }
    r
}

/// What the influence sums read of the stations.
pub open spec fn points_of<S: Real>(stations: Seq<BlStation<S>>) -> Seq<EdgePoint<S>> {
    Seq::new(
        stations.len(),
        |j: int|
            EdgePoint {
                panel_idx: stations[j].panel_idx,
                u: stations[j].u,
                mass: stations[j].mass_defect,
            },
    )
}

/// What the influence sums read of the stations.
pub fn edge_points<S: Real>(stations: &[BlStation<S>]) -> (r: Vec<EdgePoint<S>>)
    ensures
        r@ == points_of(stations@),
{
    let mut r: Vec<EdgePoint<S>> = Vec::with_capacity(stations.len());
    let mut j: usize = 0;
    while j < stations.len()
        invariant
            j <= stations@.len(),
            r@ == points_of(stations@).subrange(0, j as int),
        decreases stations@.len() - j,
    {
        let s: BlStation<S> = stations[j];
        r.push(EdgePoint { panel_idx: s.panel_idx, u: s.u, mass: s.mass_defect });
        j = j + 1;
    }
    assert(r@ =~= points_of(stations@));
    r
}

/// The third entry of row `iv` of `deltas`, or zero past its end.
pub open spec fn mass_change<S: Real>(deltas: Seq<[S; 3]>, iv: int) -> S {
    if iv < deltas.len() {
        deltas[iv][2]
    } else {
        whole::<S>(0)
    }
}

/// How a solution column enters the mass of a station.
#[derive(Clone, Copy, PartialEq, Eq, Structural)]
pub enum MassRule {
    /// The present mass and its change.
    Proposed,
    /// The change alone.
    Change,
    /// The change alone, with its sign turned.
    Reversed,
}

/// The mass of a point under a rule.
pub open spec fn ruled_mass<S: Real>(rule: MassRule, mass: S, deltas: Seq<[S; 3]>, iv: int) -> S {
    match rule {
        MassRule::Proposed => mass + mass_change(deltas, iv),
        MassRule::Change => mass_change(deltas, iv),
        MassRule::Reversed => if iv < deltas.len() {
            -deltas[iv][2]
        } else {
            whole::<S>(0)
        },
    }
}

/// The points of a surface with their masses under a rule.
pub open spec fn ruled_points<S: Real>(
    rule: MassRule,
    system: &GlobalNewtonSystem<S>,
    surface: usize,
    points: Seq<EdgePoint<S>>,
    deltas: Seq<[S; 3]>,
) -> Seq<EdgePoint<S>> {
    Seq::new(
        points.len(),
        |j: int|
            EdgePoint {
                panel_idx: points[j].panel_idx,
                u: points[j].u,
                mass: ruled_mass(rule, points[j].mass, deltas, system.row_of(surface as int, j)),
            },
    )
}

/// The points of a surface with their masses under a rule.
fn rule_points<S: Real>(
    rule: MassRule,
    system: &GlobalNewtonSystem<S>,
    surface: usize,
    points: &[EdgePoint<S>],
    deltas: &[[S; 3]],
) -> (r: Vec<EdgePoint<S>>)
    requires
        arithmetic::<S>(),
        surface == 0 || 1 <= system.n_upper,
        surface == 0 || system.n_upper - 1 + points@.len() <= usize::MAX,
    ensures
        r@ == ruled_points(rule, system, surface, points@, deltas@),
{
    let mut r: Vec<EdgePoint<S>> = Vec::with_capacity(points.len());
    let mut j: usize = 0;
    while j < points.len()
        invariant
            arithmetic::<S>(),
            surface == 0 || 1 <= system.n_upper,
            surface == 0 || system.n_upper - 1 + points@.len() <= usize::MAX,
            j <= points@.len(),
            r@ == ruled_points(rule, system, surface, points@, deltas@).subrange(0, j as int),
        decreases points@.len() - j,
    {
        let p: EdgePoint<S> = points[j];
        let iv: usize = system.to_global(surface, j);
        let zero: S = whole(0);
        let mass: S = match rule {
            MassRule::Proposed => if iv < deltas.len() {
                p.mass + deltas[iv][2]
            } else {
                p.mass + zero
            },
            MassRule::Change => if iv < deltas.len() {
                deltas[iv][2]
            } else {
                zero
            },
            MassRule::Reversed => if iv < deltas.len() {
                deltas[iv][2].neg()
            } else {
                zero
            },
        };
        r.push(EdgePoint { panel_idx: p.panel_idx, u: p.u, mass });
        j = j + 1;
    }
    assert(r@ =~= ruled_points(rule, system, surface, points@, deltas@));
    r
}

/// The velocity of point `i` after the Newton step `deltas`: the inviscid velocity, and the
/// influence of every proposed mass. The stagnation point, and a point that the matrix has
/// no row for, keep the velocity that they have.
pub open spec fn stepped_velocity<S: Real>(
    upper: Seq<EdgePoint<S>>,
    lower: Seq<EdgePoint<S>>,
    deltas: Seq<[S; 3]>,
    system: &GlobalNewtonSystem<S>,
    dij: &Matrix<S>,
    surface: usize,
    ue_inv: Seq<S>,
    i: int,
) -> S {
    let p = if surface == 0 {
        upper[i]
    } else {
        lower[i]
    };
    if i == 0 || p.panel_idx >= dij.nrows {
        p.u
    } else {
        seq_or(ue_inv, i, p.u) + both_surfaces_sum(
            whole::<S>(0),
            dij,
            surface,
            p.panel_idx,
            ruled_points(MassRule::Proposed, system, 0, upper, deltas),
            ruled_points(MassRule::Proposed, system, 1, lower, deltas),
        )
    }
}

/// The sensitivity of the velocity of point `i` to the operating variable: its direct
/// sensitivity, and the influence of every mass change of the operating column, taken by
/// `rule`. It is zero at the stagnation point and at a point that the matrix has no row for.
pub open spec fn operating_velocity<S: Real>(
    rule: MassRule,
    upper: Seq<EdgePoint<S>>,
    lower: Seq<EdgePoint<S>>,
    operating_deltas: Seq<[S; 3]>,
    system: &GlobalNewtonSystem<S>,
    dij: &Matrix<S>,
    surface: usize,
    ue_operating: Seq<S>,
    i: int,
) -> S {
    let p = if surface == 0 {
        upper[i]
    } else {
        lower[i]
    };
    if i == 0 || p.panel_idx >= dij.nrows {
        whole::<S>(0)
    } else {
        both_surfaces_sum(
            seq_or(ue_operating, i, whole::<S>(0)),
            dij,
            surface,
            p.panel_idx,
            ruled_points(rule, system, 0, upper, operating_deltas),
            ruled_points(rule, system, 1, lower, operating_deltas),
        )
    }
}

/// The velocities of one surface after the Newton step `deltas`.
pub fn step_velocities<S: Real>(
    upper: &[EdgePoint<S>],
    lower: &[EdgePoint<S>],
    deltas: &[[S; 3]],
    system: &GlobalNewtonSystem<S>,
    dij: &Matrix<S>,
    surface: usize,
    ue_inv: &[S],
) -> (r: Vec<S>)
    requires
        arithmetic::<S>(),
        dij.wf(),
        1 <= system.n_upper,
        system.n_upper - 1 + lower@.len() <= usize::MAX,
    ensures
        r@ == Seq::new(
            (if surface == 0 {
                upper@.len()
            } else {
                lower@.len()
            }),
            |i: int|
                stepped_velocity(upper@, lower@, deltas@, system, dij, surface, ue_inv@, i),
        ),
{
    let moved_upper: Vec<EdgePoint<S>> = rule_points(MassRule::Proposed, system, 0, upper, deltas);
    let moved_lower: Vec<EdgePoint<S>> = rule_points(MassRule::Proposed, system, 1, lower, deltas);
    let points: &[EdgePoint<S>] = if surface == 0 {
        upper
    } else {
        lower
    };
    let zero: S = whole(0);
    let mut r: Vec<S> = Vec::with_capacity(points.len());
    let mut i: usize = 0;
    while i < points.len()
        invariant
            arithmetic::<S>(),
            dij.wf(),
            points@ == (if surface == 0 {
                upper@
            } else {
                lower@
            }),
            zero == whole::<S>(0),
            i <= points@.len(),
            moved_upper@ == ruled_points(MassRule::Proposed, system, 0, upper@, deltas@),
            moved_lower@ == ruled_points(MassRule::Proposed, system, 1, lower@, deltas@),
            r@.len() == i,
            forall|k: int|
                0 <= k < i ==> #[trigger] r@[k] == stepped_velocity(
                    upper@,
                    lower@,
                    deltas@,
                    system,
                    dij,
                    surface,
                    ue_inv@,
                    k,
                ),
        decreases points@.len() - i,
    {
        let p: EdgePoint<S> = points[i];
        if i == 0 || p.panel_idx >= dij.nrows {
            r.push(p.u);
        } else {
            let sum: S = sum_both_surfaces(
                zero,
                dij,
                surface,
                p.panel_idx,
                &moved_upper,
                &moved_lower,
            );
            r.push(entry_or(ue_inv, i, p.u) + sum);
        }
        i = i + 1;
    }
    r
}

/// The sensitivities of the velocities of one surface to the operating variable.
pub fn operating_velocities<S: Real>(
    rule: MassRule,
    upper: &[EdgePoint<S>],
    lower: &[EdgePoint<S>],
    operating_deltas: &[[S; 3]],
    system: &GlobalNewtonSystem<S>,
    dij: &Matrix<S>,
    surface: usize,
    ue_operating: &[S],
) -> (r: Vec<S>)
    requires
        arithmetic::<S>(),
        dij.wf(),
        1 <= system.n_upper,
        system.n_upper - 1 + lower@.len() <= usize::MAX,
    ensures
        r@ == Seq::new(
            (if surface == 0 {
                upper@.len()
            } else {
                lower@.len()
            }),
            |i: int|
                operating_velocity(
                    rule,
                    upper@,
                    lower@,
                    operating_deltas@,
                    system,
                    dij,
                    surface,
                    ue_operating@,
                    i,
                ),
        ),
{
    let moved_upper: Vec<EdgePoint<S>> = rule_points(rule, system, 0, upper, operating_deltas);
    let moved_lower: Vec<EdgePoint<S>> = rule_points(rule, system, 1, lower, operating_deltas);
    let points: &[EdgePoint<S>] = if surface == 0 {
        upper
    } else {
        lower
    };
    let zero: S = whole(0);
    let mut r: Vec<S> = Vec::with_capacity(points.len());
    let mut i: usize = 0;
    while i < points.len()
        invariant
            arithmetic::<S>(),
            dij.wf(),
            points@ == (if surface == 0 {
                upper@
            } else {
                lower@
            }),
            zero == whole::<S>(0),
            i <= points@.len(),
            moved_upper@ == ruled_points(rule, system, 0, upper@, operating_deltas@),
            moved_lower@ == ruled_points(rule, system, 1, lower@, operating_deltas@),
            r@.len() == i,
            forall|k: int|
                0 <= k < i ==> #[trigger] r@[k] == operating_velocity(
                    rule,
                    upper@,
                    lower@,
                    operating_deltas@,
                    system,
                    dij,
                    surface,
                    ue_operating@,
                    k,
                ),
        decreases points@.len() - i,
    {
        let p: EdgePoint<S> = points[i];
        if i == 0 || p.panel_idx >= dij.nrows {
            r.push(zero);
        } else {
            let sum: S = sum_both_surfaces(
                entry_or(ue_operating, i, zero),
                dij,
                surface,
                p.panel_idx,
                &moved_upper,
                &moved_lower,
            );
            r.push(sum);
        }
        i = i + 1;
    }
    r
}

/// The velocity of point `i` that the present masses induce: the inviscid velocity, where
/// there is one, and the influence of every mass, where the matrix has a row for the point.
pub open spec fn induced_velocity<S: Real>(
    upper: Seq<EdgePoint<S>>,
    lower: Seq<EdgePoint<S>>,
    ue_inviscid: Seq<S>,
    dij: &Matrix<S>,
    surface: usize,
    i: int,
) -> S {
    let p = if surface == 0 {
        upper[i]
    } else {
        lower[i]
    };
    let sum = if p.panel_idx < dij.nrows {
        both_surfaces_sum(whole::<S>(0), dij, surface, p.panel_idx, upper, lower)
    } else {
        whole::<S>(0)
    };
    if i < ue_inviscid.len() {
        ue_inviscid[i] + sum
    } else {
        sum
    }
}

impl<S: Real> GlobalNewtonSystem<S> {
    /// The velocities that the present mass defects of both surfaces induce on one of them.
    pub fn compute_ue_from_mass_both(
        &self,
        upper_stations: &[BlStation<S>],
        lower_stations: &[BlStation<S>],
        ue_inviscid: &[S],
        dij: &Matrix<S>,
        surface: usize,
    ) -> (r: Vec<S>)
        requires
            arithmetic::<S>(),
            dij.wf(),
        ensures
            r@ == Seq::new(
                (if surface == 0 {
                    upper_stations@.len()
                } else {
                    lower_stations@.len()
                }),
                |i: int|
                    induced_velocity(
                        points_of(upper_stations@),
                        points_of(lower_stations@),
                        ue_inviscid@,
                        dij,
                        surface,
                        i,
                    ),
            ),
    {
        let upper: Vec<EdgePoint<S>> = edge_points(upper_stations);
        let lower: Vec<EdgePoint<S>> = edge_points(lower_stations);
        let points: &[EdgePoint<S>] = if surface == 0 {
            &upper
        } else {
            &lower
        };
        let mut r: Vec<S> = Vec::with_capacity(points.len());
        let mut i: usize = 0;
        while i < points.len()
            invariant
                arithmetic::<S>(),
                dij.wf(),
                i <= points@.len(),
                points@ == (if surface == 0 {
                    upper@
                } else {
                    lower@
                }),
                r@.len() == i,
                forall|k: int|
                    0 <= k < i ==> #[trigger] r@[k] == induced_velocity(
                        upper@,
                        lower@,
                        ue_inviscid@,
                        dij,
                        surface,
                        k,
                    ),
            decreases points@.len() - i,
        {
            let p: EdgePoint<S> = points[i];
            let sum: S = if p.panel_idx < dij.nrows {
                sum_both_surfaces(whole(0), dij, surface, p.panel_idx, &upper, &lower)
            } else {
                whole(0)
            };
            if i < ue_inviscid.len() {
                r.push(ue_inviscid[i] + sum);
            } else {
                r.push(sum);
            }
            i = i + 1;
        }
        r
    }
}

} // verus!
