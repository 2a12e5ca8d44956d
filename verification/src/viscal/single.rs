//! The viscous solution of one chain of stations.
use crate::closure::{BlClosure, BlLaws};
use crate::march::config::{MarchConfig, MarchResult};
use crate::march::surface::{march_fixed_ue, regime_of, March, MarchFlow};
use crate::number::{arithmetic, is_finite, whole, Formula, Real};
use crate::station::{copied, BlStation, FlowType, Matrix};
use crate::viscal::control::{
    all_finite, copy_march, deltas_are_finite, find_separation, has_diverged, separation_from,
    with_march, Forces, SolverError, ViscousResult, ViscousSolverConfig,
};
use vstd::prelude::*;

verus! {

/// The solution of the coupled system of one chain of stations, as functions.
#[verifier::reject_recursive_types(S)]
pub struct CouplingLaws<S> {
    /// The Newton step, from the stations, the regimes of their intervals, the squared Mach
    /// number, the Reynolds number, the influence matrix and the inviscid velocities.
    pub step: spec_fn(Seq<BlStation<S>>, Seq<FlowType>, S, S, Matrix<S>, Seq<S>) -> Seq<[S; 3]>,
    /// The stations after a step, and the size of the change, from the stations, the step,
    /// the inviscid velocities, the influence matrix and the relaxation.
    pub update: spec_fn(Seq<BlStation<S>>, Seq<[S; 3]>, Seq<S>, Matrix<S>, S) -> (
        Seq<BlStation<S>>,
        S,
    ),
    /// The forces on the stations.
    pub forces: spec_fn(Seq<BlStation<S>>, ViscousSolverConfig<S>) -> Forces<S>,
}

/// The solution of the coupled system of one chain of stations.
pub trait SurfaceCoupling<S: Real> {
    spec fn lawful(&self) -> bool;

    spec fn laws(&self) -> CouplingLaws<S>;

    fn step(
        &self,
        stations: &Vec<BlStation<S>>,
        flow_types: &Vec<FlowType>,
        msq: S,
        re: S,
        dij: &Matrix<S>,
        ue_inviscid: &Vec<S>,
    ) -> (r: Vec<[S; 3]>)
        requires
            self.lawful(),
        ensures
            r@ == (self.laws().step)(stations@, flow_types@, msq, re, *dij, ue_inviscid@),
    ;

    fn update(
        &self,
        stations: &Vec<BlStation<S>>,
        deltas: &Vec<[S; 3]>,
        ue_inviscid: &Vec<S>,
        dij: &Matrix<S>,
        relaxation: S,
    ) -> (r: (Vec<BlStation<S>>, S))
        requires
            self.lawful(),
        ensures
            (r.0@, r.1) == (self.laws().update)(
                stations@,
                deltas@,
                ue_inviscid@,
                *dij,
                relaxation,
            ),
    ;

    fn forces(&self, stations: &Vec<BlStation<S>>, config: ViscousSolverConfig<S>) -> (r: Forces<S>)
        requires
            self.lawful(),
        ensures
            r == (self.laws().forces)(stations@, config),
    ;
}

/// Functions for the solution of the coupled system, handed in one by one.
pub struct CouplingFunctions<F, G, H> {
    pub step: F,
    pub update: G,
    pub forces: H,
}

/// `step` may return `d` for lists with these entries.
pub open spec fn step_gives<
    S: Real,
    F: Fn(&Vec<BlStation<S>>, &Vec<FlowType>, S, S, &Matrix<S>, &Vec<S>) -> Vec<[S; 3]>,
>(
    step: F,
    s: Seq<BlStation<S>>,
    f: Seq<FlowType>,
    msq: S,
    re: S,
    dij: Matrix<S>,
    ue: Seq<S>,
    d: Seq<[S; 3]>,
) -> bool {
    exists|v: Vec<BlStation<S>>, w: Vec<FlowType>, u: Vec<S>, r: Vec<[S; 3]>|
        v@ == s && w@ == f && u@ == ue && r@ == d && #[trigger] call_ensures(
            step,
            (&v, &w, msq, re, &dij, &u),
            r,
        )
}

/// `update` may return `t` and `c` for lists with these entries.
pub open spec fn update_gives<
    S: Real,
    G: Fn(&Vec<BlStation<S>>, &Vec<[S; 3]>, &Vec<S>, &Matrix<S>, S) -> (Vec<BlStation<S>>, S),
>(
    update: G,
    s: Seq<BlStation<S>>,
    d: Seq<[S; 3]>,
    ue: Seq<S>,
    dij: Matrix<S>,
    relaxation: S,
    t: Seq<BlStation<S>>,
    c: S,
) -> bool {
    exists|v: Vec<BlStation<S>>, w: Vec<[S; 3]>, u: Vec<S>, r: (Vec<BlStation<S>>, S)|
        v@ == s && w@ == d && u@ == ue && r.0@ == t && r.1 == c && #[trigger] call_ensures(
            update,
            (&v, &w, &u, &dij, relaxation),
            r,
        )
}

/// `forces` may return `r` for a list with these entries.
pub open spec fn forces_gives<
    S: Real,
    H: Fn(&Vec<BlStation<S>>, ViscousSolverConfig<S>) -> Forces<S>,
>(forces: H, s: Seq<BlStation<S>>, config: ViscousSolverConfig<S>, r: Forces<S>) -> bool {
    exists|v: Vec<BlStation<S>>| v@ == s && #[trigger] call_ensures(forces, (&v, config), r)
}

impl<
    S: Real,
    F: Fn(&Vec<BlStation<S>>, &Vec<FlowType>, S, S, &Matrix<S>, &Vec<S>) -> Vec<[S; 3]>,
    G: Fn(&Vec<BlStation<S>>, &Vec<[S; 3]>, &Vec<S>, &Matrix<S>, S) -> (Vec<BlStation<S>>, S),
    H: Fn(&Vec<BlStation<S>>, ViscousSolverConfig<S>) -> Forces<S>,
> SurfaceCoupling<S> for CouplingFunctions<F, G, H> {
    open spec fn lawful(&self) -> bool {
        &&& forall|
            v: Vec<BlStation<S>>,
            w: Vec<FlowType>,
            msq: S,
            re: S,
            dij: Matrix<S>,
            u: Vec<S>,
        | #[trigger]
            call_requires(self.step, (&v, &w, msq, re, &dij, &u))
        &&& forall|
            v: Vec<BlStation<S>>,
            w: Vec<FlowType>,
            msq: S,
            re: S,
            dij: Matrix<S>,
            u: Vec<S>,
            r: Vec<[S; 3]>,
        | #[trigger]
            call_ensures(self.step, (&v, &w, msq, re, &dij, &u), r) ==> r@ == (self.laws().step)(
                v@,
                w@,
                msq,
                re,
                dij,
                u@,
            )
        &&& forall|
            v: Vec<BlStation<S>>,
            w: Vec<[S; 3]>,
            u: Vec<S>,
            dij: Matrix<S>,
            relaxation: S,
        | #[trigger]
            call_requires(self.update, (&v, &w, &u, &dij, relaxation))
        &&& forall|
            v: Vec<BlStation<S>>,
            w: Vec<[S; 3]>,
            u: Vec<S>,
            dij: Matrix<S>,
            relaxation: S,
            r: (Vec<BlStation<S>>, S),
        | #[trigger]
            call_ensures(self.update, (&v, &w, &u, &dij, relaxation), r) ==> (r.0@, r.1) == (
            self.laws().update)(v@, w@, u@, dij, relaxation)
        &&& forall|v: Vec<BlStation<S>>, config: ViscousSolverConfig<S>| #[trigger]
            call_requires(self.forces, (&v, config))
        &&& forall|v: Vec<BlStation<S>>, config: ViscousSolverConfig<S>, r: Forces<S>| #[trigger]
            call_ensures(self.forces, (&v, config), r) ==> r == (self.laws().forces)(v@, config)
    }

    open spec fn laws(&self) -> CouplingLaws<S> {
        CouplingLaws {
            step: |
                s: Seq<BlStation<S>>,
                f: Seq<FlowType>,
                msq: S,
                re: S,
                dij: Matrix<S>,
                ue: Seq<S>,
            | choose|d: Seq<[S; 3]>| step_gives(self.step, s, f, msq, re, dij, ue, d),
            update: |
                s: Seq<BlStation<S>>,
                d: Seq<[S; 3]>,
                ue: Seq<S>,
                dij: Matrix<S>,
                relaxation: S,
            |
                choose|t: Seq<BlStation<S>>, c: S|
                    update_gives(self.update, s, d, ue, dij, relaxation, t, c),
            forces: |s: Seq<BlStation<S>>, config: ViscousSolverConfig<S>|
                choose|r: Forces<S>| forces_gives(self.forces, s, config, r),
        }
    }

    fn step(
        &self,
        stations: &Vec<BlStation<S>>,
        flow_types: &Vec<FlowType>,
        msq: S,
        re: S,
        dij: &Matrix<S>,
        ue_inviscid: &Vec<S>,
    ) -> (r: Vec<[S; 3]>) {
        (self.step)(stations, flow_types, msq, re, dij, ue_inviscid)
    }

    fn update(
        &self,
        stations: &Vec<BlStation<S>>,
        deltas: &Vec<[S; 3]>,
        ue_inviscid: &Vec<S>,
        dij: &Matrix<S>,
        relaxation: S,
    ) -> (r: (Vec<BlStation<S>>, S)) {
        (self.update)(stations, deltas, ue_inviscid, dij, relaxation)
    }

    fn forces(&self, stations: &Vec<BlStation<S>>, config: ViscousSolverConfig<S>) -> (r: Forces<
        S,
    >) {
        (self.forces)(stations, config)
    }
}

/// The state of the coupled iteration.
pub struct Coupled<S> {
    pub stations: Seq<BlStation<S>>,
    pub residual: S,
    pub converged: bool,
    pub iteration: nat,
}

/// What the coupled iteration works with.
#[verifier::reject_recursive_types(S)]
#[verifier::reject_recursive_types(T)]
pub struct CoupledTask<S, T> {
    pub ue_inviscid: Seq<S>,
    pub dij: Matrix<S>,
    pub config: ViscousSolverConfig<S>,
    pub flow_types: Seq<FlowType>,
    pub bl: BlLaws<S, T>,
    pub coupling: CouplingLaws<S>,
}

/// Whether a station can be linearised: its thicknesses are positive and finite, and its
/// velocity is finite.
#[verifier::allow_in_spec]
pub fn is_valid_station<S: Real>(s: &BlStation<S>) -> bool
    requires
        arithmetic::<S>(),
    returns
        is_finite(s.theta) && s.theta > whole::<S>(0) && is_finite(s.delta_star) && s.delta_star
            > whole::<S>(0) && is_finite(s.u),
{
    is_finite(s.theta) && s.theta > whole(0) && is_finite(s.delta_star) && s.delta_star > whole(0)
        && is_finite(s.u)
}

/// The stations with their secondary variables.
pub open spec fn refreshed<S: Real, T>(
    stations: Seq<BlStation<S>>,
    msq: S,
    re: S,
    bl: BlLaws<S, T>,
) -> Seq<BlStation<S>> {
    stations.map_values(|s: BlStation<S>| (bl.blvar)(s, regime_of(&s), msq, re))
}

/// Whether every station can be linearised.
pub open spec fn all_valid<S: Real>(stations: Seq<BlStation<S>>) -> bool {
    forall|i: int| 0 <= i < stations.len() ==> is_valid_station(&#[trigger] stations[i])
}

impl<S: Real, T> CoupledTask<S, T> {
    /// One iteration: the state after it, and whether the iteration ends there. It ends where
    /// a station cannot be linearised, or where the change has run away; a step that is not
    /// finite is not taken.
    pub open spec fn iteration(self, c: Coupled<S>) -> (Coupled<S>, bool) {
        let now = Coupled {
            stations: refreshed(c.stations, self.config.msq, self.config.reynolds, self.bl),
            iteration: c.iteration + 1,
            ..c
        };
        if !all_valid(now.stations) {
            (now, true)
        } else {
            let deltas = (self.coupling.step)(
                now.stations,
                self.flow_types,
                self.config.msq,
                self.config.reynolds,
                self.dij,
                self.ue_inviscid,
            );
            if !all_finite(deltas) {
                (now, false)
            } else {
                let (stations, change) = (self.coupling.update)(
                    now.stations,
                    deltas,
                    self.ue_inviscid,
                    self.dij,
                    self.config.relaxation,
                );
                (
                    Coupled {
                        stations,
                        residual: change,
                        converged: change < self.config.tolerance,
                        ..now
                    },
                    has_diverged(change),
                )
            }
        }
    }

    /// The state in which the iteration ends: converged, broken off, or after the largest
    /// number of iterations.
    pub open spec fn iterated(self, c: Coupled<S>) -> Coupled<S>
        decreases self.config.max_iterations - c.iteration,
    {
        if c.iteration >= self.config.max_iterations || c.converged {
            c
        } else {
            let (next, ends) = self.iteration(c);
            if ends || next.iteration <= c.iteration {
                next
            } else {
                self.iterated(next)
            }
        }
    }
}

/// The regimes of the intervals between the stations.
pub open spec fn interval_regimes<S: Real>(stations: Seq<BlStation<S>>) -> Seq<FlowType> {
    Seq::new((stations.len() - 1) as nat, |i: int| regime_of(&stations[i + 1]))
}

/// The regimes of the intervals between the stations.
fn interval_regimes_of<S: Real>(stations: &Vec<BlStation<S>>) -> (r: Vec<FlowType>)
    requires
        stations@.len() >= 1,
    ensures
        r@ == interval_regimes(stations@),
{
    let mut r: Vec<FlowType> = Vec::with_capacity(stations.len());
    let mut i: usize = 1;
    while i < stations.len()
        invariant
            1 <= i <= stations@.len(),
            r@ == Seq::new((i - 1) as nat, |k: int| regime_of(&stations@[k + 1])),
        decreases stations@.len() - i,
    {
        let s: BlStation<S> = stations[i];
        r.push(regime_of(&s));
        i = i + 1;
    }
    r
}

/// Gives every station its secondary variables, and tells whether every station can be
/// linearised.
fn refresh_stations<S: Real, P: BlClosure<S>>(
    stations: &mut Vec<BlStation<S>>,
    msq: S,
    re: S,
    closure: &P,
) -> (r: bool)
    requires
        arithmetic::<S>(),
        closure.lawful(),
    ensures
        final(stations)@ == refreshed(old(stations)@, msq, re, closure.laws()),
        r == all_valid(final(stations)@),
{
    let ghost before = stations@;
    let ghost laws = closure.laws();
    let mut valid: bool = true;
    let mut i: usize = 0;
    while i < stations.len()
        invariant
            arithmetic::<S>(),
            closure.lawful(),
            laws == closure.laws(),
            i <= before.len(),
            stations@.len() == before.len(),
            forall|k: int|
                0 <= k < before.len() ==> #[trigger] stations@[k] == (if k < i {
                    refreshed(before, msq, re, laws)[k]
                } else {
                    before[k]
                }),
            valid == (forall|k: int|
                0 <= k < i ==> is_valid_station(&#[trigger] stations@[k])),
        decreases before.len() - i,
    {
        let s: BlStation<S> = stations[i];
        let flow: FlowType = regime_of(&s);
        let full: BlStation<S> = closure.blvar(s, flow, msq, re);
        let ok: bool = is_valid_station(&full);
        let ghost mid = stations@;
        stations[i] = full;
        proof {
            assert(stations@[i as int] == full);
            assert(forall|k: int| 0 <= k < i ==> stations@[k] == mid[k]);
            if valid && ok {
                assert forall|k: int| 0 <= k < i + 1 implies is_valid_station(
                    &#[trigger] stations@[k],
                ) by {
                    if k < i {
                        assert(is_valid_station(&mid[k]));
                    }
                }
            } else if !valid {
                let k = choose|k: int| 0 <= k < i && !is_valid_station(&#[trigger] mid[k]);
                assert(!is_valid_station(&stations@[k]));
            }
        }
        valid = valid && ok;
        i = i + 1;
    }
    assert(stations@ =~= refreshed(before, msq, re, laws));
    valid
}

/// The stations after the direct march.
pub open spec fn after_march<S: Real, T>(
    stations: Seq<BlStation<S>>,
    config: ViscousSolverConfig<S>,
    bl: BlLaws<S, T>,
) -> (Seq<BlStation<S>>, March<S>) {
    let flow = MarchFlow { re: config.reynolds, msq: config.msq, config: config.march(None) };
    let m = flow.fixed_march(
        stations.map_values(|s: BlStation<S>| s.x),
        stations.map_values(|s: BlStation<S>| s.u),
        bl,
        stations.len(),
    );
    (
        Seq::new(
            stations.len(),
            |i: int|
                if i < m.stations.len() {
                    with_march(stations[i], m.stations[i])
                } else {
                    stations[i]
                },
        ),
        m,
    )
}

/// The state in which the coupled iteration of the marched stations ends.
pub open spec fn coupled_solution<S: Real, T>(
    marched: Seq<BlStation<S>>,
    ue_inviscid: Seq<S>,
    dij: Matrix<S>,
    config: ViscousSolverConfig<S>,
    bl: BlLaws<S, T>,
    coupling: CouplingLaws<S>,
) -> Coupled<S> {
    (CoupledTask {
        ue_inviscid,
        dij,
        config,
        flow_types: interval_regimes(marched),
        bl,
        coupling,
    }).iterated(
        Coupled { stations: marched, residual: whole::<S>(1), converged: false, iteration: 0 },
    )
}

/// The outcome of a viscous solution: an error where the Reynolds number is not positive,
/// where there are fewer than three stations, or where the boundary layer separates and that
/// is not allowed, tested in this order.
pub open spec fn viscous_outcome<S: Real, T>(
    stations: Seq<BlStation<S>>,
    ue_inviscid: Seq<S>,
    dij: Matrix<S>,
    config: ViscousSolverConfig<S>,
    bl: BlLaws<S, T>,
    coupling: CouplingLaws<S>,
) -> Result<ViscousResult<S>, SolverError<S>> {
    if config.reynolds <= whole::<S>(0) {
        Err(SolverError::InvalidReynolds)
    } else if stations.len() < 3 {
        Err(SolverError::InsufficientPanels)
    } else {
        let (marched, m) = after_march(stations, config, bl);
        let c = coupled_solution(marched, ue_inviscid, dij, config, bl, coupling);
        let x_separation = separation_from(c.stations, 0);
        let forces = (coupling.forces)(c.stations, config);
        if x_separation is Some && !config.allow_separation {
            Err(SolverError::BoundaryLayerSeparation { x_sep: x_separation->0 })
        } else {
            Ok(
                ViscousResult {
                    alpha: whole::<S>(0),
                    cl: forces.cl,
                    cd: forces.cd,
                    cm: forces.cm,
                    x_tr_upper: (match m.x_transition {
                        Some(x) => x,
                        None => whole::<S>(1),
                    }),
                    x_tr_lower: whole::<S>(1),
                    iterations: c.iteration as usize,
                    residual: c.residual,
                    converged: c.converged,
                    cd_friction: forces.cd_friction,
                    cd_pressure: forces.cd_pressure,
                    x_separation,
                },
            )
        }
    }
}

/// Solves the viscous flow over one chain of stations: a direct march, and then the coupled
/// iteration with the outer flow.
pub fn solve_viscous<S: Real, P: BlClosure<S>, Q: SurfaceCoupling<S>>(
    stations: &mut Vec<BlStation<S>>,
    ue_inviscid: &Vec<S>,
    dij: &Matrix<S>,
    config: &ViscousSolverConfig<S>,
    closure: &P,
    coupling: &Q,
) -> (r: Result<ViscousResult<S>, SolverError<S>>)
    requires
        arithmetic::<S>(),
        closure.lawful(),
        coupling.lawful(),
        old(stations)@.len() < usize::MAX,
    ensures
        r == viscous_outcome(
            old(stations)@,
            ue_inviscid@,
            *dij,
            *config,
            closure.laws(),
            coupling.laws(),
        ),
        final(stations)@ == (if config.reynolds <= whole::<S>(0) || old(stations)@.len() < 3 {
            old(stations)@
        } else {
            coupled_solution(
                after_march(old(stations)@, *config, closure.laws()).0,
                ue_inviscid@,
                *dij,
                *config,
                closure.laws(),
                coupling.laws(),
            ).stations
        }),
{
    if config.reynolds <= whole(0) {
        return Err(SolverError::InvalidReynolds);
    }
    let n: usize = stations.len();
    if n < 3 {
        return Err(SolverError::InsufficientPanels);
    }
    let msq: S = config.msq;
    let re: S = config.reynolds;
    let ghost start = stations@;
    let ghost bl = closure.laws();
    let mut x: Vec<S> = Vec::with_capacity(n);
    let mut ue: Vec<S> = Vec::with_capacity(n);
    let mut i: usize = 0;
    while i < n
        invariant
            n == start.len(),
            stations@ == start,
            i <= n,
            x@ == start.subrange(0, i as int).map_values(|s: BlStation<S>| s.x),
            ue@ == start.subrange(0, i as int).map_values(|s: BlStation<S>| s.u),
        decreases n - i,
    {
        let ghost before = start.subrange(0, i as int);
        x.push(stations[i].x);
        ue.push(stations[i].u);
        i = i + 1;
        assert(start.subrange(0, i as int) =~= before.push(start[i - 1]));
    }
    assert(start.subrange(0, n as int) =~= start);
    let march_config: MarchConfig<S> = config.march_config(None);
    let march: MarchResult<S> = march_fixed_ue(&x, &ue, re, msq, &march_config, closure);
    proof {
        (MarchFlow { re, msq, config: march_config }).lemma_fixed_march_length(
            x@,
            ue@,
            bl,
            n as nat,
        );
    }
    copy_march(stations, &march.stations, 0);
    let ghost marched = after_march(start, *config, bl).0;
    assert(stations@ =~= marched);
    let x_tr_upper: S = match march.x_transition {
        Some(xt) => xt,
        None => whole(1),
    };
    let flow_types: Vec<FlowType> = interval_regimes_of(stations);
    let ghost task = CoupledTask {
        ue_inviscid: ue_inviscid@,
        dij: *dij,
        config: *config,
        flow_types: interval_regimes(marched),
        bl,
        coupling: coupling.laws(),
    };
    let ghost first = Coupled {
        stations: marched,
        residual: whole::<S>(1),
        converged: false,
        iteration: 0,
    };
    let mut residual: S = whole(1);
    let mut converged: bool = false;
    let mut iteration: usize = 0;
    let mut broken: bool = false;
    while iteration < config.max_iterations && !converged && !broken
        invariant
            arithmetic::<S>(),
            closure.lawful(),
            coupling.lawful(),
            msq == config.msq,
            re == config.reynolds,
            bl == closure.laws(),
            flow_types@ == task.flow_types,
            task.ue_inviscid == ue_inviscid@,
            task.dij == *dij,
            task.config == *config,
            task.bl == bl,
            task.coupling == coupling.laws(),
            iteration <= config.max_iterations,
            broken ==> task.iterated(first) == (Coupled {
                stations: stations@,
                residual,
                converged,
                iteration: iteration as nat,
            }),
            !broken ==> task.iterated(first) == task.iterated(
                Coupled { stations: stations@, residual, converged, iteration: iteration as nat },
            ),
        decreases config.max_iterations - iteration,
    {
        let ghost c = Coupled {
            stations: stations@,
            residual,
            converged,
            iteration: iteration as nat,
        };
        iteration = iteration + 1;
        let valid: bool = refresh_stations(stations, msq, re, closure);
        if !valid {
            broken = true;
            assert(task.iteration(c).1);
        } else {
            let deltas: Vec<[S; 3]> = coupling.step(
                stations,
                &flow_types,
                msq,
                re,
                dij,
                ue_inviscid,
            );
            if deltas_are_finite(&deltas) {
                let (moved, change): (Vec<BlStation<S>>, S) = coupling.update(
                    stations,
                    &deltas,
                    ue_inviscid,
                    dij,
                    config.relaxation,
                );
                *stations = moved;
                residual = change;
                converged = change < config.tolerance;
                broken = has_diverged(change);
            }
        }
        assert(task.iteration(c) == (
            Coupled { stations: stations@, residual, converged, iteration: iteration as nat },
            broken,
        ));
    }
    let x_separation: Option<S> = find_separation(stations);
    match x_separation {
        Some(x_sep) => if !config.allow_separation {
            return Err(SolverError::BoundaryLayerSeparation { x_sep });
        },
        None => {},
    }
    let forces: Forces<S> = coupling.forces(stations, *config);
    Ok(
        ViscousResult {
            alpha: whole(0),
            cl: forces.cl,
            cd: forces.cd,
            cm: forces.cm,
            x_tr_upper,
            x_tr_lower: whole(1),
            iterations: iteration,
            residual,
            converged,
            cd_friction: forces.cd_friction,
            cd_pressure: forces.cd_pressure,
            x_separation,
        },
    )
}

/// Marches one surface at fixed velocity, at a positive Reynolds number.
pub fn solve_surface<S: Real, P: BlClosure<S>>(
    arc_lengths: &[S],
    ue: &[S],
    config: &ViscousSolverConfig<S>,
    closure: &P,
) -> (r: Result<MarchResult<S>, SolverError<S>>)
    requires
        arithmetic::<S>(),
        closure.lawful(),
        config.reynolds <= whole::<S>(0) || (arc_lengths@.len() == ue@.len() && 2
            <= arc_lengths@.len() < usize::MAX),
    ensures
        r is Err <==> config.reynolds <= whole::<S>(0),
        r matches Err(e) ==> e is InvalidReynolds,
        r matches Ok(m) ==> m.holds(
            (MarchFlow {
                re: config.reynolds,
                msq: config.msq,
                config: config.march(None),
            }).fixed_march(arc_lengths@, ue@, closure.laws(), arc_lengths@.len()),
        ),
{
    if config.reynolds <= whole(0) {
        return Err(SolverError::InvalidReynolds);
    }
    let march_config: MarchConfig<S> = config.march_config(None);
    Ok(march_fixed_ue(arc_lengths, ue, config.reynolds, config.msq, &march_config, closure))
}

/// The outcome of a viscous solution at the angle of attack `alpha`.
pub open spec fn at_angle<S: Real>(
    alpha: S,
    outcome: Result<ViscousResult<S>, SolverError<S>>,
) -> Result<ViscousResult<S>, SolverError<S>> {
    match outcome {
        Ok(r) => Ok(ViscousResult { alpha, ..r }),
        Err(e) => Err(e),
    }
}

/// One point of a polar: an angle of attack, its stations, its inviscid velocities and its
/// influence matrix.
pub fn solve_viscous_point<S: Real, P: BlClosure<S>, Q: SurfaceCoupling<S>>(
    setup: &(S, Vec<BlStation<S>>, Vec<S>, Matrix<S>),
    config: &ViscousSolverConfig<S>,
    closure: &P,
    coupling: &Q,
) -> (r: Result<ViscousResult<S>, SolverError<S>>)
    requires
        arithmetic::<S>(),
        closure.lawful(),
        coupling.lawful(),
        setup.1@.len() < usize::MAX,
    ensures
        r == at_angle(
            setup.0,
            viscous_outcome(
                setup.1@,
                setup.2@,
                setup.3,
                *config,
                closure.laws(),
                coupling.laws(),
            ),
        ),
{
    let mut stations: Vec<BlStation<S>> = copied(&setup.1);
    match solve_viscous(&mut stations, &setup.2, &setup.3, config, closure, coupling) {
        Ok(result) => Ok(ViscousResult { alpha: setup.0, ..result }),
        Err(e) => Err(e),
    }
}

/// Solves the points of a polar one after the other. A point that fails leaves the others
/// alone.
pub fn solve_viscous_polar_sequential<S: Real, P: BlClosure<S>, Q: SurfaceCoupling<S>>(
    setups: Vec<(S, Vec<BlStation<S>>, Vec<S>, Matrix<S>)>,
    config: &ViscousSolverConfig<S>,
    closure: &P,
    coupling: &Q,
) -> (r: Vec<Result<ViscousResult<S>, SolverError<S>>>)
    requires
        arithmetic::<S>(),
        closure.lawful(),
        coupling.lawful(),
        forall|i: int|
            0 <= i < setups@.len() ==> (#[trigger] setups@[i]).1@.len() < usize::MAX,
    ensures
        r@.len() == setups@.len(),
        forall|i: int|
            0 <= i < setups@.len() ==> #[trigger] r@[i] == at_angle(
                setups@[i].0,
                viscous_outcome(
                    setups@[i].1@,
                    setups@[i].2@,
                    setups@[i].3,
                    *config,
                    closure.laws(),
                    coupling.laws(),
                ),
            ),
{
    let mut r: Vec<Result<ViscousResult<S>, SolverError<S>>> = Vec::with_capacity(setups.len());
    let mut i: usize = 0;
    while i < setups.len()
        invariant
            arithmetic::<S>(),
            closure.lawful(),
            coupling.lawful(),
            i <= setups@.len(),
            forall|k: int|
                0 <= k < setups@.len() ==> (#[trigger] setups@[k]).1@.len() < usize::MAX,
            r@.len() == i,
            forall|k: int|
                0 <= k < i ==> #[trigger] r@[k] == at_angle(
                    setups@[k].0,
                    viscous_outcome(
                        setups@[k].1@,
                        setups@[k].2@,
                        setups@[k].3,
                        *config,
                        closure.laws(),
                        coupling.laws(),
                    ),
                ),
        decreases setups@.len() - i,
    {
        r.push(solve_viscous_point(&setups[i], config, closure, coupling));
        i = i + 1;
    }
    r
}

impl<S: Real, T> CoupledTask<S, T> {
    /// The coupled iteration never passes its limit; it converges only below the tolerance,
    /// and not without an iteration.
    pub proof fn law_coupled_outcome(self, c: Coupled<S>)
        requires
            !c.converged,
            c.iteration <= self.config.max_iterations,
        ensures
            c.iteration <= self.iterated(c).iteration <= self.config.max_iterations,
            self.iterated(c).converged ==> self.iterated(c).residual < self.config.tolerance
                && self.iterated(c).iteration > c.iteration,
        decreases self.config.max_iterations - c.iteration,
    {
        if c.iteration < self.config.max_iterations {
            let (next, ends) = self.iteration(c);
            assert(next.iteration == c.iteration + 1);
            if !ends && !next.converged {
                self.law_coupled_outcome(next);
            }
        }
    }
}

} // verus!
