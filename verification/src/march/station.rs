//! The solution of one station.
use crate::closure::{BlClosure, BlLaws, Interval, IntervalBlock, StationSystem, TransitionCheck};
use crate::number::{
    abs, arithmetic, clamp, decimal, infinity, is_finite, larger, smaller, tenths, tiny, whole,
    Formula, Real,
};
use crate::station::{BlStation, FlowType};
use vstd::prelude::*;

verus! {

/// The shear stress at the point of transition, from the kinematic shape parameter and the
/// equilibrium shear stress there. `ctrcon` and `ctrcex` are the constants of the relation.
pub open spec fn transition_ctau<S: Real>(
    hk: S,
    cq: S,
    ctrcon: S,
    ctrcex: S,
    exp: spec_fn(S) -> S,
) -> S {
    ctrcon * exp(-ctrcex / larger(hk - whole::<S>(1), decimal::<S>(1, 10))) * cq
}

/// The shear stress at the point of transition.
pub fn compute_transition_ctau<S: Real, P: BlClosure<S>>(
    hk: S,
    cq: S,
    ctrcon: S,
    ctrcex: S,
    closure: &P,
) -> (r: S)
    requires
        arithmetic::<S>(),
        closure.lawful(),
    ensures
        r == transition_ctau(hk, cq, ctrcon, ctrcex, closure.laws().exp),
{
    let hk_arg: S = larger(hk - whole::<S>(1), decimal(1, 10));
    let ctr: S = ctrcon * closure.exp(ctrcex.neg() / hk_arg);
    ctr * cq
}

/// The shear stress with which the turbulent part of a transition interval starts.
pub open spec fn starting_ctau<S: Real, T>(
    prev: BlStation<S>,
    curr: BlStation<S>,
    wf1: S,
    wf2: S,
    xt: S,
    ctrcon: S,
    ctrcex: S,
    msq: S,
    re: S,
    laws: BlLaws<S, T>,
) -> S {
    let tt = prev.theta * wf1 + curr.theta * wf2;
    let point = (laws.blvar)(
        BlStation {
            x: xt,
            u: prev.u * wf1 + curr.u * wf2,
            theta: tt,
            delta_star: prev.delta_star * wf1 + curr.delta_star * wf2,
            ctau: decimal::<S>(3, 100),
            ampl: whole::<S>(0),
            is_laminar: false,
            is_turbulent: true,
            ..laws.blank
        },
        FlowType::Turbulent,
        msq,
        re,
    );
    let st = transition_ctau(point.hk, point.cq, ctrcon, ctrcex, laws.exp);
    if is_finite(tt) && !(tt <= tenths::<S>(20)) && is_finite(st) {
        clamp(st, tenths::<S>(7), decimal::<S>(3, 10))
    } else {
        decimal::<S>(3, 100)
    }
}

/// The shear stress with which the turbulent part of a transition interval starts: that of a
/// turbulent station at the point of transition, within bounds.
pub fn estimate_transition_ctau<S: Real, P: BlClosure<S>>(
    prev: &BlStation<S>,
    curr: &BlStation<S>,
    wf1: S,
    wf2: S,
    xt: S,
    ctrcon: S,
    ctrcex: S,
    msq: S,
    re: S,
    closure: &P,
) -> (r: S)
    requires
        arithmetic::<S>(),
        closure.lawful(),
    ensures
        r == starting_ctau(
            *prev,
            *curr,
            wf1,
            wf2,
            xt,
            ctrcon,
            ctrcex,
            msq,
            re,
            closure.laws(),
        ),
{
    let fallback: S = decimal(3, 100);
    let tt: S = prev.theta * wf1 + curr.theta * wf2;
    let dt: S = prev.delta_star * wf1 + curr.delta_star * wf2;
    let ut: S = prev.u * wf1 + curr.u * wf2;
    if !is_finite(tt) || tt <= tiny(20) {
        return fallback;
    }
    let mut point: BlStation<S> = closure.blank();
    point.x = xt;
    point.u = ut;
    point.theta = tt;
    point.delta_star = dt;
    point.ctau = fallback;
    point.ampl = whole(0);
    point.is_laminar = false;
    point.is_turbulent = true;
    let point: BlStation<S> = closure.blvar(point, FlowType::Turbulent, msq, re);
    let st: S = compute_transition_ctau(point.hk, point.cq, ctrcon, ctrcex, closure);
    if is_finite(st) {
        clamp(st, tiny(7), decimal(3, 10))
    } else {
        fallback
    }
}

/// The first station, by the formula of Thwaites for a stagnation flow.
pub open spec fn stagnation_station<S: Real, T>(x: S, ue: S, re: S, laws: BlLaws<S, T>) -> BlStation<
    S,
> {
    let tsq = decimal::<S>(45, 100) / (ue / x * whole::<S>(6) * (whole::<S>(3) * re));
    let theta = larger((laws.sqrt)(tsq), tenths::<S>(12));
    let delta_star = decimal::<S>(22, 10) * theta;
    let h = delta_star / theta;
    (laws.refreshed)(
        BlStation {
            x,
            u: ue,
            theta,
            delta_star,
            h,
            hk: h,
            ampl: whole::<S>(0),
            ctau: decimal::<S>(3, 100),
            is_laminar: true,
            is_turbulent: false,
            is_wake: false,
            r_theta: re * ue * theta,
            ..laws.blank
        },
    )
}

/// The first station, by the formula of Thwaites for a stagnation flow.
pub fn init_stagnation<S: Real, P: BlClosure<S>>(x: S, ue: S, re: S, closure: &P) -> (r: BlStation<S>)
    requires
        arithmetic::<S>(),
        closure.lawful(),
    ensures
        r == stagnation_station(x, ue, re, closure.laws()),
{
    let mut station: BlStation<S> = closure.blank();
    station.x = x;
    station.u = ue;
    let ucon: S = ue / x;
    let reybl: S = whole::<S>(3) * re;
    let tsq: S = decimal::<S>(45, 100) / (ucon * whole::<S>(6) * reybl);
    station.theta = larger(closure.sqrt(tsq), tiny(12));
    station.delta_star = decimal::<S>(22, 10) * station.theta;
    station.h = station.delta_star / station.theta;
    station.hk = station.h;
    station.ampl = whole(0);
    station.ctau = decimal(3, 100);
    station.is_laminar = true;
    station.is_turbulent = false;
    station.is_wake = false;
    station.r_theta = re * ue * station.theta;
    closure.refreshed(station)
}

/// The scale of a step whose largest relative change is `dmax`.
#[verifier::allow_in_spec]
pub fn step_scale<S: Real>(dmax: S) -> S
    requires
        arithmetic::<S>(),
    returns
        (if dmax > decimal::<S>(3, 10) {
            decimal::<S>(3, 10) / dmax
        } else {
            whole::<S>(1)
        }),
{
    let limit: S = decimal(3, 10);
    if dmax > limit {
        limit / dmax
    } else {
        whole(1)
    }
}

/// What one iteration at the similarity station makes of it, and whether the iteration ends
/// there: on a singular system, with the station as it was, or on convergence.
pub open spec fn similarity_iteration<S: Real, T>(
    s: BlStation<S>,
    msq: S,
    re: S,
    tolerance: S,
    laws: BlLaws<S, T>,
) -> (BlStation<S>, bool) {
    let block = (laws.equations)(
        Interval::Similarity { s2: s, flow: FlowType::Laminar },
        whole::<S>(9),
        msq,
        re,
    );
    let a11 = block.vs2[1][1];
    let a12 = block.vs2[1][2];
    let a21 = block.vs2[2][1];
    let a22 = block.vs2[2][2];
    let b1 = block.residuals[1];
    let b2 = block.residuals[2];
    let det = a11 * a22 - a12 * a21;
    if abs(det) < tenths::<S>(20) {
        (s, true)
    } else {
        let small = tenths::<S>(12);
        let d_theta = (b1 * a22 - b2 * a12) / det;
        let d_dstar = (a11 * b2 - a21 * b1) / det;
        let dmax = larger(
            abs(d_theta / larger(s.theta, small)),
            abs(d_dstar / larger(s.delta_star, small)),
        );
        let rlx = step_scale(dmax);
        let moved = BlStation {
            theta: larger(s.theta + rlx * d_theta, small),
            delta_star: larger(s.delta_star + rlx * d_dstar, small),
            ..s
        };
        ((laws.blvar)(moved, FlowType::Laminar, msq, re), dmax < tolerance)
    }
}

/// The similarity station after at most `n` iterations.
pub open spec fn similarity_solution<S: Real, T>(
    s: BlStation<S>,
    msq: S,
    re: S,
    tolerance: S,
    laws: BlLaws<S, T>,
    n: nat,
) -> BlStation<S>
    decreases n,
{
    if n == 0 {
        s
    } else {
        let (next, done) = similarity_iteration(s, msq, re, tolerance, laws);
        if done {
            next
        } else {
            similarity_solution(next, msq, re, tolerance, laws, (n - 1) as nat)
        }
    }
}

/// Solves the first station on the similarity equations, for momentum and displacement
/// thickness.
pub fn newton_solve_similarity<S: Real, P: BlClosure<S>>(
    station: &BlStation<S>,
    msq: S,
    re: S,
    max_iter: usize,
    tolerance: S,
    closure: &P,
) -> (r: BlStation<S>)
    requires
        arithmetic::<S>(),
        closure.lawful(),
    ensures
        r == similarity_solution(*station, msq, re, tolerance, closure.laws(), max_iter as nat),
{
    let mut s: BlStation<S> = *station;
    let small: S = tiny(12);
    let mut iter: usize = 0;
    while iter < max_iter
        invariant
            arithmetic::<S>(),
            closure.lawful(),
            iter <= max_iter,
            small == tenths::<S>(12),
            similarity_solution(
                s,
                msq,
                re,
                tolerance,
                closure.laws(),
                (max_iter - iter) as nat,
            ) == similarity_solution(
                *station,
                msq,
                re,
                tolerance,
                closure.laws(),
                max_iter as nat,
            ),
        decreases max_iter - iter,
    {
        let block: IntervalBlock<S> = closure.equations(
            Interval::Similarity { s2: s, flow: FlowType::Laminar },
            whole(9),
            msq,
            re,
        );
        let a11: S = block.vs2[1][1];
        let a12: S = block.vs2[1][2];
        let a21: S = block.vs2[2][1];
        let a22: S = block.vs2[2][2];
        let b1: S = block.residuals[1];
        let b2: S = block.residuals[2];
        let det: S = a11 * a22 - a12 * a21;
        if abs(det) < tiny(20) {
            return s;
        }
        let d_theta: S = (b1 * a22 - b2 * a12) / det;
        let d_dstar: S = (a11 * b2 - a21 * b1) / det;
        let dn2: S = abs(d_theta / larger(s.theta, small));
        let dn3: S = abs(d_dstar / larger(s.delta_star, small));
        let dmax: S = larger(dn2, dn3);
        let rlx: S = step_scale(dmax);
        s.theta = larger(s.theta + rlx * d_theta, small);
        s.delta_star = larger(s.delta_star + rlx * d_dstar, small);
        s = closure.blvar(s, FlowType::Laminar, msq, re);
        if dmax < tolerance {
            return s;
        }
        iter = iter + 1;
    }
    s
}

/// Momentum and displacement thickness at arc length `x_new`, one explicit step of the
/// momentum integral equation from the station before, within bounds on the change of
/// either thickness and of the shape parameter.
pub open spec fn momentum_step<S: Real>(
    prev: BlStation<S>,
    x_new: S,
    ue_new: S,
    re: S,
    msq: S,
    is_laminar: bool,
) -> (S, S) {
    let half = decimal::<S>(1, 2);
    let dx = abs(x_new - prev.x);
    let h = clamp(prev.h, whole::<S>(1), whole::<S>(4));
    let theta = larger(prev.theta, tenths::<S>(12));
    let ue = larger(abs(prev.u), tenths::<S>(10));
    let cf = larger(prev.cf, tenths::<S>(6));
    let ue_next = larger(abs(ue_new), tenths::<S>(10));
    let due_dx = (ue_next - ue) / dx;
    let ue_avg = half * (ue + ue_next);
    let friction = cf / whole::<S>(2);
    let pressure = (h + whole::<S>(2) - msq) * theta / ue_avg * due_dx;
    let growth = friction - smaller(pressure, friction + half * theta / dx);
    let theta_new = clamp(
        theta + growth * dx,
        larger(theta * half, tenths::<S>(12)),
        smaller(theta * whole::<S>(2), decimal::<S>(1, 10)),
    );
    let lambda = clamp(theta * theta * re * due_dx / ue_avg, -half, half);
    let h_new = if is_laminar {
        let h_eq = if lambda < -decimal::<S>(9, 100) {
            whole::<S>(2)
        } else if lambda > decimal::<S>(9, 100) {
            whole::<S>(4)
        } else {
            clamp(
                decimal::<S>(261, 100) - decimal::<S>(375, 100) * lambda - decimal::<S>(524, 100)
                    * lambda * lambda,
                whole::<S>(2),
                whole::<S>(4),
            )
        };
        decimal::<S>(8, 10) * h + decimal::<S>(2, 10) * h_eq
    } else {
        let h_eq = decimal::<S>(14, 10) + half * smaller(abs(lambda), decimal::<S>(2, 10));
        clamp(
            decimal::<S>(8, 10) * h + decimal::<S>(2, 10) * h_eq,
            decimal::<S>(12, 10),
            whole::<S>(3),
        )
    };
    if dx <= tenths::<S>(12) {
        (prev.theta, prev.delta_star)
    } else {
        (theta_new, h_new * theta_new)
    }
}

/// Momentum and displacement thickness at arc length `x_new`, by one explicit step of the
/// momentum integral equation.
pub fn step_momentum<S: Real>(
    prev: &BlStation<S>,
    x_new: S,
    ue_new: S,
    re: S,
    msq: S,
    is_laminar: bool,
) -> (r: (S, S))
    requires
        arithmetic::<S>(),
    ensures
        r == momentum_step(*prev, x_new, ue_new, re, msq, is_laminar),
{
    let dx: S = abs(x_new - prev.x);
    if dx <= tiny(12) {
        return (prev.theta, prev.delta_star);
    }
    let half: S = decimal(1, 2);
    let two: S = whole(2);
    let h: S = clamp(prev.h, whole(1), whole(4));
    let theta: S = larger(prev.theta, tiny(12));
    let ue: S = larger(abs(prev.u), tiny(10));
    let cf: S = larger(prev.cf, tiny(6));
    let ue_next: S = larger(abs(ue_new), tiny(10));
    let due_dx: S = (ue_next - ue) / dx;
    let ue_avg: S = half * (ue + ue_next);
    let pressure: S = (h + two - msq) * theta / ue_avg * due_dx;
    let friction: S = cf / two;
    let growth: S = friction - smaller(pressure, friction + half * theta / dx);
    let theta_new: S = clamp(
        theta + growth * dx,
        larger(theta * half, tiny(12)),
        smaller(theta * two, decimal(1, 10)),
    );
    let lambda: S = clamp(theta * theta * re * due_dx / ue_avg, half.neg(), half);
    let h_new: S = if is_laminar {
        let h_eq: S = if lambda < decimal::<S>(9, 100).neg() {
            two
        } else if lambda > decimal(9, 100) {
            whole(4)
        } else {
            clamp(
                decimal::<S>(261, 100) - decimal::<S>(375, 100) * lambda - decimal::<S>(524, 100)
                    * lambda * lambda,
                two,
                whole(4),
            )
        };
        decimal::<S>(8, 10) * h + decimal::<S>(2, 10) * h_eq
    } else {
        let h_eq: S = decimal::<S>(14, 10) + half * smaller(abs(lambda), decimal(2, 10));
        clamp(
            decimal::<S>(8, 10) * h + decimal::<S>(2, 10) * h_eq,
            decimal(12, 10),
            whole(3),
        )
    };
    (theta_new, h_new * theta_new)
}

/// What the Newton iteration of a station works with: the station upstream, the arc length,
/// the limits, and the arc length at which transition is forced.
#[derive(Clone, Copy, Debug)]
pub struct StationTask<S> {
    pub prev: BlStation<S>,
    pub x_new: S,
    pub re: S,
    pub msq: S,
    pub is_wake: bool,
    pub ncrit: S,
    pub tolerance: S,
    pub hlmax: S,
    pub htmax: S,
    pub x_forced: Option<S>,
}

/// The state of the Newton iteration of a station.
#[derive(Clone, Copy, Debug)]
pub struct StationState<S> {
    pub station: BlStation<S>,
    /// Whether the station is still laminar.
    pub laminar: bool,
    pub flow: FlowType,
    /// Whether the edge velocity is kept, rather than the shape parameter.
    pub direct: bool,
    /// The shape parameter that the inverse form prescribes.
    pub htarg: S,
    /// Whether transition was found in the interval.
    pub active: bool,
    /// Arc length of transition, as last found.
    pub xt: Option<S>,
    /// The largest relative change of the last iteration.
    pub dmax: S,
}

/// The station that the iteration starts from: the guess, or else the station upstream.
pub open spec fn first_state<S: Real, T>(
    task: StationTask<S>,
    guess: Option<BlStation<S>>,
    ue_new: S,
    is_laminar: bool,
    laws: BlLaws<S, T>,
) -> StationState<S> {
    let init = match guess {
        Some(g) => g,
        None => task.prev,
    };
    let flow = if task.is_wake {
        FlowType::Wake
    } else if is_laminar {
        FlowType::Laminar
    } else {
        FlowType::Turbulent
    };
    StationState {
        station: (laws.blvar)(
            BlStation {
                x: task.x_new,
                u: ue_new,
                is_laminar,
                is_turbulent: !is_laminar,
                is_wake: task.is_wake,
                theta: init.theta,
                delta_star: init.delta_star,
                ctau: (if is_laminar {
                    decimal::<S>(3, 100)
                } else {
                    init.ctau
                }),
                ampl: init.ampl,
                ..laws.blank
            },
            flow,
            task.msq,
            task.re,
        ),
        laminar: is_laminar,
        flow,
        direct: true,
        htarg: (if is_laminar {
            task.hlmax
        } else {
            task.htmax
        }),
        active: false,
        xt: None,
        dmax: infinity::<S>(),
    }
}

impl<S: Real> StationTask<S> {
    /// The full transition check of the interval.
    pub open spec fn check<T>(self, s: BlStation<S>, laws: BlLaws<S, T>) -> TransitionCheck<S, T> {
        (laws.trchek)(self.prev, s, self.ncrit, self.x_forced, self.msq, self.re)
    }

    /// Whether the iteration looks for transition at all.
    pub open spec fn looks(self, st: StationState<S>) -> bool {
        self.ncrit > whole::<S>(0) && (st.laminar || st.active || self.x_forced is Some)
    }

    /// The state after the look for transition. Where it is found first, the station turns
    /// turbulent, with the default shear stress.
    pub open spec fn looked<T>(self, st: StationState<S>, laws: BlLaws<S, T>) -> StationState<S> {
        let tr = self.check(st.station, laws);
        if !(self.looks(st) && tr.transition) {
            st
        } else if st.active {
            StationState { xt: Some(tr.xt), ..st }
        } else {
            StationState {
                station: (laws.blvar)(
                    BlStation {
                        is_laminar: false,
                        is_turbulent: true,
                        ampl: tr.ampl2,
                        ctau: decimal::<S>(3, 100),
                        ..st.station
                    },
                    FlowType::Turbulent,
                    self.msq,
                    self.re,
                ),
                laminar: false,
                flow: FlowType::Turbulent,
                htarg: self.htmax,
                active: true,
                xt: Some(tr.xt),
                ..st
            }
        }
    }

    /// The linearised equations of the interval: those of transition where the look found
    /// it, of turbulent flow where an earlier look did, and of the regime else.
    pub open spec fn linearised<T>(
        self,
        st: StationState<S>,
        laws: BlLaws<S, T>,
    ) -> IntervalBlock<S> {
        let tr = self.check(st.station, laws);
        let after = self.looked(st, laws);
        let interval = if self.looks(st) && tr.transition {
            Interval::Transition { s1: self.prev, s2: after.station, transition: tr.detail }
        } else {
            Interval::Regular {
                s1: self.prev,
                s2: after.station,
                flow: (if after.active {
                    FlowType::Turbulent
                } else {
                    after.flow
                }),
            }
        };
        (laws.equations)(interval, whole::<S>(9), self.msq, self.re)
    }

    /// The Newton step of a station with the linearised equations `block`.
    pub open spec fn newton_step<T>(
        self,
        st: StationState<S>,
        block: IntervalBlock<S>,
        laws: BlLaws<S, T>,
    ) -> [S; 4] {
        let s = st.station;
        let (a, b) = (laws.station_system)(
            StationSystem {
                vs2: block.vs2,
                residuals: block.residuals,
                direct: st.direct,
                hk2_t: s.derivs.hk_h * s.derivs.h_theta,
                hk2_d: s.derivs.hk_h * s.derivs.h_delta_star,
                hk2_u: whole::<S>(0),
                htarg: st.htarg,
                hk: s.hk,
            },
        );
        (laws.solve_4x4)(a, b)
    }

    /// The largest shape parameter of the direct form.
    pub open spec fn hmax(self, st: StationState<S>) -> S {
        if st.laminar {
            self.hlmax
        } else {
            self.htmax
        }
    }

    /// The shape parameter that the inverse form prescribes when a station turns to it.
    pub open spec fn target(self, st: StationState<S>) -> S {
        let p = self.prev;
        let theta = larger(p.theta, tenths::<S>(12));
        let rise = decimal::<S>(3, 100);
        let fall = decimal::<S>(15, 100);
        let dx = self.x_new - p.x;
        let t = if st.laminar {
            p.hk + rise * dx / theta
        } else {
            match st.xt {
                Some(xt) => p.hk + (rise * (xt - p.x) - fall * (st.station.x - xt)) / theta,
                None => if self.is_wake {
                    wake_target(p.hk, rise * dx / theta, 3)
                } else {
                    p.hk - fall * dx / theta
                },
            }
        };
        if self.is_wake {
            larger(t, decimal::<S>(101, 100))
        } else {
            larger(t, self.hmax(st))
        }
    }

    /// One iteration: the state after it, and whether the station has converged.
    pub open spec fn iteration<T>(
        self,
        st: StationState<S>,
        laws: BlLaws<S, T>,
    ) -> (StationState<S>, bool) {
        let now = self.looked(st, laws);
        let v = self.newton_step(now, self.linearised(st, laws), laws);
        let dmax = largest_change(now.station, v, now.laminar, now.direct);
        let rlx = step_scale(dmax);
        let s = now.station;
        let h_test = (s.delta_star + rlx * v[2]) / larger(s.theta + rlx * v[1], tenths::<S>(12));
        if now.direct && !((laws.hkin)(h_test, self.msq).0 < self.hmax(now)) {
            (StationState { direct: false, htarg: self.target(now), dmax, ..now }, false)
        } else {
            let moved = (laws.blvar)(
                stepped(s, v, rlx, now.laminar, now.direct, self.is_wake),
                now.flow,
                self.msq,
                self.re,
            );
            let xt = if now.active {
                Some(self.check(moved, laws).xt)
            } else {
                now.xt
            };
            (StationState { station: moved, xt, dmax, ..now }, dmax <= self.tolerance)
        }
    }

    /// The state after at most `n` iterations, and whether the station has converged.
    pub open spec fn iterated<T>(
        self,
        st: StationState<S>,
        laws: BlLaws<S, T>,
        n: nat,
    ) -> (StationState<S>, bool)
        decreases n,
    {
        if n == 0 {
            (st, false)
        } else {
            let (next, converged) = self.iteration(st, laws);
            if converged {
                (next, true)
            } else {
                self.iterated(next, laws, (n - 1) as nat)
            }
        }
    }

    /// The station, whether it has converged, and the largest relative change of the last
    /// iteration.
    #[verifier::opaque]
    pub open spec fn solution<T>(
        self,
        guess: Option<BlStation<S>>,
        ue_new: S,
        is_laminar: bool,
        max_iter: nat,
        laws: BlLaws<S, T>,
    ) -> (BlStation<S>, bool, S) {
        let (st, converged) = self.iterated(
            first_state(self, guess, ue_new, is_laminar, laws),
            laws,
            max_iter,
        );
        (st.station, converged, st.dmax)
    }
}

/// The shape parameter of a wake that relaxes from `hk`, by `n` Newton steps.
pub open spec fn wake_target<S: Real>(hk: S, c: S, n: nat) -> S
    decreases n,
{
    if n == 0 {
        hk
    } else {
        let k = wake_target(hk, c, (n - 1) as nat);
        let d = k - whole::<S>(1);
        k - (k + c * (d * d * d) - hk) / (whole::<S>(1) + whole::<S>(3) * c * (d * d))
    }
}

/// The largest relative change in a step `v` of a station.
pub open spec fn largest_change<S: Real>(
    s: BlStation<S>,
    v: [S; 4],
    laminar: bool,
    direct: bool,
) -> S {
    let small = tenths::<S>(12);
    let ctau = larger(s.ctau, tenths::<S>(6));
    let scale = if laminar {
        whole::<S>(10)
    } else if direct {
        ctau
    } else {
        whole::<S>(10) * ctau
    };
    let d = larger(abs(v[1] / larger(s.theta, small)), abs(v[2] / larger(s.delta_star, small)));
    let d = larger(d, abs(v[0] / scale));
    if direct {
        d
    } else {
        larger(d, abs(v[3] / larger(s.u, tenths::<S>(6))))
    }
}

/// A station after the step `v`, scaled by `rlx`. Amplification, shear stress and both
/// thicknesses stay within bounds, and the shape parameter above its limit.
pub open spec fn stepped<S: Real>(
    s: BlStation<S>,
    v: [S; 4],
    rlx: S,
    laminar: bool,
    direct: bool,
    is_wake: bool,
) -> BlStation<S> {
    let small = tenths::<S>(12);
    let theta = larger(s.theta + rlx * v[1], small);
    let delta_star = larger(s.delta_star + rlx * v[2], small);
    let gap = larger(s.dw, whole::<S>(0));
    let hklim = if is_wake {
        decimal::<S>(100005, 100000)
    } else {
        decimal::<S>(102, 100)
    };
    let dsw = if is_wake {
        delta_star - gap
    } else {
        delta_star
    };
    BlStation {
        ampl: (if laminar {
            larger(s.ampl + rlx * v[0], whole::<S>(0))
        } else {
            s.ampl
        }),
        ctau: (if laminar {
            s.ctau
        } else {
            clamp(s.ctau + rlx * v[0], tenths::<S>(7), decimal::<S>(3, 10))
        }),
        theta,
        u: (if direct {
            s.u
        } else {
            s.u + rlx * v[3]
        }),
        delta_star: (if !(dsw / larger(theta, small) < hklim) {
            delta_star
        } else if is_wake {
            hklim * theta + gap
        } else {
            hklim * theta
        }),
        ..s
    }
}

/// The largest relative change in a step `v` of a station.
fn change_of<S: Real>(s: &BlStation<S>, v: &[S; 4], laminar: bool, direct: bool) -> (r: S)
    requires
        arithmetic::<S>(),
    ensures
        r == largest_change(*s, *v, laminar, direct),
{
    let small: S = tiny(12);
    let mut d: S = larger(
        abs(v[1] / larger(s.theta, small)),
        abs(v[2] / larger(s.delta_star, small)),
    );
    if laminar {
        d = larger(d, abs(v[0] / whole(10)));
    } else {
        let ctau: S = larger(s.ctau, tiny(6));
        let scale: S = if direct {
            ctau
        } else {
            whole::<S>(10) * ctau
        };
        d = larger(d, abs(v[0] / scale));
    }
    if !direct {
        d = larger(d, abs(v[3] / larger(s.u, tiny(6))));
    }
    d
}

/// A station after the step `v`, scaled by `rlx`.
fn step_station<S: Real>(
    station: &BlStation<S>,
    v: &[S; 4],
    rlx: S,
    laminar: bool,
    direct: bool,
    is_wake: bool,
) -> (r: BlStation<S>)
    requires
        arithmetic::<S>(),
    ensures
        r == stepped(*station, *v, rlx, laminar, direct, is_wake),
{
    let small: S = tiny(12);
    let mut s: BlStation<S> = *station;
    if laminar {
        s.ampl = larger(s.ampl + rlx * v[0], whole(0));
    } else {
        s.ctau = clamp(s.ctau + rlx * v[0], tiny(7), decimal(3, 10));
    }
    s.theta = larger(s.theta + rlx * v[1], small);
    s.delta_star = larger(s.delta_star + rlx * v[2], small);
    if !direct {
        s.u = s.u + rlx * v[3];
    }
    let hklim: S = if is_wake {
        decimal(100005, 100000)
    } else {
        decimal(102, 100)
    };
    let dsw: S = if is_wake {
        s.delta_star - larger(s.dw, whole(0))
    } else {
        s.delta_star
    };
    let dslim: S = hklim * s.theta;
    if dsw / larger(s.theta, small) < hklim {
        s.delta_star = if is_wake {
            dslim + larger(s.dw, whole(0))
        } else {
            dslim
        };
    }
    s
}

/// The shape parameter of a wake that relaxes from `hk`, by three Newton steps.
fn wake_target_of<S: Real>(hk: S, c: S) -> (r: S)
    requires
        arithmetic::<S>(),
    ensures
        r == wake_target(hk, c, 3),
{
    let one: S = whole(1);
    let three: S = whole(3);
    let mut k: S = hk;
    let mut i: u32 = 0;
    while i < 3
        invariant
            arithmetic::<S>(),
            one == whole::<S>(1),
            three == whole::<S>(3),
            i <= 3,
            k == wake_target(hk, c, i as nat),
        decreases 3 - i,
    {
        let d: S = k - one;
        k = k - (k + c * (d * d * d) - hk) / (one + three * c * (d * d));
        i = i + 1;
    }
    k
}

impl<S: Real> StationTask<S> {
    /// The largest shape parameter of the direct form.
    fn hmax_of(&self, st: &StationState<S>) -> (r: S)
        ensures
            r == self.hmax(*st),
    {
        if st.laminar {
            self.hlmax
        } else {
            self.htmax
        }
    }

    /// The shape parameter that the inverse form prescribes when a station turns to it.
    fn target_of(&self, st: &StationState<S>) -> (r: S)
        requires
            arithmetic::<S>(),
        ensures
            r == self.target(*st),
    {
        let p: BlStation<S> = self.prev;
        let theta: S = larger(p.theta, tiny(12));
        let rise: S = decimal(3, 100);
        let fall: S = decimal(15, 100);
        let dx: S = self.x_new - p.x;
        let t: S = if st.laminar {
            p.hk + rise * dx / theta
        } else {
            match st.xt {
                Some(xt) => p.hk + (rise * (xt - p.x) - fall * (st.station.x - xt)) / theta,
                None => if self.is_wake {
                    wake_target_of(p.hk, rise * dx / theta)
                } else {
                    p.hk - fall * dx / theta
                },
            }
        };
        if self.is_wake {
            larger(t, decimal(101, 100))
        } else {
            larger(t, self.hmax_of(st))
        }
    }

    /// Looks for transition, and linearises the equations of the interval with what it
    /// found.
    fn look_and_linearise<P: BlClosure<S>>(
        &self,
        st: &StationState<S>,
        closure: &P,
    ) -> (r: (StationState<S>, IntervalBlock<S>))
        requires
            arithmetic::<S>(),
            closure.lawful(),
        ensures
            r.0 == self.looked(*st, closure.laws()),
            r.1 == self.linearised(*st, closure.laws()),
    {
        let mut now: StationState<S> = *st;
        if self.ncrit > whole(0) && (st.laminar || st.active || self.x_forced.is_some()) {
            let tr: TransitionCheck<S, P::Transition> = closure.trchek(
                self.prev,
                st.station,
                self.ncrit,
                self.x_forced,
                self.msq,
                self.re,
            );
            if tr.transition {
                if !st.active {
                    let mut s: BlStation<S> = st.station;
                    s.is_laminar = false;
                    s.is_turbulent = true;
                    s.ampl = tr.ampl2;
                    s.ctau = decimal(3, 100);
                    now.station = closure.blvar(s, FlowType::Turbulent, self.msq, self.re);
                    now.laminar = false;
                    now.flow = FlowType::Turbulent;
                    now.htarg = self.htmax;
                    now.active = true;
                }
                now.xt = Some(tr.xt);
                let block: IntervalBlock<S> = closure.equations(
                    Interval::Transition {
                        s1: self.prev,
                        s2: now.station,
                        transition: tr.detail,
                    },
                    whole(9),
                    self.msq,
                    self.re,
                );
                return (now, block);
            }
        }
        let flow: FlowType = if now.active {
            FlowType::Turbulent
        } else {
            now.flow
        };
        let block: IntervalBlock<S> = closure.equations(
            Interval::Regular { s1: self.prev, s2: now.station, flow },
            whole(9),
            self.msq,
            self.re,
        );
        (now, block)
    }

    /// One iteration: the state after it, and whether the station has converged.
    fn iterate<P: BlClosure<S>>(&self, st: &StationState<S>, closure: &P) -> (r: (
        StationState<S>,
        bool,
    ))
        requires
            arithmetic::<S>(),
            closure.lawful(),
        ensures
            r == self.iteration(*st, closure.laws()),
    {
        let (now, block): (StationState<S>, IntervalBlock<S>) = self.look_and_linearise(
            st,
            closure,
        );
        let s: BlStation<S> = now.station;
        let (a, b): ([[S; 4]; 4], [S; 4]) = closure.station_system(
            StationSystem {
                vs2: block.vs2,
                residuals: block.residuals,
                direct: now.direct,
                hk2_t: s.derivs.hk_h * s.derivs.h_theta,
                hk2_d: s.derivs.hk_h * s.derivs.h_delta_star,
                hk2_u: whole(0),
                htarg: now.htarg,
                hk: s.hk,
            },
        );
        let v: [S; 4] = closure.solve_4x4(a, b);
        let dmax: S = change_of(&s, &v, now.laminar, now.direct);
        let rlx: S = step_scale(dmax);
        if now.direct {
            let h_test: S = (s.delta_star + rlx * v[2]) / larger(s.theta + rlx * v[1], tiny(12));
            let hk_test: S = closure.hkin(h_test, self.msq).0;
            if !(hk_test < self.hmax_of(&now)) {
                let htarg: S = self.target_of(&now);
                return (StationState { direct: false, htarg, dmax, ..now }, false);
            }
        }
        let moved: BlStation<S> = step_station(
            &s,
            &v,
            rlx,
            now.laminar,
            now.direct,
            self.is_wake,
        );
        let moved: BlStation<S> = closure.blvar(moved, now.flow, self.msq, self.re);
        let xt: Option<S> = if now.active {
            Some(
                closure.trchek(
                    self.prev,
                    moved,
                    self.ncrit,
                    self.x_forced,
                    self.msq,
                    self.re,
                ).xt,
            )
        } else {
            now.xt
        };
        (StationState { station: moved, xt, dmax, ..now }, dmax <= self.tolerance)
    }

    /// The state that the iteration starts from.
    fn start<P: BlClosure<S>>(
        &self,
        guess: Option<BlStation<S>>,
        ue_new: S,
        is_laminar: bool,
        closure: &P,
    ) -> (r: StationState<S>)
        requires
            arithmetic::<S>(),
            closure.lawful(),
        ensures
            r == first_state(*self, guess, ue_new, is_laminar, closure.laws()),
    {
        let init: BlStation<S> = match guess {
            Some(g) => g,
            None => self.prev,
        };
        let flow: FlowType = if self.is_wake {
            FlowType::Wake
        } else if is_laminar {
            FlowType::Laminar
        } else {
            FlowType::Turbulent
        };
        let mut s: BlStation<S> = closure.blank();
        s.x = self.x_new;
        s.u = ue_new;
        s.is_laminar = is_laminar;
        s.is_turbulent = !is_laminar;
        s.is_wake = self.is_wake;
        s.theta = init.theta;
        s.delta_star = init.delta_star;
        s.ctau = if is_laminar {
            decimal(3, 100)
        } else {
            init.ctau
        };
        s.ampl = init.ampl;
        StationState {
            station: closure.blvar(s, flow, self.msq, self.re),
            laminar: is_laminar,
            flow,
            direct: true,
            htarg: if is_laminar {
                self.hlmax
            } else {
                self.htmax
            },
            active: false,
            xt: None,
            dmax: infinity(),
        }
    }

    /// Solves the station.
    pub fn solve<P: BlClosure<S>>(
        &self,
        guess: Option<BlStation<S>>,
        ue_new: S,
        is_laminar: bool,
        max_iter: usize,
        closure: &P,
    ) -> (r: (BlStation<S>, bool, S))
        requires
            arithmetic::<S>(),
            closure.lawful(),
        ensures
            r == self.solution(guess, ue_new, is_laminar, max_iter as nat, closure.laws()),
    {
        let first: StationState<S> = self.start(guess, ue_new, is_laminar, closure);
        let mut st: StationState<S> = first;
        let mut iter: usize = 0;
        while iter < max_iter
            invariant
                arithmetic::<S>(),
                closure.lawful(),
                iter <= max_iter,
                self.iterated(st, closure.laws(), (max_iter - iter) as nat) == self.iterated(
                    first,
                    closure.laws(),
                    max_iter as nat,
                ),
                first == first_state(*self, guess, ue_new, is_laminar, closure.laws()),
            decreases max_iter - iter,
        {
            let (next, converged): (StationState<S>, bool) = self.iterate(&st, closure);
            if converged {
                reveal(StationTask::solution);
                return (next.station, true, next.dmax);
            }
            st = next;
            iter = iter + 1;
        }
        reveal(StationTask::solution);
        (st.station, false, st.dmax)
    }
}

/// Solves a station by Newton iteration: laminar or turbulent equations as `is_laminar`
/// says, no wake, and no look for transition.
pub fn newton_solve_station<S: Real, P: BlClosure<S>>(
    prev: &BlStation<S>,
    x_new: S,
    ue_new: S,
    re: S,
    msq: S,
    is_laminar: bool,
    max_iter: usize,
    tolerance: S,
    hlmax: S,
    htmax: S,
    closure: &P,
) -> (r: (BlStation<S>, bool, S))
    requires
        arithmetic::<S>(),
        closure.lawful(),
    ensures
        r == (StationTask {
            prev: *prev,
            x_new,
            re,
            msq,
            is_wake: false,
            ncrit: whole::<S>(0),
            tolerance,
            hlmax,
            htmax,
            x_forced: None,
        }).solution(None, ue_new, is_laminar, max_iter as nat, closure.laws()),
{
    newton_solve_station_with_guess(
        prev,
        None,
        x_new,
        ue_new,
        re,
        msq,
        is_laminar,
        false,
        whole(0),
        max_iter,
        tolerance,
        hlmax,
        htmax,
        None,
        closure,
    )
}

/// Solves a station by Newton iteration, from `initial_guess` where there is one.
pub fn newton_solve_station_with_guess<S: Real, P: BlClosure<S>>(
    prev: &BlStation<S>,
    initial_guess: Option<BlStation<S>>,
    x_new: S,
    ue_new: S,
    re: S,
    msq: S,
    is_laminar: bool,
    is_wake: bool,
    ncrit: S,
    max_iter: usize,
    tolerance: S,
    hlmax: S,
    htmax: S,
    x_forced: Option<S>,
    closure: &P,
) -> (r: (BlStation<S>, bool, S))
    requires
        arithmetic::<S>(),
        closure.lawful(),
    ensures
        r == (StationTask {
            prev: *prev,
            x_new,
            re,
            msq,
            is_wake,
            ncrit,
            tolerance,
            hlmax,
            htmax,
            x_forced,
        }).solution(initial_guess, ue_new, is_laminar, max_iter as nat, closure.laws()),
{
    newton_solve_station_transition(
        prev,
        initial_guess,
        x_new,
        ue_new,
        re,
        msq,
        is_laminar,
        is_wake,
        ncrit,
        max_iter,
        tolerance,
        hlmax,
        htmax,
        x_forced,
        closure,
    )
}

/// Solves a station by Newton iteration, and looks for transition in its interval where
/// `ncrit` is positive. Returns the station, whether it has converged, and the largest
/// relative change of the last iteration.
pub fn newton_solve_station_transition<S: Real, P: BlClosure<S>>(
    prev: &BlStation<S>,
    initial_guess: Option<BlStation<S>>,
    x_new: S,
    ue_new: S,
    re: S,
    msq: S,
    is_laminar: bool,
    is_wake: bool,
    ncrit: S,
    max_iter: usize,
    tolerance: S,
    hlmax: S,
    htmax: S,
    x_forced: Option<S>,
    closure: &P,
) -> (r: (BlStation<S>, bool, S))
    requires
        arithmetic::<S>(),
        closure.lawful(),
    ensures
        r == (StationTask {
            prev: *prev,
            x_new,
            re,
            msq,
            is_wake,
            ncrit,
            tolerance,
            hlmax,
            htmax,
            x_forced,
        }).solution(initial_guess, ue_new, is_laminar, max_iter as nat, closure.laws()),
{
    let task = StationTask {
        prev: *prev,
        x_new,
        re,
        msq,
        is_wake,
        ncrit,
        tolerance,
        hlmax,
        htmax,
        x_forced,
    };
    task.solve(initial_guess, ue_new, is_laminar, max_iter, closure)
}

} // verus!
