//! The mixed march: it walks the stations that are there, and lets the edge velocity answer
//! to the shape parameter.
use crate::closure::{BlClosure, BlLaws, Interval, IntervalBlock, StationCheck, TransitionCheck};
use crate::march::config::{MarchConfig, MarchResult};
use crate::march::linear::{build_mrchdu_4x4, closed_system};
use crate::march::station::step_scale;
use crate::number::{
    abs, arithmetic, clamp, decimal, is_finite, larger, tenths, tiny, whole, Formula, Real,
};
use crate::station::{BlStation, FlowType};
use vstd::prelude::*;

verus! {

/// The first of the stations from `i` on that is turbulent, or their number.
pub open spec fn first_turbulent<S>(stations: Seq<BlStation<S>>, i: int) -> int
    decreases stations.len() - i,
{
    if i >= stations.len() {
        stations.len() as int
    } else if stations[i].is_turbulent {
        i
    } else {
        first_turbulent(stations, i + 1)
    }
}

/// The first of the stations from `i` on that lies in the wake, or their number.
pub open spec fn first_in_wake<S>(stations: Seq<BlStation<S>>, i: int) -> int
    decreases stations.len() - i,
{
    if i >= stations.len() {
        stations.len() as int
    } else if stations[i].is_wake {
        i
    } else {
        first_in_wake(stations, i + 1)
    }
}

/// The first station that is turbulent, or their number.
fn first_turbulent_of<S: Real>(stations: &[BlStation<S>]) -> (r: usize)
    ensures
        r == first_turbulent(stations@, 0),
{
    let mut i: usize = 0;
    while i < stations.len()
        invariant
            i <= stations@.len(),
            first_turbulent(stations@, i as int) == first_turbulent(stations@, 0),
        decreases stations@.len() - i,
    {
        if stations[i].is_turbulent {
            return i;
        }
        i = i + 1;
    }
    i
}

/// The first station in the wake, or their number.
fn first_in_wake_of<S: Real>(stations: &[BlStation<S>]) -> (r: usize)
    ensures
        r == first_in_wake(stations@, 0),
{
    let mut i: usize = 0;
    while i < stations.len()
        invariant
            i <= stations@.len(),
            first_in_wake(stations@, i as int) == first_in_wake(stations@, 0),
        decreases stations@.len() - i,
    {
        if stations[i].is_wake {
            return i;
        }
        i = i + 1;
    }
    i
}

/// What the mixed march knows of a station before it iterates there.
#[derive(Clone, Copy, Debug)]
pub struct MixedTask<S> {
    pub prev: BlStation<S>,
    /// Whether it is the first station behind the similarity station.
    pub simi: bool,
    /// Whether the station lies before the first one that was turbulent.
    pub fresh: bool,
    /// Whether the boundary layer is still laminar upstream.
    pub laminar: bool,
    /// Whether transition or the trailing edge lies upstream.
    pub turb: bool,
    pub wake: bool,
    /// The wake gap.
    pub gap: S,
    pub re: S,
    pub msq: S,
    pub config: MarchConfig<S>,
}

/// The state of the iteration at a station of the mixed march.
#[derive(Clone, Copy, Debug)]
pub struct MixedState<S> {
    pub station: BlStation<S>,
    pub flow: FlowType,
    /// Whether transition was found at this station.
    pub tran: bool,
    /// Arc length of transition.
    pub xt: Option<S>,
    /// Reference velocity and shape parameter.
    pub ueref: S,
    pub hkref: S,
    /// The weight of the velocity, smoothed and as last computed.
    pub sens: S,
    pub sennew: S,
}

/// The smallest kinematic shape parameter.
#[verifier::allow_in_spec]
pub fn shape_limit<S: Real>(is_wake: bool) -> S
    requires
        arithmetic::<S>(),
    returns
        (if is_wake {
            decimal::<S>(100005, 100000)
        } else {
            decimal::<S>(102, 100)
        }),
{
    if is_wake {
        decimal(100005, 100000)
    } else {
        decimal(102, 100)
    }
}

/// The response of the edge velocity to the shape parameter, from the system that sets the
/// change of the shape parameter to one.
pub open spec fn velocity_response<S: Real, T>(
    block: IntervalBlock<S>,
    hk2_t: S,
    hk2_d: S,
    hk2_u: S,
    laws: BlLaws<S, T>,
) -> S {
    let (a, b) = closed_system(
        block.vs2,
        block.residuals,
        [whole::<S>(0), hk2_t, hk2_d, hk2_u],
        whole::<S>(1),
    );
    (laws.solve_4x4)(a, b)[3]
}

/// The response of the edge velocity to the shape parameter.
pub fn mrchdu_ue_response<S: Real, P: BlClosure<S>>(
    block: &IntervalBlock<S>,
    hk2_t: S,
    hk2_d: S,
    hk2_u: S,
    closure: &P,
) -> (r: S)
    requires
        arithmetic::<S>(),
        closure.lawful(),
    ensures
        r == velocity_response(*block, hk2_t, hk2_d, hk2_u, closure.laws()),
{
    let (a, b): ([[S; 4]; 4], [S; 4]) = build_mrchdu_4x4(
        &block.vs2,
        &block.residuals,
        [whole(0), hk2_t, hk2_d, hk2_u],
        whole(1),
    );
    let sol: [S; 4] = closure.solve_4x4(a, b);
    sol[3]
}

impl<S: Real> MixedTask<S> {
    /// The station as the iteration starts with it: where it was laminar before, what was
    /// kept as its shear stress is its amplification.
    pub open spec fn prepared(self, s: BlStation<S>) -> BlStation<S> {
        let fallback = decimal::<S>(3, 100);
        BlStation {
            u: larger(abs(s.u), tenths::<S>(7)),
            delta_star: larger(s.delta_star - self.gap, shape_limit::<S>(self.wake) * s.theta)
                + self.gap,
            ctau: (if self.fresh || s.ctau <= whole::<S>(0) {
                fallback
            } else {
                s.ctau
            }),
            ampl: (if self.fresh {
                s.ctau
            } else {
                s.ampl
            }),
            ..s
        }
    }

    /// The state that the iteration starts with.
    pub open spec fn first(self, s: BlStation<S>, sens: S) -> MixedState<S> {
        let p = self.prepared(s);
        MixedState {
            station: p,
            flow: (if self.wake {
                FlowType::Wake
            } else if self.laminar {
                FlowType::Laminar
            } else {
                FlowType::Turbulent
            }),
            tran: false,
            xt: None,
            ueref: larger(p.u, tenths::<S>(12)),
            hkref: larger(p.hk, tenths::<S>(12)),
            sens,
            sennew: sens,
        }
    }

    /// The full transition check of the interval.
    pub open spec fn check<T>(self, s: BlStation<S>, laws: BlLaws<S, T>) -> TransitionCheck<S, T> {
        (laws.trchek)(
            self.prev,
            s,
            self.config.ncrit,
            self.config.xiforc,
            self.msq,
            self.re,
        )
    }

    /// Whether the station has reached the arc length at which transition is forced.
    pub open spec fn reaches_strip(self, s: BlStation<S>) -> bool {
        match self.config.xiforc {
            Some(xf) => s.x >= xf && self.prev.x < xf,
            None => false,
        }
    }

    /// Whether the iteration looks for transition.
    pub open spec fn looks(self, st: MixedState<S>) -> bool {
        !self.simi && !self.turb && !self.wake && !st.tran
    }

    /// The refreshed station, with its amplification where transition is looked for and not
    /// forced.
    pub open spec fn refreshed<T>(self, st: MixedState<S>, laws: BlLaws<S, T>) -> BlStation<S> {
        let s = (laws.blvar)(st.station, st.flow, self.msq, self.re);
        if self.looks(st) && !self.reaches_strip(s) {
            let tc = (laws.trchek_stations)(self.prev, s, self.config.ncrit, self.msq, self.re);
            BlStation { ampl: tc.ampl2, ..s }
        } else {
            s
        }
    }

    /// Whether this iteration finds transition.
    pub open spec fn finds<T>(self, st: MixedState<S>, laws: BlLaws<S, T>) -> bool {
        let s = (laws.blvar)(st.station, st.flow, self.msq, self.re);
        self.looks(st) && (self.reaches_strip(s) || (laws.trchek_stations)(
            self.prev,
            s,
            self.config.ncrit,
            self.msq,
            self.re,
        ).transition)
    }

    /// The state after the look for transition in iteration `it`. A station that becomes
    /// turbulent takes the default shear stress, or that of the station upstream.
    pub open spec fn looked<T>(
        self,
        st: MixedState<S>,
        it: int,
        laws: BlLaws<S, T>,
    ) -> MixedState<S> {
        let s = self.refreshed(st, laws);
        let found = self.finds(st, laws);
        let tran = st.tran || found;
        let ctau = if it == 0 && self.fresh && self.turb {
            self.prev.ctau
        } else if it == 0 && (found || (self.fresh && tran)) {
            decimal::<S>(3, 100)
        } else {
            s.ctau
        };
        let after = BlStation { ctau, ..s };
        MixedState {
            station: after,
            flow: (if found {
                FlowType::Turbulent
            } else {
                st.flow
            }),
            tran,
            xt: (if found {
                Some(self.check(s, laws).xt)
            } else {
                st.xt
            }),
            ueref: (if it == 0 {
                larger(after.u, tenths::<S>(12))
            } else {
                st.ueref
            }),
            hkref: (if it == 0 {
                larger(after.hk, tenths::<S>(12))
            } else {
                st.hkref
            }),
            ..st
        }
    }

    /// The linearised equations of the interval: those of transition where this iteration
    /// found it, and of the regime else.
    pub open spec fn linearised<T>(
        self,
        st: MixedState<S>,
        it: int,
        laws: BlLaws<S, T>,
    ) -> IntervalBlock<S> {
        let now = self.looked(st, it, laws);
        let interval = if self.finds(st, laws) {
            Interval::Transition {
                s1: self.prev,
                s2: now.station,
                transition: self.check(self.refreshed(st, laws), laws).detail,
            }
        } else {
            Interval::Regular { s1: self.prev, s2: now.station, flow: now.flow }
        };
        (laws.equations)(interval, self.config.ncrit, self.msq, self.re)
    }

    /// The state with the weight of the velocity for iteration `it`.
    pub open spec fn weighted<T>(
        self,
        now: MixedState<S>,
        block: IntervalBlock<S>,
        it: int,
        laws: BlLaws<S, T>,
    ) -> MixedState<S> {
        let s = now.station;
        if self.simi {
            now
        } else {
            let sennew = self.config.senswt * velocity_response(
                block,
                s.derivs.hk_h * s.derivs.h_theta,
                s.derivs.hk_h * s.derivs.h_delta_star,
                whole::<S>(0),
                laws,
            ) * now.hkref / larger(now.ueref, tenths::<S>(12));
            MixedState {
                sennew,
                sens: (if it < 5 {
                    sennew
                } else if it < 15 {
                    decimal::<S>(1, 2) * (now.sens + sennew)
                } else {
                    now.sens
                }),
                ..now
            }
        }
    }

    /// The fourth equation: the velocity is kept at the first station, and tied to the shape
    /// parameter at any other.
    pub open spec fn fourth_equation(self, now: MixedState<S>) -> ([S; 4], S) {
        let zero = whole::<S>(0);
        let one = whole::<S>(1);
        let small = tenths::<S>(12);
        let s = now.station;
        if self.simi {
            ([zero, zero, zero, one], now.ueref - s.u)
        } else {
            (
                [
                    zero,
                    s.derivs.hk_h * s.derivs.h_theta * now.hkref,
                    s.derivs.hk_h * s.derivs.h_delta_star * now.hkref,
                    zero * now.hkref + now.sens / larger(now.ueref, small),
                ],
                -(now.hkref * now.hkref) * (s.hk / larger(now.hkref, small) - one) - now.sens * (s.u
                    / larger(now.ueref, small) - one),
            )
        }
    }

    /// The largest relative change in a step `d`.
    pub open spec fn largest_change(self, now: MixedState<S>, d: [S; 4]) -> S {
        let small = tenths::<S>(12);
        let s = now.station;
        let c = larger(
            abs(d[1]) / larger(s.theta, small),
            abs(d[2]) / larger(s.delta_star, small),
        );
        let c = larger(c, abs(d[3]) / larger(abs(s.u), small));
        larger(
            c,
            (if self.laminar && !now.tran && !self.wake {
                whole::<S>(0)
            } else {
                abs(d[0]) / (whole::<S>(10) * larger(s.ctau, small))
            }),
        )
    }

    /// The station after the step `d`, scaled by `rlx`.
    pub open spec fn stepped(self, now: MixedState<S>, d: [S; 4], rlx: S) -> BlStation<S> {
        let s = now.station;
        let theta = s.theta + rlx * d[1];
        let delta_star = s.delta_star + rlx * d[2];
        BlStation {
            ampl: (if self.laminar && !now.tran {
                larger(s.ampl + rlx * d[0], whole::<S>(0))
            } else {
                s.ampl
            }),
            ctau: (if self.laminar && !now.tran {
                s.ctau
            } else {
                clamp(s.ctau + rlx * d[0], tenths::<S>(7), decimal::<S>(3, 10))
            }),
            theta,
            u: s.u + rlx * d[3],
            delta_star: larger(delta_star - self.gap, shape_limit::<S>(self.wake) * theta)
                + self.gap,
            ..s
        }
    }

    /// Iteration `it`: the state after it, and whether the iteration ends there, by a step
    /// that is not finite or by convergence.
    pub open spec fn iteration<T>(
        self,
        st: MixedState<S>,
        it: int,
        laws: BlLaws<S, T>,
    ) -> (MixedState<S>, bool) {
        let block = self.linearised(st, it, laws);
        let now = self.weighted(self.looked(st, it, laws), block, it, laws);
        let (row4, rhs4) = self.fourth_equation(now);
        let (a, b) = closed_system(block.vs2, block.residuals, row4, rhs4);
        let d = (laws.solve_4x4)(a, b);
        if !(is_finite(d[0]) && is_finite(d[1]) && is_finite(d[2]) && is_finite(d[3])) {
            (now, true)
        } else {
            let dmax = self.largest_change(now, d);
            (
                MixedState { station: self.stepped(now, d, step_scale(dmax)), ..now },
                dmax <= self.config.deps,
            )
        }
    }

    /// The state after the iterations from `it` up to, but not including, `n`.
    pub open spec fn iterated<T>(
        self,
        st: MixedState<S>,
        it: int,
        n: int,
        laws: BlLaws<S, T>,
    ) -> MixedState<S>
        decreases n - it,
    {
        if it >= n {
            st
        } else {
            let (next, done) = self.iteration(st, it, laws);
            if done {
                next
            } else {
                self.iterated(next, it + 1, n, laws)
            }
        }
    }

    /// The state after the iteration, from the station `s` and the weight `sens`.
    #[verifier::opaque]
    pub open spec fn solved<T>(self, s: BlStation<S>, sens: S, laws: BlLaws<S, T>) -> MixedState<S> {
        self.iterated(self.first(s, sens), 0, self.config.max_iter as int, laws)
    }

    /// The station as the iteration starts with it.
    fn prepare(&self, s: &BlStation<S>) -> (r: BlStation<S>)
        requires
            arithmetic::<S>(),
        ensures
            r == self.prepared(*s),
    {
        let mut p: BlStation<S> = *s;
        p.u = larger(abs(s.u), tiny(7));
        if self.fresh {
            p.ampl = s.ctau;
            p.ctau = decimal(3, 100);
        } else if s.ctau <= whole(0) {
            p.ctau = decimal(3, 100);
        }
        p.delta_star = larger(s.delta_star - self.gap, shape_limit::<S>(self.wake) * s.theta)
            + self.gap;
        p
    }

    /// Looks for transition in iteration `it`, and linearises the equations of the interval
    /// with what it found.
    fn look_and_linearise<P: BlClosure<S>>(
        &self,
        st: &MixedState<S>,
        it: usize,
        closure: &P,
    ) -> (r: (MixedState<S>, IntervalBlock<S>))
        requires
            arithmetic::<S>(),
            closure.lawful(),
        ensures
            r.0 == self.looked(*st, it as int, closure.laws()),
            r.1 == self.linearised(*st, it as int, closure.laws()),
    {
        let config: MarchConfig<S> = self.config;
        let mut now: MixedState<S> = *st;
        let mut s: BlStation<S> = closure.blvar(st.station, st.flow, self.msq, self.re);
        let mut found: Option<TransitionCheck<S, P::Transition>> = None;
        if !self.simi && !self.turb && !self.wake && !st.tran {
            let forced: bool = match config.xiforc {
                Some(xf) => s.x >= xf && self.prev.x < xf,
                None => false,
            };
            let mut detected: bool = forced;
            if !forced {
                let tc: StationCheck<S> = closure.trchek_stations(
                    self.prev,
                    s,
                    config.ncrit,
                    self.msq,
                    self.re,
                );
                s.ampl = tc.ampl2;
                detected = tc.transition;
            }
            if detected {
                found = Some(
                    closure.trchek(
                        self.prev,
                        s,
                        config.ncrit,
                        config.xiforc,
                        self.msq,
                        self.re,
                    ),
                );
                now.tran = true;
                now.flow = FlowType::Turbulent;
                if it == 0 {
                    s.ctau = decimal(3, 100);
                }
            }
        }
        if it == 0 && self.fresh {
            if now.tran {
                s.ctau = decimal(3, 100);
            }
            if self.turb {
                s.ctau = self.prev.ctau;
            }
        }
        now.station = s;
        if it == 0 {
            now.ueref = larger(s.u, tiny(12));
            now.hkref = larger(s.hk, tiny(12));
        }
        let interval: Interval<S, P::Transition> = match found {
            Some(tr) => {
                now.xt = Some(tr.xt);
                Interval::Transition { s1: self.prev, s2: s, transition: tr.detail }
            },
            None => Interval::Regular { s1: self.prev, s2: s, flow: now.flow },
        };
        let block: IntervalBlock<S> = closure.equations(
            interval,
            config.ncrit,
            self.msq,
            self.re,
        );
        (now, block)
    }

    /// The largest relative change in a step `d`.
    fn change_of(&self, now: &MixedState<S>, d: &[S; 4]) -> (r: S)
        requires
            arithmetic::<S>(),
        ensures
            r == self.largest_change(*now, *d),
    {
        let small: S = tiny(12);
        let s: BlStation<S> = now.station;
        let mut c: S = larger(
            abs(d[1]) / larger(s.theta, small),
            abs(d[2]) / larger(s.delta_star, small),
        );
        c = larger(c, abs(d[3]) / larger(abs(s.u), small));
        let first: S = if self.laminar && !now.tran && !self.wake {
            whole(0)
        } else {
            abs(d[0]) / (whole::<S>(10) * larger(s.ctau, small))
        };
        larger(c, first)
    }

    /// The station after the step `d`, scaled by `rlx`.
    fn step(&self, now: &MixedState<S>, d: &[S; 4], rlx: S) -> (r: BlStation<S>)
        requires
            arithmetic::<S>(),
        ensures
            r == self.stepped(*now, *d, rlx),
    {
        let mut s: BlStation<S> = now.station;
        if self.laminar && !now.tran {
            s.ampl = larger(s.ampl + rlx * d[0], whole(0));
        } else {
            s.ctau = clamp(s.ctau + rlx * d[0], tiny(7), decimal(3, 10));
        }
        s.theta = s.theta + rlx * d[1];
        s.delta_star = s.delta_star + rlx * d[2];
        s.u = s.u + rlx * d[3];
        let dsw: S = larger(s.delta_star - self.gap, shape_limit::<S>(self.wake) * s.theta);
        s.delta_star = dsw + self.gap;
        s
    }

    /// Iteration `it`.
    fn iterate<P: BlClosure<S>>(&self, st: &MixedState<S>, it: usize, closure: &P) -> (r: (
        MixedState<S>,
        bool,
    ))
        requires
            arithmetic::<S>(),
            closure.lawful(),
        ensures
            r == self.iteration(*st, it as int, closure.laws()),
    {
        let (looked, block): (MixedState<S>, IntervalBlock<S>) = self.look_and_linearise(
            st,
            it,
            closure,
        );
        let mut now: MixedState<S> = looked;
        let s: BlStation<S> = now.station;
        let zero: S = whole(0);
        let one: S = whole(1);
        let small: S = tiny(12);
        let hk2_t: S = s.derivs.hk_h * s.derivs.h_theta;
        let hk2_d: S = s.derivs.hk_h * s.derivs.h_delta_star;
        let (row4, rhs4): ([S; 4], S) = if self.simi {
            ([zero, zero, zero, one], now.ueref - s.u)
        } else {
            let response: S = mrchdu_ue_response(&block, hk2_t, hk2_d, zero, closure);
            now.sennew = self.config.senswt * response * now.hkref / larger(now.ueref, small);
            if it < 5 {
                now.sens = now.sennew;
            } else if it < 15 {
                now.sens = decimal::<S>(1, 2) * (now.sens + now.sennew);
            }
            (
                [
                    zero,
                    hk2_t * now.hkref,
                    hk2_d * now.hkref,
                    zero * now.hkref + now.sens / larger(now.ueref, small),
                ],
                (now.hkref * now.hkref).neg() * (s.hk / larger(now.hkref, small) - one) - now.sens
                    * (s.u / larger(now.ueref, small) - one),
            )
        };
        assert(now == self.weighted(looked, block, it as int, closure.laws()));
        assert((row4, rhs4) == self.fourth_equation(now));
        let (a, b): ([[S; 4]; 4], [S; 4]) = build_mrchdu_4x4(
            &block.vs2,
            &block.residuals,
            row4,
            rhs4,
        );
        let d: [S; 4] = closure.solve_4x4(a, b);
        if !(is_finite(d[0]) && is_finite(d[1]) && is_finite(d[2]) && is_finite(d[3])) {
            return (now, true);
        }
        let dmax: S = self.change_of(&now, &d);
        let moved: BlStation<S> = self.step(&now, &d, step_scale(dmax));
        (MixedState { station: moved, ..now }, dmax <= self.config.deps)
    }

    /// Iterates at the station `s`, with the weight `sens` from upstream.
    fn solve<P: BlClosure<S>>(&self, s: &BlStation<S>, sens: S, closure: &P) -> (r: MixedState<S>)
        requires
            arithmetic::<S>(),
            closure.lawful(),
        ensures
            r == self.solved(*s, sens, closure.laws()),
    {
        let p: BlStation<S> = self.prepare(s);
        let first = MixedState {
            station: p,
            flow: if self.wake {
                FlowType::Wake
            } else if self.laminar {
                FlowType::Laminar
            } else {
                FlowType::Turbulent
            },
            tran: false,
            xt: None,
            ueref: larger(p.u, tiny(12)),
            hkref: larger(p.hk, tiny(12)),
            sens,
            sennew: sens,
        };
        let n: usize = self.config.max_iter;
        let ghost laws = closure.laws();
        assert(first == self.first(*s, sens));
        let mut st: MixedState<S> = first;
        let mut it: usize = 0;
        while it < n
            invariant
                arithmetic::<S>(),
                closure.lawful(),
                laws == closure.laws(),
                first == self.first(*s, sens),
                n == self.config.max_iter,
                it <= n,
                self.iterated(st, it as int, n as int, laws) == self.iterated(
                    first,
                    0,
                    n as int,
                    laws,
                ),
            decreases n - it,
        {
            let (next, done): (MixedState<S>, bool) = self.iterate(&st, it, closure);
            if done {
                reveal(MixedTask::solved);
                return next;
            }
            st = next;
            it = it + 1;
        }
        reveal(MixedTask::solved);
        st
    }
}

/// What the mixed march has gathered.
pub struct Mixed<S> {
    /// All stations, those that the march has passed with their new values.
    pub stations: Seq<BlStation<S>>,
    pub laminar: bool,
    pub turb: bool,
    pub sens: S,
    pub x_transition: Option<S>,
    pub transition_index: Option<usize>,
}

/// The setting of a mixed march: the flow, the first station, the first station that was
/// turbulent before, and the first in the wake.
#[derive(Clone, Copy, Debug)]
pub struct MixedFlow<S> {
    pub re: S,
    pub msq: S,
    pub config: MarchConfig<S>,
    pub start: usize,
    pub itrold: usize,
    pub iblte: usize,
}

impl<S: Real> MixedFlow<S> {
    /// The task of station `i`.
    pub open spec fn task(self, m: Mixed<S>, i: int) -> MixedTask<S> {
        let s = m.stations[i];
        MixedTask {
            prev: m.stations[i - 1],
            simi: i == self.start + 1,
            fresh: i < self.itrold,
            laminar: m.laminar,
            turb: m.turb,
            wake: s.is_wake,
            gap: (if s.is_wake {
                s.dw
            } else {
                whole::<S>(0)
            }),
            re: self.re,
            msq: self.msq,
            config: self.config,
        }
    }

    /// The march with station `i` passed. The first transition that is found is recorded;
    /// before it, a laminar station takes its amplification from the solved state.
    pub open spec fn passed<T>(self, m: Mixed<S>, i: int, laws: BlLaws<S, T>) -> Mixed<S> {
        let task = self.task(m, i);
        let st = task.solved(m.stations[i], m.sens, laws);
        let s = (laws.refreshed)((laws.blvar)(st.station, st.flow, self.msq, self.re));
        let recorded = st.tran && m.x_transition is None;
        let s1 = if recorded {
            BlStation { is_laminar: false, is_turbulent: true, ..s }
        } else if !st.tran && m.laminar && m.x_transition is None {
            let tc = (laws.trchek_stations)(task.prev, s, self.config.ncrit, self.msq, self.re);
            BlStation { ampl: tc.ampl2, ..s }
        } else {
            s
        };
        Mixed {
            stations: m.stations.update(i, s1),
            laminar: m.laminar && !recorded,
            turb: m.turb || st.tran || i == self.iblte,
            sens: st.sennew,
            x_transition: (if recorded {
                st.xt
            } else {
                m.x_transition
            }),
            transition_index: (if recorded {
                Some((i - self.start + 2) as usize)
            } else {
                m.transition_index
            }),
        }
    }

    /// The march over the stations up to, but not including, `n`.
    pub open spec fn marched<T>(
        self,
        stations: Seq<BlStation<S>>,
        laws: BlLaws<S, T>,
        n: int,
    ) -> Mixed<S>
        decreases n,
    {
        if n <= self.start + 1 {
            Mixed {
                stations,
                laminar: stations[self.start as int].is_laminar,
                turb: false,
                sens: whole::<S>(0),
                x_transition: None,
                transition_index: None,
            }
        } else {
            self.passed(self.marched(stations, laws, n - 1), n - 1, laws)
        }
    }
}

/// The station that the mixed march starts at: the second, where the first lies at the
/// stagnation point.
pub open spec fn mixed_start<S: Real>(stations: Seq<BlStation<S>>) -> int {
    if stations[0].x < tenths::<S>(6) {
        1
    } else {
        0
    }
}

/// The stations, with the secondary variables of the one that the march starts at.
pub open spec fn mixed_first<S: Real, T>(
    stations: Seq<BlStation<S>>,
    start: int,
    msq: S,
    re: S,
    laws: BlLaws<S, T>,
) -> Seq<BlStation<S>> {
    let s = stations[start];
    stations.update(
        start,
        (laws.blvar)(
            s,
            (if s.is_laminar {
                FlowType::Laminar
            } else {
                FlowType::Turbulent
            }),
            msq,
            re,
        ),
    )
}

/// Marches over the stations that are there, and refines each of them by Newton iteration.
/// The result holds the stations from the first one that was marched.
pub fn march_mixed_du<S: Real, P: BlClosure<S>>(
    stations: &mut Vec<BlStation<S>>,
    re: S,
    msq: S,
    config: &MarchConfig<S>,
    closure: &P,
) -> (r: MarchResult<S>)
    requires
        arithmetic::<S>(),
        closure.lawful(),
        old(stations)@.len() < usize::MAX,
    ensures
        r.converged,
        r.x_separation is None,
        old(stations)@.len() < 2 ==> final(stations)@ == old(stations)@ && r.stations@.len() == 0
            && r.x_transition is None && r.transition_index is None,
        old(stations)@.len() >= 2 ==> ({
            let before = old(stations)@;
            let n = before.len() as int;
            let start = mixed_start(before);
            let first = mixed_first(before, start, msq, re, closure.laws());
            let flow = MixedFlow {
                re,
                msq,
                config: *config,
                start: start as usize,
                itrold: first_turbulent(before, 0) as usize,
                iblte: first_in_wake(first, 0) as usize,
            };
            let m = flow.marched(first, closure.laws(), n);
            &&& final(stations)@ == m.stations
            &&& r.stations@ == m.stations.subrange(start, n)
            &&& r.x_transition == m.x_transition
            &&& r.transition_index == m.transition_index
        }),
{
    let n: usize = stations.len();
    let mut result: MarchResult<S> = MarchResult::new(n);
    if n < 2 {
        return result;
    }
    let ghost before = stations@;
    let ghost laws = closure.laws();
    let start: usize = if stations[0].x < tiny(6) {
        1
    } else {
        0
    };
    let itrold: usize = first_turbulent_of(stations);
    let s: BlStation<S> = stations[start];
    let regime: FlowType = if s.is_laminar {
        FlowType::Laminar
    } else {
        FlowType::Turbulent
    };
    let refreshed: BlStation<S> = closure.blvar(s, regime, msq, re);
    stations[start] = refreshed;
    let ghost first = stations@;
    assert(first == mixed_first(before, start as int, msq, re, laws));
    let iblte: usize = first_in_wake_of(stations);
    let flow = MixedFlow { re, msq, config: *config, start, itrold, iblte };
    result.stations.push(refreshed);
    let mut laminar: bool = refreshed.is_laminar;
    let mut turb: bool = false;
    let mut sens: S = whole(0);
    let mut i: usize = start + 1;
    assert(result.stations@ =~= first.subrange(start as int, i as int));
    while i < n
        invariant
            arithmetic::<S>(),
            closure.lawful(),
            laws == closure.laws(),
            n < usize::MAX,
            n == first.len(),
            start <= 1,
            start < i <= n,
            flow == (MixedFlow { re, msq, config: *config, start, itrold, iblte }),
            stations@.len() == n,
            stations@ == flow.marched(first, laws, i as int).stations,
            laminar == flow.marched(first, laws, i as int).laminar,
            turb == flow.marched(first, laws, i as int).turb,
            sens == flow.marched(first, laws, i as int).sens,
            result.x_transition == flow.marched(first, laws, i as int).x_transition,
            result.transition_index == flow.marched(first, laws, i as int).transition_index,
            result.x_separation is None,
            result.converged,
            result.stations@ == stations@.subrange(start as int, i as int),
        decreases n - i,
    {
        let ghost m = flow.marched(first, laws, i as int);
        let prev: BlStation<S> = stations[i - 1];
        let current: BlStation<S> = stations[i];
        let task = MixedTask {
            prev,
            simi: i == start + 1,
            fresh: i < itrold,
            laminar,
            turb,
            wake: current.is_wake,
            gap: if current.is_wake {
                current.dw
            } else {
                whole(0)
            },
            re,
            msq,
            config: *config,
        };
        assert(task == flow.task(m, i as int));
        let st: MixedState<S> = task.solve(&current, sens, closure);
        let full: BlStation<S> = closure.blvar(st.station, st.flow, msq, re);
        let mut s: BlStation<S> = closure.refreshed(full);
        if st.tran && result.x_transition.is_none() {
            result.x_transition = st.xt;
            result.transition_index = Some(i - start + 2);
            laminar = false;
            s.is_laminar = false;
            s.is_turbulent = true;
        } else if !st.tran && laminar && result.x_transition.is_none() {
            let tc: StationCheck<S> = closure.trchek_stations(prev, s, config.ncrit, msq, re);
            s.ampl = tc.ampl2;
        }
        if st.tran || i == iblte {
            turb = true;
        }
        sens = st.sennew;
        stations[i] = s;
        result.stations.push(s);
        i = i + 1;
        assert(result.stations@ =~= stations@.subrange(start as int, i as int));
    }
    result
}

} // verus!
