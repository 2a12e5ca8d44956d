//! The boundary-layer closure: what the solver takes from it, and as what.
use crate::callable::{function, value};
use crate::number::Real;
use crate::station::{BlStation, FlowType};
use vstd::prelude::*;

verus! {

/// The linearised equations of one interval: residuals, and derivatives by the five
/// variables of the station upstream and of the station itself.
#[derive(Clone, Copy, Debug)]
pub struct IntervalBlock<S> {
    pub residuals: [S; 3],
    pub vs1: [[S; 5]; 3],
    pub vs2: [[S; 5]; 3],
    pub vsx: [S; 3],
}

/// Which equations hold on an interval. `T` is what a transition check hands on.
pub enum Interval<S, T> {
    /// The first interval, on the similarity solution.
    Similarity { s2: BlStation<S>, flow: FlowType },
    /// The interval that transition falls into.
    Transition { s1: BlStation<S>, s2: BlStation<S>, transition: T },
    /// Any other interval.
    Regular { s1: BlStation<S>, s2: BlStation<S>, flow: FlowType },
}

/// The conditions of the flow.
#[derive(Clone, Copy, Debug)]
pub struct Conditions<S> {
    /// Critical amplification.
    pub ncrit: S,
    /// Squared Mach number.
    pub msq: S,
    /// Reynolds number.
    pub re: S,
}

/// The outcome of a full transition check between two stations. `detail` is what the
/// transition equations need of it.
pub struct TransitionCheck<S, T> {
    pub transition: bool,
    /// Amplification at the second station.
    pub ampl2: S,
    /// Arc length of transition.
    pub xt: S,
    /// Weights of the two stations at the point of transition.
    pub wf1: S,
    pub wf2: S,
    pub detail: T,
}

/// The outcome of a transition check with solved stations.
#[derive(Clone, Copy, Debug)]
pub struct StationCheck<S> {
    pub transition: bool,
    /// Amplification at the second station.
    pub ampl2: S,
    /// Arc length of transition.
    pub xt: Option<S>,
}

/// What the linear system of one station is built from.
#[derive(Clone, Copy, Debug)]
pub struct StationSystem<S> {
    /// Derivatives of the three equations by the variables of the station.
    pub vs2: [[S; 5]; 3],
    pub residuals: [S; 3],
    /// Whether the edge velocity is kept, rather than the shape parameter.
    pub direct: bool,
    /// Derivatives of the kinematic shape parameter.
    pub hk2_t: S,
    pub hk2_d: S,
    pub hk2_u: S,
    /// The shape parameter that the inverse form prescribes.
    pub htarg: S,
    pub hk: S,
}

/// The relations of the closure, as functions.
#[verifier::reject_recursive_types(S)]
#[verifier::reject_recursive_types(T)]
pub struct BlLaws<S, T> {
    /// A station with nothing set.
    pub blank: BlStation<S>,
    /// A station with its secondary variables, in a regime, at a squared Mach number and a
    /// Reynolds number.
    pub blvar: spec_fn(BlStation<S>, FlowType, S, S) -> BlStation<S>,
    /// A station with its mass defect.
    pub refreshed: spec_fn(BlStation<S>) -> BlStation<S>,
    /// The full transition check between two stations, at a critical amplification and with
    /// an arc length at which transition is forced.
    pub trchek: spec_fn(BlStation<S>, BlStation<S>, S, Option<S>, S, S) -> TransitionCheck<S, T>,
    /// The transition check between two solved stations.
    pub trchek_stations: spec_fn(BlStation<S>, BlStation<S>, S, S, S) -> StationCheck<S>,
    /// The linearised equations of an interval.
    pub equations: spec_fn(Interval<S, T>, S, S, S) -> IntervalBlock<S>,
    /// The kinematic shape parameter and its derivative by the shape parameter.
    pub hkin: spec_fn(S, S) -> (S, S),
    /// The rate of amplification between two stations.
    pub axset: spec_fn(BlStation<S>, BlStation<S>, S) -> S,
    /// Whether an amplification is past the critical one.
    pub transitions: spec_fn(S, S) -> bool,
    /// The linear system of a station.
    pub station_system: spec_fn(StationSystem<S>) -> ([[S; 4]; 4], [S; 4]),
    /// The solution of a linear system.
    pub solve_4x4: spec_fn([[S; 4]; 4], [S; 4]) -> [S; 4],
    pub sqrt: spec_fn(S) -> S,
    pub exp: spec_fn(S) -> S,
}

/// The closure relations that the march calls.
pub trait BlClosure<S: Real> {
    type Transition;

    /// The relations are functions of their arguments.
    spec fn lawful(&self) -> bool;

    /// The relations.
    spec fn laws(&self) -> BlLaws<S, Self::Transition>;

    fn blank(&self) -> (r: BlStation<S>)
        requires
            self.lawful(),
        ensures
            r == self.laws().blank,
    ;

    fn blvar(&self, s: BlStation<S>, flow: FlowType, msq: S, re: S) -> (r: BlStation<S>)
        requires
            self.lawful(),
        ensures
            r == (self.laws().blvar)(s, flow, msq, re),
    ;

    fn refreshed(&self, s: BlStation<S>) -> (r: BlStation<S>)
        requires
            self.lawful(),
        ensures
            r == (self.laws().refreshed)(s),
    ;

    fn trchek(
        &self,
        s1: BlStation<S>,
        s2: BlStation<S>,
        ncrit: S,
        x_forced: Option<S>,
        msq: S,
        re: S,
    ) -> (r: TransitionCheck<S, Self::Transition>)
        requires
            self.lawful(),
        ensures
            r == (self.laws().trchek)(s1, s2, ncrit, x_forced, msq, re),
    ;

    fn trchek_stations(
        &self,
        s1: BlStation<S>,
        s2: BlStation<S>,
        ncrit: S,
        msq: S,
        re: S,
    ) -> (r: StationCheck<S>)
        requires
            self.lawful(),
        ensures
            r == (self.laws().trchek_stations)(s1, s2, ncrit, msq, re),
    ;

    fn equations(
        &self,
        interval: Interval<S, Self::Transition>,
        ncrit: S,
        msq: S,
        re: S,
    ) -> (r: IntervalBlock<S>)
        requires
            self.lawful(),
        ensures
            r == (self.laws().equations)(interval, ncrit, msq, re),
    ;

    fn hkin(&self, h: S, msq: S) -> (r: (S, S))
        requires
            self.lawful(),
        ensures
            r == (self.laws().hkin)(h, msq),
    ;

    fn axset(&self, s1: BlStation<S>, s2: BlStation<S>, ncrit: S) -> (r: S)
        requires
            self.lawful(),
        ensures
            r == (self.laws().axset)(s1, s2, ncrit),
    ;

    fn transitions(&self, ampl: S, ncrit: S) -> (r: bool)
        requires
            self.lawful(),
        ensures
            r == (self.laws().transitions)(ampl, ncrit),
    ;

    fn station_system(&self, s: StationSystem<S>) -> (r: ([[S; 4]; 4], [S; 4]))
        requires
            self.lawful(),
        ensures
            r == (self.laws().station_system)(s),
    ;

    fn solve_4x4(&self, a: [[S; 4]; 4], b: [S; 4]) -> (r: [S; 4])
        requires
            self.lawful(),
        ensures
            r == (self.laws().solve_4x4)(a, b),
    ;

    fn sqrt(&self, x: S) -> (r: S)
        requires
            self.lawful(),
        ensures
            r == (self.laws().sqrt)(x),
    ;

    fn exp(&self, x: S) -> (r: S)
        requires
            self.lawful(),
        ensures
            r == (self.laws().exp)(x),
    ;
}

/// Closure relations that are handed in one by one.
pub struct Relations<S, V, M, K, C, E, H, A, N, B, L, Q, X> {
    pub blank: BlStation<S>,
    pub blvar: V,
    pub refreshed: M,
    pub trchek: K,
    pub trchek_stations: C,
    pub equations: E,
    pub hkin: H,
    pub axset: A,
    pub transitions: N,
    pub station_system: B,
    pub solve_4x4: L,
    pub sqrt: Q,
    pub exp: X,
}

impl<
    S: Real,
    T,
    V: Fn((BlStation<S>, FlowType, S, S)) -> BlStation<S>,
    M: Fn(BlStation<S>) -> BlStation<S>,
    K: Fn((BlStation<S>, BlStation<S>, S, Option<S>, S, S)) -> TransitionCheck<S, T>,
    C: Fn((BlStation<S>, BlStation<S>, S, S, S)) -> StationCheck<S>,
    E: Fn((Interval<S, T>, S, S, S)) -> IntervalBlock<S>,
    H: Fn((S, S)) -> (S, S),
    A: Fn((BlStation<S>, BlStation<S>, S)) -> S,
    N: Fn((S, S)) -> bool,
    B: Fn(StationSystem<S>) -> ([[S; 4]; 4], [S; 4]),
    L: Fn(([[S; 4]; 4], [S; 4])) -> [S; 4],
    Q: Fn(S) -> S,
    X: Fn(S) -> S,
> BlClosure<S> for Relations<S, V, M, K, C, E, H, A, N, B, L, Q, X> {
    type Transition = T;

    open spec fn lawful(&self) -> bool {
        &&& function(self.blvar)
        &&& function(self.refreshed)
        &&& function(self.trchek)
        &&& function(self.trchek_stations)
        &&& function(self.equations)
        &&& function(self.hkin)
        &&& function(self.axset)
        &&& function(self.transitions)
        &&& function(self.station_system)
        &&& function(self.solve_4x4)
        &&& function(self.sqrt)
        &&& function(self.exp)
    }

    open spec fn laws(&self) -> BlLaws<S, T> {
        BlLaws {
            blank: self.blank,
            blvar: |s: BlStation<S>, flow: FlowType, msq: S, re: S|
                value(self.blvar, (s, flow, msq, re)),
            refreshed: |s: BlStation<S>| value(self.refreshed, s),
            trchek: |
                s1: BlStation<S>,
                s2: BlStation<S>,
                ncrit: S,
                x_forced: Option<S>,
                msq: S,
                re: S,
            | value(self.trchek, (s1, s2, ncrit, x_forced, msq, re)),
            trchek_stations: |s1: BlStation<S>, s2: BlStation<S>, ncrit: S, msq: S, re: S|
                value(self.trchek_stations, (s1, s2, ncrit, msq, re)),
            equations: |interval: Interval<S, T>, ncrit: S, msq: S, re: S|
                value(self.equations, (interval, ncrit, msq, re)),
            hkin: |h: S, msq: S| value(self.hkin, (h, msq)),
            axset: |s1: BlStation<S>, s2: BlStation<S>, ncrit: S|
                value(self.axset, (s1, s2, ncrit)),
            transitions: |ampl: S, ncrit: S| value(self.transitions, (ampl, ncrit)),
            station_system: |s: StationSystem<S>| value(self.station_system, s),
            solve_4x4: |a: [[S; 4]; 4], b: [S; 4]| value(self.solve_4x4, (a, b)),
            sqrt: |x: S| value(self.sqrt, x),
            exp: |x: S| value(self.exp, x),
        }
    }

    fn blank(&self) -> (r: BlStation<S>) {
        self.blank
    }

    fn blvar(&self, s: BlStation<S>, flow: FlowType, msq: S, re: S) -> (r: BlStation<S>) {
        (self.blvar)((s, flow, msq, re))
    }

    fn refreshed(&self, s: BlStation<S>) -> (r: BlStation<S>) {
        (self.refreshed)(s)
    }

    fn trchek(
        &self,
        s1: BlStation<S>,
        s2: BlStation<S>,
        ncrit: S,
        x_forced: Option<S>,
        msq: S,
        re: S,
    ) -> (r: TransitionCheck<S, T>) {
        (self.trchek)((s1, s2, ncrit, x_forced, msq, re))
    }

    fn trchek_stations(
        &self,
        s1: BlStation<S>,
        s2: BlStation<S>,
        ncrit: S,
        msq: S,
        re: S,
    ) -> (r: StationCheck<S>) {
        (self.trchek_stations)((s1, s2, ncrit, msq, re))
    }

    fn equations(&self, interval: Interval<S, T>, ncrit: S, msq: S, re: S) -> (r: IntervalBlock<
        S,
    >) {
        (self.equations)((interval, ncrit, msq, re))
    }

    fn hkin(&self, h: S, msq: S) -> (r: (S, S)) {
        (self.hkin)((h, msq))
    }

    fn axset(&self, s1: BlStation<S>, s2: BlStation<S>, ncrit: S) -> (r: S) {
        (self.axset)((s1, s2, ncrit))
    }

    fn transitions(&self, ampl: S, ncrit: S) -> (r: bool) {
        (self.transitions)((ampl, ncrit))
    }

    fn station_system(&self, s: StationSystem<S>) -> (r: ([[S; 4]; 4], [S; 4])) {
        (self.station_system)(s)
    }

    fn solve_4x4(&self, a: [[S; 4]; 4], b: [S; 4]) -> (r: [S; 4]) {
        (self.solve_4x4)((a, b))
    }

    fn sqrt(&self, x: S) -> (r: S) {
        (self.sqrt)(x)
    }

    fn exp(&self, x: S) -> (r: S) {
        (self.exp)(x)
    }
}

} // verus!
