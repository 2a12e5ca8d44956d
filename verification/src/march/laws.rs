//! What holds of every march and of every station in it.
use crate::closure::BlLaws;
use crate::march::coupled::own_influence;
use crate::march::mixed::{Mixed, MixedFlow, MixedState, MixedTask};
use crate::march::station::{
    first_state, momentum_step, similarity_iteration, similarity_solution, stagnation_station,
    StationState, StationTask,
};
use crate::march::surface::{surface_end, March, MarchFlow};
use crate::number::{abs, decimal, larger, tenths, whole, Formula, Real};
use crate::station::{BlStation, FlowType, Matrix};
use crate::viscal::control::separation_from;
use vstd::prelude::*;

verus! {

/// A march that went on keeps what it had: its stations, transition once it was met, and the
/// point of separation once there was one.
pub open spec fn keeps<S>(before: March<S>, after: March<S>) -> bool {
    &&& before.stations.len() <= after.stations.len()
    &&& forall|i: int|
        0 <= i < before.stations.len() ==> #[trigger] after.stations[i] == before.stations[i]
    &&& !before.laminar ==> !after.laminar && after.x_transition == before.x_transition
        && after.transition_index == before.transition_index
    &&& before.x_separation is Some ==> after.x_separation == before.x_separation
}

/// Transition is recorded exactly where the boundary layer is no longer laminar, and its
/// place with it.
pub open spec fn consistent<S>(m: March<S>) -> bool {
    &&& m.laminar <==> m.transition_index is None
    &&& m.x_transition is Some ==> !m.laminar
    &&& m.stations.len() > 0
}

impl<S: Real> MarchFlow<S> {
    /// The march at fixed velocity has one station for each arc length. It keeps what it had
    /// at every station before, and records transition where the boundary layer ceases to be
    /// laminar.
    pub proof fn law_fixed_march_keeps_its_past<T>(
        self,
        x: Seq<S>,
        ue: Seq<S>,
        laws: BlLaws<S, T>,
        n: nat,
        k: nat,
    )
        requires
            1 <= n <= k,
        ensures
            self.fixed_march(x, ue, laws, n).stations.len() == n,
            consistent(self.fixed_march(x, ue, laws, n)),
            keeps(self.fixed_march(x, ue, laws, n), self.fixed_march(x, ue, laws, k)),
        decreases k,
    {
        self.lemma_fixed_march_length(x, ue, laws, n);
        if n > 1 {
            self.law_fixed_march_keeps_its_past(x, ue, laws, (n - 1) as nat, (n - 1) as nat);
        }
        if n < k {
            self.law_fixed_march_keeps_its_past(x, ue, laws, n, (k - 1) as nat);
            self.lemma_fixed_march_length(x, ue, laws, (k - 1) as nat);
        }
    }

    /// The march over a surface keeps what it had at every station before, and records
    /// transition where the boundary layer ceases to be laminar.
    pub proof fn law_surface_march_keeps_its_past<T>(
        self,
        x: Seq<S>,
        ue: Seq<S>,
        laws: BlLaws<S, T>,
        start: int,
        n: int,
        k: int,
    )
        requires
            0 <= start < n <= k,
        ensures
            self.surface_march(x, ue, laws, start, n).stations.len() == n - start,
            consistent(self.surface_march(x, ue, laws, start, n)),
            keeps(
                self.surface_march(x, ue, laws, start, n),
                self.surface_march(x, ue, laws, start, k),
            ),
        decreases k,
    {
        if n > start + 1 {
            self.law_surface_march_keeps_its_past(x, ue, laws, start, n - 1, n - 1);
        }
        if n < k {
            self.law_surface_march_keeps_its_past(x, ue, laws, start, n, k - 1);
        }
    }
}

impl<S: Real> StationTask<S> {
    /// A station counts as converged only where its last change is within the tolerance. A
    /// station that has turned turbulent stays turbulent, transition that was found stays
    /// found, and a station that has turned to the inverse form stays with it.
    pub proof fn law_station_iteration<T>(self, st: StationState<S>, laws: BlLaws<S, T>, n: nat)
        ensures
            self.iterated(st, laws, n).1 ==> self.iterated(st, laws, n).0.dmax <= self.tolerance,
            !st.laminar ==> !self.iterated(st, laws, n).0.laminar,
            st.active ==> self.iterated(st, laws, n).0.active,
            !st.direct ==> !self.iterated(st, laws, n).0.direct,
        decreases n,
    {
        if n > 0 {
            let (next, converged) = self.iteration(st, laws);
            if !converged {
                self.law_station_iteration(next, laws, (n - 1) as nat);
            }
        }
    }
}

/// The secondary variables of a station do not decide its regime, its place or its velocity.
pub open spec fn keeps_regime<S: Real, T>(laws: BlLaws<S, T>) -> bool {
    forall|s: BlStation<S>, flow: FlowType, msq: S, re: S|
        {
            let r = #[trigger] (laws.blvar)(s, flow, msq, re);
            &&& r.is_laminar == s.is_laminar
            &&& r.is_turbulent == s.is_turbulent
            &&& r.is_wake == s.is_wake
            &&& r.x == s.x
            &&& r.u == s.u
        }
}

impl<S: Real> StationTask<S> {
    /// A critical amplification that is not positive switches transition off: the solution
    /// does not depend on where it is forced, and the station keeps its regime.
    pub proof fn law_no_amplification_no_transition<T>(
        self,
        guess: Option<BlStation<S>>,
        ue_new: S,
        is_laminar: bool,
        max_iter: nat,
        x_forced: Option<S>,
        laws: BlLaws<S, T>,
    )
        requires
            !(self.ncrit > whole::<S>(0)),
        ensures
            self.solution(guess, ue_new, is_laminar, max_iter, laws) == (StationTask {
                x_forced,
                ..self
            }).solution(guess, ue_new, is_laminar, max_iter, laws),
            keeps_regime(laws) ==> {
                let s = self.solution(guess, ue_new, is_laminar, max_iter, laws).0;
                s.is_laminar == is_laminar && s.is_turbulent == !is_laminar && s.is_wake
                    == self.is_wake
            },
    {
        reveal(StationTask::solution);
        let first = first_state(self, guess, ue_new, is_laminar, laws);
        self.lemma_no_look(first, x_forced, laws, max_iter);
    }

    /// Iterations that do not look for transition.
    proof fn lemma_no_look<T>(
        self,
        st: StationState<S>,
        x_forced: Option<S>,
        laws: BlLaws<S, T>,
        n: nat,
    )
        requires
            !(self.ncrit > whole::<S>(0)),
            !st.active,
        ensures
            self.iterated(st, laws, n) == (StationTask { x_forced, ..self }).iterated(st, laws, n),
            ({
                let end = self.iterated(st, laws, n).0;
                &&& !end.active
                &&& end.laminar == st.laminar
                &&& keeps_regime(laws) ==> end.station.is_laminar == st.station.is_laminar
                    && end.station.is_turbulent == st.station.is_turbulent && end.station.is_wake
                    == st.station.is_wake
            }),
        decreases n,
    {
        if n > 0 {
            let other = StationTask { x_forced, ..self };
            assert(self.linearised(st, laws) == other.linearised(st, laws));
            assert(self.iteration(st, laws) == other.iteration(st, laws));
            let (next, converged) = self.iteration(st, laws);
            if !converged {
                self.lemma_no_look(next, x_forced, laws, (n - 1) as nat);
            }
        }
    }
}

impl<S: Real> MarchFlow<S> {
    /// Where a strip lies on the interval up to a station that the march at fixed velocity
    /// comes to laminar, transition is forced at the strip.
    pub proof fn law_strip_forces_transition<T>(
        self,
        m: March<S>,
        x_new: S,
        ue_new: S,
        end: S,
        xf: S,
        laws: BlLaws<S, T>,
    )
        requires
            m.laminar,
            m.x_transition is None,
            self.strip(end) == Some(xf),
            m.stations.last().x < xf,
            self.task(m.stations.last(), x_new, self.config.xiforc).solution(
                None,
                ue_new,
                true,
                self.config.max_iter as nat,
                laws,
            ).0.x >= xf,
        ensures
            self.fixed_step(m, x_new, ue_new, end, laws).x_transition == Some(xf),
            self.fixed_step(m, x_new, ue_new, end, laws).transition_index == Some(
                (m.stations.len() + 1) as usize,
            ),
            !self.fixed_step(m, x_new, ue_new, end, laws).laminar,
    {
    }

    /// Two marches with an answering velocity are the same where every station answers to
    /// its own mass in the same way: of the influence matrix only the diagonal enters. The
    /// march has one station for each arc length.
    pub proof fn law_only_the_diagonal_enters<T>(
        self,
        x: Seq<S>,
        ue: Seq<S>,
        d1: &Matrix<S>,
        d2: &Matrix<S>,
        laws: BlLaws<S, T>,
        n: nat,
    )
        requires
            n >= 1,
            forall|i: int| 1 <= i < n ==> own_influence(d1, i) == #[trigger] own_influence(d2, i),
        ensures
            self.explicit_march(x, ue, |i: int| own_influence(d1, i), laws, n)
                == self.explicit_march(x, ue, |i: int| own_influence(d2, i), laws, n),
            self.explicit_march(x, ue, |i: int| own_influence(d1, i), laws, n).stations.len() == n,
        decreases n,
    {
        if n > 1 {
            self.law_only_the_diagonal_enters(x, ue, d1, d2, laws, (n - 1) as nat);
            assert(own_influence(d1, n - 1) == own_influence(d2, n - 1));
        }
    }
}

impl<S: Real> MixedTask<S> {
    /// Where the iteration of a station has found transition, it knows its place, and it does
    /// not lose it again.
    pub proof fn law_mixed_iteration<T>(
        self,
        st: MixedState<S>,
        it: int,
        n: int,
        laws: BlLaws<S, T>,
    )
        requires
            st.tran ==> st.xt is Some,
        ensures
            self.iterated(st, it, n, laws).tran ==> self.iterated(st, it, n, laws).xt is Some,
            st.tran ==> self.iterated(st, it, n, laws).tran && self.iterated(st, it, n, laws).xt
                == st.xt,
        decreases n - it,
    {
        if it < n {
            let (next, done) = self.iteration(st, it, laws);
            if !done {
                self.law_mixed_iteration(next, it + 1, n, laws);
            }
        }
    }
}

impl<S: Real> MixedFlow<S> {
    /// The mixed march changes no station that it has passed, and none that it has not
    /// reached. It records transition once, with its place.
    pub proof fn law_mixed_march_keeps_its_past<T>(
        self,
        stations: Seq<BlStation<S>>,
        laws: BlLaws<S, T>,
        n: int,
        k: int,
    )
        requires
            self.start < n <= k <= stations.len(),
        ensures
            ({
                let a = self.marched(stations, laws, n);
                let b = self.marched(stations, laws, k);
                &&& a.stations.len() == stations.len()
                &&& a.stations.subrange(n, stations.len() as int) == stations.subrange(
                    n,
                    stations.len() as int,
                )
                &&& b.stations.subrange(0, n) == a.stations.subrange(0, n)
                &&& a.x_transition is Some <==> a.transition_index is Some
                &&& a.x_transition is Some ==> b.x_transition == a.x_transition
                    && b.transition_index == a.transition_index && !b.laminar
            }),
        decreases k,
    {
        if n > self.start + 1 {
            self.law_mixed_march_keeps_its_past(stations, laws, n - 1, n - 1);
            let m = self.marched(stations, laws, n - 1);
            self.lemma_solved_transition(m, n - 1, laws);
            let a = self.marched(stations, laws, n);
            assert(a.stations.subrange(n, stations.len() as int) =~= m.stations.subrange(
                n - 1,
                stations.len() as int,
            ).subrange(1, stations.len() - n + 1));
            assert(stations.subrange(n, stations.len() as int) =~= stations.subrange(
                n - 1,
                stations.len() as int,
            ).subrange(1, stations.len() - n + 1));
        }
        if n < k {
            self.law_mixed_march_keeps_its_past(stations, laws, n, k - 1);
            self.law_mixed_march_keeps_its_past(stations, laws, k - 1, k - 1);
            let m = self.marched(stations, laws, k - 1);
            self.lemma_solved_transition(m, k - 1, laws);
            let b = self.marched(stations, laws, k);
            assert(b.stations.subrange(0, n) =~= m.stations.subrange(0, n));
        }
    }

    /// A station that is solved with transition knows its place.
    proof fn lemma_solved_transition<T>(self, m: Mixed<S>, i: int, laws: BlLaws<S, T>)
        ensures
            ({
                let st = self.task(m, i).solved(m.stations[i], m.sens, laws);
                st.tran ==> st.xt is Some
            }),
    {
        reveal(MixedTask::solved);
        let task = self.task(m, i);
        task.law_mixed_iteration(
            task.first(m.stations[i], m.sens),
            0,
            task.config.max_iter as int,
            laws,
        );
    }
}

impl<S: Real> StationTask<S> {
    /// An iteration leaves a station where it stands.
    proof fn lemma_iterated_stays<T>(self, st: StationState<S>, laws: BlLaws<S, T>, n: nat)
        requires
            keeps_regime(laws),
        ensures
            self.iterated(st, laws, n).0.station.x == st.station.x,
        decreases n,
    {
        if n > 0 {
            let (next, converged) = self.iteration(st, laws);
            assert(self.looked(st, laws).station.x == st.station.x);
            assert(next.station.x == st.station.x);
            if !converged {
                self.lemma_iterated_stays(next, laws, (n - 1) as nat);
            }
        }
    }

    /// The solution of a station stands at the arc length that it was asked for.
    pub proof fn law_solution_stands_at_its_place<T>(
        self,
        guess: Option<BlStation<S>>,
        ue_new: S,
        is_laminar: bool,
        max_iter: nat,
        laws: BlLaws<S, T>,
    )
        requires
            keeps_regime(laws),
        ensures
            self.solution(guess, ue_new, is_laminar, max_iter, laws).0.x == self.x_new,
    {
        reveal(StationTask::solution);
        self.lemma_iterated_stays(
            first_state(self, guess, ue_new, is_laminar, laws),
            laws,
            max_iter,
        );
    }
}

/// To refresh a station leaves it where it stands, with its velocity.
pub open spec fn refreshes_in_place<S: Real, T>(laws: BlLaws<S, T>) -> bool {
    forall|s: BlStation<S>|
        {
            let r = #[trigger] (laws.refreshed)(s);
            r.x == s.x && r.u == s.u
        }
}

impl<S: Real> MarchFlow<S> {
    /// A station that is solved again stands where it stood.
    proof fn lemma_restarted_stays<T>(
        self,
        prev: BlStation<S>,
        s: BlStation<S>,
        x_new: S,
        x_forced: Option<S>,
        laws: BlLaws<S, T>,
    )
        requires
            keeps_regime(laws),
        ensures
            self.restarted(prev, s, x_new, x_forced, laws).x == x_new,
    {
        self.task(prev, x_new, x_forced).law_solution_stands_at_its_place(
            Some(BlStation { x: s.x, u: s.u, ampl: s.ampl, ctau: decimal::<S>(5, 100), ..prev }),
            s.u,
            false,
            self.config.max_iter as nat,
            laws,
        );
    }

    /// Every station of a march at fixed velocity stands at the arc length that is given for
    /// it, and the first has the velocity that is given for it.
    pub proof fn law_fixed_march_stands_at_its_places<T>(
        self,
        x: Seq<S>,
        ue: Seq<S>,
        laws: BlLaws<S, T>,
        n: nat,
        k: int,
    )
        requires
            keeps_regime(laws),
            refreshes_in_place(laws),
            0 <= k < n,
        ensures
            self.fixed_march(x, ue, laws, n).stations.len() == n,
            self.fixed_march(x, ue, laws, n).stations[k].x == x[k],
            self.fixed_march(x, ue, laws, n).stations[0].u == ue[0],
        decreases n,
    {
        self.lemma_fixed_march_length(x, ue, laws, n);
        if n > 1 {
            let m = self.fixed_march(x, ue, laws, (n - 1) as nat);
            self.lemma_fixed_march_length(x, ue, laws, (n - 1) as nat);
            if k < n - 1 {
                self.law_fixed_march_stands_at_its_places(x, ue, laws, (n - 1) as nat, k);
            } else {
                self.law_fixed_march_stands_at_its_places(x, ue, laws, (n - 1) as nat, 0);
                let prev = m.stations.last();
                let end = surface_end(x, x.len());
                let x_new = x[n - 1];
                let task = self.task(prev, x_new, self.config.xiforc);
                let iters = self.config.max_iter as nat;
                task.law_solution_stands_at_its_place(None, ue[n - 1], m.laminar, iters, laws);
                assert forall|s: BlStation<S>, f: Option<S>| #[trigger]
                    self.restarted(prev, s, x_new, f, laws).x == x_new by {
                    self.lemma_restarted_stays(prev, s, x_new, f, laws);
                }
            }
        }
    }
}

impl<S: Real> MarchFlow<S> {
    /// The similarity iteration leaves a station where it stands, with its velocity.
    proof fn lemma_similarity_stays<T>(
        self,
        s: BlStation<S>,
        tolerance: S,
        laws: BlLaws<S, T>,
        n: nat,
    )
        requires
            keeps_regime(laws),
        ensures
            similarity_solution(s, self.msq, self.re, tolerance, laws, n).x == s.x,
            similarity_solution(s, self.msq, self.re, tolerance, laws, n).u == s.u,
        decreases n,
    {
        if n > 0 {
            let (next, done) = similarity_iteration(s, self.msq, self.re, tolerance, laws);
            if !done {
                self.lemma_similarity_stays(next, tolerance, laws, (n - 1) as nat);
            }
        }
    }

    /// Every station of a march over a surface stands at the arc length that is given for it,
    /// and the first has the size of the velocity that is given for it.
    pub proof fn law_surface_march_stands_at_its_places<T>(
        self,
        x: Seq<S>,
        ue: Seq<S>,
        laws: BlLaws<S, T>,
        start: int,
        n: int,
        k: int,
    )
        requires
            keeps_regime(laws),
            refreshes_in_place(laws),
            0 <= start <= k < n,
        ensures
            self.surface_march(x, ue, laws, start, n).stations.len() == n - start,
            self.surface_march(x, ue, laws, start, n).stations[k - start].x == x[k],
            self.surface_march(x, ue, laws, start, n).stations[0].u == abs(ue[start]),
        decreases n,
    {
        self.law_surface_march_keeps_its_past(x, ue, laws, start, n, n);
        if n > start + 1 {
            let m = self.surface_march(x, ue, laws, start, n - 1);
            self.law_surface_march_keeps_its_past(x, ue, laws, start, n - 1, n);
            if k < n - 1 {
                self.law_surface_march_stands_at_its_places(x, ue, laws, start, n - 1, k);
            } else {
                self.law_surface_march_stands_at_its_places(x, ue, laws, start, n - 1, start);
                let prev = m.stations.last();
                let x_new = x[n - 1];
                let iters = self.config.max_iter as nat;
                self.task(prev, x_new, None).law_solution_stands_at_its_place(
                    None,
                    abs(ue[n - 1]),
                    m.laminar,
                    iters,
                    laws,
                );
                assert(self.surface_station(prev, m.laminar, x_new, ue[n - 1], laws).x == x_new);
                assert forall|s: BlStation<S>, f: Option<S>| #[trigger]
                    self.restarted(prev, s, x_new, f, laws).x == x_new by {
                    self.lemma_restarted_stays(prev, s, x_new, f, laws);
                }
            }
        } else {
            let guess = stagnation_station(
                larger(x[start], tenths::<S>(6)),
                larger(abs(ue[start]), decimal::<S>(1, 100)),
                self.re,
                laws,
            );
            let placed = (laws.blvar)(
                BlStation { x: x[start], u: abs(ue[start]), ..guess },
                FlowType::Laminar,
                self.msq,
                self.re,
            );
            self.lemma_similarity_stays(
                placed,
                self.config.tolerance,
                laws,
                self.config.max_iter as nat,
            );
        }
    }
}

/// The first station whose friction is negative, the wake left out, is the point of
/// separation: none before it is such a station, and where none is, there is no such point.
pub proof fn law_separation_is_the_first<S: Real>(stations: Seq<BlStation<S>>, i: int)
    requires
        0 <= i <= stations.len(),
    ensures
        match separation_from(stations, i) {
            Some(x) => exists|k: int|
                {
                    &&& i <= k < stations.len()
                    &&& x == stations[k].x
                    &&& #[trigger] separated(stations[k])
                    &&& forall|j: int| i <= j < k ==> !separated(#[trigger] stations[j])
                },
            None => forall|j: int| i <= j < stations.len() ==> !separated(#[trigger] stations[j]),
        },
    decreases stations.len() - i,
{
    if i < stations.len() {
        if separated(stations[i]) {
            assert(separated(stations[i]));
        } else {
            law_separation_is_the_first(stations, i + 1);
            match separation_from(stations, i + 1) {
                Some(x) => {
                    let k = choose|k: int|
                        {
                            &&& i + 1 <= k < stations.len()
                            &&& x == stations[k].x
                            &&& #[trigger] separated(stations[k])
                            &&& forall|j: int|
                                i + 1 <= j < k ==> !separated(#[trigger] stations[j])
                        };
                    assert(separated(stations[k]));
                },
                None => {},
            }
        }
    }
}

/// The friction at a station is negative, and it does not lie in the wake.
pub open spec fn separated<S: Real>(s: BlStation<S>) -> bool {
    s.cf < whole::<S>(0) && !s.is_wake
}

/// The secondary variables and the mass defect of a station do not decide its thicknesses.
pub open spec fn keeps_thicknesses<S: Real, T>(laws: BlLaws<S, T>) -> bool {
    &&& forall|s: BlStation<S>, flow: FlowType, msq: S, re: S|
        {
            let r = #[trigger] (laws.blvar)(s, flow, msq, re);
            r.theta == s.theta && r.delta_star == s.delta_star
        }
    &&& forall|s: BlStation<S>|
        {
            let r = #[trigger] (laws.refreshed)(s);
            r.theta == s.theta && r.delta_star == s.delta_star
        }
}

impl<S: Real> MarchFlow<S> {
    /// Every station of an explicit march stands at the arc length that is given for it, and
    /// its thicknesses come from the station before by one step of the momentum equation, to
    /// that arc length and the velocity that is given for it, in one regime or the other.
    pub proof fn law_explicit_march_steps_on<T>(
        self,
        x: Seq<S>,
        ue: Seq<S>,
        influence: spec_fn(int) -> Option<S>,
        laws: BlLaws<S, T>,
        n: nat,
        k: int,
    )
        requires
            keeps_regime(laws),
            keeps_thicknesses(laws),
            refreshes_in_place(laws),
            0 < k < n,
        ensures
            ({
                let s = self.explicit_march(x, ue, influence, laws, n).stations;
                &&& s.len() == n
                &&& s[0].x == x[0] && s[0].u == ue[0]
                &&& s[k].x == x[k]
                &&& exists|laminar: bool|
                    (s[k].theta, s[k].delta_star) == #[trigger] momentum_step(
                        s[k - 1],
                        x[k],
                        ue[k],
                        self.re,
                        self.msq,
                        laminar,
                    )
            }),
        decreases n,
    {
        let before = self.explicit_march(x, ue, influence, laws, (n - 1) as nat);
        if n == 2 {
            reveal_with_fuel(MarchFlow::explicit_march, 2);
            assert(before.stations.len() == 1);
            assert(before.stations[0].x == x[0] && before.stations[0].u == ue[0]);
        } else {
            self.law_explicit_march_steps_on(
                x,
                ue,
                influence,
                laws,
                (n - 1) as nat,
                if k < n - 1 {
                    k
                } else {
                    1
                },
            );
        }
        let after = self.explicit_march(x, ue, influence, laws, n);
        let prev = before.stations.last();
        let x_new = x[n - 1];
        let s = self.explicit_station(prev, before.laminar, x_new, ue[n - 1], laws);
        assert(s.x == x_new);
        assert((s.theta, s.delta_star) == momentum_step(
            prev,
            x_new,
            ue[n - 1],
            self.re,
            self.msq,
            before.laminar,
        ));
        let last = after.stations.last();
        assert(after.stations.len() == n);
        assert(forall|i: int| 0 <= i < n - 1 ==> after.stations[i] == before.stations[i]);
        assert(last.x == x_new && last.theta == s.theta && last.delta_star == s.delta_star);
        if k < n - 1 {
            let s = before.stations;
            let laminar = choose|laminar: bool|
                (s[k].theta, s[k].delta_star) == #[trigger] momentum_step(
                    s[k - 1],
                    x[k],
                    ue[k],
                    self.re,
                    self.msq,
                    laminar,
                );
            assert(after.stations[k] == s[k] && after.stations[k - 1] == s[k - 1]);
        } else {
            assert(after.stations[k - 1] == prev);
            assert((after.stations[k].theta, after.stations[k].delta_star) == momentum_step(
                after.stations[k - 1],
                x[k],
                ue[k],
                self.re,
                self.msq,
                before.laminar,
            ));
        }
    }
}

} // verus!
