//! The direct march.
use crate::closure::{BlClosure, BlLaws, StationCheck};
use crate::march::config::{MarchConfig, MarchResult};
use crate::march::station::{
    init_stagnation, momentum_step, newton_solve_similarity, newton_solve_station_transition,
    newton_solve_station_with_guess, similarity_solution, stagnation_station, step_momentum,
    StationTask,
};
use crate::number::{
    abs, arithmetic, clamp, decimal, infinity, larger, tenths, tiny, whole, Formula, Real,
};
use crate::station::{BlStation, FlowType};
use vstd::prelude::*;

verus! {

/// What a march has gathered.
pub struct March<S> {
    pub stations: Seq<BlStation<S>>,
    /// Whether the boundary layer is still laminar.
    pub laminar: bool,
    pub x_transition: Option<S>,
    pub x_separation: Option<S>,
    pub transition_index: Option<usize>,
}

impl<S> MarchResult<S> {
    /// The result holds what the march `m` has gathered.
    pub open spec fn holds(&self, m: March<S>) -> bool {
        &&& self.stations@ == m.stations
        &&& self.x_transition == m.x_transition
        &&& self.x_separation == m.x_separation
        &&& self.transition_index == m.transition_index
        &&& self.converged
    }
}

/// The largest of the first `n` arc lengths that do not pass the chord: minus infinity where
/// there is none.
pub open spec fn surface_end<S: Real>(x: Seq<S>, n: nat) -> S
    decreases n,
{
    if n == 0 {
        -infinity::<S>()
    } else {
        let before = surface_end(x, (n - 1) as nat);
        let xi = x[n - 1];
        if xi <= whole::<S>(1) + tenths::<S>(9) {
            larger(before, xi)
        } else {
            before
        }
    }
}

/// The largest of the arc lengths that do not pass the chord.
fn surface_end_of<S: Real>(x: &[S]) -> (r: S)
    requires
        arithmetic::<S>(),
    ensures
        r == surface_end(x@, x@.len()),
{
    let limit: S = whole::<S>(1) + tiny(9);
    let mut r: S = infinity::<S>().neg();
    let mut i: usize = 0;
    while i < x.len()
        invariant
            arithmetic::<S>(),
            limit == whole::<S>(1) + tenths::<S>(9),
            i <= x@.len(),
            r == surface_end(x@, i as nat),
        decreases x@.len() - i,
    {
        let xi: S = x[i];
        if xi <= limit {
            r = larger(r, xi);
        }
        i = i + 1;
    }
    r
}

/// The setting of a march: Reynolds number, squared Mach number and configuration.
#[derive(Clone, Copy, Debug)]
pub struct MarchFlow<S> {
    pub re: S,
    pub msq: S,
    pub config: MarchConfig<S>,
}

impl<S: Real> MarchFlow<S> {
    /// The task of a station at arc length `x_new` downstream of `prev`.
    pub open spec fn task(self, prev: BlStation<S>, x_new: S, x_forced: Option<S>) -> StationTask<S> {
        StationTask {
            prev,
            x_new,
            re: self.re,
            msq: self.msq,
            is_wake: false,
            ncrit: self.config.ncrit,
            tolerance: self.config.tolerance,
            hlmax: self.config.hlmax,
            htmax: self.config.htmax,
            x_forced,
        }
    }

    /// The station `s`, solved once more with turbulent equations, from the station upstream
    /// with the default shear stress of transition.
    pub open spec fn restarted<T>(
        self,
        prev: BlStation<S>,
        s: BlStation<S>,
        x_new: S,
        x_forced: Option<S>,
        laws: BlLaws<S, T>,
    ) -> BlStation<S> {
        self.task(prev, x_new, x_forced).solution(
            Some(
                BlStation {
                    x: s.x,
                    u: s.u,
                    ampl: s.ampl,
                    ctau: decimal::<S>(5, 100),
                    ..prev
                },
            ),
            s.u,
            false,
            self.config.max_iter as nat,
            laws,
        ).0
    }

    /// The station `s`, solved once more with turbulent equations.
    fn restart<P: BlClosure<S>>(
        &self,
        prev: &BlStation<S>,
        s: &BlStation<S>,
        x_new: S,
        x_forced: Option<S>,
        closure: &P,
    ) -> (r: BlStation<S>)
        requires
            arithmetic::<S>(),
            closure.lawful(),
        ensures
            r == self.restarted(*prev, *s, x_new, x_forced, closure.laws()),
    {
        let mut guess: BlStation<S> = *prev;
        guess.x = s.x;
        guess.u = s.u;
        guess.ampl = s.ampl;
        guess.ctau = decimal(5, 100);
        newton_solve_station_transition(
            prev,
            Some(guess),
            x_new,
            s.u,
            self.re,
            self.msq,
            false,
            false,
            self.config.ncrit,
            self.config.max_iter,
            self.config.tolerance,
            self.config.hlmax,
            self.config.htmax,
            x_forced,
            closure,
        ).0
    }

    /// The march with the next station `s`, after the look for natural transition. The
    /// station already carries its own solution; `number` is the number under which
    /// transition is recorded, and `x_forced` what a second solution looks at.
    pub open spec fn with_transition<T>(
        self,
        m: March<S>,
        s: BlStation<S>,
        x_new: S,
        number: usize,
        x_forced: Option<S>,
        laws: BlLaws<S, T>,
    ) -> (March<S>, BlStation<S>) {
        let prev = m.stations.last();
        let tc = (laws.trchek_stations)(prev, s, self.config.ncrit, self.msq, self.re);
        let amplified = BlStation { ampl: tc.ampl2, ..s };
        if !tc.transition {
            (m, amplified)
        } else {
            let after = March {
                laminar: false,
                x_transition: tc.xt,
                transition_index: Some(number),
                ..m
            };
            if s.is_turbulent {
                (after, amplified)
            } else {
                let again = self.restarted(prev, amplified, x_new, x_forced, laws);
                (after, BlStation { ampl: tc.ampl2, ..again })
            }
        }
    }

    /// The march with the next station `s`, after transition was forced there.
    pub open spec fn with_forced<T>(
        self,
        m: March<S>,
        s: BlStation<S>,
        x_new: S,
        number: usize,
        xt: S,
        x_forced: Option<S>,
        laws: BlLaws<S, T>,
    ) -> (March<S>, BlStation<S>) {
        (
            March {
                laminar: false,
                x_transition: Some(xt),
                transition_index: Some(number),
                ..m
            },
            self.restarted(m.stations.last(), s, x_new, x_forced, laws),
        )
    }

    /// The march with the finished station `s`: the first station with negative friction is
    /// the point of separation.
    pub open spec fn closed<T>(self, m: March<S>, s: BlStation<S>, laws: BlLaws<S, T>) -> March<S> {
        March {
            x_separation: (if s.cf < whole::<S>(0) && m.x_separation is None {
                Some(s.x)
            } else {
                m.x_separation
            }),
            stations: m.stations.push((laws.refreshed)(s)),
            ..m
        }
    }

    /// The arc length at which transition is forced, where it lies before the end.
    pub open spec fn strip(self, end: S) -> Option<S> {
        match self.config.xiforc {
            Some(xi) if xi < end - tenths::<S>(9) => Some(xi),
            _ => None,
        }
    }

    /// The arc length at which transition is forced, where it lies before the end.
    fn strip_before(&self, end: S) -> (r: Option<S>)
        requires
            arithmetic::<S>(),
        ensures
            r == self.strip(end),
    {
        match self.config.xiforc {
            Some(xi) => if xi < end - tiny(9) {
                Some(xi)
            } else {
                None
            },
            None => None,
        }
    }

    /// The march at fixed velocity, one station on: arc length `x_new`, velocity `ue_new`.
    pub open spec fn fixed_step<T>(
        self,
        m: March<S>,
        x_new: S,
        ue_new: S,
        end: S,
        laws: BlLaws<S, T>,
    ) -> March<S> {
        let prev = m.stations.last();
        let number = (m.stations.len() + 1) as usize;
        let s = self.task(prev, x_new, self.config.xiforc).solution(
            None,
            ue_new,
            m.laminar,
            self.config.max_iter as nat,
            laws,
        ).0;
        let (m1, s1) = if m.laminar && m.x_transition is None {
            match self.strip(end) {
                Some(xf) if s.x >= xf && prev.x < xf => self.with_forced(
                    m,
                    s,
                    x_new,
                    number,
                    xf,
                    self.strip(end),
                    laws,
                ),
                _ => self.with_transition(m, s, x_new, number, None, laws),
            }
        } else if !m.laminar {
            (m, BlStation { ampl: prev.ampl, ..s })
        } else {
            (m, s)
        };
        let (m2, s2) = if m1.laminar && s1.x >= end - tenths::<S>(9) && m1.x_transition is None {
            self.with_forced(m1, s1, x_new, number, s1.x, Some(s1.x), laws)
        } else {
            (m1, s1)
        };
        self.closed(m2, s2, laws)
    }

    /// The march at fixed velocity over the first `n` stations.
    pub open spec fn fixed_march<T>(
        self,
        x: Seq<S>,
        ue: Seq<S>,
        laws: BlLaws<S, T>,
        n: nat,
    ) -> March<S>
        decreases n,
    {
        if n <= 1 {
            March {
                stations: seq![
                    (laws.blvar)(
                        stagnation_station(x[0], ue[0], self.re, laws),
                        FlowType::Laminar,
                        self.msq,
                        self.re,
                    ),
                ],
                laminar: true,
                x_transition: None,
                x_separation: None,
                transition_index: None,
            }
        } else {
            self.fixed_step(
                self.fixed_march(x, ue, laws, (n - 1) as nat),
                x[n - 1],
                ue[n - 1],
                surface_end(x, x.len()),
                laws,
            )
        }
    }
}

impl<S: Real> MarchFlow<S> {
    /// Takes the march at fixed velocity one station on.
    fn advance_fixed<P: BlClosure<S>>(
        &self,
        result: &mut MarchResult<S>,
        laminar: &mut bool,
        x_new: S,
        ue_new: S,
        end: S,
        closure: &P,
        Ghost(m): Ghost<March<S>>,
    )
        requires
            arithmetic::<S>(),
            closure.lawful(),
            old(result).holds(m),
            *old(laminar) == m.laminar,
            1 <= m.stations.len() < usize::MAX,
        ensures
            final(result).holds(self.fixed_step(m, x_new, ue_new, end, closure.laws())),
            *final(laminar) == self.fixed_step(m, x_new, ue_new, end, closure.laws()).laminar,
            final(result).stations@.len() == m.stations.len() + 1,
    {
        let config: MarchConfig<S> = self.config;
        let count: usize = result.stations.len();
        let prev: BlStation<S> = result.stations[count - 1];
        let (solved, _converged, _dmax): (BlStation<S>, bool, S) = newton_solve_station_with_guess(
            &prev,
            None,
            x_new,
            ue_new,
            self.re,
            self.msq,
            *laminar,
            false,
            config.ncrit,
            config.max_iter,
            config.tolerance,
            config.hlmax,
            config.htmax,
            config.xiforc,
            closure,
        );
        let mut station: BlStation<S> = solved;
        let strip: Option<S> = self.strip_before(end);
        if *laminar && result.x_transition.is_none() {
            let reached: bool = match strip {
                Some(xf) => station.x >= xf && prev.x < xf,
                None => false,
            };
            if reached {
                *laminar = false;
                result.x_transition = strip;
                result.transition_index = Some(count + 1);
                station = self.restart(&prev, &station, x_new, strip, closure);
            } else {
                let tc: StationCheck<S> = closure.trchek_stations(
                    prev,
                    station,
                    config.ncrit,
                    self.msq,
                    self.re,
                );
                station.ampl = tc.ampl2;
                if tc.transition {
                    result.x_transition = tc.xt;
                    result.transition_index = Some(count + 1);
                    *laminar = false;
                    if !station.is_turbulent {
                        station = self.restart(&prev, &station, x_new, None, closure);
                        station.ampl = tc.ampl2;
                    }
                }
            }
        } else if !*laminar {
            station.ampl = prev.ampl;
        }
        if *laminar && station.x >= end - tiny(9) && result.x_transition.is_none() {
            *laminar = false;
            result.x_transition = Some(station.x);
            result.transition_index = Some(count + 1);
            station = self.restart(&prev, &station, x_new, Some(station.x), closure);
        }
        if station.cf < whole(0) && result.x_separation.is_none() {
            result.x_separation = Some(station.x);
        }
        let station: BlStation<S> = closure.refreshed(station);
        result.stations.push(station);
    }
}

/// Marches a boundary layer at fixed edge velocity, from the first station on. Transition is
/// forced at the arc length of the configuration where that lies before the end of the
/// surface, looked for behind every other laminar station, and forced at the end.
pub fn march_fixed_ue<S: Real, P: BlClosure<S>>(
    x: &[S],
    ue: &[S],
    re: S,
    msq: S,
    config: &MarchConfig<S>,
    closure: &P,
) -> (r: MarchResult<S>)
    requires
        arithmetic::<S>(),
        closure.lawful(),
        x@.len() == ue@.len(),
        2 <= x@.len() < usize::MAX,
    ensures
        r.holds(
            (MarchFlow { re, msq, config: *config }).fixed_march(
                x@,
                ue@,
                closure.laws(),
                x@.len(),
            ),
        ),
{
    let flow = MarchFlow { re, msq, config: *config };
    let n: usize = x.len();
    let end: S = surface_end_of(x);
    let mut result: MarchResult<S> = MarchResult::new(n);
    let first: BlStation<S> = init_stagnation(x[0], ue[0], re, closure);
    let first: BlStation<S> = closure.blvar(first, FlowType::Laminar, msq, re);
    result.stations.push(first);
    let mut laminar: bool = true;
    let ghost laws = closure.laws();
    proof {
        reveal_with_fuel(MarchFlow::fixed_march, 2);
        assert(result.stations@ =~= flow.fixed_march(x@, ue@, laws, 1).stations);
    }
    let mut i: usize = 1;
    while i < n
        invariant
            arithmetic::<S>(),
            closure.lawful(),
            laws == closure.laws(),
            flow == (MarchFlow { re, msq, config: *config }),
            n == x@.len(),
            n == ue@.len(),
            n < usize::MAX,
            1 <= i <= n,
            end == surface_end(x@, x@.len()),
            result.stations@.len() == i,
            result.holds(flow.fixed_march(x@, ue@, laws, i as nat)),
            laminar == flow.fixed_march(x@, ue@, laws, i as nat).laminar,
        decreases n - i,
    {
        flow.advance_fixed(
            &mut result,
            &mut laminar,
            x[i],
            ue[i],
            end,
            closure,
            Ghost(flow.fixed_march(x@, ue@, laws, i as nat)),
        );
        i = i + 1;
    }
    result
}

/// The regime that the flags of a station name.
#[verifier::allow_in_spec]
pub fn regime_of<S: Real>(s: &BlStation<S>) -> FlowType
    returns
        (if s.is_wake {
            FlowType::Wake
        } else if s.is_turbulent {
            FlowType::Turbulent
        } else {
            FlowType::Laminar
        }),
{
    if s.is_wake {
        FlowType::Wake
    } else if s.is_turbulent {
        FlowType::Turbulent
    } else {
        FlowType::Laminar
    }
}

/// The station that a march over a surface starts at: the second, where the first lies at
/// the stagnation point.
pub open spec fn surface_start<S: Real>(x: Seq<S>, ue: Seq<S>) -> int {
    if x[0] < tenths::<S>(6) || abs(ue[0]) < tenths::<S>(6) {
        1
    } else {
        0
    }
}

impl<S: Real> MarchFlow<S> {
    /// The first station of a march over a surface: by the formula of Thwaites, and then on
    /// the similarity equations.
    pub open spec fn surface_first<T>(self, x: S, ue: S, laws: BlLaws<S, T>) -> BlStation<S> {
        let guess = stagnation_station(
            larger(x, tenths::<S>(6)),
            larger(abs(ue), decimal::<S>(1, 100)),
            self.re,
            laws,
        );
        let placed = (laws.blvar)(
            BlStation { x, u: abs(ue), ..guess },
            FlowType::Laminar,
            self.msq,
            self.re,
        );
        (laws.blvar)(
            similarity_solution(
                placed,
                self.msq,
                self.re,
                self.config.tolerance,
                laws,
                self.config.max_iter as nat,
            ),
            FlowType::Laminar,
            self.msq,
            self.re,
        )
    }

    /// The next station of a march over a surface, before transition is looked for. A laminar
    /// station that stays far from converged is replaced by an explicit step, and one that
    /// has collapsed is put back to the smallest thickness.
    pub open spec fn surface_station<T>(
        self,
        prev: BlStation<S>,
        laminar: bool,
        x_new: S,
        ue_new: S,
        laws: BlLaws<S, T>,
    ) -> BlStation<S> {
        let flow = if laminar {
            FlowType::Laminar
        } else {
            FlowType::Turbulent
        };
        let (s, converged, dmax) = self.task(prev, x_new, None).solution(
            None,
            abs(ue_new),
            laminar,
            self.config.max_iter as nat,
            laws,
        );
        let s1 = if !converged && dmax > decimal::<S>(1, 10) && !s.is_turbulent {
            let (theta, delta_star) = momentum_step(
                prev,
                x_new,
                abs(ue_new),
                self.re,
                self.msq,
                laminar,
            );
            (laws.blvar)(BlStation { theta, delta_star, ..s }, flow, self.msq, self.re)
        } else {
            s
        };
        let floor = tenths::<S>(8);
        let s2 = if s1.theta < floor {
            BlStation {
                theta: floor,
                delta_star: floor * clamp(prev.h, decimal::<S>(15, 10), decimal::<S>(35, 10)),
                ..s1
            }
        } else {
            s1
        };
        (laws.blvar)(s2, flow, self.msq, self.re)
    }

    /// The march over a surface, one station on.
    pub open spec fn surface_step<T>(
        self,
        m: March<S>,
        x_new: S,
        ue_new: S,
        end: S,
        laws: BlLaws<S, T>,
    ) -> March<S> {
        let prev = m.stations.last();
        let number = (m.stations.len() + 2) as usize;
        let s = self.surface_station(prev, m.laminar, x_new, ue_new, laws);
        let (m1, s1) = if m.laminar && m.x_transition is None {
            match self.strip(end) {
                Some(xf) if s.x >= xf && prev.x < xf => self.with_forced(
                    m,
                    s,
                    x_new,
                    number,
                    xf,
                    self.strip(end),
                    laws,
                ),
                _ => self.with_transition(m, s, x_new, number, self.strip(end), laws),
            }
        } else {
            (m, s)
        };
        let (m2, s2) = if m1.laminar && s1.x >= end - tenths::<S>(9) && m1.x_transition is None {
            self.with_forced(m1, s1, x_new, number, s1.x, Some(s1.x), laws)
        } else {
            (m1, s1)
        };
        self.closed(m2, (laws.blvar)(s2, regime_of(&s2), self.msq, self.re), laws)
    }

    /// The march over a surface, over the stations from `start` up to, but not including,
    /// `n`.
    pub open spec fn surface_march<T>(
        self,
        x: Seq<S>,
        ue: Seq<S>,
        laws: BlLaws<S, T>,
        start: int,
        n: int,
    ) -> March<S>
        decreases n,
    {
        if n <= start + 1 || n <= 0 {
            March {
                stations: seq![self.surface_first(x[start], ue[start], laws)],
                laminar: true,
                x_transition: None,
                x_separation: None,
                transition_index: None,
            }
        } else {
            self.surface_step(
                self.surface_march(x, ue, laws, start, n - 1),
                x[n - 1],
                ue[n - 1],
                surface_end(x, x.len()),
                laws,
            )
        }
    }

    /// The first station of a march over a surface.
    fn first_on_surface<P: BlClosure<S>>(&self, x: S, ue: S, closure: &P) -> (r: BlStation<S>)
        requires
            arithmetic::<S>(),
            closure.lawful(),
        ensures
            r == self.surface_first(x, ue, closure.laws()),
    {
        let mut first: BlStation<S> = init_stagnation(
            larger(x, tiny(6)),
            larger(abs(ue), decimal(1, 100)),
            self.re,
            closure,
        );
        first.x = x;
        first.u = abs(ue);
        let placed: BlStation<S> = closure.blvar(first, FlowType::Laminar, self.msq, self.re);
        let solved: BlStation<S> = newton_solve_similarity(
            &placed,
            self.msq,
            self.re,
            self.config.max_iter,
            self.config.tolerance,
            closure,
        );
        closure.blvar(solved, FlowType::Laminar, self.msq, self.re)
    }

    /// The next station of a march over a surface, before transition is looked for.
    fn next_on_surface<P: BlClosure<S>>(
        &self,
        prev: &BlStation<S>,
        laminar: bool,
        x_new: S,
        ue_new: S,
        closure: &P,
    ) -> (r: BlStation<S>)
        requires
            arithmetic::<S>(),
            closure.lawful(),
        ensures
            r == self.surface_station(*prev, laminar, x_new, ue_new, closure.laws()),
    {
        let config: MarchConfig<S> = self.config;
        let flow: FlowType = if laminar {
            FlowType::Laminar
        } else {
            FlowType::Turbulent
        };
        let (solved, converged, dmax): (BlStation<S>, bool, S) = newton_solve_station_with_guess(
            prev,
            None,
            x_new,
            abs(ue_new),
            self.re,
            self.msq,
            laminar,
            false,
            config.ncrit,
            config.max_iter,
            config.tolerance,
            config.hlmax,
            config.htmax,
            None,
            closure,
        );
        let mut station: BlStation<S> = solved;
        if !converged && dmax > decimal(1, 10) && !station.is_turbulent {
            let (theta, delta_star): (S, S) = step_momentum(
                prev,
                x_new,
                abs(ue_new),
                self.re,
                self.msq,
                laminar,
            );
            station.theta = theta;
            station.delta_star = delta_star;
            station = closure.blvar(station, flow, self.msq, self.re);
        }
        let floor: S = tiny(8);
        if station.theta < floor {
            station.theta = floor;
            station.delta_star = station.theta * clamp(prev.h, decimal(15, 10), decimal(35, 10));
        }
        closure.blvar(station, flow, self.msq, self.re)
    }

    /// Takes the march over a surface one station on.
    fn advance_on_surface<P: BlClosure<S>>(
        &self,
        result: &mut MarchResult<S>,
        laminar: &mut bool,
        x_new: S,
        ue_new: S,
        end: S,
        closure: &P,
        Ghost(m): Ghost<March<S>>,
    )
        requires
            arithmetic::<S>(),
            closure.lawful(),
            old(result).holds(m),
            *old(laminar) == m.laminar,
            1 <= m.stations.len(),
            m.stations.len() + 2 <= usize::MAX,
        ensures
            final(result).holds(self.surface_step(m, x_new, ue_new, end, closure.laws())),
            *final(laminar) == self.surface_step(m, x_new, ue_new, end, closure.laws()).laminar,
            final(result).stations@.len() == m.stations.len() + 1,
    {
        let count: usize = result.stations.len();
        let prev: BlStation<S> = result.stations[count - 1];
        let mut station: BlStation<S> = self.next_on_surface(
            &prev,
            *laminar,
            x_new,
            ue_new,
            closure,
        );
        let strip: Option<S> = self.strip_before(end);
        if *laminar && result.x_transition.is_none() {
            let reached: bool = match strip {
                Some(xf) => station.x >= xf && prev.x < xf,
                None => false,
            };
            if reached {
                *laminar = false;
                result.x_transition = strip;
                result.transition_index = Some(count + 2);
                station = self.restart(&prev, &station, x_new, strip, closure);
            } else {
                let tc: StationCheck<S> = closure.trchek_stations(
                    prev,
                    station,
                    self.config.ncrit,
                    self.msq,
                    self.re,
                );
                station.ampl = tc.ampl2;
                if tc.transition {
                    result.x_transition = tc.xt;
                    result.transition_index = Some(count + 2);
                    *laminar = false;
                    if !station.is_turbulent {
                        station = self.restart(&prev, &station, x_new, strip, closure);
                        station.ampl = tc.ampl2;
                    }
                }
            }
        }
        if *laminar && station.x >= end - tiny(9) && result.x_transition.is_none() {
            *laminar = false;
            result.x_transition = Some(station.x);
            result.transition_index = Some(count + 2);
            station = self.restart(&prev, &station, x_new, Some(station.x), closure);
        }
        let flow: FlowType = regime_of(&station);
        let station: BlStation<S> = closure.blvar(station, flow, self.msq, self.re);
        if station.cf < whole(0) && result.x_separation.is_none() {
            result.x_separation = Some(station.x);
        }
        let station: BlStation<S> = closure.refreshed(station);
        result.stations.push(station);
    }
}

/// Marches a boundary layer over a surface, at the magnitude of the given edge velocities.
///
/// A first station at the stagnation point is passed over; without two stations left the
/// march is empty. Transition is forced at the arc length of the configuration where that
/// lies before the end of the surface, found by amplification else, and forced at the end.
pub fn march_surface<S: Real, P: BlClosure<S>>(
    x: &[S],
    ue: &[S],
    re: S,
    msq: S,
    config: &MarchConfig<S>,
    closure: &P,
) -> (r: MarchResult<S>)
    requires
        arithmetic::<S>(),
        closure.lawful(),
        x@.len() == ue@.len(),
        2 <= x@.len() < usize::MAX,
    ensures
        ({
            let start = surface_start(x@, ue@);
            r.holds(
                (if start == 1 && x@.len() < 3 {
                    March {
                        stations: Seq::empty(),
                        laminar: true,
                        x_transition: None,
                        x_separation: None,
                        transition_index: None,
                    }
                } else {
                    (MarchFlow { re, msq, config: *config }).surface_march(
                        x@,
                        ue@,
                        closure.laws(),
                        start,
                        x@.len() as int,
                    )
                }),
            )
        }),
{
    let flow = MarchFlow { re, msq, config: *config };
    let n: usize = x.len();
    let end: S = surface_end_of(x);
    let start: usize = if x[0] < tiny(6) || abs(ue[0]) < tiny(6) {
        if n < 3 {
            return MarchResult::new(0);
        }
        1
    } else {
        0
    };
    let mut result: MarchResult<S> = MarchResult::new(n);
    let first: BlStation<S> = flow.first_on_surface(x[start], ue[start], closure);
    result.stations.push(first);
    let mut laminar: bool = true;
    let ghost laws = closure.laws();
    proof {
        reveal_with_fuel(MarchFlow::surface_march, 2);
        assert(result.stations@ =~= flow.surface_march(
            x@,
            ue@,
            laws,
            start as int,
            start + 1,
        ).stations);
    }
    let mut i: usize = start + 1;
    while i < n
        invariant
            arithmetic::<S>(),
            closure.lawful(),
            laws == closure.laws(),
            flow == (MarchFlow { re, msq, config: *config }),
            n == x@.len(),
            n == ue@.len(),
            n < usize::MAX,
            start <= 1,
            start < i <= n,
            end == surface_end(x@, x@.len()),
            result.stations@.len() == i - start,
            result.holds(flow.surface_march(x@, ue@, laws, start as int, i as int)),
            laminar == flow.surface_march(x@, ue@, laws, start as int, i as int).laminar,
        decreases n - i,
    {
        flow.advance_on_surface(
            &mut result,
            &mut laminar,
            x[i],
            ue[i],
            end,
            closure,
            Ghost(flow.surface_march(x@, ue@, laws, start as int, i as int)),
        );
        i = i + 1;
    }
    result
}

impl<S: Real> MarchFlow<S> {
    /// A march has as many stations as it was given.
    pub proof fn lemma_fixed_march_length<T>(
        self,
        x: Seq<S>,
        ue: Seq<S>,
        laws: BlLaws<S, T>,
        n: nat,
    )
        requires
            n >= 1,
        ensures
            self.fixed_march(x, ue, laws, n).stations.len() == n,
        decreases n,
    {
        if n > 1 {
            self.lemma_fixed_march_length(x, ue, laws, (n - 1) as nat);
        }
    }
}

} // verus!
