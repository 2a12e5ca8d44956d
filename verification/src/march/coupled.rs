//! The explicit march, with a velocity that answers to the mass defect of the station, and
//! the march at fixed velocity for callers that log it.
use crate::closure::{BlClosure, BlLaws};
use crate::march::config::{MarchConfig, MarchResult};
use crate::march::station::{init_stagnation, momentum_step, stagnation_station, step_momentum};
use crate::march::surface::{march_fixed_ue, March, MarchFlow};
use crate::number::{arithmetic, decimal, larger, tenths, tiny, whole, Formula, Real};
use crate::station::{BlStation, FlowType, Matrix};
use vstd::prelude::*;

verus! {

impl<S: Real> MarchFlow<S> {
    /// The next station of an explicit march, with its secondary variables.
    pub open spec fn explicit_station<T>(
        self,
        prev: BlStation<S>,
        laminar: bool,
        x_new: S,
        ue_new: S,
        laws: BlLaws<S, T>,
    ) -> BlStation<S> {
        let (theta, delta_star) = momentum_step(prev, x_new, ue_new, self.re, self.msq, laminar);
        (laws.blvar)(
            BlStation {
                x: x_new,
                u: ue_new,
                is_laminar: laminar,
                is_turbulent: !laminar,
                is_wake: false,
                theta,
                delta_star,
                ctau: prev.ctau,
                ampl: prev.ampl,
                ..laws.blank
            },
            regime(laminar),
            self.msq,
            self.re,
        )
    }

    /// The station `s` with the velocity that the change of its mass defect leaves it, where
    /// `influence` is the change of velocity by unit mass.
    pub open spec fn displaced<T>(
        self,
        prev: BlStation<S>,
        s: BlStation<S>,
        laminar: bool,
        influence: S,
        laws: BlLaws<S, T>,
    ) -> BlStation<S> {
        let delta_mass = s.u * s.delta_star - prev.mass_defect;
        (laws.blvar)(
            BlStation {
                u: s.u + influence * delta_mass * self.config.senswt / whole::<S>(1000),
                ..s
            },
            regime(laminar),
            self.msq,
            self.re,
        )
    }

    /// The march with the next station `s`, after the look for transition by growth of the
    /// amplification over the distance `ds`.
    pub open spec fn with_growth<T>(
        self,
        m: March<S>,
        s: BlStation<S>,
        ds: S,
        laws: BlLaws<S, T>,
    ) -> (March<S>, BlStation<S>) {
        let prev = m.stations.last();
        let ncrit = self.config.ncrit;
        let ampl = prev.ampl + (laws.axset)(prev, s, ncrit) * ds;
        if !(laws.transitions)(ampl, ncrit) {
            (m, BlStation { ampl, ..s })
        } else {
            let frac = (ncrit - prev.ampl) / larger(ampl - prev.ampl, tenths::<S>(20));
            (
                March {
                    laminar: false,
                    x_transition: Some(prev.x + frac * ds),
                    transition_index: Some((m.stations.len() + 1) as usize),
                    ..m
                },
                (laws.blvar)(
                    BlStation {
                        ampl,
                        is_laminar: false,
                        is_turbulent: true,
                        ctau: decimal::<S>(5, 100),
                        ..s
                    },
                    FlowType::Turbulent,
                    self.msq,
                    self.re,
                ),
            )
        }
    }

    /// The explicit march, one station on. Where `influence` is none the velocity is fixed.
    pub open spec fn explicit_step<T>(
        self,
        m: March<S>,
        x_old: S,
        x_new: S,
        ue_new: S,
        influence: Option<S>,
        laws: BlLaws<S, T>,
    ) -> March<S> {
        let prev = m.stations.last();
        let s = self.explicit_station(prev, m.laminar, x_new, ue_new, laws);
        let s1 = match influence {
            Some(c) => self.displaced(prev, s, m.laminar, c, laws),
            None => s,
        };
        let (m2, s2) = if m.laminar && m.x_transition is None {
            self.with_growth(m, s1, x_new - x_old, laws)
        } else {
            (m, s1)
        };
        self.closed(m2, s2, laws)
    }

    /// The explicit march over the first `n` stations. `influence` gives the change of
    /// velocity by unit mass of each station, where it is not fixed.
    pub open spec fn explicit_march<T>(
        self,
        x: Seq<S>,
        ue: Seq<S>,
        influence: spec_fn(int) -> Option<S>,
        laws: BlLaws<S, T>,
        n: nat,
    ) -> March<S>
        decreases n,
    {
        if n <= 1 {
            March {
                stations: seq![
                    (laws.blvar)(
                        stagnation_station(x[0], ue[0], self.re, laws),
                        FlowType::Laminar,
                        self.msq,
                        self.re,
                    ),
                ],
                laminar: true,
                x_transition: None,
                x_separation: None,
                transition_index: None,
            }
        } else {
            self.explicit_step(
                self.explicit_march(x, ue, influence, laws, (n - 1) as nat),
                x[n - 2],
                x[n - 1],
                ue[n - 1],
                influence(n - 1),
                laws,
            )
        }
    }

    /// Takes the explicit march one station on.
    fn advance_explicit<P: BlClosure<S>>(
        &self,
        result: &mut MarchResult<S>,
        laminar: &mut bool,
        x_old: S,
        x_new: S,
        ue_new: S,
        influence: Option<S>,
        closure: &P,
        Ghost(m): Ghost<March<S>>,
    )
        requires
            arithmetic::<S>(),
            closure.lawful(),
            old(result).holds(m),
            *old(laminar) == m.laminar,
            1 <= m.stations.len() < usize::MAX,
        ensures
            final(result).holds(
                self.explicit_step(m, x_old, x_new, ue_new, influence, closure.laws()),
            ),
            *final(laminar) == self.explicit_step(
                m,
                x_old,
                x_new,
                ue_new,
                influence,
                closure.laws(),
            ).laminar,
            final(result).stations@.len() == m.stations.len() + 1,
    {
        let count: usize = result.stations.len();
        let prev: BlStation<S> = result.stations[count - 1];
        let ds: S = x_new - x_old;
        let flow: FlowType = regime(*laminar);
        let mut station: BlStation<S> = closure.blank();
        station.x = x_new;
        station.u = ue_new;
        station.is_laminar = *laminar;
        station.is_turbulent = !*laminar;
        station.is_wake = false;
        let (theta, delta_star): (S, S) = step_momentum(
            &prev,
            x_new,
            ue_new,
            self.re,
            self.msq,
            *laminar,
        );
        station.theta = theta;
        station.delta_star = delta_star;
        station.ctau = prev.ctau;
        station.ampl = prev.ampl;
        station = closure.blvar(station, flow, self.msq, self.re);
        match influence {
            Some(c) => {
                let delta_mass: S = station.u * station.delta_star - prev.mass_defect;
                let due: S = c * delta_mass * self.config.senswt / whole::<S>(1000);
                station.u = station.u + due;
                station = closure.blvar(station, flow, self.msq, self.re);
            },
            None => {},
        }
        if *laminar && result.x_transition.is_none() {
            let ncrit: S = self.config.ncrit;
            let ax: S = closure.axset(prev, station, ncrit);
            station.ampl = prev.ampl + ax * ds;
            if closure.transitions(station.ampl, ncrit) {
                let frac: S = (ncrit - prev.ampl) / larger(station.ampl - prev.ampl, tiny(20));
                result.x_transition = Some(prev.x + frac * ds);
                result.transition_index = Some(count + 1);
                *laminar = false;
                station.is_laminar = false;
                station.is_turbulent = true;
                station.ctau = decimal(5, 100);
                station = closure.blvar(station, FlowType::Turbulent, self.msq, self.re);
            }
        }
        if station.cf < whole(0) && result.x_separation.is_none() {
            result.x_separation = Some(station.x);
        }
        let station: BlStation<S> = closure.refreshed(station);
        result.stations.push(station);
    }
}

/// The regime of an attached boundary layer.
#[verifier::allow_in_spec]
pub fn regime(laminar: bool) -> FlowType
    returns
        (if laminar {
            FlowType::Laminar
        } else {
            FlowType::Turbulent
        }),
{
    if laminar {
        FlowType::Laminar
    } else {
        FlowType::Turbulent
    }
}

/// Marches a boundary layer at fixed edge velocity, as `march_fixed_ue` does. It is the entry
/// for callers that log the stations of a march.
pub fn march_fixed_ue_debug<S: Real, P: BlClosure<S>>(
    x: &[S],
    ue: &[S],
    re: S,
    msq: S,
    config: &MarchConfig<S>,
    closure: &P,
) -> (r: MarchResult<S>)
    requires
        arithmetic::<S>(),
        closure.lawful(),
        x@.len() == ue@.len(),
        2 <= x@.len() < usize::MAX,
    ensures
        r.holds(
            (MarchFlow { re, msq, config: *config }).fixed_march(
                x@,
                ue@,
                closure.laws(),
                x@.len(),
            ),
        ),
{
    march_fixed_ue(x, ue, re, msq, config, closure)
}

/// The change of velocity of station `i` by its own mass: none where the matrix does not
/// hold it.
pub open spec fn own_influence<S: Real>(dij: &Matrix<S>, i: int) -> Option<S> {
    if dij.covers(i, i) {
        Some(dij.entry(i, i))
    } else {
        None
    }
}

/// Marches explicitly, with an edge velocity that answers to the change of mass defect of
/// its own station.
pub fn march_coupled<S: Real, P: BlClosure<S>>(
    x: &[S],
    initial_ue: &[S],
    dij: &Matrix<S>,
    re: S,
    msq: S,
    config: &MarchConfig<S>,
    closure: &P,
) -> (r: MarchResult<S>)
    requires
        arithmetic::<S>(),
        closure.lawful(),
        dij.wf(),
        x@.len() == initial_ue@.len(),
        2 <= x@.len() < usize::MAX,
    ensures
        r.holds(
            (MarchFlow { re, msq, config: *config }).explicit_march(
                x@,
                initial_ue@,
                |i: int| own_influence(dij, i),
                closure.laws(),
                x@.len(),
            ),
        ),
{
    let flow = MarchFlow { re, msq, config: *config };
    let n: usize = x.len();
    let mut result: MarchResult<S> = MarchResult::new(n);
    let first: BlStation<S> = init_stagnation(x[0], initial_ue[0], re, closure);
    let first: BlStation<S> = closure.blvar(first, FlowType::Laminar, msq, re);
    result.stations.push(first);
    let mut laminar: bool = true;
    let ghost laws = closure.laws();
    let ghost influence = |i: int| own_influence(dij, i);
    proof {
        reveal_with_fuel(MarchFlow::explicit_march, 2);
        assert(result.stations@ =~= flow.explicit_march(
            x@,
            initial_ue@,
            influence,
            laws,
            1,
        ).stations);
    }
    let mut i: usize = 1;
    while i < n
        invariant
            arithmetic::<S>(),
            closure.lawful(),
            dij.wf(),
            laws == closure.laws(),
            influence == (|i: int| own_influence(dij, i)),
            flow == (MarchFlow { re, msq, config: *config }),
            n == x@.len(),
            n == initial_ue@.len(),
            n < usize::MAX,
            1 <= i <= n,
            result.stations@.len() == i,
            result.holds(flow.explicit_march(x@, initial_ue@, influence, laws, i as nat)),
            laminar == flow.explicit_march(x@, initial_ue@, influence, laws, i as nat).laminar,
        decreases n - i,
    {
        let own: Option<S> = if i < dij.nrows && i < dij.ncols {
            Some(dij.rows[i][i])
        } else {
            None
        };
        flow.advance_explicit(
            &mut result,
            &mut laminar,
            x[i - 1],
            x[i],
            initial_ue[i],
            own,
            closure,
            Ghost(flow.explicit_march(x@, initial_ue@, influence, laws, i as nat)),
        );
        i = i + 1;
    }
    result
}

} // verus!
