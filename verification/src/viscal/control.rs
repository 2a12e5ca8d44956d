//! Settings, results and errors of the viscous solution.
use crate::march::config::{default_with, MarchConfig, MarchResult};
use crate::number::{arithmetic, is_finite, tenths, tiny, whole, Formula, Real};
use crate::station::BlStation;
use crate::viscal::operating::OperatingMode;
use vstd::prelude::*;

verus! {

/// The settings of a viscous solution.
#[derive(Clone, Copy, Debug)]
pub struct ViscousSolverConfig<S> {
    pub reynolds: S,
    /// Squared Mach number.
    pub msq: S,
    /// Critical amplification.
    pub ncrit: S,
    /// Shape parameters at which a station turns to the inverse form.
    pub hk_max_laminar: S,
    pub hk_max_turbulent: S,
    pub relaxation: S,
    pub max_iterations: usize,
    pub tolerance: S,
    /// Whether a separated solution is one.
    pub allow_separation: bool,
    pub operating_mode: OperatingMode<S>,
    /// Chordwise positions at which transition is forced; one is the trailing edge.
    pub xstrip_upper: S,
    pub xstrip_lower: S,
}

/// Why there is no viscous solution.
#[derive(Clone, Copy, Debug)]
pub enum SolverError<S> {
    /// The Reynolds number is not positive.
    InvalidReynolds,
    /// There are fewer than three stations.
    InsufficientPanels,
    /// The boundary layer separates, and that is not allowed.
    BoundaryLayerSeparation { x_sep: S },
}

/// Force coefficients.
#[derive(Clone, Copy, Debug)]
pub struct Forces<S> {
    pub cl: S,
    pub cd: S,
    pub cm: S,
    pub cd_friction: S,
    pub cd_pressure: S,
}

/// A viscous solution.
#[derive(Clone, Copy, Debug)]
pub struct ViscousResult<S> {
    /// Angle of attack, in degrees.
    pub alpha: S,
    pub cl: S,
    pub cd: S,
    pub cm: S,
    /// Positions of transition.
    pub x_tr_upper: S,
    pub x_tr_lower: S,
    pub iterations: usize,
    pub residual: S,
    pub converged: bool,
    pub cd_friction: S,
    pub cd_pressure: S,
    /// Position of separation.
    pub x_separation: Option<S>,
}

impl<S: Real> ViscousResult<S> {
    /// Whether the boundary layer separates nowhere.
    pub fn is_attached(&self) -> (r: bool)
        ensures
            r == (self.x_separation is None),
    {
        self.x_separation.is_none()
    }
}

impl<S: Real> ViscousSolverConfig<S> {
    /// The settings of the march, with transition forced at `xiforc`.
    pub open spec fn march(self, xiforc: Option<S>) -> MarchConfig<S> {
        MarchConfig {
            ncrit: self.ncrit,
            hlmax: self.hk_max_laminar,
            htmax: self.hk_max_turbulent,
            xiforc,
            ..default_with::<S>(9)
        }
    }

    /// The settings of the march, with transition forced at `xiforc`.
    pub fn march_config(&self, xiforc: Option<S>) -> (r: MarchConfig<S>)
        requires
            arithmetic::<S>(),
        ensures
            r == self.march(xiforc),
    {
        MarchConfig {
            ncrit: self.ncrit,
            hlmax: self.hk_max_laminar,
            htmax: self.hk_max_turbulent,
            xiforc,
            ..MarchConfig::default()
        }
    }
}

/// The station `s` with what a march found there.
pub open spec fn with_march<S>(s: BlStation<S>, m: BlStation<S>) -> BlStation<S> {
    BlStation {
        theta: m.theta,
        delta_star: m.delta_star,
        h: m.h,
        hk: m.hk,
        cf: m.cf,
        ctau: m.ctau,
        ampl: m.ampl,
        is_laminar: m.is_laminar,
        is_turbulent: m.is_turbulent,
        mass_defect: m.mass_defect,
        r_theta: m.r_theta,
        ..s
    }
}

/// Copies what a march found into the stations from `offset` on. What the march found past
/// the last station is left out.
pub fn copy_march<S: Real>(
    stations: &mut Vec<BlStation<S>>,
    marched: &[BlStation<S>],
    offset: usize,
)
    requires
        offset + marched@.len() <= usize::MAX,
    ensures
        final(stations)@ == Seq::new(
            old(stations)@.len(),
            |i: int|
                if offset <= i < offset + marched@.len() {
                    with_march(old(stations)@[i], marched@[i - offset])
                } else {
                    old(stations)@[i]
                },
        ),
{
    let ghost before = stations@;
    let mut i: usize = 0;
    while i < marched.len()
        invariant
            offset + marched@.len() <= usize::MAX,
            i <= marched@.len(),
            stations@.len() == before.len(),
            forall|k: int|
                0 <= k < before.len() ==> #[trigger] stations@[k] == (if offset <= k < offset + i {
                    with_march(before[k], marched@[k - offset])
                } else {
                    before[k]
                }),
        decreases marched@.len() - i,
    {
        let target: usize = i + offset;
        if target < stations.len() {
            let m: BlStation<S> = marched[i];
            let mut s: BlStation<S> = stations[target];
            s.theta = m.theta;
            s.delta_star = m.delta_star;
            s.h = m.h;
            s.hk = m.hk;
            s.cf = m.cf;
            s.ctau = m.ctau;
            s.ampl = m.ampl;
            s.is_laminar = m.is_laminar;
            s.is_turbulent = m.is_turbulent;
            s.mass_defect = m.mass_defect;
            s.r_theta = m.r_theta;
            stations[target] = s;
        }
        i = i + 1;
    }
}

/// Copies what a march found into the stations. Where the first station lies at the
/// stagnation point, the march has passed it over.
pub fn refresh_transition_state_from_march<S: Real>(
    stations: &mut Vec<BlStation<S>>,
    march_result: &MarchResult<S>,
)
    requires
        arithmetic::<S>(),
        march_result.stations@.len() < usize::MAX,
    ensures
        ({
            let offset = if old(stations)@.len() > 0 && old(stations)@[0].x < tenths::<S>(6) {
                1int
            } else {
                0int
            };
            final(stations)@ == Seq::new(
                old(stations)@.len(),
                |i: int|
                    if offset <= i < offset + march_result.stations@.len() {
                        with_march(old(stations)@[i], march_result.stations@[i - offset])
                    } else {
                        old(stations)@[i]
                    },
            )
        }),
{
    let offset: usize = if stations.len() > 0 && stations[0].x < tiny(6) {
        1
    } else {
        0
    };
    copy_march(stations, &march_result.stations, offset);
}

/// Whether every entry of every triple is finite.
pub open spec fn all_finite<S: Real>(deltas: Seq<[S; 3]>) -> bool {
    forall|i: int|
        0 <= i < deltas.len() ==> is_finite((#[trigger] deltas[i])[0]) && is_finite(deltas[i][1])
            && is_finite(deltas[i][2])
}

/// Whether every entry of every triple is finite.
pub fn deltas_are_finite<S: Real>(deltas: &[[S; 3]]) -> (r: bool)
    requires
        arithmetic::<S>(),
    ensures
        r == all_finite(deltas@),
{
    let mut i: usize = 0;
    while i < deltas.len()
        invariant
            arithmetic::<S>(),
            i <= deltas@.len(),
            all_finite(deltas@.subrange(0, i as int)),
        decreases deltas@.len() - i,
    {
        let d: [S; 3] = deltas[i];
        if !(is_finite(d[0]) && is_finite(d[1]) && is_finite(d[2])) {
            assert(!all_finite(deltas@)) by {
                assert(deltas@[i as int] == d);
            }
            return false;
        }
        proof {
            let longer = deltas@.subrange(0, i + 1);
            assert forall|k: int| 0 <= k < longer.len() implies is_finite(
                (#[trigger] longer[k])[0],
            ) && is_finite(longer[k][1]) && is_finite(longer[k][2]) by {
                if k < i {
                    assert(longer[k] == deltas@.subrange(0, i as int)[k]);
                }
            }
        }
        i = i + 1;
    }
    assert(deltas@.subrange(0, i as int) =~= deltas@);
    true
}

/// Whether a residual has run away: it is not finite, or larger than ten to the tenth.
#[verifier::allow_in_spec]
pub fn has_diverged<S: Real>(residual: S) -> bool
    requires
        arithmetic::<S>(),
    returns
        !is_finite(residual) || residual > whole::<S>(100000) * whole::<S>(100000),
{
    !is_finite(residual) || residual > whole::<S>(100000) * whole::<S>(100000)
}

/// The arc length of the first of the stations from `i` on whose friction is negative, the
/// wake left out.
pub open spec fn separation_from<S: Real>(stations: Seq<BlStation<S>>, i: int) -> Option<S>
    decreases stations.len() - i,
{
    if i >= stations.len() {
        None
    } else if stations[i].cf < whole::<S>(0) && !stations[i].is_wake {
        Some(stations[i].x)
    } else {
        separation_from(stations, i + 1)
    }
}

/// The arc length of the first station whose friction is negative, the wake left out.
pub fn find_separation<S: Real>(stations: &[BlStation<S>]) -> (r: Option<S>)
    requires
        arithmetic::<S>(),
    ensures
        r == separation_from(stations@, 0),
{
    let mut i: usize = 0;
    while i < stations.len()
        invariant
            arithmetic::<S>(),
            i <= stations@.len(),
            separation_from(stations@, i as int) == separation_from(stations@, 0),
        decreases stations@.len() - i,
    {
        let s: BlStation<S> = stations[i];
        if s.cf < whole(0) && !s.is_wake {
            return Some(s.x);
        }
        i = i + 1;
    }
    None
}

} // verus!
