//! Settings and results of a march.
use crate::number::{
    abs, arithmetic, decimal, tenths, tiny, whole, Formula, Real,
};
use crate::station::BlStation;
use vstd::prelude::*;

verus! {

/// The outcome of a march.
pub struct MarchResult<S> {
    /// The stations, in the order of the march.
    pub stations: Vec<BlStation<S>>,
    /// Arc length of transition.
    pub x_transition: Option<S>,
    /// Arc length of separation.
    pub x_separation: Option<S>,
    pub converged: bool,
    /// Number of the station that transition was found at.
    pub transition_index: Option<usize>,
}

impl<S> MarchResult<S> {
    /// A march that has passed no station yet.
    pub fn new(capacity: usize) -> (r: Self)
        ensures
            r.stations@ == Seq::<BlStation<S>>::empty(),
            r.x_transition is None,
            r.x_separation is None,
            r.converged,
            r.transition_index is None,
    {
        MarchResult {
            stations: Vec::with_capacity(capacity),
            x_transition: None,
            x_separation: None,
            converged: true,
            transition_index: None,
        }
    }
}

/// The settings of a march.
#[derive(Clone, Copy, Debug)]
pub struct MarchConfig<S> {
    /// Critical amplification.
    pub ncrit: S,
    /// Limit on the Newton iterations of a station.
    pub max_iter: usize,
    /// Relative change at which a station has converged.
    pub tolerance: S,
    /// Shape parameter at which a laminar station turns to the inverse form.
    pub hlmax: S,
    /// Shape parameter at which a turbulent station turns to the inverse form.
    pub htmax: S,
    /// Weight of the velocity in the mixed march.
    pub senswt: S,
    /// Relative change at which a station of the mixed march has converged.
    pub deps: S,
    pub debug_trace: bool,
    /// Arc length at which transition is forced; none is the trailing edge.
    pub xiforc: Option<S>,
}

/// The settings with critical amplification `ncrit`, and all else as by default.
pub open spec fn default_with<S: Real>(ncrit: u32) -> MarchConfig<S> {
    MarchConfig {
        ncrit: whole::<S>(ncrit),
        max_iter: 25,
        tolerance: tenths::<S>(5),
        hlmax: decimal::<S>(38, 10),
        htmax: decimal::<S>(25, 10),
        senswt: whole::<S>(1000),
        deps: whole::<S>(5) / whole::<S>(1000000),
        debug_trace: false,
        xiforc: None,
    }
}

impl<S: Real> MarchConfig<S> {
    /// The default settings.
    pub fn default() -> (r: Self)
        requires
            arithmetic::<S>(),
        ensures
            r == default_with::<S>(9),
    {
        MarchConfig {
            ncrit: whole(9),
            max_iter: 25,
            tolerance: tiny(5),
            hlmax: decimal(38, 10),
            htmax: decimal(25, 10),
            senswt: whole(1000),
            deps: whole::<S>(5) / whole::<S>(1000000),
            debug_trace: false,
            xiforc: None,
        }
    }

    /// The settings for a quiet wind tunnel.
    pub fn low_turbulence() -> (r: Self)
        requires
            arithmetic::<S>(),
        ensures
            r == default_with::<S>(9),
    {
        MarchConfig { ncrit: whole(9), ..MarchConfig::default() }
    }

    /// The settings for a noisy environment.
    pub fn high_turbulence() -> (r: Self)
        requires
            arithmetic::<S>(),
        ensures
            r == default_with::<S>(3),
    {
        MarchConfig { ncrit: whole(3), ..MarchConfig::default() }
    }
}

/// Whether the chordwise position `x` lies between the stations `i - 1` and `i`.
pub open spec fn brackets<S: Real>(stations: Seq<BlStation<S>>, x: S, i: int) -> bool {
    let a = stations[i - 1].x_coord;
    let b = stations[i].x_coord;
    (a <= x && x <= b) || (b <= x && x <= a)
}

/// The arc length at the chordwise position `x` between the stations `i - 1` and `i`.
pub open spec fn interpolated<S: Real>(stations: Seq<BlStation<S>>, x: S, i: int) -> S {
    let a = stations[i - 1];
    let b = stations[i];
    let dx = b.x_coord - a.x_coord;
    if abs(dx) < tenths::<S>(15) {
        a.x
    } else {
        a.x + (x - a.x_coord) / dx * (b.x - a.x)
    }
}

/// The arc length at the chordwise position `xstrip`, on the first interval from `i` on that
/// holds it; past the last station, the arc length there.
pub open spec fn strip_arc_length<S: Real>(
    stations: Seq<BlStation<S>>,
    xstrip: S,
    te_x: S,
    i: int,
) -> S
    decreases stations.len() - i,
{
    if i >= stations.len() {
        te_x
    } else if brackets(stations, xstrip, i) {
        interpolated(stations, xstrip, i)
    } else {
        strip_arc_length(stations, xstrip, te_x, i + 1)
    }
}

/// The arc length at the chordwise position `xstrip`: at the trailing edge or beyond it, and
/// where no interval holds it, that of the last station.
pub open spec fn strip_place<S: Real>(stations: Seq<BlStation<S>>, xstrip: S) -> S {
    let te_x = if stations.len() > 0 {
        stations.last().x
    } else {
        whole::<S>(1)
    };
    if xstrip >= whole::<S>(1) - tenths::<S>(9) || stations.len() < 2 {
        te_x
    } else {
        strip_arc_length(stations, xstrip, te_x, 1)
    }
}

/// The arc length at a chordwise position, given as a fraction of the chord. A position at
/// the trailing edge or beyond it, or one that no interval holds, is the last station.
pub fn xstrip_to_xiforc<S: Real>(stations: &[BlStation<S>], xstrip: S) -> (r: S)
    requires
        arithmetic::<S>(),
    ensures
        r == strip_place(stations@, xstrip),
{
    let n: usize = stations.len();
    let te_x: S = if n > 0 {
        stations[n - 1].x
    } else {
        whole(1)
    };
    if xstrip >= whole::<S>(1) - tiny(9) || n < 2 {
        return te_x;
    }
    let mut i: usize = 1;
    while i < n
        invariant
            arithmetic::<S>(),
            n == stations@.len(),
            n >= 2,
            te_x == stations@.last().x,
            !(xstrip >= whole::<S>(1) - tenths::<S>(9)),
            1 <= i <= n,
            strip_arc_length(stations@, xstrip, te_x, i as int) == strip_arc_length(
                stations@,
                xstrip,
                te_x,
                1,
            ),
        decreases n - i,
    {
        let a: BlStation<S> = stations[i - 1];
        let b: BlStation<S> = stations[i];
        let xc1: S = a.x_coord;
        let xc2: S = b.x_coord;
        if (xc1 <= xstrip && xstrip <= xc2) || (xc2 <= xstrip && xstrip <= xc1) {
            let dx: S = xc2 - xc1;
            if abs(dx) < tiny(15) {
                return a.x;
            }
            let frac: S = (xstrip - xc1) / dx;
            return a.x + frac * (b.x - a.x);
        }
        i = i + 1;
    }
    te_x
}

} // verus!
