//! The relaxed Newton update of both surfaces.
//!
//! The step is scaled down until no variable of any station changes, in proportion to its
//! own size, by more than fits between the two limits. The scaled step is then applied to
//! every station, and the displacement thickness is kept above what the shape parameter
//! allows.
use crate::callable::{function, value};
use crate::closure::{BlClosure, BlLaws};
use crate::global_newton::influence::{
    edge_points, operating_velocities, operating_velocity, points_of, step_velocities,
    stepped_velocity, EdgePoint, MassRule,
};
use crate::global_newton::newton_state::{
    row_edge_points, row_points_of, row_velocities, CanonicalNewtonRow, CanonicalNewtonStateView,
};
use crate::global_newton::system::{zero_triple, zeros, GlobalNewtonSystem};
use crate::number::{
    abs, arithmetic, clamp, count, decimal, larger, smaller, tenths, tiny, whole, Formula, Real,
};
use crate::station::{entries, entry_or, filled, seq_or, BlStation, FlowType, Matrix};
use vstd::prelude::*;

verus! {

/// What an update did.
pub struct GlobalUpdateResult<S> {
    /// The scale of the step that was applied.
    pub relaxation_used: S,
    /// The root mean square of the normalised changes.
    pub rms_change: S,
    /// The largest normalised change.
    pub max_change: S,
    /// The edge velocities after the full step.
    pub upper_u_new: Vec<S>,
    pub lower_u_new: Vec<S>,
    /// The sensitivities of the edge velocities to the operating variable.
    pub upper_u_ac: Vec<S>,
    pub lower_u_ac: Vec<S>,
}

/// The edge velocities after the full step, and their sensitivities to the operating
/// variable.
pub struct GlobalOperatingPreview<S> {
    pub upper_u_new: Vec<S>,
    pub lower_u_new: Vec<S>,
    pub upper_u_ac: Vec<S>,
    pub lower_u_ac: Vec<S>,
}

/// What the size of a change is measured against.
#[derive(Clone, Copy, Debug)]
pub struct UpdatePoint<S> {
    pub is_laminar: bool,
    pub ctau: S,
    pub theta: S,
    pub u: S,
    /// The displacement thickness with the wake gap.
    pub dstr: S,
}

/// The displacement thickness of a station, with the wake gap where it has one.
#[verifier::allow_in_spec]
pub fn total_dstr_for_update<S: Real>(station: &BlStation<S>) -> S
    requires
        arithmetic::<S>(),
    returns
        (if station.is_wake {
            station.delta_star + station.dw
        } else {
            station.delta_star
        }),
{
    if station.is_wake {
        station.delta_star + station.dw
    } else {
        station.delta_star
    }
}

/// The displacement thickness of a row, with the wake gap where it has one.
#[verifier::allow_in_spec]
pub fn total_dstr_for_row_update<S: Real>(row: &CanonicalNewtonRow<S>) -> S
    requires
        arithmetic::<S>(),
    returns
        (if row.is_wake {
            row.dstr + row.dw
        } else {
            row.dstr
        }),
{
    if row.is_wake {
        row.dstr + row.dw
    } else {
        row.dstr
    }
}

/// What a change of a station is measured against.
pub open spec fn station_measure<S: Real>(s: BlStation<S>) -> UpdatePoint<S> {
    UpdatePoint {
        is_laminar: s.is_laminar,
        ctau: s.ctau,
        theta: s.theta,
        u: s.u,
        dstr: total_dstr_for_update(&s),
    }
}

/// What a change of a row is measured against.
pub open spec fn row_measure<S: Real>(r: CanonicalNewtonRow<S>) -> UpdatePoint<S> {
    UpdatePoint {
        is_laminar: r.is_laminar,
        ctau: r.ctau,
        theta: r.theta,
        u: r.uedg,
        dstr: total_dstr_for_row_update(&r),
    }
}

/// The step of row `iv`, corrected for the change `dac` of the operating variable.
pub open spec fn corrected_delta<S: Real>(
    deltas: Seq<[S; 3]>,
    operating: Option<Seq<[S; 3]>>,
    dac: S,
    iv: int,
) -> [S; 3] {
    if iv >= deltas.len() {
        zeros::<S>()
    } else {
        match operating {
            None => deltas[iv],
            Some(op) => {
                let o = seq_or(op, iv, zeros::<S>());
                [
                    deltas[iv][0] - dac * o[0],
                    deltas[iv][1] - dac * o[1],
                    deltas[iv][2] - dac * o[2],
                ]
            },
        }
    }
}

/// The change of the edge velocity `u` of station `i`, corrected for the change `dac` of the
/// operating variable.
pub open spec fn velocity_change<S: Real>(
    u_new: Seq<S>,
    u_ac: Seq<S>,
    dac: S,
    u: S,
    i: int,
) -> S {
    seq_or(u_new, i, u) + dac * seq_or(u_ac, i, whole::<S>(0)) - u
}

/// The four changes of a station in proportion to its variables.
pub open spec fn normalised<S: Real>(p: UpdatePoint<S>, delta: [S; 3], due: S) -> [S; 4] {
    let small = tenths::<S>(12);
    [
        if p.is_laminar {
            delta[0] / whole::<S>(10)
        } else if abs(p.ctau) > tenths::<S>(10) {
            delta[0] / p.ctau
        } else {
            delta[0] / decimal::<S>(3, 100)
        },
        if abs(p.theta) > small {
            delta[1] / p.theta
        } else {
            whole::<S>(0)
        },
        if abs(p.dstr) > small {
            (delta[2] - p.dstr * due) / larger(p.u, small) / p.dstr
        } else {
            whole::<S>(0)
        },
        abs(due) / decimal::<S>(1, 4),
    ]
}

/// The upper limit of a scaled change.
pub open spec fn upper_limit<S: Real>() -> S {
    decimal::<S>(3, 2)
}

/// The lower limit of a scaled change.
pub open spec fn lower_limit<S: Real>() -> S {
    -decimal::<S>(1, 2)
}

/// The scale `rlx`, reset so that the change `dn` just meets the limit that it passes.
pub open spec fn limited<S: Real>(rlx: S, dn: S, two_sided: bool) -> S {
    let scaled = rlx * dn;
    if two_sided && scaled < lower_limit::<S>() {
        lower_limit::<S>() / dn
    } else if scaled > upper_limit::<S>() {
        upper_limit::<S>() / dn
    } else {
        rlx
    }
}

/// What the scan over the stations has gathered.
pub struct Scan<S> {
    /// The scale of the step.
    pub rlx: S,
    /// The sum of the squared normalised changes.
    pub squares: S,
    /// The largest normalised change.
    pub largest: S,
    /// The number of stations.
    pub stations: nat,
}

impl<S: Real> Scan<S> {
    /// The scan after one more station, with the changes `dn`.
    pub open spec fn with(self, dn: [S; 4]) -> Scan<S> {
        let r1 = limited(self.rlx, dn[0], true);
        let r2 = limited(r1, dn[1], true);
        let r3 = limited(r2, dn[2], true);
        let r4 = limited(r3, dn[3], false);
        let l1 = larger(self.largest, abs(dn[0]));
        let l2 = larger(l1, abs(dn[1]));
        let l3 = larger(l2, abs(dn[2]));
        Scan {
            rlx: r4,
            squares: self.squares + (dn[0] * dn[0] + dn[1] * dn[1] + dn[2] * dn[2] + dn[3] * dn[3]),
            largest: larger(l3, abs(dn[3])),
            stations: self.stations + 1,
        }
    }
}

/// The step as it reaches the stations: the solution columns, and the change of the
/// operating variable.
pub struct Step<S> {
    pub deltas: Seq<[S; 3]>,
    pub operating: Option<Seq<[S; 3]>>,
    pub dac: S,
}

/// The step in its columns.
struct StepColumns<'a, S> {
    deltas: &'a [[S; 3]],
    operating: Option<&'a [[S; 3]]>,
    dac: S,
}

impl<'a, S: Real> StepColumns<'a, S> {
    spec fn step(&self) -> Step<S> {
        Step { deltas: self.deltas@, operating: entries(self.operating), dac: self.dac }
    }

    /// The step of row `iv`.
    fn delta_at(&self, iv: usize) -> (r: [S; 3])
        requires
            arithmetic::<S>(),
        ensures
            r == self.step().delta(iv as int),
    {
        if iv >= self.deltas.len() {
            zero_triple()
        } else {
            match self.operating {
                None => self.deltas[iv],
                Some(op) => {
                    let o: [S; 3] = entry_or(op, iv, zero_triple());
                    let d: [S; 3] = self.deltas[iv];
                    [d[0] - self.dac * o[0], d[1] - self.dac * o[1], d[2] - self.dac * o[2]]
                },
            }
        }
    }

    /// The change of the edge velocity `u` of station `i`.
    fn velocity_change_at(&self, u_new: &[S], u_ac: &[S], u: S, i: usize) -> (r: S)
        requires
            arithmetic::<S>(),
        ensures
            r == velocity_change(u_new@, u_ac@, self.dac, u, i as int),
    {
        entry_or(u_new, i, u) + self.dac * entry_or(u_ac, i, whole(0)) - u
    }
}

impl<S: Real> Step<S> {
    /// The step of row `iv`.
    pub open spec fn delta(&self, iv: int) -> [S; 3] {
        corrected_delta(self.deltas, self.operating, self.dac, iv)
    }

    /// `from`, continued over the stations of a surface behind the stagnation point and
    /// before `n`. A station without a row in the step is left out.
    pub open spec fn scanned(
        &self,
        system: &GlobalNewtonSystem<S>,
        surface: int,
        points: Seq<UpdatePoint<S>>,
        u_new: Seq<S>,
        u_ac: Seq<S>,
        from: Scan<S>,
        n: int,
    ) -> Scan<S>
        decreases n,
    {
        if n <= 1 {
            from
        } else {
            let before = self.scanned(system, surface, points, u_new, u_ac, from, n - 1);
            let i = n - 1;
            let iv = system.row_of(surface, i);
            if iv >= self.deltas.len() {
                before
            } else {
                let due = velocity_change(u_new, u_ac, self.dac, points[i].u, i);
                before.with(normalised(points[i], self.delta(iv), due))
            }
        }
    }

    /// The scan over both surfaces, that starts with the scale `relaxation`.
    pub open spec fn scanned_both(
        &self,
        system: &GlobalNewtonSystem<S>,
        upper: Seq<UpdatePoint<S>>,
        lower: Seq<UpdatePoint<S>>,
        v: GlobalOperatingPreview<S>,
        relaxation: S,
    ) -> Scan<S> {
        let start = Scan {
            rlx: clamp(relaxation, whole::<S>(0), whole::<S>(1)),
            squares: whole::<S>(0),
            largest: whole::<S>(0),
            stations: 0,
        };
        let mid = self.scanned(
            system,
            0,
            upper,
            v.upper_u_new@,
            v.upper_u_ac@,
            start,
            upper.len() as int,
        );
        self.scanned(system, 1, lower, v.lower_u_new@, v.lower_u_ac@, mid, lower.len() as int)
    }
}

/// The scale of the step after a scan.
pub open spec fn final_relaxation<S: Real>(scan: Scan<S>) -> S {
    smaller(larger(scan.rlx, whole::<S>(0)), whole::<S>(1))
}

/// The running values of a scan.
struct Progress<S> {
    rlx: S,
    squares: S,
    largest: S,
    stations: usize,
}

impl<S: Real> Progress<S> {
    spec fn scan(&self) -> Scan<S> {
        Scan {
            rlx: self.rlx,
            squares: self.squares,
            largest: self.largest,
            stations: self.stations as nat,
        }
    }

    /// A scan that has seen no station.
    fn start(relaxation: S) -> (r: Self)
        requires
            arithmetic::<S>(),
        ensures
            r.scan() == (Scan {
                rlx: clamp(relaxation, whole::<S>(0), whole::<S>(1)),
                squares: whole::<S>(0),
                largest: whole::<S>(0),
                stations: 0,
            }),
    {
        Progress {
            rlx: clamp(relaxation, whole(0), whole(1)),
            squares: whole(0),
            largest: whole(0),
            stations: 0,
        }
    }

    /// Takes one more station into the scan.
    fn add_station(&mut self, dn: [S; 4])
        requires
            arithmetic::<S>(),
            old(self).stations < usize::MAX,
        ensures
            final(self).scan() == old(self).scan().with(dn),
    {
        self.squares = self.squares + (dn[0] * dn[0] + dn[1] * dn[1] + dn[2] * dn[2] + dn[3]
            * dn[3]);
        self.largest = larger(self.largest, abs(dn[0]));
        self.largest = larger(self.largest, abs(dn[1]));
        self.largest = larger(self.largest, abs(dn[2]));
        self.largest = larger(self.largest, abs(dn[3]));
        self.stations = self.stations + 1;
        self.rlx = limit(self.rlx, dn[0], true);
        self.rlx = limit(self.rlx, dn[1], true);
        self.rlx = limit(self.rlx, dn[2], true);
        self.rlx = limit(self.rlx, dn[3], false);
    }

    /// Takes the stations of a surface into the scan.
    fn add_surface(
        &mut self,
        step: &StepColumns<S>,
        system: &GlobalNewtonSystem<S>,
        surface: usize,
        points: &[UpdatePoint<S>],
        u_new: &[S],
        u_ac: &[S],
    )
        requires
            arithmetic::<S>(),
            surface == 0 || 1 <= system.n_upper,
            surface == 0 || system.n_upper - 1 + points@.len() <= usize::MAX,
            old(self).stations + points@.len() <= usize::MAX,
        ensures
            final(self).scan() == step.step().scanned(
                system,
                surface as int,
                points@,
                u_new@,
                u_ac@,
                old(self).scan(),
                points@.len() as int,
            ),
            final(self).stations <= old(self).stations + points@.len(),
    {
        let ghost from = self.scan();
        let ghost seen = self.stations;
        let mut i: usize = 1;
        while i < points.len()
            invariant
                arithmetic::<S>(),
                surface == 0 || 1 <= system.n_upper,
                surface == 0 || system.n_upper - 1 + points@.len() <= usize::MAX,
                seen + points@.len() <= usize::MAX,
                1 <= i,
                i <= points@.len() || i == 1,
                self.stations <= seen + i - 1,
                self.scan() == step.step().scanned(
                    system,
                    surface as int,
                    points@,
                    u_new@,
                    u_ac@,
                    from,
                    i as int,
                ),
            decreases points@.len() - i,
        {
            let iv: usize = system.to_global(surface, i);
            if iv < step.deltas.len() {
                let p: UpdatePoint<S> = points[i];
                let delta: [S; 3] = step.delta_at(iv);
                let due: S = step.velocity_change_at(u_new, u_ac, p.u, i);
                self.add_station(normalise(p, delta, due));
            }
            i = i + 1;
        }
    }
}

/// The four changes of a station in proportion to its variables.
fn normalise<S: Real>(p: UpdatePoint<S>, delta: [S; 3], due: S) -> (r: [S; 4])
    requires
        arithmetic::<S>(),
    ensures
        r == normalised(p, delta, due),
{
    let small: S = tiny(12);
    let zero: S = whole(0);
    let first: S = if p.is_laminar {
        delta[0] / whole(10)
    } else if abs(p.ctau) > tiny(10) {
        delta[0] / p.ctau
    } else {
        delta[0] / decimal(3, 100)
    };
    let second: S = if abs(p.theta) > small {
        delta[1] / p.theta
    } else {
        zero
    };
    let third: S = if abs(p.dstr) > small {
        (delta[2] - p.dstr * due) / larger(p.u, small) / p.dstr
    } else {
        zero
    };
    [first, second, third, abs(due) / decimal(1, 4)]
}

/// The scale `rlx`, reset so that the change `dn` just meets the limit that it passes.
fn limit<S: Real>(rlx: S, dn: S, two_sided: bool) -> (r: S)
    requires
        arithmetic::<S>(),
    ensures
        r == limited(rlx, dn, two_sided),
{
    let scaled: S = rlx * dn;
    let low: S = decimal::<S>(1, 2).neg();
    let high: S = decimal(3, 2);
    if two_sided && scaled < low {
        low / dn
    } else if scaled > high {
        high / dn
    } else {
        rlx
    }
}

/// What changes of the stations are measured against.
fn station_measures<S: Real>(stations: &[BlStation<S>]) -> (r: Vec<UpdatePoint<S>>)
    requires
        arithmetic::<S>(),
    ensures
        r@ == stations@.map_values(|s: BlStation<S>| station_measure(s)),
{
    let mut r: Vec<UpdatePoint<S>> = Vec::with_capacity(stations.len());
    let mut i: usize = 0;
    while i < stations.len()
        invariant
            arithmetic::<S>(),
            i <= stations@.len(),
            r@.len() == i,
            forall|k: int| 0 <= k < i ==> #[trigger] r@[k] == station_measure(stations@[k]),
        decreases stations@.len() - i,
    {
        let s: BlStation<S> = stations[i];
        r.push(
            UpdatePoint {
                is_laminar: s.is_laminar,
                ctau: s.ctau,
                theta: s.theta,
                u: s.u,
                dstr: total_dstr_for_update(&s),
            },
        );
        i = i + 1;
    }
    r
}

/// What changes of the rows are measured against.
fn row_measures<S: Real>(rows: &[CanonicalNewtonRow<S>]) -> (r: Vec<UpdatePoint<S>>)
    requires
        arithmetic::<S>(),
    ensures
        r@ == rows@.map_values(|s: CanonicalNewtonRow<S>| row_measure(s)),
{
    let mut r: Vec<UpdatePoint<S>> = Vec::with_capacity(rows.len());
    let mut i: usize = 0;
    while i < rows.len()
        invariant
            arithmetic::<S>(),
            i <= rows@.len(),
            r@.len() == i,
            forall|k: int| 0 <= k < i ==> #[trigger] r@[k] == row_measure(rows@[k]),
        decreases rows@.len() - i,
    {
        let s: CanonicalNewtonRow<S> = rows[i];
        r.push(
            UpdatePoint {
                is_laminar: s.is_laminar,
                ctau: s.ctau,
                theta: s.theta,
                u: s.uedg,
                dstr: total_dstr_for_row_update(&s),
            },
        );
        i = i + 1;
    }
    r
}

/// The edge velocities of the stations.
pub open spec fn velocities_of<S: Real>(stations: Seq<BlStation<S>>) -> Seq<S> {
    stations.map_values(|s: BlStation<S>| s.u)
}

/// The edge velocities of the stations.
pub fn station_velocities<S: Real>(stations: &[BlStation<S>]) -> (r: Vec<S>)
    ensures
        r@ == velocities_of(stations@),
{
    let mut r: Vec<S> = Vec::with_capacity(stations.len());
    let mut i: usize = 0;
    while i < stations.len()
        invariant
            i <= stations@.len(),
            r@.len() == i,
            forall|k: int| 0 <= k < i ==> #[trigger] r@[k] == stations@[k].u,
        decreases stations@.len() - i,
    {
        r.push(stations[i].u);
        i = i + 1;
    }
    r
}

/// The velocities of a surface after the step: those that the influence matrix gives where
/// it and both inviscid distributions are there, else the present ones.
pub open spec fn previewed_new<S: Real>(
    upper: Seq<BlStation<S>>,
    lower: Seq<BlStation<S>>,
    deltas: Seq<[S; 3]>,
    system: &GlobalNewtonSystem<S>,
    dij: Option<&Matrix<S>>,
    upper_ue_inv: Option<Seq<S>>,
    lower_ue_inv: Option<Seq<S>>,
    surface: usize,
) -> Seq<S> {
    let stations = if surface == 0 {
        upper
    } else {
        lower
    };
    match (dij, upper_ue_inv, lower_ue_inv) {
        (Some(d), Some(iu), Some(il)) => Seq::new(
            stations.len(),
            |i: int|
                stepped_velocity(
                    points_of(upper),
                    points_of(lower),
                    deltas,
                    system,
                    d,
                    surface,
                    (if surface == 0 {
                        iu
                    } else {
                        il
                    }),
                    i,
                ),
        ),
        _ => velocities_of(stations),
    }
}

/// The sensitivities of the velocities of a surface to the operating variable: those that
/// the influence matrix gives where it, the operating column and both direct sensitivities
/// are there, else zero.
pub open spec fn previewed_operating<S: Real>(
    upper: Seq<BlStation<S>>,
    lower: Seq<BlStation<S>>,
    operating_deltas: Option<Seq<[S; 3]>>,
    system: &GlobalNewtonSystem<S>,
    dij: Option<&Matrix<S>>,
    upper_ue_operating: Option<Seq<S>>,
    lower_ue_operating: Option<Seq<S>>,
    surface: usize,
) -> Seq<S> {
    let stations = if surface == 0 {
        upper
    } else {
        lower
    };
    match (dij, operating_deltas, upper_ue_operating, lower_ue_operating) {
        (Some(d), Some(op), Some(ou), Some(ol)) => Seq::new(
            stations.len(),
            |i: int|
                operating_velocity(
                    MassRule::Reversed,
                    points_of(upper),
                    points_of(lower),
                    op,
                    system,
                    d,
                    surface,
                    (if surface == 0 {
                        ou
                    } else {
                        ol
                    }),
                    i,
                ),
        ),
        _ => Seq::new(stations.len(), |i: int| whole::<S>(0)),
    }
}

/// The edge velocities after the full step, and their sensitivities to the operating
/// variable, for stations.
pub fn preview_global_update_ue<S: Real>(
    upper_stations: &[BlStation<S>],
    lower_stations: &[BlStation<S>],
    deltas: &[[S; 3]],
    operating_deltas: Option<&[[S; 3]]>,
    system: &GlobalNewtonSystem<S>,
    dij: Option<&Matrix<S>>,
    upper_ue_inv: Option<&[S]>,
    lower_ue_inv: Option<&[S]>,
    upper_ue_operating: Option<&[S]>,
    lower_ue_operating: Option<&[S]>,
) -> (r: GlobalOperatingPreview<S>)
    requires
        arithmetic::<S>(),
        dij matches Some(d) ==> d.wf(),
        1 <= system.n_upper,
        system.n_upper - 1 + lower_stations@.len() <= usize::MAX,
    ensures
        r.upper_u_new@ == previewed_new(
            upper_stations@,
            lower_stations@,
            deltas@,
            system,
            dij,
            entries(upper_ue_inv),
            entries(lower_ue_inv),
            0,
        ),
        r.lower_u_new@ == previewed_new(
            upper_stations@,
            lower_stations@,
            deltas@,
            system,
            dij,
            entries(upper_ue_inv),
            entries(lower_ue_inv),
            1,
        ),
        r.upper_u_ac@ == previewed_operating(
            upper_stations@,
            lower_stations@,
            entries(operating_deltas),
            system,
            dij,
            entries(upper_ue_operating),
            entries(lower_ue_operating),
            0,
        ),
        r.lower_u_ac@ == previewed_operating(
            upper_stations@,
            lower_stations@,
            entries(operating_deltas),
            system,
            dij,
            entries(upper_ue_operating),
            entries(lower_ue_operating),
            1,
        ),
{
    let upper: Vec<EdgePoint<S>> = edge_points(upper_stations);
    let lower: Vec<EdgePoint<S>> = edge_points(lower_stations);
    let (upper_u_new, lower_u_new): (Vec<S>, Vec<S>) = match (dij, upper_ue_inv, lower_ue_inv) {
        (Some(d), Some(iu), Some(il)) => (
            step_velocities(&upper, &lower, deltas, system, d, 0, iu),
            step_velocities(&upper, &lower, deltas, system, d, 1, il),
        ),
        _ => (station_velocities(upper_stations), station_velocities(lower_stations)),
    };
    let (upper_u_ac, lower_u_ac): (Vec<S>, Vec<S>) = match (
        dij,
        operating_deltas,
        upper_ue_operating,
        lower_ue_operating,
    ) {
        (Some(d), Some(op), Some(ou), Some(ol)) => (
            operating_velocities(MassRule::Reversed, &upper, &lower, op, system, d, 0, ou),
            operating_velocities(MassRule::Reversed, &upper, &lower, op, system, d, 1, ol),
        ),
        _ => (
            filled(whole(0), upper_stations.len()),
            filled(whole(0), lower_stations.len()),
        ),
    };
    GlobalOperatingPreview { upper_u_new, lower_u_new, upper_u_ac, lower_u_ac }
}

impl<S: Real> CanonicalNewtonStateView<S> {
    /// The velocities of a surface after the step.
    pub open spec fn previewed_new(
        &self,
        deltas: Seq<[S; 3]>,
        system: &GlobalNewtonSystem<S>,
        dij: &Matrix<S>,
        surface: usize,
    ) -> Seq<S> {
        Seq::new(
            (if surface == 0 {
                self.upper_rows@.len()
            } else {
                self.lower_rows@.len()
            }),
            |i: int|
                stepped_velocity(
                    row_points_of(self.upper_rows@),
                    row_points_of(self.lower_rows@),
                    deltas,
                    system,
                    dij,
                    surface,
                    (if surface == 0 {
                        self.upper_ue_inviscid@
                    } else {
                        self.lower_ue_inviscid@
                    }),
                    i,
                ),
        )
    }

    /// The sensitivities of the velocities of a surface to the operating variable: zero
    /// without an operating column.
    pub open spec fn previewed_operating(
        &self,
        operating_deltas: Option<Seq<[S; 3]>>,
        system: &GlobalNewtonSystem<S>,
        dij: &Matrix<S>,
        surface: usize,
    ) -> Seq<S> {
        let n = if surface == 0 {
            self.upper_rows@.len()
        } else {
            self.lower_rows@.len()
        };
        match operating_deltas {
            Some(op) => Seq::new(
                n,
                |i: int|
                    operating_velocity(
                        MassRule::Change,
                        row_points_of(self.upper_rows@),
                        row_points_of(self.lower_rows@),
                        op,
                        system,
                        dij,
                        surface,
                        (if surface == 0 {
                            self.upper_ue_operating@
                        } else {
                            self.lower_ue_operating@
                        }),
                        i,
                    ),
            ),
            None => Seq::new(n, |i: int| whole::<S>(0)),
        }
    }

    /// This is the preview of the step.
    pub open spec fn preview_is(
        &self,
        deltas: Seq<[S; 3]>,
        operating_deltas: Option<Seq<[S; 3]>>,
        system: &GlobalNewtonSystem<S>,
        dij: &Matrix<S>,
        v: GlobalOperatingPreview<S>,
    ) -> bool {
        &&& v.upper_u_new@ == self.previewed_new(deltas, system, dij, 0)
        &&& v.lower_u_new@ == self.previewed_new(deltas, system, dij, 1)
        &&& v.upper_u_ac@ == self.previewed_operating(operating_deltas, system, dij, 0)
        &&& v.lower_u_ac@ == self.previewed_operating(operating_deltas, system, dij, 1)
    }
}

/// The edge velocities after the full step, and their sensitivities to the operating
/// variable, for rows.
pub fn preview_global_update_ue_from_view<S: Real>(
    state: &CanonicalNewtonStateView<S>,
    deltas: &[[S; 3]],
    operating_deltas: Option<&[[S; 3]]>,
    system: &GlobalNewtonSystem<S>,
    dij: &Matrix<S>,
) -> (r: GlobalOperatingPreview<S>)
    requires
        arithmetic::<S>(),
        dij.wf(),
        1 <= system.n_upper,
        system.n_upper - 1 + state.lower_rows@.len() <= usize::MAX,
    ensures
        state.preview_is(deltas@, entries(operating_deltas), system, dij, r),
{
    let upper: Vec<EdgePoint<S>> = row_edge_points(&state.upper_rows);
    let lower: Vec<EdgePoint<S>> = row_edge_points(&state.lower_rows);
    let upper_u_new: Vec<S> = step_velocities(
        &upper,
        &lower,
        deltas,
        system,
        dij,
        0,
        &state.upper_ue_inviscid,
    );
    let lower_u_new: Vec<S> = step_velocities(
        &upper,
        &lower,
        deltas,
        system,
        dij,
        1,
        &state.lower_ue_inviscid,
    );
    let (upper_u_ac, lower_u_ac): (Vec<S>, Vec<S>) = match operating_deltas {
        Some(op) => (
            operating_velocities(
                MassRule::Change,
                &upper,
                &lower,
                op,
                system,
                dij,
                0,
                &state.upper_ue_operating,
            ),
            operating_velocities(
                MassRule::Change,
                &upper,
                &lower,
                op,
                system,
                dij,
                1,
                &state.lower_ue_operating,
            ),
        ),
        None => (
            filled(whole(0), state.upper_rows.len()),
            filled(whole(0), state.lower_rows.len()),
        ),
    };
    GlobalOperatingPreview { upper_u_new, lower_u_new, upper_u_ac, lower_u_ac }
}

/// The displacement thickness that the limit on the kinematic shape parameter leaves of
/// `dsw`, where `hkin` gives that parameter, and its derivative, from the shape parameter
/// and the squared Mach number.
pub open spec fn limited_dstr<S: Real>(
    is_wake: bool,
    theta: S,
    dsw: S,
    msq: S,
    hkin: spec_fn(S, S) -> (S, S),
) -> S {
    let hklim = if is_wake {
        decimal::<S>(100005, 100000)
    } else {
        decimal::<S>(102, 100)
    };
    let thickness = larger(theta, tenths::<S>(12));
    let (hk, hk_h) = hkin(dsw / thickness, msq);
    if abs(hk_h) > tenths::<S>(12) {
        dsw + larger(hklim - hk, whole::<S>(0)) / hk_h * thickness
    } else {
        dsw
    }
}

/// Raises the displacement thickness of a station to what the limit on the kinematic shape
/// parameter allows.
pub fn apply_dslim_like_xfoil<S: Real, P: BlClosure<S>>(
    station: &mut BlStation<S>,
    msq: S,
    closure: &P,
)
    requires
        arithmetic::<S>(),
        closure.lawful(),
    ensures
        *final(station) == (BlStation {
            delta_star: limited_dstr(
                old(station).is_wake,
                old(station).theta,
                old(station).delta_star,
                msq,
                closure.laws().hkin,
            ),
            ..*old(station)
        }),
{
    let hklim: S = if station.is_wake {
        decimal(100005, 100000)
    } else {
        decimal(102, 100)
    };
    let theta: S = larger(station.theta, tiny(12));
    let dsw: S = station.delta_star;
    let (hk, hk_h): (S, S) = closure.hkin(dsw / theta, msq);
    if abs(hk_h) > tiny(12) {
        let dh: S = larger(hklim - hk, whole(0)) / hk_h;
        station.delta_star = dsw + dh * theta;
    }
}

/// The variables of a station after its scaled step, before the limit on the shape
/// parameter.
pub open spec fn stepped_station<S: Real>(
    s: BlStation<S>,
    delta: [S; 3],
    due: S,
    rlx: S,
) -> BlStation<S> {
    let total = total_dstr_for_update(&s);
    let after = total + rlx * ((delta[2] - total * due) / s.u);
    BlStation {
        ampl: (if s.is_laminar {
            s.ampl + rlx * delta[0]
        } else {
            s.ampl
        }),
        ctau: (if s.is_laminar {
            s.ctau
        } else {
            smaller(s.ctau + rlx * delta[0], decimal::<S>(1, 4))
        }),
        theta: s.theta + rlx * delta[1],
        u: s.u + rlx * due,
        delta_star: (if s.is_wake {
            after - s.dw
        } else {
            after
        }),
        ..s
    }
}

/// A station after its scaled step.
pub open spec fn updated_station<S: Real>(
    s: BlStation<S>,
    delta: [S; 3],
    due: S,
    rlx: S,
    msq: S,
    hkin: spec_fn(S, S) -> (S, S),
) -> BlStation<S> {
    let t = stepped_station(s, delta, due, rlx);
    let delta_star = limited_dstr(t.is_wake, t.theta, t.delta_star - t.dw, msq, hkin) + t.dw;
    let moved = BlStation { delta_star, ..t };
    BlStation {
        h: (if abs(t.theta) > tenths::<S>(20) {
            delta_star / t.theta
        } else {
            whole::<S>(2)
        }),
        mass_defect: t.u * total_dstr_for_update(&moved),
        ..moved
    }
}

/// A station after its scaled step.
fn update_station<S: Real, P: BlClosure<S>>(
    s: BlStation<S>,
    delta: [S; 3],
    due: S,
    rlx: S,
    msq: S,
    closure: &P,
) -> (r: BlStation<S>)
    requires
        arithmetic::<S>(),
        closure.lawful(),
    ensures
        r == updated_station(s, delta, due, rlx, msq, closure.laws().hkin),
{
    let mut t: BlStation<S> = s;
    if t.is_laminar {
        t.ampl = t.ampl + rlx * delta[0];
    } else {
        t.ctau = smaller(t.ctau + rlx * delta[0], decimal(1, 4));
    }
    t.theta = t.theta + rlx * delta[1];
    let total: S = total_dstr_for_update(&t);
    let d_dstar: S = (delta[2] - total * due) / t.u;
    t.u = t.u + rlx * due;
    let after: S = total + rlx * d_dstar;
    t.delta_star = if t.is_wake {
        after - t.dw
    } else {
        after
    };
    t.delta_star = t.delta_star - t.dw;
    apply_dslim_like_xfoil(&mut t, msq, closure);
    t.delta_star = t.delta_star + t.dw;
    t.h = if abs(t.theta) > tiny(20) {
        t.delta_star / t.theta
    } else {
        whole(2)
    };
    t.mass_defect = t.u * total_dstr_for_update(&t);
    t
}

impl<S: Real> Step<S> {
    /// Station `i` of a surface after the scaled step. The stagnation point, and a station
    /// without a row in the step, stay as they are.
    pub open spec fn moved(
        &self,
        system: &GlobalNewtonSystem<S>,
        surface: int,
        stations: Seq<BlStation<S>>,
        u_new: Seq<S>,
        u_ac: Seq<S>,
        rlx: S,
        msq: S,
        hkin: spec_fn(S, S) -> (S, S),
        i: int,
    ) -> BlStation<S> {
        let iv = system.row_of(surface, i);
        if i == 0 || iv >= self.deltas.len() {
            stations[i]
        } else {
            updated_station(
                stations[i],
                self.delta(iv),
                velocity_change(u_new, u_ac, self.dac, stations[i].u, i),
                rlx,
                msq,
                hkin,
            )
        }
    }
}

impl<'a, S: Real> StepColumns<'a, S> {
    /// Applies the scaled step to the stations of a surface.
    fn move_surface<P: BlClosure<S>>(
        &self,
        system: &GlobalNewtonSystem<S>,
        surface: usize,
        stations: &mut Vec<BlStation<S>>,
        u_new: &[S],
        u_ac: &[S],
        rlx: S,
        msq: S,
        closure: &P,
    )
        requires
            arithmetic::<S>(),
            closure.lawful(),
            surface == 0 || 1 <= system.n_upper,
            surface == 0 || system.n_upper - 1 + old(stations)@.len() <= usize::MAX,
        ensures
            final(stations)@ == Seq::new(
                old(stations)@.len(),
                |i: int|
                    self.step().moved(
                        system,
                        surface as int,
                        old(stations)@,
                        u_new@,
                        u_ac@,
                        rlx,
                        msq,
                        closure.laws().hkin,
                        i,
                    ),
            ),
    {
        let ghost before = stations@;
        let mut i: usize = 1;
        while i < stations.len()
            invariant
                arithmetic::<S>(),
                closure.lawful(),
                surface == 0 || 1 <= system.n_upper,
                surface == 0 || system.n_upper - 1 + before.len() <= usize::MAX,
                1 <= i,
                i <= before.len() || i == 1,
                stations@.len() == before.len(),
                forall|k: int|
                    0 <= k < before.len() ==> #[trigger] stations@[k] == (if k < i {
                        self.step().moved(
                            system,
                            surface as int,
                            before,
                            u_new@,
                            u_ac@,
                            rlx,
                            msq,
                            closure.laws().hkin,
                            k,
                        )
                    } else {
                        before[k]
                    }),
            decreases before.len() - i,
        {
            let iv: usize = system.to_global(surface, i);
            if iv < self.deltas.len() {
                let s: BlStation<S> = stations[i];
                let delta: [S; 3] = self.delta_at(iv);
                let due: S = self.velocity_change_at(u_new, u_ac, s.u, i);
                let moved: BlStation<S> = update_station(s, delta, due, rlx, msq, closure);
                stations[i] = moved;
            }
            i = i + 1;
        }
    }
}

/// The root mean square of the changes of a scan: zero where it has seen no station.
pub open spec fn rms_of<S: Real>(scan: Scan<S>, sqrt: spec_fn(S) -> S) -> S {
    if scan.stations > 0 {
        sqrt(scan.squares / (whole::<S>(4) * count::<S>(scan.stations as usize)))
    } else {
        whole::<S>(0)
    }
}

/// What changes of the stations are measured against.
pub open spec fn measures_of<S: Real>(stations: Seq<BlStation<S>>) -> Seq<UpdatePoint<S>> {
    stations.map_values(|s: BlStation<S>| station_measure(s))
}

/// Applies the Newton step to the stations of both surfaces, scaled so that no change
/// passes its limits.
pub fn apply_global_updates<S: Real, P: BlClosure<S>>(
    upper_stations: &mut Vec<BlStation<S>>,
    lower_stations: &mut Vec<BlStation<S>>,
    deltas: &[[S; 3]],
    operating_deltas: Option<&[[S; 3]]>,
    system: &GlobalNewtonSystem<S>,
    relaxation: S,
    dij: Option<&Matrix<S>>,
    upper_ue_inv: Option<&[S]>,
    lower_ue_inv: Option<&[S]>,
    upper_ue_operating: Option<&[S]>,
    lower_ue_operating: Option<&[S]>,
    dac: S,
    msq: S,
    closure: &P,
) -> (r: GlobalUpdateResult<S>)
    requires
        arithmetic::<S>(),
        closure.lawful(),
        dij matches Some(d) ==> d.wf(),
        1 <= system.n_upper,
        system.n_upper - 1 + old(lower_stations)@.len() <= usize::MAX,
        old(upper_stations)@.len() + old(lower_stations)@.len() <= usize::MAX,
    ensures
        r.upper_u_new@ == previewed_new(
            old(upper_stations)@,
            old(lower_stations)@,
            deltas@,
            system,
            dij,
            entries(upper_ue_inv),
            entries(lower_ue_inv),
            0,
        ),
        r.lower_u_new@ == previewed_new(
            old(upper_stations)@,
            old(lower_stations)@,
            deltas@,
            system,
            dij,
            entries(upper_ue_inv),
            entries(lower_ue_inv),
            1,
        ),
        r.upper_u_ac@ == previewed_operating(
            old(upper_stations)@,
            old(lower_stations)@,
            entries(operating_deltas),
            system,
            dij,
            entries(upper_ue_operating),
            entries(lower_ue_operating),
            0,
        ),
        r.lower_u_ac@ == previewed_operating(
            old(upper_stations)@,
            old(lower_stations)@,
            entries(operating_deltas),
            system,
            dij,
            entries(upper_ue_operating),
            entries(lower_ue_operating),
            1,
        ),
        ({
            let step = Step { deltas: deltas@, operating: entries(operating_deltas), dac };
            let scan = step.scanned_both(
                system,
                measures_of(old(upper_stations)@),
                measures_of(old(lower_stations)@),
                (GlobalOperatingPreview {
                    upper_u_new: r.upper_u_new,
                    lower_u_new: r.lower_u_new,
                    upper_u_ac: r.upper_u_ac,
                    lower_u_ac: r.lower_u_ac,
                }),
                relaxation,
            );
            let rlx = final_relaxation(scan);
            &&& r.relaxation_used == rlx
            &&& r.max_change == scan.largest
            &&& r.rms_change == rms_of(scan, closure.laws().sqrt)
            &&& final(upper_stations)@ == Seq::new(
                old(upper_stations)@.len(),
                |i: int|
                    step.moved(
                        system,
                        0,
                        old(upper_stations)@,
                        r.upper_u_new@,
                        r.upper_u_ac@,
                        rlx,
                        msq,
                        closure.laws().hkin,
                        i,
                    ),
            )
            &&& final(lower_stations)@ == Seq::new(
                old(lower_stations)@.len(),
                |i: int|
                    step.moved(
                        system,
                        1,
                        old(lower_stations)@,
                        r.lower_u_new@,
                        r.lower_u_ac@,
                        rlx,
                        msq,
                        closure.laws().hkin,
                        i,
                    ),
            )
        }),
{
    let preview: GlobalOperatingPreview<S> = preview_global_update_ue(
        upper_stations,
        lower_stations,
        deltas,
        operating_deltas,
        system,
        dij,
        upper_ue_inv,
        lower_ue_inv,
        upper_ue_operating,
        lower_ue_operating,
    );
    let step = StepColumns { deltas, operating: operating_deltas, dac };
    let upper: Vec<UpdatePoint<S>> = station_measures(upper_stations);
    let lower: Vec<UpdatePoint<S>> = station_measures(lower_stations);
    let mut progress: Progress<S> = Progress::start(relaxation);
    progress.add_surface(&step, system, 0, &upper, &preview.upper_u_new, &preview.upper_u_ac);
    progress.add_surface(&step, system, 1, &lower, &preview.lower_u_new, &preview.lower_u_ac);
    let rlx: S = smaller(larger(progress.rlx, whole(0)), whole(1));
    step.move_surface(
        system,
        0,
        upper_stations,
        &preview.upper_u_new,
        &preview.upper_u_ac,
        rlx,
        msq,
        closure,
    );
    step.move_surface(
        system,
        1,
        lower_stations,
        &preview.lower_u_new,
        &preview.lower_u_ac,
        rlx,
        msq,
        closure,
    );
    let rms_change: S = if progress.stations > 0 {
        closure.sqrt(progress.squares / (whole::<S>(4) * count::<S>(progress.stations)))
    } else {
        whole(0)
    };
    GlobalUpdateResult {
        relaxation_used: rlx,
        rms_change,
        max_change: progress.largest,
        upper_u_new: preview.upper_u_new,
        lower_u_new: preview.lower_u_new,
        upper_u_ac: preview.upper_u_ac,
        lower_u_ac: preview.lower_u_ac,
    }
}

/// How a row and a station stand for each other.
pub struct RowForms<A, C> {
    /// The station that a row stands for, in a regime.
    pub as_station: A,
    /// A row with the variables of a station.
    pub overwrite: C,
}

/// The variables of a row after its scaled step, before the limit on the shape parameter.
pub open spec fn stepped_row<S: Real>(
    row: CanonicalNewtonRow<S>,
    delta: [S; 3],
    due: S,
    rlx: S,
) -> CanonicalNewtonRow<S> {
    let total = total_dstr_for_row_update(&row);
    let after = total + rlx * ((delta[2] - total * due) / larger(row.uedg, tenths::<S>(12)));
    CanonicalNewtonRow {
        ampl: (if row.is_laminar {
            row.ampl + rlx * delta[0]
        } else {
            row.ampl
        }),
        ctau: (if row.is_laminar {
            row.ctau
        } else {
            smaller(row.ctau + rlx * delta[0], decimal::<S>(1, 4))
        }),
        theta: row.theta + rlx * delta[1],
        uedg: row.uedg + rlx * due,
        dstr: (if row.is_wake {
            after - row.dw
        } else {
            after
        }),
        ..row
    }
}

/// A row after its scaled step.
pub open spec fn updated_row<
    S: Real,
    T,
    A: Fn((CanonicalNewtonRow<S>, FlowType)) -> BlStation<S>,
    C: Fn((CanonicalNewtonRow<S>, BlStation<S>)) -> CanonicalNewtonRow<S>,
>(
    row: CanonicalNewtonRow<S>,
    flow: FlowType,
    delta: [S; 3],
    due: S,
    rlx: S,
    msq: S,
    re: S,
    forms: RowForms<A, C>,
    laws: BlLaws<S, T>,
) -> CanonicalNewtonRow<S> {
    let t = stepped_row(row, delta, due, rlx);
    let station = value(forms.as_station, (t, flow));
    let delta_star = limited_dstr(station.is_wake, t.theta, t.dstr, msq, laws.hkin);
    let full = (laws.blvar)(
        BlStation {
            u: t.uedg,
            theta: t.theta,
            delta_star,
            ctau: t.ctau,
            ampl: t.ampl,
            dw: t.dw,
            ..station
        },
        flow,
        msq,
        re,
    );
    value(
        forms.overwrite,
        (t, BlStation { mass_defect: full.u * total_dstr_for_update(&full), ..full }),
    )
}

/// A row after its scaled step.
fn update_row<
    S: Real,
    P: BlClosure<S>,
    A: Fn((CanonicalNewtonRow<S>, FlowType)) -> BlStation<S>,
    C: Fn((CanonicalNewtonRow<S>, BlStation<S>)) -> CanonicalNewtonRow<S>,
>(
    row: CanonicalNewtonRow<S>,
    flow: FlowType,
    delta: [S; 3],
    due: S,
    rlx: S,
    msq: S,
    re: S,
    forms: &RowForms<A, C>,
    closure: &P,
) -> (r: CanonicalNewtonRow<S>)
    requires
        arithmetic::<S>(),
        function(forms.as_station),
        function(forms.overwrite),
        closure.lawful(),
    ensures
        r == updated_row(row, flow, delta, due, rlx, msq, re, *forms, closure.laws()),
{
    let mut t: CanonicalNewtonRow<S> = row;
    if t.is_laminar {
        t.ampl = t.ampl + rlx * delta[0];
    } else {
        t.ctau = smaller(t.ctau + rlx * delta[0], decimal(1, 4));
    }
    t.theta = t.theta + rlx * delta[1];
    let total: S = total_dstr_for_row_update(&t);
    let d_dstar: S = (delta[2] - total * due) / larger(t.uedg, tiny(12));
    t.uedg = t.uedg + rlx * due;
    let after: S = total + rlx * d_dstar;
    t.dstr = if t.is_wake {
        after - t.dw
    } else {
        after
    };
    let mut station: BlStation<S> = (forms.as_station)((t, flow));
    station.u = t.uedg;
    station.theta = t.theta;
    station.delta_star = t.dstr;
    station.ctau = t.ctau;
    station.ampl = t.ampl;
    station.dw = t.dw;
    apply_dslim_like_xfoil(&mut station, msq, closure);
    let mut full: BlStation<S> = closure.blvar(station, flow, msq, re);
    full.mass_defect = full.u * total_dstr_for_update(&full);
    (forms.overwrite)((t, full))
}

/// The regime of the interval before station `i`: turbulent where none is given.
pub open spec fn interval_flow(flow_types: Seq<FlowType>, i: int) -> FlowType {
    seq_or(flow_types, i - 1, FlowType::Turbulent)
}

/// What changes of the rows are measured against.
pub open spec fn row_measures_of<S: Real>(rows: Seq<CanonicalNewtonRow<S>>) -> Seq<UpdatePoint<S>> {
    rows.map_values(|s: CanonicalNewtonRow<S>| row_measure(s))
}

impl<S: Real> Step<S> {
    /// Row `i` of a surface after the scaled step. The stagnation point, and a row that the
    /// step does not hold, stay as they are.
    pub open spec fn moved_row<
        T,
        A: Fn((CanonicalNewtonRow<S>, FlowType)) -> BlStation<S>,
        C: Fn((CanonicalNewtonRow<S>, BlStation<S>)) -> CanonicalNewtonRow<S>,
    >(
        &self,
        system: &GlobalNewtonSystem<S>,
        surface: int,
        rows: Seq<CanonicalNewtonRow<S>>,
        flow_types: Seq<FlowType>,
        u_new: Seq<S>,
        u_ac: Seq<S>,
        rlx: S,
        msq: S,
        re: S,
        forms: RowForms<A, C>,
        laws: BlLaws<S, T>,
        i: int,
    ) -> CanonicalNewtonRow<S> {
        let iv = system.row_of(surface, i);
        if i == 0 || iv >= self.deltas.len() {
            rows[i]
        } else {
            updated_row(
                rows[i],
                interval_flow(flow_types, i),
                self.delta(iv),
                velocity_change(u_new, u_ac, self.dac, rows[i].uedg, i),
                rlx,
                msq,
                re,
                forms,
                laws,
            )
        }
    }
}

impl<'a, S: Real> StepColumns<'a, S> {
    /// Applies the scaled step to the rows of a surface.
    fn move_rows<
        P: BlClosure<S>,
        A: Fn((CanonicalNewtonRow<S>, FlowType)) -> BlStation<S>,
        C: Fn((CanonicalNewtonRow<S>, BlStation<S>)) -> CanonicalNewtonRow<S>,
    >(
        &self,
        system: &GlobalNewtonSystem<S>,
        surface: usize,
        rows: &mut Vec<CanonicalNewtonRow<S>>,
        flow_types: &[FlowType],
        u_new: &[S],
        u_ac: &[S],
        rlx: S,
        msq: S,
        re: S,
        forms: &RowForms<A, C>,
        closure: &P,
    )
        requires
            arithmetic::<S>(),
            function(forms.as_station),
            function(forms.overwrite),
            closure.lawful(),
            surface == 0 || 1 <= system.n_upper,
            surface == 0 || system.n_upper - 1 + old(rows)@.len() <= usize::MAX,
        ensures
            final(rows)@ == Seq::new(
                old(rows)@.len(),
                |i: int|
                    self.step().moved_row(
                        system,
                        surface as int,
                        old(rows)@,
                        flow_types@,
                        u_new@,
                        u_ac@,
                        rlx,
                        msq,
                        re,
                        *forms,
                        closure.laws(),
                        i,
                    ),
            ),
    {
        let ghost before = rows@;
        let mut i: usize = 1;
        while i < rows.len()
            invariant
                arithmetic::<S>(),
                function(forms.as_station),
                function(forms.overwrite),
                closure.lawful(),
                surface == 0 || 1 <= system.n_upper,
                surface == 0 || system.n_upper - 1 + before.len() <= usize::MAX,
                1 <= i,
                i <= before.len() || i == 1,
                rows@.len() == before.len(),
                forall|k: int|
                    0 <= k < before.len() ==> #[trigger] rows@[k] == (if k < i {
                        self.step().moved_row(
                            system,
                            surface as int,
                            before,
                            flow_types@,
                            u_new@,
                            u_ac@,
                            rlx,
                            msq,
                            re,
                            *forms,
                            closure.laws(),
                            k,
                        )
                    } else {
                        before[k]
                    }),
            decreases before.len() - i,
        {
            let iv: usize = system.to_global(surface, i);
            if iv < self.deltas.len() {
                let row: CanonicalNewtonRow<S> = rows[i];
                let flow: FlowType = entry_or(flow_types, i - 1, FlowType::Turbulent);
                let delta: [S; 3] = self.delta_at(iv);
                let due: S = self.velocity_change_at(u_new, u_ac, row.uedg, i);
                let moved: CanonicalNewtonRow<S> = update_row(
                    row,
                    flow,
                    delta,
                    due,
                    rlx,
                    msq,
                    re,
                    forms,
                    closure,
                );
                rows[i] = moved;
            }
            i = i + 1;
        }
    }
}

/// `after` is the state `before` with the rows of both surfaces moved by the scaled step, and
/// the current velocities read from them; `r` tells the scale, the changes and the velocities.
pub open spec fn rows_updated<
    S: Real,
    T,
    A: Fn((CanonicalNewtonRow<S>, FlowType)) -> BlStation<S>,
    C: Fn((CanonicalNewtonRow<S>, BlStation<S>)) -> CanonicalNewtonRow<S>,
>(
    before: &CanonicalNewtonStateView<S>,
    after: &CanonicalNewtonStateView<S>,
    r: GlobalUpdateResult<S>,
    step: Step<S>,
    system: &GlobalNewtonSystem<S>,
    relaxation: S,
    dij: &Matrix<S>,
    msq: S,
    re: S,
    forms: RowForms<A, C>,
    laws: BlLaws<S, T>,
) -> bool {
    let preview = GlobalOperatingPreview {
        upper_u_new: r.upper_u_new,
        lower_u_new: r.lower_u_new,
        upper_u_ac: r.upper_u_ac,
        lower_u_ac: r.lower_u_ac,
    };
    let scan = step.scanned_both(
        system,
        row_measures_of(before.upper_rows@),
        row_measures_of(before.lower_rows@),
        preview,
        relaxation,
    );
    let rlx = final_relaxation(scan);
    &&& before.preview_is(step.deltas, step.operating, system, dij, preview)
    &&& r.relaxation_used == rlx
    &&& r.max_change == scan.largest
    &&& r.rms_change == rms_of(scan, laws.sqrt)
    &&& after.upper_rows@ == Seq::new(
        before.upper_rows@.len(),
        |i: int|
            step.moved_row(
                system,
                0,
                before.upper_rows@,
                before.upper_flow_types@,
                r.upper_u_new@,
                r.upper_u_ac@,
                rlx,
                msq,
                re,
                forms,
                laws,
                i,
            ),
    )
    &&& after.lower_rows@ == Seq::new(
        before.lower_rows@.len(),
        |i: int|
            step.moved_row(
                system,
                1,
                before.lower_rows@,
                before.lower_flow_types@,
                r.lower_u_new@,
                r.lower_u_ac@,
                rlx,
                msq,
                re,
                forms,
                laws,
                i,
            ),
    )
    &&& after.upper_ue_current@ == Seq::new(
        after.upper_rows@.len(),
        |i: int| after.upper_rows@[i].uedg,
    )
    &&& after.lower_ue_current@ == Seq::new(
        after.lower_rows@.len(),
        |i: int| after.lower_rows@[i].uedg,
    )
    &&& *after == (CanonicalNewtonStateView {
        upper_rows: after.upper_rows,
        lower_rows: after.lower_rows,
        upper_ue_current: after.upper_ue_current,
        lower_ue_current: after.lower_ue_current,
        ..*before
    })
}

/// Applies the Newton step to the rows of both surfaces, scaled so that no change passes its
/// limits, and refreshes the current edge velocities from the rows.
pub fn apply_global_updates_from_view<
    S: Real,
    P: BlClosure<S>,
    A: Fn((CanonicalNewtonRow<S>, FlowType)) -> BlStation<S>,
    C: Fn((CanonicalNewtonRow<S>, BlStation<S>)) -> CanonicalNewtonRow<S>,
>(
    state: &mut CanonicalNewtonStateView<S>,
    deltas: &[[S; 3]],
    operating_deltas: Option<&[[S; 3]]>,
    system: &GlobalNewtonSystem<S>,
    relaxation: S,
    dij: &Matrix<S>,
    dac: S,
    msq: S,
    re: S,
    forms: &RowForms<A, C>,
    closure: &P,
) -> (r: GlobalUpdateResult<S>)
    requires
        arithmetic::<S>(),
        function(forms.as_station),
        function(forms.overwrite),
        closure.lawful(),
        dij.wf(),
        1 <= system.n_upper,
        system.n_upper - 1 + old(state).lower_rows@.len() <= usize::MAX,
        old(state).upper_rows@.len() + old(state).lower_rows@.len() <= usize::MAX,
    ensures
        rows_updated(
            old(state),
            final(state),
            r,
            (Step { deltas: deltas@, operating: entries(operating_deltas), dac }),
            system,
            relaxation,
            dij,
            msq,
            re,
            *forms,
            closure.laws(),
        ),
{
    let preview: GlobalOperatingPreview<S> = preview_global_update_ue_from_view(
        state,
        deltas,
        operating_deltas,
        system,
        dij,
    );
    let step = StepColumns { deltas, operating: operating_deltas, dac };
    let upper: Vec<UpdatePoint<S>> = row_measures(&state.upper_rows);
    let lower: Vec<UpdatePoint<S>> = row_measures(&state.lower_rows);
    let mut progress: Progress<S> = Progress::start(relaxation);
    progress.add_surface(&step, system, 0, &upper, &preview.upper_u_new, &preview.upper_u_ac);
    progress.add_surface(&step, system, 1, &lower, &preview.lower_u_new, &preview.lower_u_ac);
    let rlx: S = smaller(larger(progress.rlx, whole(0)), whole(1));
    step.move_rows(
        system,
        0,
        &mut state.upper_rows,
        &state.upper_flow_types,
        &preview.upper_u_new,
        &preview.upper_u_ac,
        rlx,
        msq,
        re,
        forms,
        closure,
    );
    step.move_rows(
        system,
        1,
        &mut state.lower_rows,
        &state.lower_flow_types,
        &preview.lower_u_new,
        &preview.lower_u_ac,
        rlx,
        msq,
        re,
        forms,
        closure,
    );
    state.upper_ue_current = row_velocities(&state.upper_rows);
    state.lower_ue_current = row_velocities(&state.lower_rows);
    let rms_change: S = if progress.stations > 0 {
        closure.sqrt(progress.squares / (whole::<S>(4) * count::<S>(progress.stations)))
    } else {
        whole(0)
    };
    GlobalUpdateResult {
        relaxation_used: rlx,
        rms_change,
        max_change: progress.largest,
        upper_u_new: preview.upper_u_new,
        lower_u_new: preview.lower_u_new,
        upper_u_ac: preview.upper_u_ac,
        lower_u_ac: preview.lower_u_ac,
    }
}

} // verus!
