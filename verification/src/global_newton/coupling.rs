//! The mass columns, and the two right-hand sides.
use crate::closure::{BlClosure, BlLaws, Conditions};
use crate::global_newton::assemble::{te_arc_length, te_coupling, wake_row, RowTables};
use crate::global_newton::influence::{direction, induced_velocity, points_of};
use crate::global_newton::newton_state::CanonicalNewtonStateView;
use crate::global_newton::system::{
    zero_block, zero_coupling, zero_triple, zeros, GlobalNewtonSystem,
};
use crate::global_newton::update::{station_velocities, velocities_of};
use crate::number::{abs, arithmetic, finite_or_zero, tenths, tiny, whole, Formula, Real};
use crate::station::{copied, entry_or, filled, seq_or, BlStation, FlowType, Matrix};
use vstd::prelude::*;

verus! {

/// The stations of a surface.
pub open spec fn surface_of<S>(
    upper: Seq<BlStation<S>>,
    lower: Seq<BlStation<S>>,
    surface: int,
) -> Seq<BlStation<S>> {
    if surface == 0 {
        upper
    } else {
        lower
    }
}

/// Whether the edge velocity is large enough to divide by.
#[verifier::allow_in_spec]
pub fn moving<S: Real>(s: &BlStation<S>) -> bool
    requires
        arithmetic::<S>(),
    returns
        abs(s.u) > tenths::<S>(20),
{
    abs(s.u) > tiny(20)
}

/// The derivative of the displacement thickness of a station by its edge velocity, at fixed
/// mass.
pub open spec fn dstar_by_velocity<S: Real>(s: BlStation<S>) -> S {
    if moving(&s) {
        -(s.mass_defect / s.u) / s.u
    } else {
        whole::<S>(0)
    }
}

/// The derivative of the displacement thickness of a station by its edge velocity.
fn dstar_derivative<S: Real>(s: &BlStation<S>) -> (r: S)
    requires
        arithmetic::<S>(),
    ensures
        r == dstar_by_velocity(*s),
{
    if moving(s) {
        (s.mass_defect / s.u).neg() / s.u
    } else {
        whole(0)
    }
}

/// The derivative of the velocity at `panel_i`, with sign `vti_i`, by the mass at `panel_j`,
/// with sign `vti_j`: zero where the matrix has no entry.
pub open spec fn velocity_by_mass<S: Real>(
    dij: &Matrix<S>,
    vti_i: S,
    panel_i: usize,
    vti_j: S,
    panel_j: usize,
) -> S {
    if dij.covers(panel_i as int, panel_j as int) {
        -vti_i * vti_j * dij.entry(panel_i as int, panel_j as int)
    } else {
        whole::<S>(0)
    }
}

/// The derivative of the velocity at `panel_i` by the mass at `panel_j`.
fn velocity_derivative<S: Real>(
    dij: &Matrix<S>,
    vti_i: S,
    panel_i: usize,
    vti_j: S,
    panel_j: usize,
) -> (r: S)
    requires
        arithmetic::<S>(),
        dij.wf(),
    ensures
        r == velocity_by_mass(dij, vti_i, panel_i, vti_j, panel_j),
{
    if panel_i < dij.nrows && panel_j < dij.ncols {
        vti_i.neg() * vti_j * dij.rows[panel_i][panel_j]
    } else {
        whole(0)
    }
}

/// The panel of the first station behind the stagnation point, or panel zero.
#[verifier::allow_in_spec]
pub fn leading_panel<S: Real>(stations: &[BlStation<S>]) -> usize
    returns
        (if stations@.len() > 1 {
            stations@[1].panel_idx
        } else {
            0
        }),
{
    if stations.len() > 1 {
        stations[1].panel_idx
    } else {
        0
    }
}

/// The change of an equation that forced changes of both stations of its interval make.
pub open spec fn forced_sum<S: Real>(t: RowTables<S>, c: ForcedChange<S>, k: int) -> S {
    t.vs1_delta[k] * c.dds1 + t.vs2_delta[k] * c.dds2 + t.vs1_ue[k] * c.due1 + t.vs2_ue[k] * c.due2
}

/// The change of an equation that a shift of the stagnation point makes.
pub open spec fn shift_term<S: Real>(t: RowTables<S>, shift: S, k: int) -> S {
    (t.vs1_x[k] + t.vs2_x[k]) * shift
}

/// Forced changes at both ends of an interval: of displacement thickness and of velocity.
#[derive(Clone, Copy, Debug)]
pub struct ForcedChange<S> {
    pub dds1: S,
    pub due1: S,
    pub dds2: S,
    pub due2: S,
}

/// The difference between the current velocity and the one that the masses induce, at a
/// station. A distribution counts zero past its end, and there is none past the stations.
pub open spec fn velocity_gap<S: Real>(current: Seq<S>, from_mass: Seq<S>, n: nat, i: int) -> S {
    if i < n {
        seq_or(current, i, whole::<S>(0)) - seq_or(from_mass, i, whole::<S>(0))
    } else {
        whole::<S>(0)
    }
}

/// The differences between the current velocities and those that the masses induce.
pub open spec fn velocity_gaps<S: Real>(current: Seq<S>, from_mass: Seq<S>, n: nat) -> Seq<S> {
    Seq::new(n, |i: int| velocity_gap(current, from_mass, n, i))
}

impl<S: Real> GlobalNewtonSystem<S> {
    /// How the stagnation point moves with the first velocity on either surface, as the arc
    /// length of a surface sees it.
    pub open spec fn shift(&self, surface: int, le1: S, le2: S) -> S {
        if surface == 0 {
            self.sst_go * le1 + -self.sst_gp * le2
        } else {
            -self.sst_go * le1 + self.sst_gp * le2
        }
    }

    /// How the stagnation point moves with the first velocity on either surface.
    fn shift_of(&self, surface: usize, le1: S, le2: S) -> (r: S)
        requires
            arithmetic::<S>(),
        ensures
            r == self.shift(surface as int, le1, le2),
    {
        if surface == 0 {
            self.sst_go * le1 + self.sst_gp.neg() * le2
        } else {
            self.sst_go.neg() * le1 + self.sst_gp * le2
        }
    }

    /// Whether the stations hold the one of row `iv`.
    pub open spec fn has_station(
        &self,
        upper: Seq<BlStation<S>>,
        lower: Seq<BlStation<S>>,
        iv: int,
    ) -> bool {
        let (surface, ibl) = self.station_of(iv);
        ibl < surface_of(upper, lower, surface).len()
    }

    /// The derivative of the displacement thickness upstream of the first wake station by
    /// the mass of row `jv`, which both trailing edge stations share.
    pub open spec fn edge_dstar_by_mass(
        &self,
        upper: Seq<BlStation<S>>,
        lower: Seq<BlStation<S>>,
        dij: &Matrix<S>,
        jv: int,
        panel_j: usize,
    ) -> S {
        match self.te_state(upper, lower) {
            None => whole::<S>(0),
            Some(te) => {
                let one = whole::<S>(1);
                let vti = self.vti@[jv];
                let u1 = velocity_by_mass(
                    dij,
                    one,
                    upper[self.iblte_upper as int].panel_idx,
                    vti,
                    panel_j,
                );
                let u2 = velocity_by_mass(
                    dij,
                    -one,
                    lower[self.iblte_lower as int].panel_idx,
                    vti,
                    panel_j,
                );
                let d = te.dte_ute1 * u1 + te.dte_ute2 * u2;
                let d = if jv == self.row_of(0, self.iblte_upper as int) {
                    d + te.dte_mte1
                } else {
                    d
                };
                if jv == self.row_of(1, self.iblte_lower as int) {
                    d + te.dte_mte2
                } else {
                    d
                }
            },
        }
    }

    /// How the equations of row `iv` answer to the mass of row `jv`: through thickness and
    /// velocity at both ends of the interval, and through the stagnation point.
    pub open spec fn mass_column(
        &self,
        upper: Seq<BlStation<S>>,
        lower: Seq<BlStation<S>>,
        dij: &Matrix<S>,
        iv: int,
        jv: int,
    ) -> [S; 3] {
        let (si, i) = self.station_of(iv);
        let (sj, j) = self.station_of(jv);
        let s1 = surface_of(upper, lower, si)[i - 1];
        let s2 = surface_of(upper, lower, si)[i];
        let panel_j = surface_of(upper, lower, sj)[j].panel_idx;
        let vti = self.vti@[jv];
        let first_wake = si == 1 && i == self.iblte_lower + 1;
        let u2 = velocity_by_mass(dij, self.vti@[iv], s2.panel_idx, vti, panel_j);
        let u1 = if first_wake || i <= 1 {
            whole::<S>(0)
        } else {
            velocity_by_mass(dij, direction::<S>(si as usize), s1.panel_idx, vti, panel_j)
        };
        let d2 = if iv == jv && moving(&s2) {
            whole::<S>(1) / s2.u + dstar_by_velocity(s2) * u2
        } else {
            dstar_by_velocity(s2) * u2
        };
        let d1 = if first_wake {
            self.edge_dstar_by_mass(upper, lower, dij, jv, panel_j)
        } else if si == sj && j == i - 1 && i > 1 && moving(&s1) {
            whole::<S>(1) / s1.u + dstar_by_velocity(s1) * u1
        } else {
            dstar_by_velocity(s1) * u1
        };
        let le1 = velocity_by_mass(
            dij,
            whole::<S>(1),
            (if upper.len() > 1 {
                upper[1].panel_idx
            } else {
                0
            }),
            vti,
            panel_j,
        );
        let le2 = velocity_by_mass(
            dij,
            -whole::<S>(1),
            (if lower.len() > 1 {
                lower[1].panel_idx
            } else {
                0
            }),
            vti,
            panel_j,
        );
        let shift = self.shift(si, le1, le2);
        let t = self.row(iv);
        [
            mass_answer(t, d2, u2, d1, u1, 0) + shift_term(t, shift, 0),
            mass_answer(t, d2, u2, d1, u1, 1) + shift_term(t, shift, 1),
            mass_answer(t, d2, u2, d1, u1, 2) + shift_term(t, shift, 2),
        ]
    }
}

/// How equation `k` of a row answers to changes of thickness and velocity at both ends.
pub open spec fn mass_answer<S: Real>(t: RowTables<S>, d2: S, u2: S, d1: S, u1: S, k: int) -> S {
    t.vs2_delta[k] * d2 + t.vs2_ue[k] * u2 + t.vs1_delta[k] * d1 + t.vs1_ue[k] * u1
}

impl<S: Real> GlobalNewtonSystem<S> {
    /// The mass columns of every pair of rows whose stations are there.
    pub open spec fn masses_coupled(
        &self,
        before: &Self,
        upper: Seq<BlStation<S>>,
        lower: Seq<BlStation<S>>,
        dij: &Matrix<S>,
    ) -> bool {
        forall|iv: int, jv: int|
            0 <= iv <= self.nsys && 0 <= jv <= self.nsys ==> #[trigger] self.vm@[iv]@[jv] == (if iv
                >= 1 && jv >= 1 && self.has_station(upper, lower, iv) && self.has_station(
                upper,
                lower,
                jv,
            ) {
                before.mass_column(upper, lower, dij, iv, jv)
            } else {
                before.vm@[iv]@[jv]
            })
    }

    /// Builds the mass columns.
    pub fn build_vm_global(
        &mut self,
        upper_stations: &[BlStation<S>],
        lower_stations: &[BlStation<S>],
        dij: &Matrix<S>,
    )
        requires
            arithmetic::<S>(),
            dij.wf(),
            old(self).wf(),
        ensures
            final(self).wf(),
            *final(self) == (GlobalNewtonSystem { vm: final(self).vm, ..*old(self) }),
            final(self).masses_coupled(old(self), upper_stations@, lower_stations@, dij),
    {
        let ghost before = *self;
        let ghost upper = upper_stations@;
        let ghost lower = lower_stations@;
        let mut iv: usize = 1;
        while iv <= self.nsys
            invariant
                arithmetic::<S>(),
                dij.wf(),
                before.wf(),
                self.wf(),
                upper == upper_stations@,
                lower == lower_stations@,
                1 <= iv <= self.nsys + 1,
                *self == (GlobalNewtonSystem { vm: self.vm, ..before }),
                forall|a: int, b: int|
                    0 <= a <= before.nsys && 0 <= b <= before.nsys ==> #[trigger] self.vm@[a]@[b]
                        == (if 1 <= a < iv && b >= 1 && before.has_station(upper, lower, a)
                        && before.has_station(upper, lower, b) {
                        before.mass_column(upper, lower, dij, a, b)
                    } else {
                        before.vm@[a]@[b]
                    }),
            decreases self.nsys + 1 - iv,
        {
            if self.station_is_there(upper_stations, lower_stations, iv) {
                let mut jv: usize = 1;
                while jv <= self.nsys
                    invariant
                        arithmetic::<S>(),
                        dij.wf(),
                        before.wf(),
                        self.wf(),
                        upper == upper_stations@,
                        lower == lower_stations@,
                        1 <= iv <= self.nsys,
                        1 <= jv <= self.nsys + 1,
                        before.has_station(upper, lower, iv as int),
                        *self == (GlobalNewtonSystem { vm: self.vm, ..before }),
                        forall|a: int, b: int|
                            0 <= a <= before.nsys && 0 <= b <= before.nsys
                                ==> #[trigger] self.vm@[a]@[b] == (if 1 <= a && (a < iv || (a == iv
                                && b < jv)) && b >= 1 && before.has_station(upper, lower, a)
                                && before.has_station(upper, lower, b) {
                                before.mass_column(upper, lower, dij, a, b)
                            } else {
                                before.vm@[a]@[b]
                            }),
                    decreases self.nsys + 1 - jv,
                {
                    if self.station_is_there(upper_stations, lower_stations, jv) {
                        let c: [S; 3] = self.mass_column_of(
                            upper_stations,
                            lower_stations,
                            dij,
                            iv,
                            jv,
                        );
                        assert(c == before.mass_column(upper, lower, dij, iv as int, jv as int));
                        self.vm[iv][jv] = c;
                    }
                    jv = jv + 1;
                }
            }
            iv = iv + 1;
        }
    }

    /// Whether the stations hold the one of row `iv`.
    fn station_is_there(
        &self,
        upper_stations: &[BlStation<S>],
        lower_stations: &[BlStation<S>],
        iv: usize,
    ) -> (r: bool)
        requires
            self.wf(),
        ensures
            r == self.has_station(upper_stations@, lower_stations@, iv as int),
    {
        let (surface, ibl): (usize, usize) = self.from_global(iv);
        if surface == 0 {
            ibl < upper_stations.len()
        } else {
            ibl < lower_stations.len()
        }
    }

    /// How the equations of row `iv` answer to the mass of row `jv`.
    fn mass_column_of(
        &self,
        upper_stations: &[BlStation<S>],
        lower_stations: &[BlStation<S>],
        dij: &Matrix<S>,
        iv: usize,
        jv: usize,
    ) -> (r: [S; 3])
        requires
            arithmetic::<S>(),
            dij.wf(),
            self.wf(),
            1 <= iv <= self.nsys,
            1 <= jv <= self.nsys,
            self.has_station(upper_stations@, lower_stations@, iv as int),
            self.has_station(upper_stations@, lower_stations@, jv as int),
        ensures
            r == self.mass_column(upper_stations@, lower_stations@, dij, iv as int, jv as int),
    {
        let (si, i): (usize, usize) = self.from_global(iv);
        let (sj, j): (usize, usize) = self.from_global(jv);
        let one: S = whole(1);
        let zero: S = whole(0);
        let (s1, s2): (BlStation<S>, BlStation<S>) = if si == 0 {
            (upper_stations[i - 1], upper_stations[i])
        } else {
            (lower_stations[i - 1], lower_stations[i])
        };
        let panel_j: usize = if sj == 0 {
            upper_stations[j].panel_idx
        } else {
            lower_stations[j].panel_idx
        };
        let vti: S = self.vti[jv];
        let first_wake: bool = si == 1 && i == self.iblte_lower + 1;
        let u2: S = velocity_derivative(dij, self.vti[iv], s2.panel_idx, vti, panel_j);
        let u1: S = if first_wake || i <= 1 {
            zero
        } else {
            velocity_derivative(dij, direction(si), s1.panel_idx, vti, panel_j)
        };
        let d2_u2: S = dstar_derivative(&s2);
        let d1_u1: S = dstar_derivative(&s1);
        let d2: S = if iv == jv && moving(&s2) {
            one / s2.u + d2_u2 * u2
        } else {
            d2_u2 * u2
        };
        let d1: S = if first_wake {
            self.edge_dstar_derivative(upper_stations, lower_stations, dij, jv, panel_j)
        } else if si == sj && j == i - 1 && i > 1 && moving(&s1) {
            one / s1.u + d1_u1 * u1
        } else {
            d1_u1 * u1
        };
        let le1: S = velocity_derivative(dij, one, leading_panel(upper_stations), vti, panel_j);
        let le2: S = velocity_derivative(
            dij,
            one.neg(),
            leading_panel(lower_stations),
            vti,
            panel_j,
        );
        let shift: S = self.shift_of(si, le1, le2);
        let vs1d: [S; 3] = self.vs1_delta[iv];
        let vs1u: [S; 3] = self.vs1_ue[iv];
        let vs2d: [S; 3] = self.vs2_delta[iv];
        let vs2u: [S; 3] = self.vs2_ue[iv];
        let vs1x: [S; 3] = self.vs1_x[iv];
        let vs2x: [S; 3] = self.vs2_x[iv];
        [
            vs2d[0] * d2 + vs2u[0] * u2 + vs1d[0] * d1 + vs1u[0] * u1 + (vs1x[0] + vs2x[0]) * shift,
            vs2d[1] * d2 + vs2u[1] * u2 + vs1d[1] * d1 + vs1u[1] * u1 + (vs1x[1] + vs2x[1]) * shift,
            vs2d[2] * d2 + vs2u[2] * u2 + vs1d[2] * d1 + vs1u[2] * u1 + (vs1x[2] + vs2x[2]) * shift,
        ]
    }

    /// The derivative of the displacement thickness upstream of the first wake station by
    /// the mass of row `jv`.
    fn edge_dstar_derivative(
        &self,
        upper_stations: &[BlStation<S>],
        lower_stations: &[BlStation<S>],
        dij: &Matrix<S>,
        jv: usize,
        panel_j: usize,
    ) -> (r: S)
        requires
            arithmetic::<S>(),
            dij.wf(),
            self.wf(),
            1 <= jv <= self.nsys,
        ensures
            r == self.edge_dstar_by_mass(
                upper_stations@,
                lower_stations@,
                dij,
                jv as int,
                panel_j,
            ),
    {
        match self.te_wake_terms(upper_stations, lower_stations) {
            None => whole(0),
            Some(te) => {
                let one: S = whole(1);
                let vti: S = self.vti[jv];
                let u1: S = velocity_derivative(
                    dij,
                    one,
                    upper_stations[self.iblte_upper].panel_idx,
                    vti,
                    panel_j,
                );
                let u2: S = velocity_derivative(
                    dij,
                    one.neg(),
                    lower_stations[self.iblte_lower].panel_idx,
                    vti,
                    panel_j,
                );
                let mut d: S = te.dte_ute1 * u1 + te.dte_ute2 * u2;
                if jv == self.to_global(0, self.iblte_upper) {
                    d = d + te.dte_mte1;
                }
                if jv == self.to_global(1, self.iblte_lower) {
                    d = d + te.dte_mte2;
                }
                d
            },
        }
    }
}

impl<S: Real> GlobalNewtonSystem<S> {
    /// The forced changes on the interval of row `iv`, from the changes of velocity on both
    /// surfaces.
    ///
    /// Upstream of the first wake station lies the trailing edge as a whole, whose velocity
    /// is not forced; without a trailing edge it is the station before. With `still`, nothing
    /// changes upstream of the first upper station, nor the velocity before the first wake
    /// station.
    pub open spec fn forced(
        &self,
        upper: Seq<BlStation<S>>,
        lower: Seq<BlStation<S>>,
        due_upper: Seq<S>,
        due_lower: Seq<S>,
        still: bool,
        iv: int,
    ) -> ForcedChange<S> {
        let zero = whole::<S>(0);
        let (surface, i) = self.station_of(iv);
        let stations = surface_of(upper, lower, surface);
        let due = if surface == 0 {
            due_upper
        } else {
            due_lower
        };
        let due2 = seq_or(due, i, zero);
        let before = seq_or(due, i - 1, zero);
        let dds1 = dstar_by_velocity(stations[i - 1]) * before;
        let dds2 = dstar_by_velocity(stations[i]) * due2;
        if surface == 0 {
            if still && i == 1 {
                ForcedChange { dds1: zero, due1: zero, dds2, due2 }
            } else {
                ForcedChange { dds1, due1: before, dds2, due2 }
            }
        } else if i == self.iblte_lower + 1 {
            match self.te_state(upper, lower) {
                Some(te) => ForcedChange {
                    dds1: te.dte_ute1 * seq_or(due_upper, self.iblte_upper as int, zero)
                        + te.dte_ute2 * seq_or(due_lower, self.iblte_lower as int, zero),
                    due1: zero,
                    dds2,
                    due2,
                },
                None => ForcedChange {
                    dds1,
                    due1: (if still {
                        zero
                    } else {
                        before
                    }),
                    dds2,
                    due2,
                },
            }
        } else {
            ForcedChange { dds1, due1: before, dds2, due2 }
        }
    }

    /// The forced changes on the interval of row `iv`.
    fn forced_at(
        &self,
        upper_stations: &[BlStation<S>],
        lower_stations: &[BlStation<S>],
        due_upper: &[S],
        due_lower: &[S],
        still: bool,
        iv: usize,
    ) -> (r: ForcedChange<S>)
        requires
            arithmetic::<S>(),
            self.wf(),
            1 <= iv <= self.nsys,
            self.has_station(upper_stations@, lower_stations@, iv as int),
        ensures
            r == self.forced(
                upper_stations@,
                lower_stations@,
                due_upper@,
                due_lower@,
                still,
                iv as int,
            ),
    {
        let zero: S = whole(0);
        let (surface, i): (usize, usize) = self.from_global(iv);
        if surface == 0 {
            let due2: S = entry_or(due_upper, i, zero);
            let before: S = entry_or(due_upper, i - 1, zero);
            let dds1: S = dstar_derivative(&upper_stations[i - 1]) * before;
            let dds2: S = dstar_derivative(&upper_stations[i]) * due2;
            if still && i == 1 {
                ForcedChange { dds1: zero, due1: zero, dds2, due2 }
            } else {
                ForcedChange { dds1, due1: before, dds2, due2 }
            }
        } else {
            let due2: S = entry_or(due_lower, i, zero);
            let before: S = entry_or(due_lower, i - 1, zero);
            let dds1: S = dstar_derivative(&lower_stations[i - 1]) * before;
            let dds2: S = dstar_derivative(&lower_stations[i]) * due2;
            if i == self.iblte_lower + 1 {
                match self.te_wake_terms(upper_stations, lower_stations) {
                    Some(te) => ForcedChange {
                        dds1: te.dte_ute1 * entry_or(due_upper, self.iblte_upper, zero)
                            + te.dte_ute2 * entry_or(due_lower, self.iblte_lower, zero),
                        due1: zero,
                        dds2,
                        due2,
                    },
                    None => ForcedChange {
                        dds1,
                        due1: if still {
                            zero
                        } else {
                            before
                        },
                        dds2,
                        due2,
                    },
                }
            } else {
                ForcedChange { dds1, due1: before, dds2, due2 }
            }
        }
    }

    /// The answer of the equations of row `iv` to forced changes of the velocities: on its
    /// own interval, and through the stagnation point.
    pub open spec fn forced_answer(
        &self,
        upper: Seq<BlStation<S>>,
        lower: Seq<BlStation<S>>,
        due_upper: Seq<S>,
        due_lower: Seq<S>,
        still: bool,
        start: Option<[S; 3]>,
        iv: int,
    ) -> [S; 3] {
        let zero = whole::<S>(0);
        let t = self.row(iv);
        let c = self.forced(upper, lower, due_upper, due_lower, still, iv);
        let shift = self.shift(
            self.station_of(iv).0,
            seq_or(due_upper, 1, zero),
            seq_or(due_lower, 1, zero),
        );
        match start {
            Some(b) => [
                b[0] + forced_sum(t, c, 0) + shift_term(t, shift, 0),
                b[1] + forced_sum(t, c, 1) + shift_term(t, shift, 1),
                b[2] + forced_sum(t, c, 2) + shift_term(t, shift, 2),
            ],
            None => [
                forced_sum(t, c, 0) + shift_term(t, shift, 0),
                forced_sum(t, c, 1) + shift_term(t, shift, 1),
                forced_sum(t, c, 2) + shift_term(t, shift, 2),
            ],
        }
    }

    /// The answer of the equations of row `iv` to forced changes of the velocities.
    fn forced_answer_at(
        &self,
        upper_stations: &[BlStation<S>],
        lower_stations: &[BlStation<S>],
        due_upper: &[S],
        due_lower: &[S],
        still: bool,
        start: Option<[S; 3]>,
        iv: usize,
    ) -> (r: [S; 3])
        requires
            arithmetic::<S>(),
            self.wf(),
            1 <= iv <= self.nsys,
            self.has_station(upper_stations@, lower_stations@, iv as int),
        ensures
            r == self.forced_answer(
                upper_stations@,
                lower_stations@,
                due_upper@,
                due_lower@,
                still,
                start,
                iv as int,
            ),
    {
        let c: ForcedChange<S> = self.forced_at(
            upper_stations,
            lower_stations,
            due_upper,
            due_lower,
            still,
            iv,
        );
        let surface: usize = self.from_global(iv).0;
        let shift: S = self.shift_of(
            surface,
            entry_or(due_upper, 1, whole(0)),
            entry_or(due_lower, 1, whole(0)),
        );
        let vs1d: [S; 3] = self.vs1_delta[iv];
        let vs1u: [S; 3] = self.vs1_ue[iv];
        let vs2d: [S; 3] = self.vs2_delta[iv];
        let vs2u: [S; 3] = self.vs2_ue[iv];
        let vs1x: [S; 3] = self.vs1_x[iv];
        let vs2x: [S; 3] = self.vs2_x[iv];
        let f0: S = vs1d[0] * c.dds1 + vs2d[0] * c.dds2 + vs1u[0] * c.due1 + vs2u[0] * c.due2;
        let f1: S = vs1d[1] * c.dds1 + vs2d[1] * c.dds2 + vs1u[1] * c.due1 + vs2u[1] * c.due2;
        let f2: S = vs1d[2] * c.dds1 + vs2d[2] * c.dds2 + vs1u[2] * c.due1 + vs2u[2] * c.due2;
        let x0: S = (vs1x[0] + vs2x[0]) * shift;
        let x1: S = (vs1x[1] + vs2x[1]) * shift;
        let x2: S = (vs1x[2] + vs2x[2]) * shift;
        match start {
            Some(b) => [b[0] + f0 + x0, b[1] + f1 + x1, b[2] + f2 + x2],
            None => [f0 + x0, f1 + x1, f2 + x2],
        }
    }

    /// Adds to the residuals what the difference between the current velocities and those
    /// that the masses induce makes of the equations.
    pub fn add_forced_changes(
        &mut self,
        upper_stations: &[BlStation<S>],
        lower_stations: &[BlStation<S>],
        ue_current_upper: &[S],
        ue_current_lower: &[S],
        ue_from_mass_upper: &[S],
        ue_from_mass_lower: &[S],
    )
        requires
            arithmetic::<S>(),
            old(self).wf(),
            upper_stations@.len() <= old(self).n_upper,
            lower_stations@.len() <= old(self).n_lower,
        ensures
            final(self).wf(),
            ({
                let due_upper = velocity_gaps(
                    ue_current_upper@,
                    ue_from_mass_upper@,
                    upper_stations@.len(),
                );
                let due_lower = velocity_gaps(
                    ue_current_lower@,
                    ue_from_mass_lower@,
                    lower_stations@.len(),
                );
                &&& *final(self) == (GlobalNewtonSystem {
                    vdel: final(self).vdel,
                    dule1: seq_or(due_upper, 1, whole::<S>(0)),
                    dule2: seq_or(due_lower, 1, whole::<S>(0)),
                    ..*old(self)
                })
                &&& forall|iv: int|
                    0 <= iv <= old(self).nsys ==> #[trigger] final(self).vdel@[iv] == (if iv >= 1
                        && old(self).has_station(upper_stations@, lower_stations@, iv) {
                        old(self).forced_answer(
                            upper_stations@,
                            lower_stations@,
                            due_upper,
                            due_lower,
                            true,
                            Some(old(self).vdel@[iv]),
                            iv,
                        )
                    } else {
                        old(self).vdel@[iv]
                    })
            }),
    {
        let due_upper: Vec<S> = gaps(ue_current_upper, ue_from_mass_upper, upper_stations.len());
        let due_lower: Vec<S> = gaps(ue_current_lower, ue_from_mass_lower, lower_stations.len());
        let ghost before = *self;
        let dule1: S = entry_or(&due_upper, 1, whole(0));
        let dule2: S = entry_or(&due_lower, 1, whole(0));
        let mut vdel: Vec<[S; 3]> = copied(&self.vdel);
        let mut iv: usize = 1;
        while iv <= self.nsys
            invariant
                arithmetic::<S>(),
                before.wf(),
                *self == before,
                1 <= iv <= before.nsys + 1,
                vdel@.len() == before.nsys + 1,
                forall|a: int|
                    0 <= a <= before.nsys ==> #[trigger] vdel@[a] == (if 1 <= a < iv
                        && before.has_station(upper_stations@, lower_stations@, a) {
                        before.forced_answer(
                            upper_stations@,
                            lower_stations@,
                            due_upper@,
                            due_lower@,
                            true,
                            Some(before.vdel@[a]),
                            a,
                        )
                    } else {
                        before.vdel@[a]
                    }),
            decreases before.nsys + 1 - iv,
        {
            if self.station_is_there(upper_stations, lower_stations, iv) {
                let b: [S; 3] = self.vdel[iv];
                let answer: [S; 3] = self.forced_answer_at(
                    upper_stations,
                    lower_stations,
                    &due_upper,
                    &due_lower,
                    true,
                    Some(b),
                    iv,
                );
                vdel[iv] = answer;
            }
            iv = iv + 1;
        }
        self.vdel = vdel;
        self.dule1 = dule1;
        self.dule2 = dule2;
    }

    /// Builds the second right-hand side: how the equations answer to the sensitivities of
    /// the velocities to the operating variable.
    pub fn build_operating_rhs(
        &mut self,
        upper_stations: &[BlStation<S>],
        lower_stations: &[BlStation<S>],
        ue_operating_upper: &[S],
        ue_operating_lower: &[S],
    )
        requires
            arithmetic::<S>(),
            old(self).wf(),
            upper_stations@.len() <= old(self).n_upper,
            lower_stations@.len() <= old(self).n_lower,
        ensures
            final(self).wf(),
            *final(self) == (GlobalNewtonSystem {
                vdel_operating: final(self).vdel_operating,
                ..*old(self)
            }),
            forall|iv: int|
                0 <= iv <= old(self).nsys ==> #[trigger] final(self).vdel_operating@[iv] == (if iv
                    >= 1 && old(self).has_station(upper_stations@, lower_stations@, iv) {
                    old(self).forced_answer(
                        upper_stations@,
                        lower_stations@,
                        ue_operating_upper@,
                        ue_operating_lower@,
                        false,
                        None,
                        iv,
                    )
                } else {
                    old(self).vdel_operating@[iv]
                }),
    {
        let ghost before = *self;
        let mut rhs: Vec<[S; 3]> = copied(&self.vdel_operating);
        let mut iv: usize = 1;
        while iv <= self.nsys
            invariant
                arithmetic::<S>(),
                before.wf(),
                *self == before,
                1 <= iv <= before.nsys + 1,
                rhs@.len() == before.nsys + 1,
                forall|a: int|
                    0 <= a <= before.nsys ==> #[trigger] rhs@[a] == (if 1 <= a < iv
                        && before.has_station(upper_stations@, lower_stations@, a) {
                        before.forced_answer(
                            upper_stations@,
                            lower_stations@,
                            ue_operating_upper@,
                            ue_operating_lower@,
                            false,
                            None,
                            a,
                        )
                    } else {
                        before.vdel_operating@[a]
                    }),
            decreases before.nsys + 1 - iv,
        {
            if self.station_is_there(upper_stations, lower_stations, iv) {
                let answer: [S; 3] = self.forced_answer_at(
                    upper_stations,
                    lower_stations,
                    ue_operating_upper,
                    ue_operating_lower,
                    false,
                    None,
                    iv,
                );
                rhs[iv] = answer;
            }
            iv = iv + 1;
        }
        self.vdel_operating = rhs;
    }
}

/// The differences between the current velocities and those that the masses induce.
fn gaps<S: Real>(current: &[S], from_mass: &[S], n: usize) -> (r: Vec<S>)
    requires
        arithmetic::<S>(),
    ensures
        r@ == velocity_gaps(current@, from_mass@, n as nat),
{
    let zero: S = whole(0);
    let mut r: Vec<S> = Vec::with_capacity(n);
    let mut i: usize = 0;
    while i < n
        invariant
            arithmetic::<S>(),
            zero == whole::<S>(0),
            i <= n,
            r@.len() == i,
            forall|k: int|
                0 <= k < i ==> #[trigger] r@[k] == velocity_gap(
                    current@,
                    from_mass@,
                    n as nat,
                    k,
                ),
        decreases n - i,
    {
        r.push(entry_or(current, i, zero) - entry_or(from_mass, i, zero));
        i = i + 1;
    }
    r
}

/// `given` where it has an entry for every station, else `computed`.
pub open spec fn given_or<S>(given: Seq<S>, computed: Seq<S>) -> Seq<S> {
    if given.len() == computed.len() {
        given
    } else {
        computed
    }
}

/// The velocities that the masses induce on a surface.
pub open spec fn induced_velocities<S: Real>(
    upper: Seq<BlStation<S>>,
    lower: Seq<BlStation<S>>,
    ue_inviscid: Seq<S>,
    dij: &Matrix<S>,
    surface: usize,
) -> Seq<S> {
    Seq::new(
        surface_of(upper, lower, surface as int).len(),
        |i: int|
            induced_velocity(points_of(upper), points_of(lower), ue_inviscid, dij, surface, i),
    )
}

/// The row of zeros.
pub open spec fn zero_row<S: Real>() -> RowTables<S> {
    RowTables {
        va: zero_block::<S>(),
        vb: zero_block::<S>(),
        vdel: zeros::<S>(),
        vs1_delta: zeros::<S>(),
        vs1_ue: zeros::<S>(),
        vs2_delta: zeros::<S>(),
        vs2_ue: zeros::<S>(),
        vs1_x: zeros::<S>(),
        vs2_x: zeros::<S>(),
    }
}

/// What a system is built from on one surface, besides the stations: the regimes, and the
/// current, inviscid and mass-induced velocities, and the sensitivities to the operating
/// variable.
pub struct SurfaceInputs<S> {
    pub flow_types: Seq<FlowType>,
    pub current: Seq<S>,
    pub inviscid: Seq<S>,
    pub from_mass: Seq<S>,
    pub operating: Seq<S>,
}

impl<S: Real> SurfaceInputs<S> {
    /// The velocities that stand in for the inputs. A distribution that does not fit the
    /// stations is replaced by that of the stations, or by the one that the masses induce.
    pub open spec fn velocities(
        self,
        upper: Seq<BlStation<S>>,
        lower: Seq<BlStation<S>>,
        dij: &Matrix<S>,
        surface: usize,
    ) -> SurfaceVelocities<S> {
        SurfaceVelocities {
            current: given_or(
                self.current,
                velocities_of(surface_of(upper, lower, surface as int)),
            ),
            from_mass: given_or(
                self.from_mass,
                induced_velocities(upper, lower, self.inviscid, dij, surface),
            ),
            operating: self.operating,
        }
    }
}

/// The velocities that a system is built from, for one surface: those of the stations, those
/// that the masses induce, and the sensitivities to the operating variable.
pub struct SurfaceVelocities<S> {
    pub current: Seq<S>,
    pub from_mass: Seq<S>,
    pub operating: Seq<S>,
}

impl<S: Real> SurfaceVelocities<S> {
    /// The forced changes of velocity.
    pub open spec fn gaps(self, n: nat) -> Seq<S> {
        velocity_gaps(self.current, self.from_mass, n)
    }
}

impl<S: Real> GlobalNewtonSystem<S> {
    /// What row `iv` keeps of its equations before forced changes: the interface at the
    /// trailing edge in the row of the first wake station, and the equations of the interval
    /// in any other.
    pub open spec fn base_row<T>(
        &self,
        upper: Seq<BlStation<S>>,
        lower: Seq<BlStation<S>>,
        upper_flow_types: Seq<FlowType>,
        lower_flow_types: Seq<FlowType>,
        laws: BlLaws<S, T>,
        flow: Conditions<S>,
        iv: int,
    ) -> RowTables<S> {
        let (surface, i) = self.station_of(iv);
        let flow_types = if surface == 0 {
            upper_flow_types
        } else {
            lower_flow_types
        };
        match self.te_state(upper, lower) {
            Some(te) if iv == self.first_wake_row() => wake_row(
                te,
                lower[self.iblte_lower + 1],
            ),
            _ => self.interval_row(
                surface,
                surface_of(upper, lower, surface),
                flow_types,
                laws,
                flow,
                i,
            ),
        }
    }

    /// Nothing that identifies the system differs from `other`: sizes, trailing edges,
    /// stagnation derivatives, edge thickness and forced transition.
    pub open spec fn same_setting(&self, other: &Self) -> bool {
        &&& self.nsys == other.nsys
        &&& self.n_upper == other.n_upper
        &&& self.n_lower == other.n_lower
        &&& self.iblte_upper == other.iblte_upper
        &&& self.iblte_lower == other.iblte_lower
        &&& self.sst_go == other.sst_go
        &&& self.sst_gp == other.sst_gp
        &&& self.ante == other.ante
        &&& self.xiforc_upper == other.xiforc_upper
        &&& self.xiforc_lower == other.xiforc_lower
    }

    /// The mass columns are those of the stations, and the padding is zero.
    pub open spec fn masses_built(
        &self,
        upper: Seq<BlStation<S>>,
        lower: Seq<BlStation<S>>,
        dij: &Matrix<S>,
    ) -> bool {
        forall|iv: int, jv: int|
            0 <= iv <= self.nsys && 0 <= jv <= self.nsys ==> #[trigger] self.vm@[iv]@[jv] == (if iv
                >= 1 && jv >= 1 {
                self.mass_column(upper, lower, dij, iv, jv)
            } else {
                zeros::<S>()
            })
    }

    /// The right-hand sides are those of the base rows `base` and the velocities, and the
    /// padding is zero.
    pub open spec fn rows_built(
        &self,
        upper: Seq<BlStation<S>>,
        lower: Seq<BlStation<S>>,
        base: spec_fn(int) -> RowTables<S>,
        on_upper: SurfaceVelocities<S>,
        on_lower: SurfaceVelocities<S>,
    ) -> bool {
        &&& self.row(0) == zero_row::<S>()
        &&& self.vdel_operating@[0] == zeros::<S>()
        &&& forall|iv: int|
            1 <= iv <= self.nsys ==> #[trigger] self.row(iv) == (RowTables {
                vdel: self.forced_answer(
                    upper,
                    lower,
                    on_upper.gaps(upper.len()),
                    on_lower.gaps(lower.len()),
                    true,
                    Some(base(iv).vdel),
                    iv,
                ),
                ..base(iv)
            })
        &&& forall|iv: int|
            1 <= iv <= self.nsys ==> #[trigger] self.vdel_operating@[iv] == self.forced_answer(
                upper,
                lower,
                on_upper.operating,
                on_lower.operating,
                false,
                None,
                iv,
            )
    }

    /// The system is built for the stations of both surfaces and their inputs, from the
    /// setting of `before`: index tables, arc length, rows with both right-hand sides, mass
    /// columns and the block at the trailing edge.
    pub open spec fn built<T>(
        &self,
        before: &Self,
        upper: Seq<BlStation<S>>,
        lower: Seq<BlStation<S>>,
        on_upper: SurfaceInputs<S>,
        on_lower: SurfaceInputs<S>,
        dij: &Matrix<S>,
        iteration: usize,
        laws: BlLaws<S, T>,
        flow: Conditions<S>,
    ) -> bool {
        let u = on_upper.velocities(upper, lower, dij, 0);
        let l = on_lower.velocities(upper, lower, dij, 1);
        &&& self.same_setting(before)
        &&& self.current_iteration == iteration
        &&& self.indexed(upper, lower)
        &&& self.vti@[0] == before.vti@[0]
        &&& self.panel_idx@[0] == before.panel_idx@[0]
        &&& self.is_wake@[0] == before.is_wake@[0]
        &&& self.airfoil_arc_length == te_arc_length(
            upper,
            lower,
            before.iblte_upper as int,
            before.iblte_lower as int,
        )
        &&& self.vz == (match before.te_state(upper, lower) {
            Some(te) if before.upper_te_row() <= before.nsys && before.first_wake_row()
                <= before.nsys => te_coupling(te),
            _ => zero_coupling::<S>(),
        })
        &&& self.masses_built(upper, lower, dij)
        &&& self.rows_built(
            upper,
            lower,
            |iv: int|
                before.base_row(
                    upper,
                    lower,
                    on_upper.flow_types,
                    on_lower.flow_types,
                    laws,
                    flow,
                    iv,
                ),
            u,
            l,
        )
        &&& self.dule1 == seq_or(u.gaps(upper.len()), 1, whole::<S>(0))
        &&& self.dule2 == seq_or(l.gaps(lower.len()), 1, whole::<S>(0))
    }

    /// Clears every table but the index tables.
    fn reset(&mut self)
        requires
            arithmetic::<S>(),
            old(self).wf(),
        ensures
            final(self).wf(),
            forall|iv: int|
                0 <= iv <= old(self).nsys ==> #[trigger] final(self).row(iv) == zero_row::<S>(),
            forall|iv: int|
                0 <= iv <= old(self).nsys ==> #[trigger] final(self).vdel_operating@[iv] == zeros::<
                    S,
                >(),
            forall|iv: int, jv: int|
                0 <= iv <= old(self).nsys && 0 <= jv <= old(self).nsys ==> #[trigger] final(self).vm@[iv]@[jv] == zeros::<S>(),
            *final(self) == (GlobalNewtonSystem {
                va: final(self).va,
                vb: final(self).vb,
                vz: zero_coupling::<S>(),
                vm: final(self).vm,
                vdel: final(self).vdel,
                vdel_operating: final(self).vdel_operating,
                vs1_delta: final(self).vs1_delta,
                vs1_ue: final(self).vs1_ue,
                vs2_delta: final(self).vs2_delta,
                vs2_ue: final(self).vs2_ue,
                vs1_x: final(self).vs1_x,
                vs2_x: final(self).vs2_x,
                ..*old(self)
            }),
    {
        let n: usize = self.nsys + 1;
        let z: S = whole(0);
        let t: [S; 3] = zero_triple();
        let block: [[S; 3]; 3] = [t, t, t];
        let mut vm: Vec<Vec<[S; 3]>> = Vec::with_capacity(n);
        let mut i: usize = 0;
        while i < n
            invariant
                i <= n,
                t == zeros::<S>(),
                vm@.len() == i,
                forall|j: int|
                    0 <= j < i ==> (#[trigger] vm@[j])@ == Seq::new(n as nat, |k: int| zeros::<S>()),
            decreases n - i,
        {
            vm.push(filled(t, n));
            i = i + 1;
        }
        self.va = filled(block, n);
        self.vb = filled(block, n);
        self.vz = [[z, z], [z, z], [z, z]];
        self.vm = vm;
        self.vdel = filled(t, n);
        self.vdel_operating = filled(t, n);
        self.vs1_delta = filled(t, n);
        self.vs1_ue = filled(t, n);
        self.vs2_delta = filled(t, n);
        self.vs2_ue = filled(t, n);
        self.vs1_x = filled(t, n);
        self.vs2_x = filled(t, n);
    }

    /// Builds the system for the stations of both surfaces: index tables, equations of every
    /// interval, the interface at the trailing edge, mass columns, and both right-hand
    /// sides. A velocity distribution that does not fit the stations is replaced by that of
    /// the stations, or by the one that the masses induce.
    #[verifier::rlimit(60)]
    pub fn build_global_system<P: BlClosure<S>>(
        &mut self,
        upper_stations: &[BlStation<S>],
        lower_stations: &[BlStation<S>],
        ue_current_upper: &[S],
        ue_current_lower: &[S],
        upper_flow_types: &[FlowType],
        lower_flow_types: &[FlowType],
        dij: &Matrix<S>,
        ue_inviscid_upper: &[S],
        ue_inviscid_lower: &[S],
        ue_from_mass_upper: &[S],
        ue_from_mass_lower: &[S],
        ue_operating_upper: &[S],
        ue_operating_lower: &[S],
        ncrit: S,
        msq: S,
        re: S,
        iteration: usize,
        closure: &P,
    )
        requires
            arithmetic::<S>(),
            closure.lawful(),
            dij.wf(),
            old(self).wf(),
            upper_stations@.len() == old(self).n_upper,
            lower_stations@.len() == old(self).n_lower,
        ensures
            final(self).wf(),
            final(self).built(
                old(self),
                upper_stations@,
                lower_stations@,
                (SurfaceInputs {
                    flow_types: upper_flow_types@,
                    current: ue_current_upper@,
                    inviscid: ue_inviscid_upper@,
                    from_mass: ue_from_mass_upper@,
                    operating: ue_operating_upper@,
                }),
                (SurfaceInputs {
                    flow_types: lower_flow_types@,
                    current: ue_current_lower@,
                    inviscid: ue_inviscid_lower@,
                    from_mass: ue_from_mass_lower@,
                    operating: ue_operating_lower@,
                }),
                dij,
                iteration,
                closure.laws(),
                (Conditions { ncrit, msq, re }),
            ),
    {
        let ghost start = *self;
        let ghost laws = closure.laws();
        let ghost conditions = Conditions { ncrit, msq, re };
        let ghost upper = upper_stations@;
        let ghost lower = lower_stations@;
        self.current_iteration = iteration;
        self.reset();
        assert(self.row(0) == zero_row::<S>());
        self.setup_index_mappings(upper_stations, lower_stations);
        let zero: S = whole(0);
        let upper_arc: S = if self.iblte_upper < upper_stations.len() {
            upper_stations[self.iblte_upper].x
        } else {
            zero
        };
        let lower_arc: S = if self.iblte_lower < lower_stations.len() {
            lower_stations[self.iblte_lower].x
        } else {
            zero
        };
        self.airfoil_arc_length = upper_arc + lower_arc;
        let current_upper: Vec<S> = if ue_current_upper.len() == upper_stations.len() {
            copied(ue_current_upper)
        } else {
            station_velocities(upper_stations)
        };
        let current_lower: Vec<S> = if ue_current_lower.len() == lower_stations.len() {
            copied(ue_current_lower)
        } else {
            station_velocities(lower_stations)
        };
        let mass_upper: Vec<S> = if ue_from_mass_upper.len() == upper_stations.len() {
            copied(ue_from_mass_upper)
        } else {
            self.compute_ue_from_mass_both(
                upper_stations,
                lower_stations,
                ue_inviscid_upper,
                dij,
                0,
            )
        };
        let mass_lower: Vec<S> = if ue_from_mass_lower.len() == lower_stations.len() {
            copied(ue_from_mass_lower)
        } else {
            self.compute_ue_from_mass_both(
                upper_stations,
                lower_stations,
                ue_inviscid_lower,
                dij,
                1,
            )
        };
        let ghost cleared = *self;
        assert(cleared.row(0) == zero_row::<S>());
        self.build_surface_equations(
            upper_stations,
            upper_flow_types,
            ncrit,
            msq,
            re,
            0,
            closure,
        );
        let ghost half = *self;
        self.build_surface_equations(
            lower_stations,
            lower_flow_types,
            ncrit,
            msq,
            re,
            1,
            closure,
        );
        let ghost whole_rows = *self;
        self.apply_te_wake_interface(upper_stations, lower_stations);
        let ghost based = *self;
        let ghost base = |iv: int|
            start.base_row(
                upper,
                lower,
                upper_flow_types@,
                lower_flow_types@,
                laws,
                conditions,
                iv,
            );
        proof {
            assert forall|iv: int| 1 <= iv <= start.nsys implies #[trigger] based.row(iv) == base(
                iv,
            ) by {
                let (surface, i) = start.station_of(iv);
                if surface == 0 {
                    assert(half.row(iv) == cleared.interval_row(
                        0,
                        upper,
                        upper_flow_types@,
                        laws,
                        conditions,
                        i,
                    ));
                    assert(whole_rows.row(iv) == half.row(iv));
                    assert(cleared.interval(0, upper, upper_flow_types@, laws, conditions, i)
                        == start.interval(0, upper, upper_flow_types@, laws, conditions, i));
                } else {
                    assert(whole_rows.row(iv) == half.interval_row(
                        1,
                        lower,
                        lower_flow_types@,
                        laws,
                        conditions,
                        i,
                    ));
                    assert(half.interval(1, lower, lower_flow_types@, laws, conditions, i)
                        == start.interval(1, lower, lower_flow_types@, laws, conditions, i));
                }
                assert(based.row(iv) == whole_rows.row_with_interface(upper, lower, iv));
                assert(whole_rows.te_state(upper, lower) == start.te_state(upper, lower));
            }
            assert(half.row(0) == cleared.row(0));
            assert(whole_rows.row(0) == half.row(0));
            assert(based.row(0) == zero_row::<S>());
        }
        self.build_vm_global(upper_stations, lower_stations, dij);
        self.build_vz_block(upper_stations, lower_stations);
        let ghost coupled = *self;
        self.add_forced_changes(
            upper_stations,
            lower_stations,
            &current_upper,
            &current_lower,
            &mass_upper,
            &mass_lower,
        );
        let ghost forced = *self;
        self.build_operating_rhs(
            upper_stations,
            lower_stations,
            ue_operating_upper,
            ue_operating_lower,
        );
        proof {
            let due_upper = velocity_gaps(current_upper@, mass_upper@, upper.len());
            let due_lower = velocity_gaps(current_lower@, mass_lower@, lower.len());
            assert(current_upper@ == given_or(ue_current_upper@, velocities_of(upper)));
            assert(current_lower@ == given_or(ue_current_lower@, velocities_of(lower)));
            assert(mass_upper@ == given_or(
                ue_from_mass_upper@,
                induced_velocities(upper, lower, ue_inviscid_upper@, dij, 0),
            ));
            assert(mass_lower@ == given_or(
                ue_from_mass_lower@,
                induced_velocities(upper, lower, ue_inviscid_lower@, dij, 1),
            ));
            assert(self.row(0) == coupled.row(0));
            assert forall|iv: int| 1 <= iv <= start.nsys implies #[trigger] self.row(iv) == (
            RowTables {
                vdel: self.forced_answer(
                    upper,
                    lower,
                    due_upper,
                    due_lower,
                    true,
                    Some(base(iv).vdel),
                    iv,
                ),
                ..base(iv)
            }) by {
                assert(based.row(iv) == base(iv));
                assert(coupled.row(iv) == based.row(iv));
                assert(coupled.has_station(upper, lower, iv));
                assert(forced.vdel@[iv] == coupled.forced_answer(
                    upper,
                    lower,
                    due_upper,
                    due_lower,
                    true,
                    Some(coupled.vdel@[iv]),
                    iv,
                ));
                self.lemma_answer_ignores_residuals(
                    coupled,
                    upper,
                    lower,
                    due_upper,
                    due_lower,
                    true,
                    Some(base(iv).vdel),
                    iv,
                );
            }
            assert forall|iv: int| 1 <= iv <= start.nsys implies #[trigger] self.vdel_operating@[iv]
                == self.forced_answer(
                upper,
                lower,
                ue_operating_upper@,
                ue_operating_lower@,
                false,
                None,
                iv,
            ) by {
                assert(forced.has_station(upper, lower, iv));
                self.lemma_answer_ignores_residuals(
                    forced,
                    upper,
                    lower,
                    ue_operating_upper@,
                    ue_operating_lower@,
                    false,
                    None,
                    iv,
                );
            }
        }
    }

    /// Builds the system for a state in row form, whose stations are `upper_stations` and
    /// `lower_stations`.
    pub fn build_global_system_from_view<P: BlClosure<S>>(
        &mut self,
        state: &CanonicalNewtonStateView<S>,
        upper_stations: &[BlStation<S>],
        lower_stations: &[BlStation<S>],
        dij: &Matrix<S>,
        ncrit: S,
        msq: S,
        re: S,
        iteration: usize,
        closure: &P,
    )
        requires
            arithmetic::<S>(),
            closure.lawful(),
            dij.wf(),
            old(self).wf(),
            upper_stations@.len() == old(self).n_upper,
            lower_stations@.len() == old(self).n_lower,
        ensures
            final(self).wf(),
            final(self).built(
                &(GlobalNewtonSystem {
                    sst_go: finite_or_zero(state.sst_go),
                    sst_gp: finite_or_zero(state.sst_gp),
                    ante: state.ante,
                    ..*old(self)
                }),
                upper_stations@,
                lower_stations@,
                (SurfaceInputs {
                    flow_types: state.upper_flow_types@,
                    current: state.upper_ue_current@,
                    inviscid: state.upper_ue_inviscid@,
                    from_mass: state.upper_ue_from_mass@,
                    operating: state.upper_ue_operating@,
                }),
                (SurfaceInputs {
                    flow_types: state.lower_flow_types@,
                    current: state.lower_ue_current@,
                    inviscid: state.lower_ue_inviscid@,
                    from_mass: state.lower_ue_from_mass@,
                    operating: state.lower_ue_operating@,
                }),
                dij,
                iteration,
                closure.laws(),
                (Conditions { ncrit, msq, re }),
            ),
    {
        self.set_stagnation_derivs(state.sst_go, state.sst_gp);
        self.ante = state.ante;
        self.build_global_system(
            upper_stations,
            lower_stations,
            &state.upper_ue_current,
            &state.lower_ue_current,
            &state.upper_flow_types,
            &state.lower_flow_types,
            dij,
            &state.upper_ue_inviscid,
            &state.lower_ue_inviscid,
            &state.upper_ue_from_mass,
            &state.lower_ue_from_mass,
            &state.upper_ue_operating,
            &state.lower_ue_operating,
            ncrit,
            msq,
            re,
            iteration,
            closure,
        );
    }

    /// The answer to forced changes depends on the derivatives of a row, and not on its
    /// residuals.
    proof fn lemma_answer_ignores_residuals(
        &self,
        other: Self,
        upper: Seq<BlStation<S>>,
        lower: Seq<BlStation<S>>,
        due_upper: Seq<S>,
        due_lower: Seq<S>,
        still: bool,
        start: Option<[S; 3]>,
        iv: int,
    )
        requires
            self.same_setting(&other),
            self.row(iv) == (RowTables { vdel: self.row(iv).vdel, ..other.row(iv) }),
        ensures
            self.forced_answer(upper, lower, due_upper, due_lower, still, start, iv)
                == other.forced_answer(upper, lower, due_upper, due_lower, still, start, iv),
    {
    }
}

} // verus!
