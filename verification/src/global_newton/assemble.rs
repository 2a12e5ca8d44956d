//! Index tables, interval equations and the interface at the trailing edge.
use crate::closure::{BlClosure, BlLaws, Conditions, Interval, IntervalBlock, TransitionCheck};
use crate::global_newton::system::{zero_block, zero_triple, zeros, GlobalNewtonSystem};
use crate::number::{arithmetic, finite_or_zero, larger, tenths, tiny, whole, Formula, Real};
use crate::station::{entry_or, seq_or, BlStation, FlowType};
use vstd::prelude::*;

verus! {

/// What one row of the system keeps of its equations.
#[derive(Clone, Copy, Debug)]
pub struct RowTables<S> {
    pub va: [[S; 3]; 3],
    pub vb: [[S; 3]; 3],
    pub vdel: [S; 3],
    pub vs1_delta: [S; 3],
    pub vs1_ue: [S; 3],
    pub vs2_delta: [S; 3],
    pub vs2_ue: [S; 3],
    pub vs1_x: [S; 3],
    pub vs2_x: [S; 3],
}

/// The combined state of both surfaces at the trailing edge, and its derivatives.
#[derive(Clone, Copy, Debug)]
pub struct TeWakeTerms<S> {
    /// Momentum thickness.
    pub tte: S,
    /// Displacement thickness, with the blunt edge.
    pub dte: S,
    /// Shear stress, weighted by momentum thickness.
    pub cte: S,
    pub dte_mte1: S,
    pub dte_ute1: S,
    pub dte_mte2: S,
    pub dte_ute2: S,
    pub cte_cte1: S,
    pub cte_cte2: S,
    pub cte_tte1: S,
    pub cte_tte2: S,
}

/// A column of finite numbers.
pub open spec fn finite_column<S: Real>(m: [[S; 5]; 3], c: int) -> [S; 3] {
    [finite_or_zero(m[0][c]), finite_or_zero(m[1][c]), finite_or_zero(m[2][c])]
}

/// The first two columns of finite numbers, and a column of zeros for the mass.
pub open spec fn finite_pair<S: Real>(m: [[S; 5]; 3]) -> [[S; 3]; 3] {
    let zero = whole::<S>(0);
    [
        [finite_or_zero(m[0][0]), finite_or_zero(m[0][1]), zero],
        [finite_or_zero(m[1][0]), finite_or_zero(m[1][1]), zero],
        [finite_or_zero(m[2][0]), finite_or_zero(m[2][1]), zero],
    ]
}

/// What a row keeps of the equations of its interval. On the first interval the equations
/// do not depend on the station upstream. An entry that is not finite counts as zero.
pub open spec fn kept<S: Real>(b: IntervalBlock<S>, first: bool) -> RowTables<S> {
    RowTables {
        va: finite_pair(b.vs2),
        vb: (if first {
            zero_block::<S>()
        } else {
            finite_pair(b.vs1)
        }),
        vdel: b.residuals,
        vs1_delta: (if first {
            zeros::<S>()
        } else {
            finite_column(b.vs1, 2)
        }),
        vs1_ue: (if first {
            zeros::<S>()
        } else {
            finite_column(b.vs1, 3)
        }),
        vs2_delta: finite_column(b.vs2, 2),
        vs2_ue: finite_column(b.vs2, 3),
        vs1_x: (if first {
            zeros::<S>()
        } else {
            finite_column(b.vs1, 4)
        }),
        vs2_x: [
            finite_or_zero(b.vs2[0][4] + b.vsx[0]),
            finite_or_zero(b.vs2[1][4] + b.vsx[1]),
            finite_or_zero(b.vs2[2][4] + b.vsx[2]),
        ],
    }
}

/// Whether transition falls between two stations.
pub open spec fn changes_regime<S>(s1: BlStation<S>, s2: BlStation<S>) -> bool {
    !s1.is_turbulent && !s1.is_wake && s2.is_turbulent && !s2.is_wake
}

/// The terms of the trailing edge between two stations.
pub open spec fn te_terms<S: Real>(
    upper: BlStation<S>,
    lower: BlStation<S>,
    ante: S,
) -> TeWakeTerms<S> {
    let small = tenths::<S>(12);
    let tte = larger(upper.theta + lower.theta, small);
    let cte = (upper.ctau * upper.theta + lower.ctau * lower.theta) / tte;
    TeWakeTerms {
        tte,
        dte: upper.delta_star + lower.delta_star + ante,
        cte,
        dte_mte1: whole::<S>(1) / larger(upper.u, small),
        dte_ute1: -upper.delta_star / larger(upper.u, small),
        dte_mte2: whole::<S>(1) / larger(lower.u, small),
        dte_ute2: -lower.delta_star / larger(lower.u, small),
        cte_cte1: upper.theta / tte,
        cte_cte2: lower.theta / tte,
        cte_tte1: (upper.ctau - cte) / tte,
        cte_tte2: (lower.ctau - cte) / tte,
    }
}

/// The row of the first wake station: it takes the combined state of the trailing edge.
pub open spec fn wake_row<S: Real>(te: TeWakeTerms<S>, wake: BlStation<S>) -> RowTables<S> {
    let zero = whole::<S>(0);
    let one = whole::<S>(1);
    RowTables {
        va: [[one, zero, zero], [zero, one, zero], zeros::<S>()],
        vb: [[-te.cte_cte2, -te.cte_tte2, zero], [zero, -one, zero], zeros::<S>()],
        vdel: [
            te.cte - wake.ctau,
            te.tte - wake.theta,
            te.dte - (wake.delta_star + wake.dw),
        ],
        vs1_delta: [zero, zero, -one],
        vs1_ue: zeros::<S>(),
        vs2_delta: [zero, zero, one],
        vs2_ue: zeros::<S>(),
        vs1_x: zeros::<S>(),
        vs2_x: zeros::<S>(),
    }
}

/// The block that ties the upper trailing edge to the first wake station.
pub open spec fn te_coupling<S: Real>(te: TeWakeTerms<S>) -> [[S; 2]; 3] {
    let zero = whole::<S>(0);
    [[-te.cte_cte1, -te.cte_tte1], [zero, -whole::<S>(1)], [zero, zero]]
}

/// The sum of the trailing edge arc lengths of both surfaces. A surface without the station
/// counts nothing.
pub open spec fn te_arc_length<S: Real>(
    upper: Seq<BlStation<S>>,
    lower: Seq<BlStation<S>>,
    iblte_upper: int,
    iblte_lower: int,
) -> S {
    let u = if iblte_upper < upper.len() {
        upper[iblte_upper].x
    } else {
        whole::<S>(0)
    };
    let l = if iblte_lower < lower.len() {
        lower[iblte_lower].x
    } else {
        whole::<S>(0)
    };
    u + l
}

/// What a row keeps of the equations of its interval.
fn keep<S: Real>(b: &IntervalBlock<S>, first: bool) -> (r: RowTables<S>)
    requires
        arithmetic::<S>(),
    ensures
        r == kept(*b, first),
{
    let zero: S = whole(0);
    let none: [S; 3] = zero_triple();
    let va: [[S; 3]; 3] = [
        [finite_or_zero(b.vs2[0][0]), finite_or_zero(b.vs2[0][1]), zero],
        [finite_or_zero(b.vs2[1][0]), finite_or_zero(b.vs2[1][1]), zero],
        [finite_or_zero(b.vs2[2][0]), finite_or_zero(b.vs2[2][1]), zero],
    ];
    let vs2_x: [S; 3] = [
        finite_or_zero(b.vs2[0][4] + b.vsx[0]),
        finite_or_zero(b.vs2[1][4] + b.vsx[1]),
        finite_or_zero(b.vs2[2][4] + b.vsx[2]),
    ];
    if first {
        RowTables {
            va,
            vb: [none, none, none],
            vdel: b.residuals,
            vs1_delta: none,
            vs1_ue: none,
            vs2_delta: column(&b.vs2, 2),
            vs2_ue: column(&b.vs2, 3),
            vs1_x: none,
            vs2_x,
        }
    } else {
        RowTables {
            va,
            vb: [
                [finite_or_zero(b.vs1[0][0]), finite_or_zero(b.vs1[0][1]), zero],
                [finite_or_zero(b.vs1[1][0]), finite_or_zero(b.vs1[1][1]), zero],
                [finite_or_zero(b.vs1[2][0]), finite_or_zero(b.vs1[2][1]), zero],
            ],
            vdel: b.residuals,
            vs1_delta: column(&b.vs1, 2),
            vs1_ue: column(&b.vs1, 3),
            vs2_delta: column(&b.vs2, 2),
            vs2_ue: column(&b.vs2, 3),
            vs1_x: column(&b.vs1, 4),
            vs2_x,
        }
    }
}

/// A column of finite numbers.
fn column<S: Real>(m: &[[S; 5]; 3], c: usize) -> (r: [S; 3])
    requires
        arithmetic::<S>(),
        c < 5,
    ensures
        r == finite_column(*m, c as int),
{
    [finite_or_zero(m[0][c]), finite_or_zero(m[1][c]), finite_or_zero(m[2][c])]
}

impl<S: Real> GlobalNewtonSystem<S> {
    /// What row `iv` keeps of its equations.
    pub open spec fn row(&self, iv: int) -> RowTables<S> {
        RowTables {
            va: self.va@[iv],
            vb: self.vb@[iv],
            vdel: self.vdel@[iv],
            vs1_delta: self.vs1_delta@[iv],
            vs1_ue: self.vs1_ue@[iv],
            vs2_delta: self.vs2_delta@[iv],
            vs2_ue: self.vs2_ue@[iv],
            vs1_x: self.vs1_x@[iv],
            vs2_x: self.vs2_x@[iv],
        }
    }

    /// Nothing but the rows differs from `other`.
    pub open spec fn differs_in_rows(&self, other: &Self) -> bool {
        *self == (GlobalNewtonSystem {
            va: self.va,
            vb: self.vb,
            vdel: self.vdel,
            vs1_delta: self.vs1_delta,
            vs1_ue: self.vs1_ue,
            vs2_delta: self.vs2_delta,
            vs2_ue: self.vs2_ue,
            vs1_x: self.vs1_x,
            vs2_x: self.vs2_x,
            ..*other
        })
    }

    /// Writes row `iv`.
    fn set_row(&mut self, iv: usize, t: RowTables<S>)
        requires
            old(self).wf(),
            iv <= old(self).nsys,
        ensures
            final(self).wf(),
            final(self).differs_in_rows(old(self)),
            forall|i: int|
                0 <= i <= old(self).nsys ==> #[trigger] final(self).row(i) == (if i == iv {
                    t
                } else {
                    old(self).row(i)
                }),
    {
        self.va[iv] = t.va;
        self.vb[iv] = t.vb;
        self.vdel[iv] = t.vdel;
        self.vs1_delta[iv] = t.vs1_delta;
        self.vs1_ue[iv] = t.vs1_ue;
        self.vs2_delta[iv] = t.vs2_delta;
        self.vs2_ue[iv] = t.vs2_ue;
        self.vs1_x[iv] = t.vs1_x;
        self.vs2_x[iv] = t.vs2_x;
    }

    /// The sign, the panel and the wake flag of the station of row `iv`.
    pub open spec fn station_index(
        &self,
        upper: Seq<BlStation<S>>,
        lower: Seq<BlStation<S>>,
        iv: int,
    ) -> (S, usize, bool) {
        let (surface, ibl) = self.station_of(iv);
        if surface == 0 {
            (whole::<S>(1), upper[ibl].panel_idx, ibl > self.iblte_upper)
        } else {
            (-whole::<S>(1), lower[ibl].panel_idx, ibl > self.iblte_lower)
        }
    }

    /// The sign, the panel and the wake flag of every row are those of its station.
    pub open spec fn indexed(&self, upper: Seq<BlStation<S>>, lower: Seq<BlStation<S>>) -> bool {
        forall|iv: int|
            1 <= iv <= self.nsys ==> (
                #[trigger] self.vti@[iv],
                self.panel_idx@[iv],
                self.is_wake@[iv],
            ) == self.station_index(upper, lower, iv)
    }

    /// Sets the sign, the panel and the wake flag of every row from its station.
    pub fn setup_index_mappings(
        &mut self,
        upper_stations: &[BlStation<S>],
        lower_stations: &[BlStation<S>],
    )
        requires
            arithmetic::<S>(),
            old(self).wf(),
            upper_stations@.len() >= old(self).n_upper,
            lower_stations@.len() >= old(self).n_lower,
        ensures
            final(self).wf(),
            final(self).indexed(upper_stations@, lower_stations@),
            final(self).vti@[0] == old(self).vti@[0],
            final(self).panel_idx@[0] == old(self).panel_idx@[0],
            final(self).is_wake@[0] == old(self).is_wake@[0],
            *final(self) == (GlobalNewtonSystem {
                vti: final(self).vti,
                panel_idx: final(self).panel_idx,
                is_wake: final(self).is_wake,
                ..*old(self)
            }),
    {
        let ghost before = *self;
        let one: S = whole(1);
        let mut iv: usize = 1;
        while iv <= self.nsys
            invariant
                arithmetic::<S>(),
                before.wf(),
                self.wf(),
                one == whole::<S>(1),
                1 <= iv <= self.nsys + 1,
                upper_stations@.len() >= self.n_upper,
                lower_stations@.len() >= self.n_lower,
                *self == (GlobalNewtonSystem {
                    vti: self.vti,
                    panel_idx: self.panel_idx,
                    is_wake: self.is_wake,
                    ..before
                }),
                self.vti@[0] == before.vti@[0],
                self.panel_idx@[0] == before.panel_idx@[0],
                self.is_wake@[0] == before.is_wake@[0],
                forall|i: int|
                    1 <= i < iv ==> (
                        #[trigger] self.vti@[i],
                        self.panel_idx@[i],
                        self.is_wake@[i],
                    ) == before.station_index(upper_stations@, lower_stations@, i),
            decreases self.nsys + 1 - iv,
        {
            let (surface, ibl): (usize, usize) = self.from_global(iv);
            let (sign, panel, wake): (S, usize, bool) = if surface == 0 {
                (one, upper_stations[ibl].panel_idx, ibl > self.iblte_upper)
            } else {
                (one.neg(), lower_stations[ibl].panel_idx, ibl > self.iblte_lower)
            };
            self.vti[iv] = sign;
            self.panel_idx[iv] = panel;
            self.is_wake[iv] = wake;
            iv = iv + 1;
        }
    }

    /// The arc length at which transition is forced on a surface: its own, or that of the
    /// trailing edge.
    pub open spec fn forced_arc_length(
        &self,
        surface: int,
        stations: Seq<BlStation<S>>,
    ) -> Option<S> {
        let (own, te) = if surface == 0 {
            (self.xiforc_upper, self.iblte_upper)
        } else {
            (self.xiforc_lower, self.iblte_lower)
        };
        if own is Some {
            own
        } else if te < stations.len() {
            Some(stations[te as int].x)
        } else {
            None
        }
    }

    /// The equations of the interval before station `i`: the similarity solution on the
    /// first, the transition equations where the regime changes and the transition check
    /// finds transition, and the equations of the regime on any other.
    pub open spec fn interval<T>(
        &self,
        surface: int,
        stations: Seq<BlStation<S>>,
        flow_types: Seq<FlowType>,
        laws: BlLaws<S, T>,
        flow: Conditions<S>,
        i: int,
    ) -> Interval<S, T> {
        let s1 = stations[i - 1];
        let s2 = stations[i];
        let regime = seq_or(flow_types, i - 1, FlowType::Laminar);
        let tr = (laws.trchek)(
            s1,
            s2,
            flow.ncrit,
            self.forced_arc_length(surface, stations),
            flow.msq,
            flow.re,
        );
        if i == 1 {
            Interval::Similarity { s2, flow: regime }
        } else if changes_regime(s1, s2) && tr.transition {
            Interval::Transition { s1, s2, transition: tr.detail }
        } else {
            Interval::Regular { s1, s2, flow: regime }
        }
    }

    /// What the row of station `i` keeps of the equations of its interval.
    pub open spec fn interval_row<T>(
        &self,
        surface: int,
        stations: Seq<BlStation<S>>,
        flow_types: Seq<FlowType>,
        laws: BlLaws<S, T>,
        flow: Conditions<S>,
        i: int,
    ) -> RowTables<S> {
        kept(
            (laws.equations)(
                self.interval(surface, stations, flow_types, laws, flow, i),
                flow.ncrit,
                flow.msq,
                flow.re,
            ),
            i == 1,
        )
    }

    /// Writes the rows of a surface from the equations of its intervals.
    pub fn build_surface_equations<P: BlClosure<S>>(
        &mut self,
        stations: &[BlStation<S>],
        flow_types: &[FlowType],
        ncrit: S,
        msq: S,
        re: S,
        surface: usize,
        closure: &P,
    )
        requires
            arithmetic::<S>(),
            closure.lawful(),
            old(self).wf(),
            surface == 0 || old(self).n_upper - 1 + stations@.len() <= usize::MAX,
        ensures
            final(self).wf(),
            final(self).differs_in_rows(old(self)),
            forall|iv: int|
                0 <= iv <= old(self).nsys ==> {
                    let i = iv - old(self).row_of(surface as int, 0);
                    #[trigger] final(self).row(iv) == (if 1 <= i < stations@.len() {
                        old(self).interval_row(
                            surface as int,
                            stations@,
                            flow_types@,
                            closure.laws(),
                            (Conditions { ncrit, msq, re }),
                            i,
                        )
                    } else {
                        old(self).row(iv)
                    })
                },
    {
        let ghost before = *self;
        let ghost conditions = Conditions { ncrit, msq, re };
        let mut i: usize = 1;
        while i < stations.len()
            invariant
                arithmetic::<S>(),
                closure.lawful(),
                before.wf(),
                self.wf(),
                conditions == (Conditions { ncrit, msq, re }),
                surface == 0 || self.n_upper - 1 + stations@.len() <= usize::MAX,
                self.differs_in_rows(&before),
                1 <= i,
                i <= stations@.len() || i == 1,
                forall|iv: int|
                    0 <= iv <= before.nsys ==> {
                        let k = iv - before.row_of(surface as int, 0);
                        #[trigger] self.row(iv) == (if 1 <= k < i {
                            before.interval_row(
                                surface as int,
                                stations@,
                                flow_types@,
                                closure.laws(),
                                conditions,
                                k,
                            )
                        } else {
                            before.row(iv)
                        })
                    },
            decreases stations@.len() - i,
        {
            let iv: usize = self.to_global(surface, i);
            if iv <= self.nsys {
                let s1: BlStation<S> = stations[i - 1];
                let s2: BlStation<S> = stations[i];
                let flow: FlowType = entry_or(flow_types, i - 1, FlowType::Laminar);
                let interval: Interval<S, P::Transition> = if i == 1 {
                    Interval::Similarity { s2, flow }
                } else if !s1.is_turbulent && !s1.is_wake && s2.is_turbulent && !s2.is_wake {
                    let forced: Option<S> = self.forced_arc_length_of(surface, stations);
                    let tr: TransitionCheck<S, P::Transition> = closure.trchek(
                        s1,
                        s2,
                        ncrit,
                        forced,
                        msq,
                        re,
                    );
                    if tr.transition {
                        Interval::Transition { s1, s2, transition: tr.detail }
                    } else {
                        Interval::Regular { s1, s2, flow }
                    }
                } else {
                    Interval::Regular { s1, s2, flow }
                };
                assert(interval == before.interval(
                    surface as int,
                    stations@,
                    flow_types@,
                    closure.laws(),
                    conditions,
                    i as int,
                ));
                let block: IntervalBlock<S> = closure.equations(interval, ncrit, msq, re);
                let t: RowTables<S> = keep(&block, i == 1);
                self.set_row(iv, t);
            }
            i = i + 1;
        }
    }

    /// The arc length at which transition is forced on a surface.
    fn forced_arc_length_of(&self, surface: usize, stations: &[BlStation<S>]) -> (r: Option<S>)
        ensures
            r == self.forced_arc_length(surface as int, stations@),
    {
        let (own, te): (Option<S>, usize) = if surface == 0 {
            (self.xiforc_upper, self.iblte_upper)
        } else {
            (self.xiforc_lower, self.iblte_lower)
        };
        match own {
            Some(x) => Some(x),
            None => if te < stations.len() {
                Some(stations[te].x)
            } else {
                None
            },
        }
    }

    /// The terms of the trailing edge: none without both edge stations and a wake station.
    pub open spec fn te_state(
        &self,
        upper: Seq<BlStation<S>>,
        lower: Seq<BlStation<S>>,
    ) -> Option<TeWakeTerms<S>> {
        if self.iblte_upper < upper.len() && self.iblte_lower + 1 < lower.len() {
            Some(
                te_terms(
                    upper[self.iblte_upper as int],
                    lower[self.iblte_lower as int],
                    self.ante,
                ),
            )
        } else {
            None
        }
    }

    /// The terms of the trailing edge: none without both edge stations and a wake station.
    pub fn te_wake_terms(
        &self,
        upper_stations: &[BlStation<S>],
        lower_stations: &[BlStation<S>],
    ) -> (r: Option<TeWakeTerms<S>>)
        requires
            arithmetic::<S>(),
            self.iblte_lower < usize::MAX,
        ensures
            r == self.te_state(upper_stations@, lower_stations@),
    {
        if self.iblte_upper >= upper_stations.len() || self.iblte_lower + 1
            >= lower_stations.len() {
            return None;
        }
        let upper: BlStation<S> = upper_stations[self.iblte_upper];
        let lower: BlStation<S> = lower_stations[self.iblte_lower];
        let small: S = tiny(12);
        let one: S = whole(1);
        let tte: S = larger(upper.theta + lower.theta, small);
        let cte: S = (upper.ctau * upper.theta + lower.ctau * lower.theta) / tte;
        Some(
            TeWakeTerms {
                tte,
                dte: upper.delta_star + lower.delta_star + self.ante,
                cte,
                dte_mte1: one / larger(upper.u, small),
                dte_ute1: upper.delta_star.neg() / larger(upper.u, small),
                dte_mte2: one / larger(lower.u, small),
                dte_ute2: lower.delta_star.neg() / larger(lower.u, small),
                cte_cte1: upper.theta / tte,
                cte_cte2: lower.theta / tte,
                cte_tte1: (upper.ctau - cte) / tte,
                cte_tte2: (lower.ctau - cte) / tte,
            },
        )
    }

    /// Row `iv` after the interface at the trailing edge has replaced the row of the first
    /// wake station.
    pub open spec fn row_with_interface(
        &self,
        upper: Seq<BlStation<S>>,
        lower: Seq<BlStation<S>>,
        iv: int,
    ) -> RowTables<S> {
        match self.te_state(upper, lower) {
            Some(te) if iv == self.first_wake_row() => wake_row(
                te,
                lower[self.iblte_lower + 1],
            ),
            _ => self.row(iv),
        }
    }

    /// Replaces the row of the first wake station: it takes the combined state of the
    /// trailing edge.
    pub fn apply_te_wake_interface(
        &mut self,
        upper_stations: &[BlStation<S>],
        lower_stations: &[BlStation<S>],
    )
        requires
            arithmetic::<S>(),
            old(self).wf(),
        ensures
            final(self).wf(),
            final(self).differs_in_rows(old(self)),
            forall|iv: int|
                0 <= iv <= old(self).nsys ==> #[trigger] final(self).row(iv) == old(self).row_with_interface(upper_stations@, lower_stations@, iv),
    {
        match self.te_wake_terms(upper_stations, lower_stations) {
            None => {},
            Some(te) => {
                let iv: usize = self.to_global(1, self.iblte_lower + 1);
                if iv <= self.nsys {
                    let wake: BlStation<S> = lower_stations[self.iblte_lower + 1];
                    let zero: S = whole(0);
                    let one: S = whole(1);
                    let none: [S; 3] = zero_triple();
                    let t = RowTables {
                        va: [[one, zero, zero], [zero, one, zero], none],
                        vb: [
                            [te.cte_cte2.neg(), te.cte_tte2.neg(), zero],
                            [zero, one.neg(), zero],
                            none,
                        ],
                        vdel: [
                            te.cte - wake.ctau,
                            te.tte - wake.theta,
                            te.dte - (wake.delta_star + wake.dw),
                        ],
                        vs1_delta: [zero, zero, one.neg()],
                        vs1_ue: none,
                        vs2_delta: [zero, zero, one],
                        vs2_ue: none,
                        vs1_x: none,
                        vs2_x: none,
                    };
                    self.set_row(iv, t);
                }
            },
        }
    }

    /// Sets the block that ties the upper trailing edge to the first wake station. It stays
    /// as it is where the system or the stations lack one of the two.
    pub fn build_vz_block(
        &mut self,
        upper_stations: &[BlStation<S>],
        lower_stations: &[BlStation<S>],
    )
        requires
            arithmetic::<S>(),
            old(self).wf(),
        ensures
            *final(self) == (GlobalNewtonSystem {
                vz: (match old(self).te_state(upper_stations@, lower_stations@) {
                    Some(te) if old(self).upper_te_row() <= old(self).nsys && old(self).first_wake_row() <= old(self).nsys => te_coupling(te),
                    _ => old(self).vz,
                }),
                ..*old(self)
            }),
    {
        let te_row: usize = self.to_global(0, self.iblte_upper);
        let wake: usize = self.to_global(1, self.iblte_lower + 1);
        if te_row > self.nsys || wake > self.nsys {
            return ;
        }
        match self.te_wake_terms(upper_stations, lower_stations) {
            None => {},
            Some(te) => {
                let zero: S = whole(0);
                let one: S = whole(1);
                self.vz = [
                    [te.cte_cte1.neg(), te.cte_tte1.neg()],
                    [zero, one.neg()],
                    [zero, zero],
                ];
            },
        }
    }
}

} // verus!
