//! What the rows of a built system say of the boundary layer.
use super::algebra::{
    lemma_associate, lemma_cancel, lemma_commute, lemma_difference, lemma_distribute, lemma_one,
    lemma_opposite, lemma_positive_product, lemma_product_order, lemma_quotient, lemma_swap,
    lemma_zero,
};
use super::{exact, lemma_tens, lemma_tenths};
use crate::closure::{BlLaws, Conditions, IntervalBlock};
use crate::global_newton::assemble::{kept, te_coupling, te_terms, wake_row, RowTables, TeWakeTerms};
use crate::global_newton::coupling::{
    dstar_by_velocity, forced_sum, mass_answer, shift_term, surface_of, velocity_by_mass,
    SurfaceInputs,
};
use crate::global_newton::influence::{
    both_surfaces_sum, direction, induced_velocity, influence, points_of, surface_sum, EdgePoint,
};
use crate::global_newton::system::GlobalNewtonSystem;
use crate::number::{abs, is_finite, larger, tens, tenths, whole, Formula, Real};
use crate::station::{seq_or, BlStation, Matrix};
use vstd::prelude::*;

verus! {

/// The stations of a surface, with another mass defect at station `j` of surface `sj`.
pub open spec fn with_mass<S>(
    stations: Seq<BlStation<S>>,
    surface: int,
    sj: int,
    j: int,
    mass: S,
) -> Seq<BlStation<S>> {
    if surface == sj {
        stations.update(j, BlStation { mass_defect: mass, ..stations[j] })
    } else {
        stations
    }
}

/// How the velocity that the masses induce at station `i` of a surface changes, when the mass
/// defect at station `j` of surface `sj` becomes `mass`.
pub open spec fn velocity_change_by_mass<S: Real>(
    v: spec_fn(S) -> real,
    upper: Seq<BlStation<S>>,
    lower: Seq<BlStation<S>>,
    inviscid: Seq<S>,
    dij: &Matrix<S>,
    sj: int,
    j: int,
    mass: S,
    surface: int,
    i: int,
) -> real {
    v(
        induced_velocity(
            points_of(with_mass(upper, 0, sj, j, mass)),
            points_of(with_mass(lower, 1, sj, j, mass)),
            inviscid,
            dij,
            surface as usize,
            i,
        ),
    ) - v(
        induced_velocity(points_of(upper), points_of(lower), inviscid, dij, surface as usize, i),
    )
}

/// The sum over a surface, when the mass of one station changes.
proof fn lemma_sum_change<S: Real>(
    v: spec_fn(S) -> real,
    a: S,
    b: S,
    dij: &Matrix<S>,
    si: usize,
    panel_i: usize,
    sj: usize,
    p: Seq<EdgePoint<S>>,
    q: Seq<EdgePoint<S>>,
    j: int,
    n: int,
)
    requires
        exact(v),
        p.len() == q.len(),
        n <= p.len(),
        0 <= j < p.len() || j == -1,
        forall|k: int| 0 <= k < p.len() && k != j ==> #[trigger] p[k] == q[k],
        0 <= j ==> p[j].panel_idx == q[j].panel_idx,
    ensures
        v(surface_sum(b, dij, si, panel_i, sj, q, n)) - v(
            surface_sum(a, dij, si, panel_i, sj, p, n),
        ) == v(b) - v(a) + (if 1 <= j < n && p[j].panel_idx < dij.ncols {
            v(influence(dij, si, panel_i, sj, p[j].panel_idx)) * (v(q[j].mass) - v(p[j].mass))
        } else {
            0real
        }),
    decreases n,
{
    if n > 1 {
        lemma_sum_change(v, a, b, dij, si, panel_i, sj, p, q, j, n - 1);
        if n - 1 != j {
            assert(p[n - 1] == q[n - 1]);
        } else if p[j].panel_idx < dij.ncols {
            lemma_difference(
                v(influence(dij, si, panel_i, sj, p[j].panel_idx)),
                v(q[j].mass),
                v(p[j].mass),
            );
        }
    }
}

/// The derivative of a velocity by a mass is that of the velocity that the masses induce: for
/// every pair of stations, on the same surface or on different ones.
pub proof fn law_velocity_answers_to_mass<S: Real>(
    v: spec_fn(S) -> real,
    upper: Seq<BlStation<S>>,
    lower: Seq<BlStation<S>>,
    inviscid: Seq<S>,
    dij: &Matrix<S>,
    sj: int,
    j: int,
    mass: S,
    surface: int,
    i: int,
)
    requires
        exact(v),
        0 <= sj <= 1,
        0 <= surface <= 1,
        1 <= j < surface_of(upper, lower, sj).len(),
        0 <= i < surface_of(upper, lower, surface).len(),
    ensures
        ({
            let at = surface_of(upper, lower, surface)[i];
            let source = surface_of(upper, lower, sj)[j];
            velocity_change_by_mass(v, upper, lower, inviscid, dij, sj, j, mass, surface, i) == (v(
                mass,
            ) - v(source.mass_defect)) * v(
                velocity_by_mass(
                    dij,
                    direction::<S>(surface as usize),
                    at.panel_idx,
                    direction::<S>(sj as usize),
                    source.panel_idx,
                ),
            )
        }),
{
    let up = points_of(upper);
    let lo = points_of(lower);
    let up2 = points_of(with_mass(upper, 0, sj, j, mass));
    let lo2 = points_of(with_mass(lower, 1, sj, j, mass));
    let at = surface_of(upper, lower, surface)[i];
    let source = surface_of(upper, lower, sj)[j];
    let zero = whole::<S>(0);
    let si = surface as usize;
    let panel = at.panel_idx;
    let dm = v(mass) - v(source.mass_defect);
    let ju = if sj == 0 {
        j
    } else {
        -1
    };
    let jl = if sj == 1 {
        j
    } else {
        -1
    };
    assert(up2.len() == up.len() && lo2.len() == lo.len());
    lemma_sum_change(v, zero, zero, dij, si, panel, 0, up, up2, ju, up.len() as int);
    let a = surface_sum(zero, dij, si, panel, 0, up, up.len() as int);
    let b = surface_sum(zero, dij, si, panel, 0, up2, up.len() as int);
    lemma_sum_change(v, a, b, dij, si, panel, 1, lo, lo2, jl, lo.len() as int);
    assert(both_surfaces_sum(zero, dij, si, panel, up, lo) == surface_sum(
        a,
        dij,
        si,
        panel,
        1,
        lo,
        lo.len() as int,
    ));
    assert(both_surfaces_sum(zero, dij, si, panel, up2, lo2) == surface_sum(
        b,
        dij,
        si,
        panel,
        1,
        lo2,
        lo.len() as int,
    ));
    let p2 = if surface == 0 {
        up2[i]
    } else {
        lo2[i]
    };
    assert(p2.panel_idx == panel);
    let c = influence(dij, si, panel, sj as usize, source.panel_idx);
    lemma_commute(v(c), dm);
    lemma_zero(dm);
}

/// The velocity of a station is large enough to divide by.
pub open spec fn runs<S: Real>(v: spec_fn(S) -> real, s: BlStation<S>) -> bool {
    v(s.u) > v(tenths::<S>(12))
}

/// A change `dd` of the displacement thickness goes with a change `dm` of the mass defect and
/// `du` of the velocity: the mass defect stays their product, to first order.
pub open spec fn follows<S: Real>(
    v: spec_fn(S) -> real,
    s: BlStation<S>,
    dm: real,
    du: real,
    dd: real,
) -> bool {
    v(s.u) * dd + v(s.mass_defect) / v(s.u) * du == dm
}

/// The same at the trailing edge, where the thickness of the station itself counts.
pub open spec fn follows_at_the_edge<S: Real>(
    v: spec_fn(S) -> real,
    s: BlStation<S>,
    dm: real,
    du: real,
    dd: real,
) -> bool {
    v(s.u) * dd + v(s.delta_star) * du == dm
}

/// Changes of the velocities and of the mass defects of all stations, by surface and station.
pub struct Changes {
    pub du: spec_fn(int, int) -> real,
    pub dm: spec_fn(int, int) -> real,
}

/// What equation `k` of row `iv` makes of changes of thickness and velocity at both ends of
/// its interval, and of a shift of the stagnation point.
pub open spec fn row_answer<S: Real>(
    v: spec_fn(S) -> real,
    t: RowTables<S>,
    k: int,
    dd1: real,
    du1: real,
    dd2: real,
    du2: real,
    dx: real,
) -> real {
    v(t.vs1_delta[k]) * dd1 + v(t.vs1_ue[k]) * du1 + v(t.vs2_delta[k]) * dd2 + v(t.vs2_ue[k]) * du2
        + (v(t.vs1_x[k]) + v(t.vs2_x[k])) * dx
}

impl<S: Real> GlobalNewtonSystem<S> {
    /// How the arc lengths of a surface change with the velocities right behind the
    /// stagnation point: what one surface gains, the other loses.
    pub open spec fn arc_change(&self, v: spec_fn(S) -> real, c: Changes, surface: int) -> real {
        let gain = v(self.sst_go) * (c.du)(0, 1) - v(self.sst_gp) * (c.du)(1, 1);
        if surface == 0 {
            gain
        } else {
            -gain
        }
    }

    /// The changes of thickness at both ends of the interval of row `iv` go with those of
    /// mass defect and velocity. Upstream of the first wake station lies the trailing edge,
    /// whose thickness is the sum of those of its two stations.
    pub open spec fn thickens(
        &self,
        v: spec_fn(S) -> real,
        upper: Seq<BlStation<S>>,
        lower: Seq<BlStation<S>>,
        c: Changes,
        iv: int,
        dd1: (real, real),
        dd2: real,
    ) -> bool {
        let (surface, i) = self.station_of(iv);
        let stations = surface_of(upper, lower, surface);
        let te = (self.iblte_upper as int, self.iblte_lower as int);
        &&& follows(v, stations[i], (c.dm)(surface, i), (c.du)(surface, i), dd2)
        &&& if iv == self.first_wake_row() {
            &&& follows_at_the_edge(v, upper[te.0], (c.dm)(0, te.0), (c.du)(0, te.0), dd1.0)
            &&& follows_at_the_edge(v, lower[te.1], (c.dm)(1, te.1), (c.du)(1, te.1), dd1.1)
        } else {
            &&& dd1.1 == 0real
            &&& i > 1 ==> follows(
                v,
                stations[i - 1],
                (c.dm)(surface, i - 1),
                (c.du)(surface, i - 1),
                dd1.0,
            )
        }
    }

    /// The velocities that the interval of row `iv` divides by are large enough, and the
    /// first wake station has a trailing edge before it.
    pub open spec fn flows(
        &self,
        v: spec_fn(S) -> real,
        upper: Seq<BlStation<S>>,
        lower: Seq<BlStation<S>>,
        iv: int,
    ) -> bool {
        let (surface, i) = self.station_of(iv);
        let stations = surface_of(upper, lower, surface);
        &&& runs(v, stations[i])
        &&& if iv == self.first_wake_row() {
            &&& self.iblte_upper < upper.len()
            &&& 1 <= self.iblte_lower < lower.len() - 1
            &&& runs(v, upper[self.iblte_upper as int])
            &&& runs(v, lower[self.iblte_lower as int])
        } else {
            i > 1 ==> runs(v, stations[i - 1])
        }
    }
}

/// The thickness change at a station, from the mass and the velocity.
proof fn lemma_follows<S: Real>(
    v: spec_fn(S) -> real,
    s: BlStation<S>,
    dm: real,
    du: real,
    dd: real,
)
    requires
        exact(v),
        runs(v, s),
        follows(v, s, dm, du, dd),
    ensures
        dd == dm * (1real / v(s.u)) + v(dstar_by_velocity(s)) * du,
        v(s.u) > 0real,
        abs(s.u) > tenths::<S>(20),
{
    lemma_tenths(v, 12);
    lemma_twenty(v);
    let u = v(s.u);
    let m = v(s.mass_defect);
    let q = m / u;
    let d = v(dstar_by_velocity(s));
    assert(d == -q / u);
    lemma_quotient(-q, u);
    assert(u * d == -q);
    lemma_associate(u, d, du);
    lemma_commute(-q, du);
    lemma_opposite(du, q);
    lemma_commute(du, q);
    lemma_swap(u, dm, 1real / u);
    lemma_quotient(1real, u);
    lemma_one(dm);
    let e = dm * (1real / u) + d * du;
    lemma_distribute(u, dm * (1real / u), d * du);
    assert(u * e == dm - q * du);
    assert(u * dd == u * e);
    lemma_cancel(u, dd);
    lemma_cancel(u, e);
}

/// The smaller of two negative powers of ten.
proof fn lemma_twenty<S: Real>(v: spec_fn(S) -> real)
    requires
        exact(v),
    ensures
        v(tenths::<S>(20)) < v(tenths::<S>(12)),
{
    let a = v(tens::<S>(12));
    let b = v(tens::<S>(20));
    lemma_tens(v, 12);
    lemma_more_tens(v, 12, 8);
    lemma_quotient(1real, a);
    lemma_quotient(1real, b);
    let (p, q) = (1real / a, 1real / b);
    lemma_tenths(v, 12);
    lemma_tenths(v, 20);
    if q >= p {
        lemma_product_order(p, q, b);
        lemma_product_order(a, b, p);
        lemma_commute(a, p);
        lemma_commute(b, p);
        assert(p * b <= 1real);
        assert(b * p >= a * p);
        lemma_positive_product(b - a, p);
        lemma_commute(b - a, p);
        lemma_difference(p, b, a);
    }
}

/// Powers of ten grow.
proof fn lemma_more_tens<S: Real>(v: spec_fn(S) -> real, k: nat, n: nat)
    requires
        exact(v),
    ensures
        n > 0 ==> v(tens::<S>(k + n)) > v(tens::<S>(k)),
    decreases n,
{
    if n > 0 {
        lemma_more_tens(v, k, (n - 1) as nat);
        lemma_tens(v, (k + n - 1) as nat);
        assert(v(whole::<S>(10)) == 10real);
    }
}

/// The thickness change at a station of the trailing edge.
proof fn lemma_edge<S: Real>(
    v: spec_fn(S) -> real,
    s: BlStation<S>,
    dm: real,
    du: real,
    dd: real,
)
    requires
        exact(v),
        runs(v, s),
        follows_at_the_edge(v, s, dm, du, dd),
    ensures
        ({
            let u = larger(s.u, tenths::<S>(12));
            dd == dm * v(whole::<S>(1) / u) + v(-s.delta_star / u) * du
        }),
{
    lemma_tenths(v, 12);
    let u = v(s.u);
    assert(v(larger(s.u, tenths::<S>(12))) == u);
    let d = -v(s.delta_star) / u;
    lemma_quotient(-v(s.delta_star), u);
    lemma_associate(u, d, du);
    lemma_commute(-v(s.delta_star), du);
    lemma_opposite(du, v(s.delta_star));
    lemma_commute(du, v(s.delta_star));
    lemma_swap(u, dm, 1real / u);
    lemma_quotient(1real, u);
    lemma_one(dm);
    let e = dm * (1real / u) + d * du;
    lemma_distribute(u, dm * (1real / u), d * du);
    assert(u * dd == u * e);
    lemma_cancel(u, dd);
    lemma_cancel(u, e);
}

/// A sum of five products, times a number.
proof fn lemma_five(
    w: real,
    a: real,
    b: real,
    c: real,
    d: real,
    e: real,
    p: real,
    q: real,
    r: real,
    s: real,
    t: real,
)
    ensures
        w * (a * p + b * q + c * r + d * s + e * t) == a * (w * p) + b * (w * q) + c * (w * r) + d
            * (w * s) + e * (w * t),
{
    lemma_swap(w, a, p);
    lemma_swap(w, b, q);
    lemma_swap(w, c, r);
    lemma_swap(w, d, s);
    lemma_swap(w, e, t);
    lemma_distribute(w, a * p + b * q + c * r + d * s, e * t);
    lemma_distribute(w, a * p + b * q + c * r, d * s);
    lemma_distribute(w, a * p + b * q, c * r);
    lemma_distribute(w, a * p, b * q);
}

/// The changes that follow when the mass defect at station `j` of surface `sj` becomes `mass`:
/// those of the velocities that the masses induce.
pub open spec fn changes_by_mass<S: Real>(
    v: spec_fn(S) -> real,
    upper: Seq<BlStation<S>>,
    lower: Seq<BlStation<S>>,
    dij: &Matrix<S>,
    sj: int,
    j: int,
    mass: S,
) -> Changes {
    Changes {
        du: |s: int, i: int|
            velocity_change_by_mass(v, upper, lower, Seq::empty(), dij, sj, j, mass, s, i),
        dm: |s: int, i: int|
            if s == sj && i == j {
                v(mass) - v(surface_of(upper, lower, sj)[j].mass_defect)
            } else {
                0real
            },
    }
}

/// The mass columns of a built system are the derivatives of its equations by the mass
/// defects: when one mass defect changes, with the velocities that the masses induce, and the
/// thicknesses with both, the equations of every row change by the product of the change and
/// the column.
pub proof fn law_mass_columns_are_derivatives<S: Real, T>(
    v: spec_fn(S) -> real,
    system: &GlobalNewtonSystem<S>,
    before: &GlobalNewtonSystem<S>,
    upper: Seq<BlStation<S>>,
    lower: Seq<BlStation<S>>,
    on_upper: SurfaceInputs<S>,
    on_lower: SurfaceInputs<S>,
    dij: &Matrix<S>,
    iteration: usize,
    laws: BlLaws<S, T>,
    flow: Conditions<S>,
    iv: int,
    jv: int,
    mass: S,
    dd1: (real, real),
    dd2: real,
    k: int,
)
    requires
        exact(v),
        system.wf(),
        system.built(before, upper, lower, on_upper, on_lower, dij, iteration, laws, flow),
        upper.len() == system.n_upper >= 2,
        lower.len() == system.n_lower >= 2,
        1 <= iv <= system.nsys,
        1 <= jv <= system.nsys,
        0 <= k < 3,
        system.flows(v, upper, lower, iv),
        ({
            let (sj, j) = system.station_of(jv);
            system.thickens(
                v,
                upper,
                lower,
                changes_by_mass(v, upper, lower, dij, sj, j, mass),
                iv,
                dd1,
                dd2,
            )
        }),
    ensures
        ({
            let (si, i) = system.station_of(iv);
            let (sj, j) = system.station_of(jv);
            let c = changes_by_mass(v, upper, lower, dij, sj, j, mass);
            (c.dm)(sj, j) * v(system.vm@[iv]@[jv][k]) == row_answer(
                v,
                system.row(iv),
                k,
                dd1.0 + dd1.1,
                (c.du)(si, i - 1),
                dd2,
                (c.du)(si, i),
                system.arc_change(v, c, si),
            )
        }),
{
    let (si, i) = system.station_of(iv);
    let (sj, j) = system.station_of(jv);
    let c = changes_by_mass(v, upper, lower, dij, sj, j, mass);
    let dm = (c.dm)(sj, j);
    let stations = surface_of(upper, lower, si);
    let s1 = stations[i - 1];
    let s2 = stations[i];
    let source = surface_of(upper, lower, sj)[j];
    let panel_j = source.panel_idx;
    let vti = system.vti@[jv];
    let none = Seq::<S>::empty();
    assert(vti == direction::<S>(sj as usize)) by {
        assert(system.vti@[jv] == system.station_index(upper, lower, jv).0);
    }
    assert(system.vti@[iv] == direction::<S>(si as usize)) by {
        assert(system.vti@[iv] == system.station_index(upper, lower, iv).0);
    }
    let first_wake = si == 1 && i == system.iblte_lower + 1;
    let u2 = velocity_by_mass(dij, system.vti@[iv], s2.panel_idx, vti, panel_j);
    let u1 = if first_wake || i <= 1 {
        whole::<S>(0)
    } else {
        velocity_by_mass(dij, direction::<S>(si as usize), s1.panel_idx, vti, panel_j)
    };
    law_velocity_answers_to_mass(v, upper, lower, none, dij, sj, j, mass, si, i);
    assert((c.du)(si, i) == dm * v(u2));
    let base = before.base_row(
        upper,
        lower,
        on_upper.flow_types,
        on_lower.flow_types,
        laws,
        flow,
        iv,
    );
    let t = system.row(iv);
    assert(t.vs1_delta == base.vs1_delta && t.vs1_ue == base.vs1_ue && t.vs1_x == base.vs1_x);
    assert(before.station_of(iv) == system.station_of(iv));
    assert(before.first_wake_row() == system.first_wake_row());
    assert(first_wake <==> iv == system.first_wake_row());
    // The thickness at the station itself.
    lemma_follows(v, s2, (c.dm)(si, i), (c.du)(si, i), dd2);
    let d2 = if iv == jv {
        whole::<S>(1) / s2.u + dstar_by_velocity(s2) * u2
    } else {
        dstar_by_velocity(s2) * u2
    };
    assert(iv == jv <==> (si, i) == (sj, j));
    lemma_swap(dm, v(dstar_by_velocity(s2)), v(u2));
    lemma_distribute(dm, 1real / v(s2.u), v(dstar_by_velocity(s2)) * v(u2));
    lemma_zero(1real / v(s2.u));
    assert(dm * v(d2) == dd2);
    // The stagnation point.
    law_velocity_answers_to_mass(v, upper, lower, none, dij, sj, j, mass, 0, 1);
    law_velocity_answers_to_mass(v, upper, lower, none, dij, sj, j, mass, 1, 1);
    let le1 = velocity_by_mass(dij, whole::<S>(1), upper[1].panel_idx, vti, panel_j);
    let le2 = velocity_by_mass(dij, -whole::<S>(1), lower[1].panel_idx, vti, panel_j);
    let shift = system.shift(si, le1, le2);
    let dx = system.arc_change(v, c, si);
    lemma_shift(dm, v(system.sst_go), v(system.sst_gp), v(le1), v(le2));
    assert(dm * v(shift) == dx);
    // The thickness and the velocity upstream.
    let d1 = if first_wake {
        system.edge_dstar_by_mass(upper, lower, dij, jv, panel_j)
    } else if si == sj && j == i - 1 && i > 1 {
        whole::<S>(1) / s1.u + dstar_by_velocity(s1) * u1
    } else {
        dstar_by_velocity(s1) * u1
    };
    let dd = dd1.0 + dd1.1;
    let du1 = (c.du)(si, i - 1);
    if first_wake {
        let iu = system.iblte_upper as int;
        let il = system.iblte_lower as int;
        law_velocity_answers_to_mass(v, upper, lower, none, dij, sj, j, mass, 0, iu);
        law_velocity_answers_to_mass(v, upper, lower, none, dij, sj, j, mass, 1, il);
        lemma_edge(v, upper[iu], (c.dm)(0, iu), (c.du)(0, iu), dd1.0);
        lemma_edge(v, lower[il], (c.dm)(1, il), (c.du)(1, il), dd1.1);
        let te = system.te_state(upper, lower)->0;
        let e1 = velocity_by_mass(dij, whole::<S>(1), upper[iu].panel_idx, vti, panel_j);
        let e2 = velocity_by_mass(dij, -whole::<S>(1), lower[il].panel_idx, vti, panel_j);
        assert((c.du)(0, iu) == dm * v(e1));
        assert((c.du)(1, il) == dm * v(e2));
        lemma_swap(dm, v(te.dte_ute1), v(e1));
        lemma_swap(dm, v(te.dte_ute2), v(e2));
        lemma_distribute(dm, v(te.dte_ute1) * v(e1), v(te.dte_ute2) * v(e2));
        let mid = v(te.dte_ute1) * v(e1) + v(te.dte_ute2) * v(e2);
        lemma_distribute(dm, mid, v(te.dte_mte1));
        lemma_distribute(dm, mid, v(te.dte_mte2));
        lemma_distribute(dm, mid + v(te.dte_mte1), v(te.dte_mte2));
        lemma_zero(v(te.dte_mte1));
        lemma_zero(v(te.dte_mte2));
        assert(jv == system.row_of(0, iu) <==> (sj, j) == (0int, iu));
        assert(jv == system.row_of(1, il) <==> (sj, j) == (1int, il));
        assert(dm * v(d1) == dd);
        lemma_zero(dm);
        lemma_zero(du1);
        assert(v(t.vs1_ue[k]) == 0real);
    } else if i > 1 {
        law_velocity_answers_to_mass(v, upper, lower, none, dij, sj, j, mass, si, i - 1);
        lemma_follows(v, s1, (c.dm)(si, i - 1), du1, dd1.0);
        assert(du1 == dm * v(u1));
        lemma_swap(dm, v(dstar_by_velocity(s1)), v(u1));
        lemma_distribute(dm, 1real / v(s1.u), v(dstar_by_velocity(s1)) * v(u1));
        lemma_zero(1real / v(s1.u));
        assert(dm * v(d1) == dd);
    } else {
        lemma_zero(du1);
        lemma_zero(dd);
        lemma_zero(dm * v(d1));
        lemma_zero(dm * v(u1));
        assert(v(t.vs1_delta[k]) == 0real && v(t.vs1_ue[k]) == 0real);
    }
    let column = system.mass_column(upper, lower, dij, iv, jv);
    assert(system.vm@[iv]@[jv] == column);
    assert(column[k] == mass_answer(t, d2, u2, d1, u1, k) + shift_term(t, shift, k));
    lemma_five(
        dm,
        v(t.vs2_delta[k]),
        v(t.vs2_ue[k]),
        v(t.vs1_delta[k]),
        v(t.vs1_ue[k]),
        v(t.vs1_x[k]) + v(t.vs2_x[k]),
        v(d2),
        v(u2),
        v(d1),
        v(u1),
        v(shift),
    );
    lemma_zero(v(t.vs1_ue[k]));
}

/// A shift, times a number.
proof fn lemma_shift(w: real, g: real, h: real, a: real, b: real)
    ensures
        w * (g * a + -h * b) == g * (w * a) - h * (w * b),
        w * (-g * a + h * b) == -(g * (w * a) - h * (w * b)),
{
    lemma_swap(w, g, a);
    lemma_swap(w, h, b);
    lemma_commute(-h, b);
    lemma_opposite(b, h);
    lemma_commute(h, b);
    lemma_commute(-g, a);
    lemma_opposite(a, g);
    lemma_commute(g, a);
    lemma_difference(w, g * a, h * b);
    lemma_difference(w, h * b, g * a);
}

/// Changes of the velocities alone: the entries of two distributions, zero past their ends.
pub open spec fn changes_of_velocity<S: Real>(
    v: spec_fn(S) -> real,
    due_upper: Seq<S>,
    due_lower: Seq<S>,
) -> Changes {
    Changes {
        du: |s: int, i: int|
            v(
                seq_or(
                    if s == 0 {
                        due_upper
                    } else {
                        due_lower
                    },
                    i,
                    whole::<S>(0),
                ),
            ),
        dm: |s: int, i: int| 0real,
    }
}

/// The answer of a row to changes of the velocities alone.
proof fn lemma_forced<S: Real>(
    v: spec_fn(S) -> real,
    system: &GlobalNewtonSystem<S>,
    upper: Seq<BlStation<S>>,
    lower: Seq<BlStation<S>>,
    due_upper: Seq<S>,
    due_lower: Seq<S>,
    still: bool,
    start: Option<[S; 3]>,
    iv: int,
    dd1: (real, real),
    dd2: real,
    k: int,
)
    requires
        exact(v),
        system.wf(),
        upper.len() == system.n_upper >= 2,
        lower.len() == system.n_lower >= 2,
        1 <= iv <= system.nsys,
        0 <= k < 3,
        system.flows(v, upper, lower, iv),
        system.thickens(
            v,
            upper,
            lower,
            changes_of_velocity(v, due_upper, due_lower),
            iv,
            dd1,
            dd2,
        ),
        system.station_of(iv).1 == 1 ==> v(system.row(iv).vs1_delta[k]) == 0real && v(
            system.row(iv).vs1_ue[k],
        ) == 0real,
        iv == system.first_wake_row() ==> v(system.row(iv).vs1_ue[k]) == 0real,
    ensures
        ({
            let (si, i) = system.station_of(iv);
            let c = changes_of_velocity(v, due_upper, due_lower);
            let r = system.forced_answer(upper, lower, due_upper, due_lower, still, start, iv);
            v(r[k]) == (match start {
                Some(b) => v(b[k]),
                None => 0real,
            }) + row_answer(
                v,
                system.row(iv),
                k,
                dd1.0 + dd1.1,
                (c.du)(si, i - 1),
                dd2,
                (c.du)(si, i),
                system.arc_change(v, c, si),
            )
        }),
{
    let (si, i) = system.station_of(iv);
    let stations = surface_of(upper, lower, si);
    let c = changes_of_velocity(v, due_upper, due_lower);
    let t = system.row(iv);
    let zero = whole::<S>(0);
    let f = system.forced(upper, lower, due_upper, due_lower, still, iv);
    let shift = system.shift(si, seq_or(due_upper, 1, zero), seq_or(due_lower, 1, zero));
    let dx = system.arc_change(v, c, si);
    lemma_shift(
        1real,
        v(system.sst_go),
        v(system.sst_gp),
        (c.du)(0, 1),
        (c.du)(1, 1),
    );
    lemma_one((c.du)(0, 1));
    lemma_one((c.du)(1, 1));
    lemma_one(v(shift));
    assert(v(shift) == dx);
    lemma_follows(v, stations[i], 0real, (c.du)(si, i), dd2);
    lemma_zero(1real / v(stations[i].u));
    assert(v(f.due2) == (c.du)(si, i));
    assert(v(f.dds2) == dd2);
    let dd = dd1.0 + dd1.1;
    let du1 = (c.du)(si, i - 1);
    let first_wake = si == 1 && i == system.iblte_lower + 1;
    assert(first_wake <==> iv == system.first_wake_row());
    if first_wake {
        let iu = system.iblte_upper as int;
        let il = system.iblte_lower as int;
        lemma_edge(v, upper[iu], 0real, (c.du)(0, iu), dd1.0);
        lemma_edge(v, lower[il], 0real, (c.du)(1, il), dd1.1);
        let te = system.te_state(upper, lower)->0;
        lemma_zero(v(te.dte_mte1));
        lemma_zero(v(te.dte_mte2));
        assert(v(f.dds1) == dd);
        lemma_zero(du1);
        lemma_zero(v(f.due1));
    } else if i > 1 {
        lemma_follows(v, stations[i - 1], 0real, du1, dd1.0);
        lemma_zero(1real / v(stations[i - 1].u));
        assert(v(f.dds1) == dd);
        assert(v(f.due1) == du1);
    } else {
        lemma_zero(dd);
        lemma_zero(du1);
        lemma_zero(v(f.dds1));
        lemma_zero(v(f.due1));
    }
    assert(v(forced_sum(t, f, k)) == v(t.vs1_delta[k]) * v(f.dds1) + v(t.vs2_delta[k]) * v(f.dds2)
        + v(t.vs1_ue[k]) * v(f.due1) + v(t.vs2_ue[k]) * v(f.due2));
    assert(v(shift_term(t, shift, k)) == (v(t.vs1_x[k]) + v(t.vs2_x[k])) * dx);
}

/// The right-hand sides of a built system. To the residuals of every row comes the answer of
/// its equations when the velocities change from those that the masses induce to the current
/// ones, at fixed mass defects; the second right-hand side is the answer of the equations to
/// the sensitivities of the velocities, at fixed mass defects.
pub proof fn law_right_hand_sides<S: Real, T>(
    v: spec_fn(S) -> real,
    system: &GlobalNewtonSystem<S>,
    before: &GlobalNewtonSystem<S>,
    upper: Seq<BlStation<S>>,
    lower: Seq<BlStation<S>>,
    on_upper: SurfaceInputs<S>,
    on_lower: SurfaceInputs<S>,
    dij: &Matrix<S>,
    iteration: usize,
    laws: BlLaws<S, T>,
    flow: Conditions<S>,
    iv: int,
    forced1: (real, real),
    forced2: real,
    operated1: (real, real),
    operated2: real,
    k: int,
)
    requires
        exact(v),
        system.wf(),
        system.built(before, upper, lower, on_upper, on_lower, dij, iteration, laws, flow),
        upper.len() == system.n_upper >= 2,
        lower.len() == system.n_lower >= 2,
        on_upper.current.len() == upper.len(),
        on_lower.current.len() == lower.len(),
        1 <= iv <= system.nsys,
        0 <= k < 3,
        system.flows(v, upper, lower, iv),
        system.thickens(
            v,
            upper,
            lower,
            gap_changes(v, upper, lower, on_upper, on_lower, dij),
            iv,
            forced1,
            forced2,
        ),
        system.thickens(
            v,
            upper,
            lower,
            changes_of_velocity(v, on_upper.operating, on_lower.operating),
            iv,
            operated1,
            operated2,
        ),
    ensures
        ({
            let (si, i) = system.station_of(iv);
            let g = gap_changes(v, upper, lower, on_upper, on_lower, dij);
            let o = changes_of_velocity(v, on_upper.operating, on_lower.operating);
            let residuals = before.base_row(
                upper,
                lower,
                on_upper.flow_types,
                on_lower.flow_types,
                laws,
                flow,
                iv,
            ).vdel;
            &&& v(system.vdel@[iv][k]) == v(residuals[k]) + row_answer(
                v,
                system.row(iv),
                k,
                forced1.0 + forced1.1,
                (g.du)(si, i - 1),
                forced2,
                (g.du)(si, i),
                system.arc_change(v, g, si),
            )
            &&& v(system.vdel_operating@[iv][k]) == row_answer(
                v,
                system.row(iv),
                k,
                operated1.0 + operated1.1,
                (o.du)(si, i - 1),
                operated2,
                (o.du)(si, i),
                system.arc_change(v, o, si),
            )
            &&& v(system.dule1) == (g.du)(0, 1)
            &&& v(system.dule2) == (g.du)(1, 1)
        }),
{
    let (si, i) = system.station_of(iv);
    let base = before.base_row(
        upper,
        lower,
        on_upper.flow_types,
        on_lower.flow_types,
        laws,
        flow,
        iv,
    );
    let t = system.row(iv);
    assert(t.vs1_delta == base.vs1_delta && t.vs1_ue == base.vs1_ue && t.vs1_x == base.vs1_x);
    assert(before.station_of(iv) == system.station_of(iv));
    assert(before.first_wake_row() == system.first_wake_row());
    let u = on_upper.velocities(upper, lower, dij, 0);
    let l = on_lower.velocities(upper, lower, dij, 1);
    let gu = u.gaps(upper.len());
    let gl = l.gaps(lower.len());
    let g = gap_changes(v, upper, lower, on_upper, on_lower, dij);
    let w = changes_of_velocity(v, gu, gl);
    assert forall|s: int, m: int| 0 <= m implies #[trigger] (g.du)(s, m) == (w.du)(s, m) by {}
    assert((g.dm)(si, i) == 0real);
    assert(system.thickens(v, upper, lower, w, iv, forced1, forced2)) by {
        let te = (system.iblte_upper as int, system.iblte_lower as int);
        assert((g.du)(si, i) == (w.du)(si, i));
        assert((g.du)(si, i - 1) == (w.du)(si, i - 1));
        assert((g.du)(0, te.0) == (w.du)(0, te.0));
        assert((g.du)(1, te.1) == (w.du)(1, te.1));
    }
    assert((g.du)(0, 1) == (w.du)(0, 1) && (g.du)(1, 1) == (w.du)(1, 1));
    assert((g.du)(si, i - 1) == (w.du)(si, i - 1) && (g.du)(si, i) == (w.du)(si, i));
    assert(system.row(iv).vdel == system.forced_answer(
        upper,
        lower,
        gu,
        gl,
        true,
        Some(base.vdel),
        iv,
    ));
    lemma_forced(
        v,
        system,
        upper,
        lower,
        gu,
        gl,
        true,
        Some(base.vdel),
        iv,
        forced1,
        forced2,
        k,
    );
    lemma_forced(
        v,
        system,
        upper,
        lower,
        on_upper.operating,
        on_lower.operating,
        false,
        None,
        iv,
        operated1,
        operated2,
        k,
    );
}

/// The changes of the velocities from those that the masses induce to the current ones: where
/// velocities from the masses are not given, those that the stations induce.
pub open spec fn gap_changes<S: Real>(
    v: spec_fn(S) -> real,
    upper: Seq<BlStation<S>>,
    lower: Seq<BlStation<S>>,
    on_upper: SurfaceInputs<S>,
    on_lower: SurfaceInputs<S>,
    dij: &Matrix<S>,
) -> Changes {
    Changes {
        du: |s: int, i: int|
            {
                let on = if s == 0 {
                    on_upper
                } else {
                    on_lower
                };
                let stations = if s == 0 {
                    upper
                } else {
                    lower
                };
                if i >= stations.len() {
                    0real
                } else if on.from_mass.len() == stations.len() {
                    v(on.current[i]) - v(on.from_mass[i])
                } else {
                    v(on.current[i]) - v(
                        induced_velocity(
                            points_of(upper),
                            points_of(lower),
                            on.inviscid,
                            dij,
                            (if s == 0 {
                                0usize
                            } else {
                                1usize
                            }),
                            i,
                        ),
                    )
                }
            },
        dm: |s: int, i: int| 0real,
    }
}

/// The combined trailing edge: its momentum thickness is the sum of both, its displacement
/// thickness the sum with the blunt edge, and its shear stress their mean by momentum
/// thickness. The derivatives of the shear stress are those of that mean.
pub proof fn law_trailing_edge_is_combined<S: Real>(
    v: spec_fn(S) -> real,
    upper: BlStation<S>,
    lower: BlStation<S>,
    ante: S,
    dc: (real, real),
    dt: (real, real),
)
    requires
        exact(v),
        v(upper.theta) + v(lower.theta) >= v(tenths::<S>(12)),
    ensures
        ({
            let te = te_terms(upper, lower, ante);
            let theta = v(upper.theta) + v(lower.theta);
            let change = v(te.cte_cte1) * dc.0 + v(te.cte_cte2) * dc.1 + v(te.cte_tte1) * dt.0 + v(
                te.cte_tte2,
            ) * dt.1;
            &&& v(te.tte) == theta
            &&& v(te.dte) == v(upper.delta_star) + v(lower.delta_star) + v(ante)
            &&& theta * v(te.cte) == v(upper.ctau) * v(upper.theta) + v(lower.ctau) * v(lower.theta)
            &&& theta * change + v(te.cte) * (dt.0 + dt.1) == v(upper.theta) * dc.0 + v(lower.theta)
                * dc.1 + v(upper.ctau) * dt.0 + v(lower.ctau) * dt.1
        }),
{
    let te = te_terms(upper, lower, ante);
    lemma_tenths(v, 12);
    let theta = v(upper.theta) + v(lower.theta);
    assert(v(te.tte) == theta);
    let c = v(te.cte);
    lemma_quotient(
        v(upper.ctau) * v(upper.theta) + v(lower.ctau) * v(lower.theta),
        theta,
    );
    let (p, q, r, s) = (v(te.cte_cte1), v(te.cte_cte2), v(te.cte_tte1), v(te.cte_tte2));
    lemma_quotient(v(upper.theta), theta);
    lemma_quotient(v(lower.theta), theta);
    lemma_quotient(v(upper.ctau) - c, theta);
    lemma_quotient(v(lower.ctau) - c, theta);
    lemma_associate(theta, p, dc.0);
    lemma_associate(theta, q, dc.1);
    lemma_associate(theta, r, dt.0);
    lemma_associate(theta, s, dt.1);
    lemma_distribute(theta, p * dc.0 + q * dc.1 + r * dt.0, s * dt.1);
    lemma_distribute(theta, p * dc.0 + q * dc.1, r * dt.0);
    lemma_distribute(theta, p * dc.0, q * dc.1);
    lemma_commute(v(upper.ctau) - c, dt.0);
    lemma_difference(dt.0, v(upper.ctau), c);
    lemma_commute(v(lower.ctau) - c, dt.1);
    lemma_difference(dt.1, v(lower.ctau), c);
    lemma_commute(dt.0, v(upper.ctau));
    lemma_commute(dt.1, v(lower.ctau));
    lemma_commute(dt.0, c);
    lemma_commute(dt.1, c);
    lemma_distribute(c, dt.0, dt.1);
}

/// The row of the first wake station sets the wake to the combined trailing edge: changes of
/// shear stress and of both thicknesses at the wake station and at both stations of the edge
/// satisfy its equations exactly where the changed wake takes the changed edge, to first
/// order.
pub proof fn law_wake_takes_the_edge<S: Real>(
    v: spec_fn(S) -> real,
    te: TeWakeTerms<S>,
    wake: BlStation<S>,
    dw: (real, real, real),
    d1: (real, real),
    d2: (real, real),
    dd: real,
)
    requires
        exact(v),
    ensures
        ({
            let t = wake_row(te, wake);
            let z = te_coupling(te);
            let left = |k: int|
                v(t.va[k][0]) * dw.0 + v(t.va[k][1]) * dw.1 + v(t.vb[k][0]) * d2.0 + v(t.vb[k][1])
                    * d2.1 + v(z[k][0]) * d1.0 + v(z[k][1]) * d1.1 + row_answer(
                    v,
                    t,
                    k,
                    dd,
                    0real,
                    dw.2,
                    0real,
                    0real,
                );
            let change = v(te.cte_cte1) * d1.0 + v(te.cte_cte2) * d2.0 + v(te.cte_tte1) * d1.1 + v(
                te.cte_tte2,
            ) * d2.1;
            &&& left(0) == v(t.vdel[0]) <==> v(wake.ctau) + dw.0 == v(te.cte) + change
            &&& left(1) == v(t.vdel[1]) <==> v(wake.theta) + dw.1 == v(te.tte) + d1.1 + d2.1
            &&& left(2) == v(t.vdel[2]) <==> v(wake.delta_star) + v(wake.dw) + dw.2 == v(te.dte)
                + dd
        }),
{
    let t = wake_row(te, wake);
    let z = te_coupling(te);
    lemma_terms(dw.0);
    lemma_terms(dw.1);
    lemma_terms(dw.2);
    lemma_terms(d1.0);
    lemma_terms(d1.1);
    lemma_terms(d2.0);
    lemma_terms(d2.1);
    lemma_terms(dd);
    lemma_terms(0real);
    lemma_negative(v(te.cte_cte1), d1.0);
    lemma_negative(v(te.cte_cte2), d2.0);
    lemma_negative(v(te.cte_tte1), d1.1);
    lemma_negative(v(te.cte_tte2), d2.1);
}

/// Products with zero, one and minus one.
proof fn lemma_terms(x: real)
    by (nonlinear_arith)
    ensures
        0real * x == 0real,
        1real * x == x,
        -1real * x == -x,
        (0real + 0real) * x == 0real,
{
}

/// A product with an opposite in front.
proof fn lemma_negative(a: real, x: real)
    by (nonlinear_arith)
    ensures
        (-a) * x == -(a * x),
{
}

/// What a row keeps of its interval are the linearised equations: the blocks hold the first
/// two variables of either station, and the tables thickness, velocity and arc length. On the
/// first interval the station upstream does not enter.
pub proof fn law_rows_keep_the_equations<S: Real>(
    v: spec_fn(S) -> real,
    b: IntervalBlock<S>,
    first: bool,
    k: int,
    a1: (real, real),
    a2: (real, real),
    dd1: real,
    du1: real,
    dd2: real,
    du2: real,
    dx: real,
)
    requires
        exact(v),
        0 <= k < 3,
    ensures
        ({
            let t = kept(b, first);
            let near = v(b.vs2[k][0]) * a2.0 + v(b.vs2[k][1]) * a2.1 + v(b.vs2[k][2]) * dd2 + v(
                b.vs2[k][3],
            ) * du2 + (v(b.vs2[k][4]) + v(b.vsx[k])) * dx;
            let far = if first {
                0real
            } else {
                v(b.vs1[k][0]) * a1.0 + v(b.vs1[k][1]) * a1.1 + v(b.vs1[k][2]) * dd1 + v(
                    b.vs1[k][3],
                ) * du1 + v(b.vs1[k][4]) * dx
            };
            &&& v(t.va[k][0]) * a2.0 + v(t.va[k][1]) * a2.1 + v(t.vb[k][0]) * a1.0 + v(t.vb[k][1])
                * a1.1 + row_answer(v, t, k, dd1, du1, dd2, du2, dx) == near + far
            &&& t.vdel == b.residuals
            &&& v(t.va[k][2]) == 0real && v(t.vb[k][2]) == 0real
        }),
{
    let t = kept(b, first);
    lemma_finite(v, b.vs2[k]);
    lemma_finite(v, b.vs1[k]);
    let x2 = b.vs2[k][4] + b.vsx[k];
    assert(is_finite(x2));
    lemma_zero(a1.0);
    lemma_zero(a1.1);
    lemma_zero(dd1);
    lemma_zero(du1);
    let p = v(t.vs1_x[k]);
    let q = v(t.vs2_x[k]);
    lemma_commute(p + q, dx);
    lemma_distribute(dx, p, q);
    lemma_commute(dx, p);
    lemma_commute(dx, q);
    lemma_zero(dx);
}

/// Exact numbers are finite.
proof fn lemma_finite<S: Real>(v: spec_fn(S) -> real, row: [S; 5])
    requires
        exact(v),
    ensures
        forall|c: int| 0 <= c < 5 ==> is_finite(#[trigger] row[c]),
{
}

/// The mass defects at the stagnation points move no velocity.
pub proof fn law_stagnation_points_do_not_take_part<S: Real>(
    v: spec_fn(S) -> real,
    upper: Seq<BlStation<S>>,
    lower: Seq<BlStation<S>>,
    inviscid: Seq<S>,
    dij: &Matrix<S>,
    sj: int,
    mass: S,
    surface: int,
    i: int,
)
    requires
        exact(v),
        0 <= sj <= 1,
        0 <= surface <= 1,
        0 < surface_of(upper, lower, sj).len(),
        0 <= i < surface_of(upper, lower, surface).len(),
    ensures
        velocity_change_by_mass(v, upper, lower, inviscid, dij, sj, 0, mass, surface, i) == 0real,
{
    let up = points_of(upper);
    let lo = points_of(lower);
    let up2 = points_of(with_mass(upper, 0, sj, 0, mass));
    let lo2 = points_of(with_mass(lower, 1, sj, 0, mass));
    let panel = surface_of(upper, lower, surface)[i].panel_idx;
    let zero = whole::<S>(0);
    let si = surface as usize;
    let ju = if sj == 0 {
        0
    } else {
        -1
    };
    let jl = if sj == 1 {
        0
    } else {
        -1
    };
    assert(up2.len() == up.len() && lo2.len() == lo.len());
    lemma_sum_change(v, zero, zero, dij, si, panel, 0, up, up2, ju, up.len() as int);
    let a = surface_sum(zero, dij, si, panel, 0, up, up.len() as int);
    let b = surface_sum(zero, dij, si, panel, 0, up2, up.len() as int);
    lemma_sum_change(v, a, b, dij, si, panel, 1, lo, lo2, jl, lo.len() as int);
    let p2 = if surface == 0 {
        up2[i]
    } else {
        lo2[i]
    };
    assert(p2.panel_idx == panel);
    assert(both_surfaces_sum(zero, dij, si, panel, up2, lo2) == surface_sum(
        b,
        dij,
        si,
        panel,
        1,
        lo2,
        lo.len() as int,
    ));
}

} // verus!
