//! What holds of every built system, and of every step that is applied.
use crate::closure::{BlLaws, Conditions};
use crate::global_newton::coupling::SurfaceInputs;
use crate::global_newton::newton_state::{CanonicalNewtonRow, CanonicalNewtonStateView};
use crate::global_newton::system::GlobalNewtonSystem;
use crate::global_newton::update::{
    previewed_new, previewed_operating, rows_updated, total_dstr_for_update, velocities_of,
    GlobalUpdateResult, RowForms, Step,
};
use crate::number::{abs, decimal, tenths, whole, Formula, Real};
use crate::station::{BlStation, FlowType, Matrix};
use vstd::prelude::*;

verus! {

impl<S: Real> GlobalNewtonSystem<S> {
    /// Nothing that the two systems hold differs.
    pub open spec fn alike(&self, other: &Self) -> bool {
        &&& self.same_setting(other)
        &&& self.current_iteration == other.current_iteration
        &&& self.va@ == other.va@
        &&& self.vb@ == other.vb@
        &&& self.vz == other.vz
        &&& self.vm@.len() == other.vm@.len()
        &&& forall|iv: int|
            0 <= iv < self.vm@.len() ==> (#[trigger] self.vm@[iv])@ == other.vm@[iv]@
        &&& self.vdel@ == other.vdel@
        &&& self.vdel_operating@ == other.vdel_operating@
        &&& self.vti@ == other.vti@
        &&& self.panel_idx@ == other.panel_idx@
        &&& self.is_wake@ == other.is_wake@
        &&& self.airfoil_arc_length == other.airfoil_arc_length
        &&& self.vs1_delta@ == other.vs1_delta@
        &&& self.vs1_ue@ == other.vs1_ue@
        &&& self.vs2_delta@ == other.vs2_delta@
        &&& self.vs2_ue@ == other.vs2_ue@
        &&& self.vs1_x@ == other.vs1_x@
        &&& self.vs2_x@ == other.vs2_x@
        &&& self.dule1 == other.dule1
        &&& self.dule2 == other.dule2
    }

    /// To build a system a second time, with the same arguments, changes nothing: what was
    /// built before does not enter, and nothing adds up.
    pub proof fn law_building_twice_changes_nothing<T>(
        &self,
        once: &Self,
        before: &Self,
        upper: Seq<BlStation<S>>,
        lower: Seq<BlStation<S>>,
        on_upper: SurfaceInputs<S>,
        on_lower: SurfaceInputs<S>,
        dij: &Matrix<S>,
        iteration: usize,
        laws: BlLaws<S, T>,
        flow: Conditions<S>,
    )
        requires
            self.wf(),
            once.wf(),
            once.built(before, upper, lower, on_upper, on_lower, dij, iteration, laws, flow),
            self.built(once, upper, lower, on_upper, on_lower, dij, iteration, laws, flow),
        ensures
            self.alike(once),
            self.sst_go == before.sst_go,
            self.sst_gp == before.sst_gp,
    {
        assert forall|iv: int| 1 <= iv <= self.nsys implies #[trigger] self.row(iv) == once.row(
            iv,
        ) by {
            assert(before.base_row(
                upper,
                lower,
                on_upper.flow_types,
                on_lower.flow_types,
                laws,
                flow,
                iv,
            ) == once.base_row(
                upper,
                lower,
                on_upper.flow_types,
                on_lower.flow_types,
                laws,
                flow,
                iv,
            ));
        }
        assert forall|iv: int| 0 <= iv <= self.nsys implies {
            &&& #[trigger] self.vdel_operating@[iv] == once.vdel_operating@[iv]
            &&& self.row(iv) == once.row(iv)
        } by {}
        assert forall|iv: int|
            #![trigger self.vti@[iv]]
            #![trigger self.panel_idx@[iv]]
            #![trigger self.is_wake@[iv]]
            0 <= iv <= self.nsys implies {
            &&& self.vti@[iv] == once.vti@[iv]
            &&& self.panel_idx@[iv] == once.panel_idx@[iv]
            &&& self.is_wake@[iv] == once.is_wake@[iv]
        } by {}
        assert forall|iv: int| 0 <= iv <= self.nsys implies (#[trigger] self.vm@[iv])@
            == once.vm@[iv]@ by {
            assert forall|jv: int| 0 <= jv <= self.nsys implies #[trigger] self.vm@[iv]@[jv]
                == once.vm@[iv]@[jv] by {
                assert(self.vti@[iv] == once.vti@[iv] && self.vti@[jv] == once.vti@[jv]);
                assert(self.row(iv) == once.row(iv));
            }
            assert(self.vm@[iv]@ =~= once.vm@[iv]@);
        }
        assert forall|iv: int|
            #![trigger self.va@[iv]]
            #![trigger self.vb@[iv]]
            #![trigger self.vdel@[iv]]
            #![trigger self.vs1_delta@[iv]]
            #![trigger self.vs1_ue@[iv]]
            #![trigger self.vs2_delta@[iv]]
            #![trigger self.vs2_ue@[iv]]
            #![trigger self.vs1_x@[iv]]
            #![trigger self.vs2_x@[iv]]
            0 <= iv <= self.nsys implies {
            &&& self.va@[iv] == once.va@[iv]
            &&& self.vb@[iv] == once.vb@[iv]
            &&& self.vdel@[iv] == once.vdel@[iv]
            &&& self.vs1_delta@[iv] == once.vs1_delta@[iv]
            &&& self.vs1_ue@[iv] == once.vs1_ue@[iv]
            &&& self.vs2_delta@[iv] == once.vs2_delta@[iv]
            &&& self.vs2_ue@[iv] == once.vs2_ue@[iv]
            &&& self.vs1_x@[iv] == once.vs1_x@[iv]
            &&& self.vs2_x@[iv] == once.vs2_x@[iv]
        } by {
            assert(self.row(iv) == once.row(iv));
        }
        assert(self.va@ =~= once.va@ && self.vb@ =~= once.vb@ && self.vdel@ =~= once.vdel@);
        assert(self.vs1_delta@ =~= once.vs1_delta@ && self.vs1_ue@ =~= once.vs1_ue@);
        assert(self.vs2_delta@ =~= once.vs2_delta@ && self.vs2_ue@ =~= once.vs2_ue@);
        assert(self.vs1_x@ =~= once.vs1_x@ && self.vs2_x@ =~= once.vs2_x@);
        assert(self.vti@ =~= once.vti@ && self.panel_idx@ =~= once.panel_idx@);
        assert(self.is_wake@ =~= once.is_wake@);
        assert(self.vdel_operating@ =~= once.vdel_operating@);
    }

    /// Where no current velocities are given, those of the stations stand in for them.
    pub proof fn law_stations_give_their_velocities<T>(
        &self,
        before: &Self,
        upper: Seq<BlStation<S>>,
        lower: Seq<BlStation<S>>,
        on_upper: SurfaceInputs<S>,
        on_lower: SurfaceInputs<S>,
        dij: &Matrix<S>,
        iteration: usize,
        laws: BlLaws<S, T>,
        flow: Conditions<S>,
    )
        ensures
            self.built(
                before,
                upper,
                lower,
                SurfaceInputs { current: Seq::empty(), ..on_upper },
                SurfaceInputs { current: Seq::empty(), ..on_lower },
                dij,
                iteration,
                laws,
                flow,
            ) <==> self.built(
                before,
                upper,
                lower,
                SurfaceInputs { current: velocities_of(upper), ..on_upper },
                SurfaceInputs { current: velocities_of(lower), ..on_lower },
                dij,
                iteration,
                laws,
                flow,
            ),
    {
        assert(upper.len() == 0 ==> velocities_of(upper) =~= Seq::<S>::empty());
        assert(lower.len() == 0 ==> velocities_of(lower) =~= Seq::<S>::empty());
    }
}

/// A preview leaves the stagnation points as they are. Without an influence matrix it leaves
/// every velocity as it is, and none answers to the operating variable.
pub proof fn law_preview_keeps_the_stagnation_points<S: Real>(
    upper: Seq<BlStation<S>>,
    lower: Seq<BlStation<S>>,
    deltas: Seq<[S; 3]>,
    operating: Option<Seq<[S; 3]>>,
    system: &GlobalNewtonSystem<S>,
    dij: Option<&Matrix<S>>,
    inviscid: (Option<Seq<S>>, Option<Seq<S>>),
    sensitivity: (Option<Seq<S>>, Option<Seq<S>>),
    surface: usize,
)
    ensures
        ({
            let stations = if surface == 0 {
                upper
            } else {
                lower
            };
            let new = previewed_new(
                upper,
                lower,
                deltas,
                system,
                dij,
                inviscid.0,
                inviscid.1,
                surface,
            );
            let ac = previewed_operating(
                upper,
                lower,
                operating,
                system,
                dij,
                sensitivity.0,
                sensitivity.1,
                surface,
            );
            &&& new.len() == stations.len()
            &&& ac.len() == stations.len()
            &&& stations.len() > 0 ==> new[0] == stations[0].u && ac[0] == whole::<S>(0)
            &&& dij is None ==> new == velocities_of(stations) && forall|i: int|
                0 <= i < ac.len() ==> #[trigger] ac[i] == whole::<S>(0)
        }),
{
}

/// The variables of a station belong together after a step: its mass defect is its velocity
/// times its whole displacement thickness, its shear stress does not pass a quarter where it
/// is not laminar, and its shape parameter is that of its two thicknesses.
pub open spec fn belongs_together<S: Real>(s: BlStation<S>) -> bool {
    &&& s.mass_defect == s.u * total_dstr_for_update(&s)
    &&& !s.is_laminar ==> s.ctau == decimal::<S>(1, 4) || !(s.ctau > decimal::<S>(1, 4))
    &&& abs(s.theta) > tenths::<S>(20) ==> s.h == s.delta_star / s.theta
    &&& !(abs(s.theta) > tenths::<S>(20)) ==> s.h == whole::<S>(2)
}

/// A step leaves the stagnation point as it is, and every station without a row. The
/// variables of every other station belong together after it, and nothing moves the station,
/// its regime or its wake gap.
pub proof fn law_stepped_variables_belong_together<S: Real>(
    step: Step<S>,
    system: &GlobalNewtonSystem<S>,
    surface: int,
    stations: Seq<BlStation<S>>,
    u_new: Seq<S>,
    u_ac: Seq<S>,
    rlx: S,
    msq: S,
    hkin: spec_fn(S, S) -> (S, S),
    i: int,
)
    requires
        0 <= i < stations.len(),
    ensures
        ({
            let s = stations[i];
            let r = step.moved(system, surface, stations, u_new, u_ac, rlx, msq, hkin, i);
            if i == 0 || system.row_of(surface, i) >= step.deltas.len() {
                r == s
            } else {
                &&& belongs_together(r)
                &&& (r.x, r.x_coord, r.panel_idx, r.dw) == (s.x, s.x_coord, s.panel_idx, s.dw)
                &&& (r.is_laminar, r.is_turbulent, r.is_wake) == (
                    s.is_laminar,
                    s.is_turbulent,
                    s.is_wake,
                )
                &&& if s.is_laminar {
                    r.ctau == s.ctau
                } else {
                    r.ampl == s.ampl
                }
            }
        }),
{
}

/// After a step the current velocities of a view are those of its rows, as many as there
/// were. The first row of each surface, the regimes, the inviscid velocities and their
/// sensitivities are what they were.
pub proof fn law_stepped_view_keeps_its_velocities<
    S: Real,
    T,
    A: Fn((CanonicalNewtonRow<S>, FlowType)) -> BlStation<S>,
    C: Fn((CanonicalNewtonRow<S>, BlStation<S>)) -> CanonicalNewtonRow<S>,
>(
    before: &CanonicalNewtonStateView<S>,
    after: &CanonicalNewtonStateView<S>,
    r: GlobalUpdateResult<S>,
    step: Step<S>,
    system: &GlobalNewtonSystem<S>,
    relaxation: S,
    dij: &Matrix<S>,
    msq: S,
    re: S,
    forms: RowForms<A, C>,
    laws: BlLaws<S, T>,
)
    requires
        rows_updated(before, after, r, step, system, relaxation, dij, msq, re, forms, laws),
    ensures
        after.upper_rows@.len() == before.upper_rows@.len(),
        after.lower_rows@.len() == before.lower_rows@.len(),
        after.upper_ue_current@.len() == after.upper_rows@.len(),
        after.lower_ue_current@.len() == after.lower_rows@.len(),
        forall|i: int|
            0 <= i < after.upper_rows@.len() ==> #[trigger] after.upper_ue_current@[i]
                == after.upper_rows@[i].uedg,
        forall|i: int|
            0 <= i < after.lower_rows@.len() ==> #[trigger] after.lower_ue_current@[i]
                == after.lower_rows@[i].uedg,
        before.upper_rows@.len() > 0 ==> after.upper_rows@[0] == before.upper_rows@[0],
        before.lower_rows@.len() > 0 ==> after.lower_rows@[0] == before.lower_rows@[0],
        after.upper_flow_types == before.upper_flow_types,
        after.lower_flow_types == before.lower_flow_types,
        after.upper_ue_inviscid == before.upper_ue_inviscid,
        after.lower_ue_inviscid == before.lower_ue_inviscid,
        after.upper_ue_operating == before.upper_ue_operating,
        after.lower_ue_operating == before.lower_ue_operating,
{
}

} // verus!
