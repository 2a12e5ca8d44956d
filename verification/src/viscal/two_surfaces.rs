//! The viscous solution of an airfoil: both surfaces and the wake, coupled.
use crate::callable::{function, list_function};
use crate::closure::{BlClosure, BlLaws, Conditions};
use crate::global_newton::coupling::SurfaceInputs;
use crate::global_newton::newton_state::{CanonicalNewtonRow, CanonicalNewtonStateView};
use crate::global_newton::solve::{solve_global_system, GlobalSolveResult};
use crate::global_newton::system::GlobalNewtonSystem;
use crate::global_newton::update::{
    apply_global_updates_from_view, preview_global_update_ue_from_view, rows_updated,
    GlobalOperatingPreview, GlobalUpdateResult, RowForms, Step,
};
use crate::march::config::{strip_place, xstrip_to_xiforc, MarchConfig};
use crate::number::{
    abs, arithmetic, decimal, finite_or_zero, larger, tenths, tiny, whole, Formula, Real,
};
use crate::station::{entry_or, seq_or, BlStation, FlowType, Matrix};
use crate::viscal::control::{
    all_finite, deltas_are_finite, has_diverged, SolverError, ViscousResult, ViscousSolverConfig,
};
use crate::viscal::operating::{
    compute_operating_correction, compute_trial_cl_terms_from_view, lift_terms,
    operating_correction, operating_sensitivity_for_mode,
};
use crate::viscal::panel::{closed_values, given_row_values};
use crate::viscal::state::{
    NewtonForm, Sizes, StateOperations, StateShape, StateSummary, SurfaceEvents,
};
use vstd::prelude::*;

verus! {

/// The airfoil and the settings of its solution.
pub struct Airfoil<S> {
    pub config: ViscousSolverConfig<S>,
    /// Angle of attack, in radians.
    pub alpha: S,
    /// Coordinates of the panel nodes.
    pub panel_x: Vec<S>,
    pub panel_y: Vec<S>,
    /// Influence of mass defects on edge velocities.
    pub dij: Matrix<S>,
}

/// The distance between the panel nodes of the two trailing edge stations: zero where one of
/// them is no node of the airfoil.
pub open spec fn edge_thickness<S: Real>(
    x: Seq<S>,
    y: Seq<S>,
    upper: int,
    lower: int,
    sqrt: spec_fn(S) -> S,
) -> S {
    if upper < x.len() && lower < x.len() {
        let dx = x[upper] - x[lower];
        let dy = y[upper] - y[lower];
        sqrt(dx * dx + dy * dy)
    } else {
        whole::<S>(0)
    }
}

/// The thickness of the wake gap at arc length `x`, behind an edge of thickness `ante` at
/// arc length `x_te`: a cubic that closes two and a half thicknesses downstream.
pub open spec fn wake_gap<S: Real>(ante: S, x_te: S, x: S) -> S {
    let zn = whole::<S>(1) - (x - x_te) / (decimal::<S>(5, 2) * ante);
    if zn >= whole::<S>(0) {
        ante * (whole::<S>(3) + -whole::<S>(2) * zn) * zn * zn
    } else {
        whole::<S>(0)
    }
}

/// The wake gaps of the stations behind the trailing edge station `te`.
pub fn wake_gaps<S: Real>(ante: S, x: &[S], te: usize) -> (r: Vec<S>)
    requires
        arithmetic::<S>(),
        te < x@.len(),
    ensures
        r@ == Seq::new(
            (x@.len() - te - 1) as nat,
            |k: int| wake_gap(ante, x@[te as int], x@[te + 1 + k]),
        ),
{
    let one: S = whole(1);
    let x_te: S = x[te];
    let mut r: Vec<S> = Vec::with_capacity(x.len() - te - 1);
    let mut i: usize = te + 1;
    while i < x.len()
        invariant
            arithmetic::<S>(),
            te < i <= x@.len(),
            one == whole::<S>(1),
            x_te == x@[te as int],
            r@ == Seq::new(
                (i - te - 1) as nat,
                |k: int| wake_gap(ante, x@[te as int], x@[te + 1 + k]),
            ),
        decreases x@.len() - i,
    {
        let zn: S = one - (x[i] - x_te) / (decimal::<S>(5, 2) * ante);
        let gap: S = if zn >= whole(0) {
            ante * (whole::<S>(3) + whole::<S>(2).neg() * zn) * zn * zn
        } else {
            whole(0)
        };
        r.push(gap);
        i = i + 1;
    }
    r
}

/// The step `base`, corrected for the change `dac` of the operating variable.
pub open spec fn corrected<S: Real>(
    base: Seq<[S; 3]>,
    operating: Seq<[S; 3]>,
    dac: S,
) -> Seq<[S; 3]> {
    Seq::new(
        base.len(),
        |i: int|
            [
                base[i][0] - dac * operating[i][0],
                base[i][1] - dac * operating[i][1],
                base[i][2] - dac * operating[i][2],
            ],
    )
}

/// The step `base`, corrected for the change `dac` of the operating variable.
fn correct<S: Real>(base: &Vec<[S; 3]>, operating: &Vec<[S; 3]>, dac: S) -> (r: Vec<[S; 3]>)
    requires
        arithmetic::<S>(),
        base@.len() == operating@.len(),
    ensures
        r@ == corrected(base@, operating@, dac),
{
    let mut r: Vec<[S; 3]> = Vec::with_capacity(base.len());
    let mut i: usize = 0;
    while i < base.len()
        invariant
            arithmetic::<S>(),
            base@.len() == operating@.len(),
            i <= base@.len(),
            r@.len() == i,
            forall|k: int|
                0 <= k < i ==> #[trigger] r@[k] == corrected(base@, operating@, dac)[k],
        decreases base@.len() - i,
    {
        let b: [S; 3] = base[i];
        let o: [S; 3] = operating[i];
        r.push([b[0] - dac * o[0], b[1] - dac * o[1], b[2] - dac * o[2]]);
        i = i + 1;
    }
    r
}

/// What becomes of an iteration whose change has the size `residual`.
#[derive(Clone, Copy, Debug, PartialEq, Eq, Structural)]
pub enum Verdict {
    Converged,
    /// The step is undone, and the iteration ends.
    Rejected,
    Continue,
}

/// The verdict on iteration `iter`, counted from zero: converged below the tolerance, and
/// rejected where the change has run away or, past iteration five, is more than five times
/// the one before.
pub fn judge<S: Real>(residual: S, tolerance: S, iter: usize, previous: S) -> (r: Verdict)
    requires
        arithmetic::<S>(),
    ensures
        r == verdict(residual, tolerance, iter as int, previous),
{
    if residual < tolerance {
        Verdict::Converged
    } else if has_diverged(residual) {
        Verdict::Rejected
    } else if iter > 5 && residual > previous * whole(5) {
        Verdict::Rejected
    } else {
        Verdict::Continue
    }
}

/// The verdict on iteration `iter`.
pub open spec fn verdict<S: Real>(residual: S, tolerance: S, iter: int, previous: S) -> Verdict {
    if residual < tolerance {
        Verdict::Converged
    } else if has_diverged(residual) || (iter > 5 && residual > previous * whole::<S>(5)) {
        Verdict::Rejected
    } else {
        Verdict::Continue
    }
}

/// The vorticity and the arc length on both sides of the stagnation point, from the first
/// station behind it on either surface.
pub open spec fn stagnation_sides<S: Real>(
    upper_ue: Seq<S>,
    lower_ue: Seq<S>,
    upper_arc: Seq<S>,
    lower_arc: Seq<S>,
) -> ([S; 2], [S; 2]) {
    let small = tenths::<S>(8);
    (
        [
            abs(seq_or(upper_ue, 1, decimal::<S>(1, 10))),
            -abs(seq_or(lower_ue, 1, decimal::<S>(1, 10))),
        ],
        [
            -larger(abs(seq_or(lower_arc, 1, decimal::<S>(1, 100))), small),
            larger(abs(seq_or(upper_arc, 1, decimal::<S>(1, 100))), small),
        ],
    )
}

/// The vorticity and the arc length on both sides of the stagnation point.
fn sides_of_stagnation<S: Real>(
    upper_ue: &[S],
    lower_ue: &[S],
    upper_arc: &[S],
    lower_arc: &[S],
) -> (r: ([S; 2], [S; 2]))
    requires
        arithmetic::<S>(),
    ensures
        r == stagnation_sides(upper_ue@, lower_ue@, upper_arc@, lower_arc@),
{
    let small: S = tiny(8);
    let u: S = abs(entry_or(upper_ue, 1, decimal(1, 10)));
    let l: S = abs(entry_or(lower_ue, 1, decimal(1, 10)));
    let du: S = larger(abs(entry_or(upper_arc, 1, decimal(1, 100))), small);
    let dl: S = larger(abs(entry_or(lower_arc, 1, decimal(1, 100))), small);
    ([u, l.neg()], [dl.neg(), du])
}

/// The arc length at which transition is forced on a surface: none at the trailing edge.
pub fn forced_transition<S: Real>(stations: &[BlStation<S>], xstrip: S) -> (r: Option<S>)
    requires
        arithmetic::<S>(),
    ensures
        r == forced_at(stations@, xstrip),
{
    if xstrip < whole::<S>(1) - tiny(9) {
        Some(xstrip_to_xiforc(stations, xstrip))
    } else {
        None
    }
}

/// An iteration that was taken: the update, the rows after it, and the state with both.
pub struct TakenStep<S, Z> {
    pub update: GlobalUpdateResult<S>,
    pub view: CanonicalNewtonStateView<S>,
    pub state: Z,
}

/// What a Newton iteration of both surfaces has made.
pub struct NewtonIterate<S, Z> {
    /// The state that a rejected step falls back to.
    pub prepared: Z,
    pub system: GlobalNewtonSystem<S>,
    pub solution: GlobalSolveResult<S>,
    /// The root mean square of the residuals.
    pub residual: S,
    /// The change of the operating variable.
    pub dac: S,
    /// The step with that change.
    pub deltas: Vec<[S; 3]>,
    /// None where the step is not finite.
    pub taken: Option<TakenStep<S, Z>>,
}

/// What a Newton iteration has passed through.
pub struct Trace<S, Z> {
    pub shape: StateShape<S>,
    pub gapped: Z,
    pub sensitivities: (Seq<S>, Seq<S>),
    pub stagnation: Option<(S, S)>,
    pub half: Z,
    pub marched: Z,
    pub form: NewtonForm<S>,
    pub view: CanonicalNewtonStateView<S>,
    pub preview: GlobalOperatingPreview<S>,
    pub absorbed: Z,
    pub split: usize,
    pub relocated: (Z, Option<usize>),
}

/// Where transition is forced, and how the stagnation point moves where the state does not
/// tell.
#[derive(Clone, Copy, Debug)]
pub struct NewtonSetting<S> {
    pub xiforc_upper: Option<S>,
    pub xiforc_lower: Option<S>,
    pub sst_go: S,
    pub sst_gp: S,
}

impl<S: Real> Airfoil<S> {
    /// The nodes have both coordinates, and the influence matrix is whole.
    pub open spec fn wf(&self) -> bool {
        &&& self.panel_x@.len() == self.panel_y@.len()
        &&& self.dij.wf()
    }

    /// The thickness of the trailing edge of a state.
    pub open spec fn thickness(&self, shape: StateShape<S>, sqrt: spec_fn(S) -> S) -> S {
        edge_thickness(
            self.panel_x@,
            self.panel_y@,
            seq_or(shape.upper_panels@, shape.iblte_upper as int, 0) as int,
            seq_or(shape.lower_panels@, shape.iblte_lower as int, 0) as int,
            sqrt,
        )
    }

    /// The wake gaps behind the trailing edge of a state.
    pub open spec fn gaps(&self, shape: StateShape<S>, sqrt: spec_fn(S) -> S) -> Seq<S> {
        let te = shape.iblte_lower as int;
        Seq::new(
            (shape.lower_x@.len() - te - 1) as nat,
            |k: int|
                wake_gap(
                    self.thickness(shape, sqrt),
                    shape.lower_x@[te],
                    shape.lower_x@[te + 1 + k],
                ),
        )
    }

    /// Whether a state has wake gaps: behind a blunt edge that is a station.
    pub open spec fn has_gaps(&self, shape: StateShape<S>, sqrt: spec_fn(S) -> S) -> bool {
        !(self.thickness(shape, sqrt) < tenths::<S>(10)) && shape.iblte_lower
            < shape.lower_x@.len()
    }

    /// The state is prepared: wake gaps where it has them, and panel arrays up to date.
    pub open spec fn prepares<O: StateOperations<S>>(
        &self,
        ops: O,
        sqrt: spec_fn(S) -> S,
        z: O::State,
        t: Trace<S, O::State>,
        prepared: O::State,
    ) -> bool {
        &&& ops.has_shape(z, t.shape)
        &&& if self.has_gaps(t.shape, sqrt) {
            ops.takes_gaps(z, self.gaps(t.shape, sqrt), t.gapped)
        } else {
            t.gapped == z
        }
        &&& ops.refreshes(t.gapped, prepared)
    }

    /// The Newton form of a prepared state: both surfaces marched in the mixed form, the
    /// sensitivities to the operating variable, the edge thickness, and the derivatives of
    /// the stagnation arc length.
    pub open spec fn forms_view<O: StateOperations<S>>(
        &self,
        ops: O,
        sqrt: spec_fn(S) -> S,
        setting: NewtonSetting<S>,
        prepared: O::State,
        t: Trace<S, O::State>,
    ) -> bool {
        let (sst_go, sst_gp) = match t.stagnation {
            Some(d) => d,
            None => (setting.sst_go, setting.sst_gp),
        };
        let c = self.config;
        let free = c.operating_mode is PrescribedCl;
        let (su, sl) = t.sensitivities;
        &&& ops.has_sensitivities(prepared, su, sl)
        &&& ops.has_stagnation(prepared, t.stagnation)
        &&& ops.mixes(prepared, true, c.reynolds, c.msq, c.march(setting.xiforc_upper), t.half)
        &&& ops.mixes(t.half, false, c.reynolds, c.msq, c.march(setting.xiforc_lower), t.marched)
        &&& ops.has_form(t.marched, t.form)
        &&& t.view.upper_ue_from_mass@ == Seq::<S>::empty()
        &&& t.view.lower_ue_from_mass@ == Seq::<S>::empty()
        &&& t.view.upper_ue_operating@ == (if free {
            su
        } else {
            Seq::new(su.len(), |i: int| whole::<S>(0))
        })
        &&& t.view.lower_ue_operating@ == (if free {
            sl
        } else {
            Seq::new(sl.len(), |i: int| whole::<S>(0))
        })
        &&& t.view == (CanonicalNewtonStateView {
            upper_ue_from_mass: t.view.upper_ue_from_mass,
            lower_ue_from_mass: t.view.lower_ue_from_mass,
            upper_ue_operating: t.view.upper_ue_operating,
            lower_ue_operating: t.view.lower_ue_operating,
            ante: self.thickness(t.shape, sqrt),
            sst_go,
            sst_gp,
            ..t.form.view
        })
    }

    /// The system is built for the Newton form `t`.
    pub open spec fn builds<O: StateOperations<S>, T>(
        &self,
        ops: O,
        setting: NewtonSetting<S>,
        iter: usize,
        laws: BlLaws<S, T>,
        z: O::State,
        t: Trace<S, O::State>,
        system: GlobalNewtonSystem<S>,
    ) -> bool {
        let c = self.config;
        let v = t.view;
        &&& system.wf()
        &&& ops.sizes(z) == (Sizes {
            n_upper: system.n_upper,
            n_lower: system.n_lower,
            iblte_upper: system.iblte_upper,
            iblte_lower: system.iblte_lower,
        })
        &&& system.xiforc_upper == setting.xiforc_upper
        &&& system.xiforc_lower == setting.xiforc_lower
        &&& system.ante == v.ante
        &&& system.sst_go == finite_or_zero(v.sst_go)
        &&& system.sst_gp == finite_or_zero(v.sst_gp)
        &&& system.built(
            &system,
            t.form.upper@,
            t.form.lower@,
            SurfaceInputs {
                flow_types: v.upper_flow_types@,
                current: v.upper_ue_current@,
                inviscid: v.upper_ue_inviscid@,
                from_mass: v.upper_ue_from_mass@,
                operating: v.upper_ue_operating@,
            },
            SurfaceInputs {
                flow_types: v.lower_flow_types@,
                current: v.lower_ue_current@,
                inviscid: v.lower_ue_inviscid@,
                from_mass: v.lower_ue_from_mass@,
                operating: v.lower_ue_operating@,
            },
            &self.dij,
            iter,
            laws,
            Conditions { ncrit: c.ncrit, msq: c.msq, re: c.reynolds },
        )
    }

    /// The step of the system is found: both solutions, the trial lift, and the change of
    /// the operating variable that it asks for.
    pub open spec fn solves<O: StateOperations<S>, L: Fn(&Vec<S>, S) -> S>(
        &self,
        sqrt: spec_fn(S) -> S,
        cl: L,
        t: Trace<S, O::State>,
        o: NewtonIterate<S, O::State>,
    ) -> bool {
        let v = t.view;
        let n = self.panel_x@.len();
        let (cl_new, cl_alpha, cl_ac) = lift_terms(
            closed_values(
                given_row_values(v.upper_rows@, t.preview.upper_u_new@),
                given_row_values(v.lower_rows@, t.preview.lower_u_new@),
                n,
            ),
            closed_values(
                given_row_values(v.upper_rows@, t.preview.upper_u_ac@),
                given_row_values(v.lower_rows@, t.preview.lower_u_ac@),
                n,
            ),
            self.alpha,
            cl,
        );
        &&& o.residual == sqrt(o.system.mean_square())
        &&& o.solution.state_deltas@ == o.system.solution(o.system.vdel@)
        &&& o.solution.operating_deltas@ == o.system.solution(o.system.vdel_operating@)
        &&& v.preview_is(
            o.solution.state_deltas@,
            Some(o.solution.operating_deltas@),
            &o.system,
            &self.dij,
            t.preview,
        )
        &&& o.dac == operating_correction(
            self.config.operating_mode,
            cl_new,
            cl_alpha,
            cl_ac,
        )
        &&& o.deltas@ == corrected(
            o.solution.state_deltas@,
            o.solution.operating_deltas@,
            o.dac,
        )
        &&& o.taken is Some <==> all_finite(o.deltas@)
    }
}

/// How the outside relations of an iteration are handed in: the closure of the boundary
/// layer, the operations on the state, the forms of a row, and the lift of a vorticity
/// distribution at an angle of attack.
pub struct Outside<'a, P, O, A, C, L> {
    pub closure: &'a P,
    pub ops: &'a O,
    pub forms: &'a RowForms<A, C>,
    pub cl: &'a L,
}

impl<'a, P, O, A, C, L> Outside<'a, P, O, A, C, L> {
    /// The relations can be called.
    pub open spec fn ready<S: Real>(&self) -> bool where
        P: BlClosure<S>,
        O: StateOperations<S>,
        A: Fn((CanonicalNewtonRow<S>, FlowType)) -> BlStation<S>,
        C: Fn((CanonicalNewtonRow<S>, BlStation<S>)) -> CanonicalNewtonRow<S>,
        L: Fn(&Vec<S>, S) -> S,
     {
        &&& self.closure.lawful()
        &&& self.ops.ready()
        &&& function(self.forms.as_station)
        &&& function(self.forms.overwrite)
        &&& list_function(*self.cl)
    }
}

impl<S: Real> Airfoil<S> {
    /// A finite step is taken: the rows are updated, the state takes them over, and the
    /// stagnation point moves with the vorticity.
    pub open spec fn takes<
        P: BlClosure<S>,
        O: StateOperations<S>,
        A: Fn((CanonicalNewtonRow<S>, FlowType)) -> BlStation<S>,
        C: Fn((CanonicalNewtonRow<S>, BlStation<S>)) -> CanonicalNewtonRow<S>,
        L: Fn(&Vec<S>, S) -> S,
    >(
        &self,
        outside: Outside<P, O, A, C, L>,
        t: Trace<S, O::State>,
        o: NewtonIterate<S, O::State>,
        taken: TakenStep<S, O::State>,
    ) -> bool {
        let ops = *outside.ops;
        &&& rows_updated(
            &t.view,
            &taken.view,
            taken.update,
            Step {
                deltas: o.solution.state_deltas@,
                operating: Some(o.solution.operating_deltas@),
                dac: o.dac,
            },
            &o.system,
            whole::<S>(1),
            &self.dij,
            self.config.msq,
            self.config.reynolds,
            *outside.forms,
            outside.closure.laws(),
        )
        &&& ops.absorbs(t.marched, taken.view, taken.update, o.dac, t.absorbed)
        &&& ops.has_split(t.absorbed, t.split)
        &&& ops.relocates(t.absorbed, t.split, t.relocated)
        &&& match t.relocated.1 {
            Some(new) if new != t.split => ops.adjusts(
                t.relocated.0,
                t.split,
                new,
                taken.state,
            ),
            _ => taken.state == t.relocated.0,
        }
    }

    /// `o` is what Newton iteration `iter` makes of the state `z`, by way of `t`.
    pub open spec fn iterates<
        P: BlClosure<S>,
        O: StateOperations<S>,
        A: Fn((CanonicalNewtonRow<S>, FlowType)) -> BlStation<S>,
        C: Fn((CanonicalNewtonRow<S>, BlStation<S>)) -> CanonicalNewtonRow<S>,
        L: Fn(&Vec<S>, S) -> S,
    >(
        &self,
        outside: Outside<P, O, A, C, L>,
        setting: NewtonSetting<S>,
        iter: usize,
        z: O::State,
        t: Trace<S, O::State>,
        o: NewtonIterate<S, O::State>,
    ) -> bool {
        let ops = *outside.ops;
        let laws = outside.closure.laws();
        &&& self.prepares(ops, laws.sqrt, z, t, o.prepared)
        &&& self.forms_view(ops, laws.sqrt, setting, o.prepared, t)
        &&& self.builds(ops, setting, iter, laws, z, t, o.system)
        &&& self.solves::<O, L>(laws.sqrt, *outside.cl, t, o)
        &&& match o.taken {
            Some(taken) => self.takes(outside, t, o, taken),
            None => true,
        }
    }

    /// The thickness of the trailing edge of a state.
    fn thickness_of<P: BlClosure<S>>(&self, shape: &StateShape<S>, closure: &P) -> (r: S)
        requires
            arithmetic::<S>(),
            closure.lawful(),
            self.wf(),
        ensures
            r == self.thickness(*shape, closure.laws().sqrt),
    {
        let upper: usize = entry_or(&shape.upper_panels, shape.iblte_upper, 0);
        let lower: usize = entry_or(&shape.lower_panels, shape.iblte_lower, 0);
        if upper < self.panel_x.len() && lower < self.panel_x.len() {
            let dx: S = self.panel_x[upper] - self.panel_x[lower];
            let dy: S = self.panel_y[upper] - self.panel_y[lower];
            closure.sqrt(dx * dx + dy * dy)
        } else {
            whole(0)
        }
    }

    /// One Newton iteration of both surfaces, from the state `z`.
    #[verifier::rlimit(40)]
    pub fn newton_iteration<
        P: BlClosure<S>,
        O: StateOperations<S>,
        A: Fn((CanonicalNewtonRow<S>, FlowType)) -> BlStation<S>,
        C: Fn((CanonicalNewtonRow<S>, BlStation<S>)) -> CanonicalNewtonRow<S>,
        L: Fn(&Vec<S>, S) -> S,
    >(
        &self,
        outside: &Outside<P, O, A, C, L>,
        setting: &NewtonSetting<S>,
        iter: usize,
        z: &O::State,
    ) -> (r: (NewtonIterate<S, O::State>, Ghost<Trace<S, O::State>>))
        requires
            arithmetic::<S>(),
            outside.ready(),
            outside.ops.valid(*z),
            self.wf(),
        ensures
            self.iterates(*outside, *setting, iter, *z, r.1@, r.0),
            outside.ops.valid(r.0.prepared),
            r.0.taken matches Some(taken) ==> outside.ops.valid(taken.state),
    {
        let closure: &P = outside.closure;
        let ops: &O = outside.ops;
        let config: ViscousSolverConfig<S> = self.config;
        let re: S = config.reynolds;
        let msq: S = config.msq;
        let ghost laws = closure.laws();
        let shape: StateShape<S> = ops.shape(z);
        let n_upper: usize = shape.upper_panels.len();
        let n_lower: usize = shape.lower_panels.len();
        let ante: S = self.thickness_of(&shape, closure);
        let ghost mut gapped = *z;
        let prepared: O::State = if ante < tiny(10) || shape.iblte_lower >= shape.lower_x.len() {
            ops.refresh(z)
        } else {
            let gaps: Vec<S> = wake_gaps(ante, &shape.lower_x, shape.iblte_lower);
            assert(gaps@ =~= self.gaps(shape, laws.sqrt));
            let with_gaps: O::State = ops.take_gaps(z, &gaps);
            proof {
                gapped = with_gaps;
            }
            ops.refresh(&with_gaps)
        };
        let sensitivities: (Vec<S>, Vec<S>) = ops.sensitivities(&prepared);
        let (upper_operating, lower_operating): (Vec<S>, Vec<S>) = operating_sensitivity_for_mode(
            config.operating_mode,
            &sensitivities.0,
            &sensitivities.1,
        );
        let stagnation: Option<(S, S)> = ops.stagnation(&prepared);
        let (sst_go, sst_gp): (S, S) = match stagnation {
            Some(d) => d,
            None => (setting.sst_go, setting.sst_gp),
        };
        let upper_march: MarchConfig<S> = config.march_config(setting.xiforc_upper);
        let lower_march: MarchConfig<S> = config.march_config(setting.xiforc_lower);
        let half: O::State = ops.mixed_march(&prepared, true, re, msq, upper_march);
        let marched: O::State = ops.mixed_march(&half, false, re, msq, lower_march);
        let form: NewtonForm<S> = ops.newton_form(&marched);
        let ghost form_made = form;
        let NewtonForm { view: form_view, upper, lower } = form;
        let mut view: CanonicalNewtonStateView<S> = form_view;
        view.upper_ue_from_mass = Vec::new();
        view.lower_ue_from_mass = Vec::new();
        view.upper_ue_operating = upper_operating;
        view.lower_ue_operating = lower_operating;
        view.ante = ante;
        view.sst_go = sst_go;
        view.sst_gp = sst_gp;
        let ghost solved_view = view;
        let mut system: GlobalNewtonSystem<S> = GlobalNewtonSystem::new(
            n_upper,
            n_lower,
            shape.iblte_upper,
            shape.iblte_lower,
        );
        system.xiforc_upper = setting.xiforc_upper;
        system.xiforc_lower = setting.xiforc_lower;
        system.build_global_system_from_view(
            &view,
            &upper,
            &lower,
            &self.dij,
            config.ncrit,
            msq,
            re,
            iter,
            closure,
        );
        let residual: S = system.rms_residual(closure);
        let solution: GlobalSolveResult<S> = solve_global_system(&mut system);
        let preview: GlobalOperatingPreview<S> = preview_global_update_ue_from_view(
            &view,
            &solution.state_deltas,
            Some(&solution.operating_deltas),
            &system,
            &self.dij,
        );
        let (cl_new, cl_alpha, cl_ac): (S, S, S) = compute_trial_cl_terms_from_view(
            self.panel_x.len(),
            &view,
            &preview.upper_u_new,
            &preview.lower_u_new,
            &preview.upper_u_ac,
            &preview.lower_u_ac,
            self.alpha,
            outside.cl,
        );
        let dac: S = compute_operating_correction(config.operating_mode, cl_new, cl_alpha, cl_ac);
        let deltas: Vec<[S; 3]> = correct(
            &solution.state_deltas,
            &solution.operating_deltas,
            dac,
        );
        let ghost mut trace = Trace {
            shape,
            gapped,
            sensitivities: (sensitivities.0@, sensitivities.1@),
            stagnation,
            half,
            marched,
            form: form_made,
            view: solved_view,
            preview,
            absorbed: marched,
            split: 0,
            relocated: (marched, None),
        };
        if !deltas_are_finite(&deltas) {
            let o = NewtonIterate {
                prepared,
                system,
                solution,
                residual,
                dac,
                deltas,
                taken: None,
            };
            return (o, Ghost(trace));
        }
        let update: GlobalUpdateResult<S> = apply_global_updates_from_view(
            &mut view,
            &solution.state_deltas,
            Some(&solution.operating_deltas),
            &system,
            whole(1),
            &self.dij,
            dac,
            msq,
            re,
            outside.forms,
            closure,
        );
        assert(view.fits(ops.sizes(marched)));
        let absorbed: O::State = ops.absorb(&marched, &view, &update, dac);
        let split: usize = ops.split(&absorbed);
        let relocated: (O::State, Option<usize>) = ops.relocate(&absorbed, split);
        proof {
            trace = Trace { absorbed, split, relocated, ..trace };
        }
        let (moved, new): (O::State, Option<usize>) = relocated;
        let state: O::State = match new {
            Some(k) => if k != split {
                ops.adjust(&moved, split, k)
            } else {
                moved
            },
            None => moved,
        };
        let o = NewtonIterate {
            prepared,
            system,
            solution,
            residual,
            dac,
            deltas,
            taken: Some(TakenStep { update, view, state }),
        };
        (o, Ghost(trace))
    }
}

/// How the Newton iterations have ended.
pub struct NewtonOutcome<S, Z> {
    pub state: Z,
    pub iterations: usize,
    pub residual: S,
    pub converged: bool,
}

impl<S: Real> Airfoil<S> {
    /// The Newton iterations from `iter` up to, but not including, `max` lead from the state
    /// `z` to `out`, where `residual` is the size of the change before.
    ///
    /// They end on convergence, with the state of that iteration; on a rejected step, with
    /// the state before it; on a step that is not finite, with the state before it and no
    /// iteration counted; or with the last iteration, unconverged.
    pub open spec fn newton_runs<
        P: BlClosure<S>,
        O: StateOperations<S>,
        A: Fn((CanonicalNewtonRow<S>, FlowType)) -> BlStation<S>,
        C: Fn((CanonicalNewtonRow<S>, BlStation<S>)) -> CanonicalNewtonRow<S>,
        L: Fn(&Vec<S>, S) -> S,
    >(
        &self,
        outside: Outside<P, O, A, C, L>,
        setting: NewtonSetting<S>,
        max: int,
        iter: int,
        z: O::State,
        residual: S,
        out: NewtonOutcome<S, O::State>,
    ) -> bool
        decreases max - iter,
    {
        if iter >= max {
            out == (NewtonOutcome {
                state: z,
                iterations: iter as usize,
                residual,
                converged: false,
            })
        } else {
            exists|t: Trace<S, O::State>, o: NewtonIterate<S, O::State>|
                {
                    &&& #[trigger] self.iterates(outside, setting, iter as usize, z, t, o)
                    &&& match o.taken {
                        None => out == (NewtonOutcome {
                            state: o.prepared,
                            iterations: 0,
                            residual: o.residual,
                            converged: false,
                        }),
                        Some(taken) => {
                            let change = taken.update.rms_change;
                            match verdict(change, self.config.tolerance, iter, residual) {
                                Verdict::Converged => out == (NewtonOutcome {
                                    state: taken.state,
                                    iterations: (iter + 1) as usize,
                                    residual: change,
                                    converged: true,
                                }),
                                Verdict::Rejected => out == (NewtonOutcome {
                                    state: o.prepared,
                                    iterations: (iter + 1) as usize,
                                    residual: change,
                                    converged: false,
                                }),
                                Verdict::Continue => self.newton_runs(
                                    outside,
                                    setting,
                                    max,
                                    iter + 1,
                                    taken.state,
                                    change,
                                    out,
                                ),
                            }
                        },
                    }
                }
        }
    }

    /// The largest number of Newton iterations: that of the settings, and thirty at most.
    pub open spec fn iteration_limit(&self) -> usize {
        if self.config.max_iterations < 30 {
            self.config.max_iterations
        } else {
            30
        }
    }

    /// Runs the Newton iterations of both surfaces from the state `z`.
    pub fn run_newton<
        P: BlClosure<S>,
        O: StateOperations<S>,
        A: Fn((CanonicalNewtonRow<S>, FlowType)) -> BlStation<S>,
        C: Fn((CanonicalNewtonRow<S>, BlStation<S>)) -> CanonicalNewtonRow<S>,
        L: Fn(&Vec<S>, S) -> S,
    >(
        &self,
        outside: &Outside<P, O, A, C, L>,
        setting: &NewtonSetting<S>,
        z: O::State,
    ) -> (r: NewtonOutcome<S, O::State>)
        requires
            arithmetic::<S>(),
            outside.ready(),
            outside.ops.valid(z),
            self.wf(),
        ensures
            outside.ops.valid(r.state),
            self.newton_runs(
                *outside,
                *setting,
                self.iteration_limit() as int,
                0,
                z,
                whole::<S>(0),
                r,
            ),
    {
        let max: usize = if self.config.max_iterations < 30 {
            self.config.max_iterations
        } else {
            30
        };
        let ghost start = z;
        let mut state: O::State = z;
        let mut residual: S = whole(0);
        let mut iter: usize = 0;
        while iter < max
            invariant
                arithmetic::<S>(),
                outside.ready(),
                outside.ops.valid(state),
                self.wf(),
                max == self.iteration_limit(),
                iter <= max <= 30,
                start == z,
                forall|out: NewtonOutcome<S, O::State>|
                    self.newton_runs(
                        *outside,
                        *setting,
                        max as int,
                        iter as int,
                        state,
                        residual,
                        out,
                    ) ==> #[trigger] self.newton_runs(
                        *outside,
                        *setting,
                        max as int,
                        0,
                        start,
                        whole::<S>(0),
                        out,
                    ),
            decreases max - iter,
        {
            let (o, trace): (NewtonIterate<S, O::State>, Ghost<Trace<S, O::State>>) =
                self.newton_iteration(outside, setting, iter, &state);
            let ghost made = o;
            assert(self.iterates(*outside, *setting, iter, state, trace@, made));
            match o.taken {
                None => {
                    let r = NewtonOutcome {
                        state: o.prepared,
                        iterations: 0,
                        residual: o.residual,
                        converged: false,
                    };
                    assert(self.newton_runs(
                        *outside,
                        *setting,
                        max as int,
                        iter as int,
                        state,
                        residual,
                        r,
                    ));
                    return r;
                },
                Some(taken) => {
                    let change: S = taken.update.rms_change;
                    match judge(change, self.config.tolerance, iter, residual) {
                        Verdict::Converged => {
                            let r = NewtonOutcome {
                                state: taken.state,
                                iterations: iter + 1,
                                residual: change,
                                converged: true,
                            };
                            assert(self.newton_runs(
                                *outside,
                                *setting,
                                max as int,
                                iter as int,
                                state,
                                residual,
                                r,
                            ));
                            return r;
                        },
                        Verdict::Rejected => {
                            let r = NewtonOutcome {
                                state: o.prepared,
                                iterations: iter + 1,
                                residual: change,
                                converged: false,
                            };
                            assert(self.newton_runs(
                                *outside,
                                *setting,
                                max as int,
                                iter as int,
                                state,
                                residual,
                                r,
                            ));
                            return r;
                        },
                        Verdict::Continue => {
                            let ghost before = state;
                            let ghost previous = residual;
                            state = taken.state;
                            residual = change;
                            proof {
                                assert forall|out: NewtonOutcome<S, O::State>|
                                    self.newton_runs(
                                        *outside,
                                        *setting,
                                        max as int,
                                        iter + 1,
                                        state,
                                        residual,
                                        out,
                                    ) implies #[trigger] self.newton_runs(
                                    *outside,
                                    *setting,
                                    max as int,
                                    0,
                                    start,
                                    whole::<S>(0),
                                    out,
                                ) by {
                                    assert(self.newton_runs(
                                        *outside,
                                        *setting,
                                        max as int,
                                        iter as int,
                                        before,
                                        previous,
                                        out,
                                    ));
                                }
                            }
                        },
                    }
                },
            }
            iter = iter + 1;
        }
        let r = NewtonOutcome { state, iterations: iter, residual, converged: false };
        assert(self.newton_runs(
            *outside,
            *setting,
            max as int,
            iter as int,
            r.state,
            residual,
            r,
        ));
        r
    }
}

/// What the solution of an airfoil has passed through, before the Newton iterations and
/// behind them.
pub struct SolveTrace<S, Z> {
    pub setting: NewtonSetting<S>,
    pub upper_marched: (Z, SurfaceEvents<S>),
    pub lower_marched: (Z, SurfaceEvents<S>),
    pub upper_recorded: Z,
    pub recorded: Z,
    pub stagnation: Option<(S, S)>,
    pub outcome: NewtonOutcome<S, Z>,
    pub summary: StateSummary<S>,
}

/// The arc lengths of the stations.
fn arc_lengths<S: Real>(stations: &[BlStation<S>]) -> (r: Vec<S>)
    ensures
        r@ == stations@.map_values(|s: BlStation<S>| s.x),
{
    let mut r: Vec<S> = Vec::with_capacity(stations.len());
    let mut i: usize = 0;
    while i < stations.len()
        invariant
            i <= stations@.len(),
            r@.len() == i,
            forall|k: int| 0 <= k < i ==> #[trigger] r@[k] == stations@[k].x,
        decreases stations@.len() - i,
    {
        r.push(stations[i].x);
        i = i + 1;
    }
    r
}

/// The arc length at which transition is forced on a surface: none at the trailing edge.
pub open spec fn forced_at<S: Real>(stations: Seq<BlStation<S>>, xstrip: S) -> Option<S> {
    if xstrip < whole::<S>(1) - tenths::<S>(9) {
        Some(strip_place(stations, xstrip))
    } else {
        None
    }
}

impl<S: Real> Airfoil<S> {
    /// Whether the Newton iterations run at all: both surfaces have three stations, and the
    /// settings allow an iteration.
    pub open spec fn runs_newton(&self, n_upper: nat, n_lower: nat) -> bool {
        self.config.max_iterations > 0 && n_upper >= 3 && n_lower >= 3
    }

    /// `r` and the state `z` are the solution of the airfoil, by way of `t`: both surfaces
    /// marched from the stagnation point, transition recorded, the Newton iterations where
    /// they run, and the final state read.
    pub open spec fn solved_by<
        P: BlClosure<S>,
        O: StateOperations<S>,
        A: Fn((CanonicalNewtonRow<S>, FlowType)) -> BlStation<S>,
        C: Fn((CanonicalNewtonRow<S>, BlStation<S>)) -> CanonicalNewtonRow<S>,
        L: Fn(&Vec<S>, S) -> S,
    >(
        &self,
        outside: Outside<P, O, A, C, L>,
        upper: Seq<BlStation<S>>,
        lower: Seq<BlStation<S>>,
        upper_ue: Seq<S>,
        lower_ue: Seq<S>,
        t: SolveTrace<S, O::State>,
        r: ViscousResult<S>,
        z: O::State,
    ) -> bool {
        let ops = *outside.ops;
        let c = self.config;
        let (gamma, arc) = stagnation_sides(
            upper_ue,
            lower_ue,
            upper.map_values(|s: BlStation<S>| s.x),
            lower.map_values(|s: BlStation<S>| s.x),
        );
        let eu = t.upper_marched.1;
        let el = t.lower_marched.1;
        &&& t.setting.xiforc_upper == forced_at(upper, c.xstrip_upper)
        &&& t.setting.xiforc_lower == forced_at(lower, c.xstrip_lower)
        &&& ops.marches(
            ops.start(),
            true,
            c.reynolds,
            c.msq,
            c.march(t.setting.xiforc_upper),
            t.upper_marched,
        )
        &&& ops.marches(
            t.upper_marched.0,
            false,
            c.reynolds,
            c.msq,
            c.march(t.setting.xiforc_lower),
            t.lower_marched,
        )
        &&& ops.records(
            t.lower_marched.0,
            true,
            eu.transition_index,
            eu.x_transition,
            t.upper_recorded,
        )
        &&& ops.records(
            t.upper_recorded,
            false,
            el.transition_index,
            el.x_transition,
            t.recorded,
        )
        &&& if self.runs_newton(upper.len(), lower.len()) {
            &&& ops.stagnates(gamma, arc, t.stagnation)
            &&& (t.setting.sst_go, t.setting.sst_gp) == (match t.stagnation {
                Some(d) => d,
                None => (whole::<S>(0), whole::<S>(0)),
            })
            &&& self.newton_runs(
                outside,
                t.setting,
                self.iteration_limit() as int,
                0,
                t.recorded,
                whole::<S>(0),
                t.outcome,
            )
        } else {
            t.outcome == (NewtonOutcome {
                state: t.recorded,
                iterations: 0,
                residual: whole::<S>(0),
                converged: true,
            })
        }
        &&& ops.finishes(t.outcome.state, (z, t.summary))
        &&& r == (ViscousResult {
            alpha: whole::<S>(0),
            cl: t.summary.forces.cl,
            cd: t.summary.forces.cd,
            cm: t.summary.forces.cm,
            x_tr_upper: (match t.summary.xtran_upper {
                Some(x) => x,
                None => whole::<S>(1),
            }),
            x_tr_lower: (match t.summary.xtran_lower {
                Some(x) => x,
                None => whole::<S>(1),
            }),
            iterations: t.outcome.iterations,
            residual: t.outcome.residual,
            converged: t.outcome.converged,
            cd_friction: t.summary.forces.cd_friction,
            cd_pressure: t.summary.forces.cd_pressure,
            x_separation: (if eu.x_separation is Some {
                eu.x_separation
            } else {
                el.x_separation
            }),
        })
    }
}

impl<S: Real> Airfoil<S> {
    /// `r` and the state `z` are the solution of the airfoil.
    pub open spec fn solved<
        P: BlClosure<S>,
        O: StateOperations<S>,
        A: Fn((CanonicalNewtonRow<S>, FlowType)) -> BlStation<S>,
        C: Fn((CanonicalNewtonRow<S>, BlStation<S>)) -> CanonicalNewtonRow<S>,
        L: Fn(&Vec<S>, S) -> S,
    >(
        &self,
        outside: Outside<P, O, A, C, L>,
        upper: Seq<BlStation<S>>,
        lower: Seq<BlStation<S>>,
        upper_ue: Seq<S>,
        lower_ue: Seq<S>,
        r: ViscousResult<S>,
        z: O::State,
    ) -> bool {
        exists|t: SolveTrace<S, O::State>|
            self.solved_by(outside, upper, lower, upper_ue, lower_ue, t, r, z)
    }
}

/// Solves the viscous flow over an airfoil: both surfaces are marched from the stagnation
/// point, and then coupled with the outer flow by Newton iterations.
pub fn solve_viscous_two_surfaces<
    S: Real,
    P: BlClosure<S>,
    O: StateOperations<S>,
    A: Fn((CanonicalNewtonRow<S>, FlowType)) -> BlStation<S>,
    C: Fn((CanonicalNewtonRow<S>, BlStation<S>)) -> CanonicalNewtonRow<S>,
    L: Fn(&Vec<S>, S) -> S,
>(
    airfoil: &Airfoil<S>,
    upper_stations: &[BlStation<S>],
    lower_stations: &[BlStation<S>],
    upper_ue: &[S],
    lower_ue: &[S],
    outside: &Outside<P, O, A, C, L>,
) -> (r: Result<(ViscousResult<S>, O::State), SolverError<S>>)
    requires
        arithmetic::<S>(),
        outside.ready(),
        airfoil.wf(),
    ensures
        match r {
            Err(e) => airfoil.config.reynolds <= whole::<S>(0) && e is InvalidReynolds,
            Ok((result, state)) => !(airfoil.config.reynolds <= whole::<S>(0)) && airfoil.solved(
                *outside,
                upper_stations@,
                lower_stations@,
                upper_ue@,
                lower_ue@,
                result,
                state,
            ),
        },
{
    let config: ViscousSolverConfig<S> = airfoil.config;
    if config.reynolds <= whole(0) {
        return Err(SolverError::InvalidReynolds);
    }
    let ops: &O = outside.ops;
    let re: S = config.reynolds;
    let msq: S = config.msq;
    let xiforc_upper: Option<S> = forced_transition(upper_stations, config.xstrip_upper);
    let xiforc_lower: Option<S> = forced_transition(lower_stations, config.xstrip_lower);
    let upper_march: MarchConfig<S> = config.march_config(xiforc_upper);
    let lower_march: MarchConfig<S> = config.march_config(xiforc_lower);
    let upper_marched: (O::State, SurfaceEvents<S>) = ops.march_surface(
        ops.initial(),
        true,
        re,
        msq,
        upper_march,
    );
    let lower_marched: (O::State, SurfaceEvents<S>) = ops.march_surface(
        &upper_marched.0,
        false,
        re,
        msq,
        lower_march,
    );
    let upper_events: SurfaceEvents<S> = upper_marched.1;
    let lower_events: SurfaceEvents<S> = lower_marched.1;
    let upper_recorded: O::State = ops.record_transition(
        &lower_marched.0,
        true,
        upper_events.transition_index,
        upper_events.x_transition,
    );
    let recorded: O::State = ops.record_transition(
        &upper_recorded,
        false,
        lower_events.transition_index,
        lower_events.x_transition,
    );
    let ghost recorded_state = recorded;
    let coupled: bool = config.max_iterations > 0 && upper_stations.len() >= 3
        && lower_stations.len() >= 3;
    let stagnation: Option<(S, S)> = if coupled {
        let upper_arc: Vec<S> = arc_lengths(upper_stations);
        let lower_arc: Vec<S> = arc_lengths(lower_stations);
        let (gamma, arc): ([S; 2], [S; 2]) = sides_of_stagnation(
            upper_ue,
            lower_ue,
            &upper_arc,
            &lower_arc,
        );
        ops.stagnation_between(gamma, arc)
    } else {
        None
    };
    let (sst_go, sst_gp): (S, S) = match stagnation {
        Some(d) => d,
        None => (whole(0), whole(0)),
    };
    let setting = NewtonSetting { xiforc_upper, xiforc_lower, sst_go, sst_gp };
    let outcome: NewtonOutcome<S, O::State> = if coupled {
        airfoil.run_newton(outside, &setting, recorded)
    } else {
        NewtonOutcome { state: recorded, iterations: 0, residual: whole(0), converged: true }
    };
    let x_separation: Option<S> = match upper_events.x_separation {
        Some(x) => Some(x),
        None => lower_events.x_separation,
    };
    let (state, summary): (O::State, StateSummary<S>) = ops.finish(&outcome.state);
    let forces = summary.forces;
    let result = ViscousResult {
        alpha: whole(0),
        cl: forces.cl,
        cd: forces.cd,
        cm: forces.cm,
        x_tr_upper: match summary.xtran_upper {
            Some(x) => x,
            None => whole(1),
        },
        x_tr_lower: match summary.xtran_lower {
            Some(x) => x,
            None => whole(1),
        },
        iterations: outcome.iterations,
        residual: outcome.residual,
        converged: outcome.converged,
        cd_friction: forces.cd_friction,
        cd_pressure: forces.cd_pressure,
        x_separation,
    };
    proof {
        let t = SolveTrace {
            setting,
            upper_marched,
            lower_marched,
            upper_recorded,
            recorded: recorded_state,
            stagnation,
            outcome,
            summary,
        };
        assert(airfoil.solved_by(
            *outside,
            upper_stations@,
            lower_stations@,
            upper_ue@,
            lower_ue@,
            t,
            result,
            state,
        ));
    }
    Ok((result, state))
}

impl<S: Real> Airfoil<S> {
    /// The Newton iterations never pass their limit; they converge only below the tolerance,
    /// and not without an iteration.
    pub proof fn law_newton_outcome<
        P: BlClosure<S>,
        O: StateOperations<S>,
        A: Fn((CanonicalNewtonRow<S>, FlowType)) -> BlStation<S>,
        C: Fn((CanonicalNewtonRow<S>, BlStation<S>)) -> CanonicalNewtonRow<S>,
        L: Fn(&Vec<S>, S) -> S,
    >(
        &self,
        outside: Outside<P, O, A, C, L>,
        setting: NewtonSetting<S>,
        max: int,
        iter: int,
        z: O::State,
        residual: S,
        out: NewtonOutcome<S, O::State>,
    )
        requires
            0 <= iter <= max <= usize::MAX,
            self.newton_runs(outside, setting, max, iter, z, residual, out),
        ensures
            out.iterations <= max,
            out.converged ==> out.residual < self.config.tolerance && out.iterations >= 1,
        decreases max - iter,
    {
        if iter < max {
            let (t, o) = choose|t: Trace<S, O::State>, o: NewtonIterate<S, O::State>|
                {
                    &&& #[trigger] self.iterates(outside, setting, iter as usize, z, t, o)
                    &&& match o.taken {
                        None => out == (NewtonOutcome {
                            state: o.prepared,
                            iterations: 0,
                            residual: o.residual,
                            converged: false,
                        }),
                        Some(taken) => {
                            let change = taken.update.rms_change;
                            match verdict(change, self.config.tolerance, iter, residual) {
                                Verdict::Converged => out == (NewtonOutcome {
                                    state: taken.state,
                                    iterations: (iter + 1) as usize,
                                    residual: change,
                                    converged: true,
                                }),
                                Verdict::Rejected => out == (NewtonOutcome {
                                    state: o.prepared,
                                    iterations: (iter + 1) as usize,
                                    residual: change,
                                    converged: false,
                                }),
                                Verdict::Continue => self.newton_runs(
                                    outside,
                                    setting,
                                    max,
                                    iter + 1,
                                    taken.state,
                                    change,
                                    out,
                                ),
                            }
                        },
                    }
                };
            match o.taken {
                None => {},
                Some(taken) => {
                    let change = taken.update.rms_change;
                    if verdict(change, self.config.tolerance, iter, residual) is Continue {
                        self.law_newton_outcome(
                            outside,
                            setting,
                            max,
                            iter + 1,
                            taken.state,
                            change,
                            out,
                        );
                    }
                },
            }
        }
    }
}

} // verus!
