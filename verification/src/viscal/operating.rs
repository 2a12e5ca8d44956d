//! The operating point: a given angle of attack, or a given lift.
use crate::callable::{list_function, list_value};
use crate::global_newton::newton_state::CanonicalNewtonStateView;
use crate::number::{
    abs, arithmetic, clamp, decimal, radians, tenths, tiny, whole, Formula, Real,
};
use crate::station::{copied, filled, BlStation};
use crate::viscal::panel::{
    build_panel_values_from_row_values, build_panel_values_from_surface_values, closed_values,
    given_row_values, given_values,
};
use vstd::prelude::*;

verus! {

/// What is prescribed.
#[derive(Clone, Copy, Debug)]
pub enum OperatingMode<S> {
    PrescribedAlpha,
    PrescribedCl { target_cl: S },
}

/// The sensitivities of the velocities to the operating variable: those to the angle of
/// attack where the lift is prescribed, and zero where the angle is.
pub fn operating_sensitivity_for_mode<S: Real>(
    mode: OperatingMode<S>,
    upper_alpha: &[S],
    lower_alpha: &[S],
) -> (r: (Vec<S>, Vec<S>))
    requires
        arithmetic::<S>(),
    ensures
        mode is PrescribedCl ==> r.0@ == upper_alpha@ && r.1@ == lower_alpha@,
        mode is PrescribedAlpha ==> r.0@ == Seq::new(upper_alpha@.len(), |i: int| whole::<S>(0))
            && r.1@ == Seq::new(lower_alpha@.len(), |i: int| whole::<S>(0)),
{
    match mode {
        OperatingMode::PrescribedAlpha => (
            filled(whole(0), upper_alpha.len()),
            filled(whole(0), lower_alpha.len()),
        ),
        OperatingMode::PrescribedCl { .. } => (copied(upper_alpha), copied(lower_alpha)),
    }
}

/// The largest change of the angle of attack in one iteration: half a degree, in radians.
#[verifier::allow_in_spec]
pub fn angle_limit<S: Real>() -> S
    requires
        arithmetic::<S>(),
    returns
        radians(decimal::<S>(5, 10)),
{
    radians(decimal(5, 10))
}

/// The change of the operating variable that brings the trial lift `cl_new` to the
/// prescribed one, within half a degree: none where the angle is prescribed, or where the
/// lift does not answer.
pub open spec fn operating_correction<S: Real>(
    mode: OperatingMode<S>,
    cl_new: S,
    cl_alpha: S,
    cl_ac: S,
) -> S {
    match mode {
        OperatingMode::PrescribedAlpha => whole::<S>(0),
        OperatingMode::PrescribedCl { target_cl } => {
            let denominator = -(cl_ac + cl_alpha);
            if abs(denominator) < tenths::<S>(12) {
                whole::<S>(0)
            } else {
                clamp(
                    (cl_new - target_cl) / denominator,
                    -angle_limit::<S>(),
                    angle_limit::<S>(),
                )
            }
        },
    }
}

/// The change of the operating variable that brings the trial lift to the prescribed one.
pub fn compute_operating_correction<S: Real>(
    mode: OperatingMode<S>,
    cl_new: S,
    cl_alpha: S,
    cl_ac: S,
) -> (r: S)
    requires
        arithmetic::<S>(),
    ensures
        r == operating_correction(mode, cl_new, cl_alpha, cl_ac),
{
    match mode {
        OperatingMode::PrescribedAlpha => whole(0),
        OperatingMode::PrescribedCl { target_cl } => {
            let denominator: S = (cl_ac + cl_alpha).neg();
            if abs(denominator) < tiny(12) {
                whole(0)
            } else {
                let limit: S = angle_limit();
                clamp((cl_new - target_cl) / denominator, limit.neg(), limit)
            }
        },
    }
}

/// Whether any of the first `n` values is not zero.
pub open spec fn any_nonzero<S: Real>(v: Seq<S>, n: nat) -> bool
    decreases n,
{
    n > 0 && (any_nonzero(v, (n - 1) as nat) || abs(v[n - 1]) > whole::<S>(0))
}

/// The trial lift, and its derivatives by the angle of attack and by the operating
/// variable, by differences. `cl` gives the lift of a vorticity distribution at an angle of
/// attack; `qnew` is the distribution after the step, and `qac` its sensitivity.
pub open spec fn lift_terms<S: Real, L: Fn(&Vec<S>, S) -> S>(
    qnew: Seq<S>,
    qac: Seq<S>,
    alpha: S,
    cl: L,
) -> (S, S, S) {
    let eps = tenths::<S>(6);
    let cl_new = list_value(cl, qnew, alpha);
    let cl_alpha = (list_value(cl, qnew, alpha + eps) - list_value(cl, qnew, alpha - eps)) / (
    whole::<S>(2) * eps);
    let moved = Seq::new(qnew.len(), |i: int| qnew[i] + eps * qac[i]);
    let cl_ac = if any_nonzero(qac, qac.len()) {
        (list_value(cl, moved, alpha) - cl_new) / eps
    } else {
        whole::<S>(0)
    };
    (cl_new, cl_alpha, cl_ac)
}

/// The trial lift, and its derivatives.
fn lift_terms_of<S: Real, L: Fn(&Vec<S>, S) -> S>(
    qnew: &Vec<S>,
    qac: &Vec<S>,
    alpha: S,
    cl: &L,
) -> (r: (S, S, S))
    requires
        arithmetic::<S>(),
        list_function(*cl),
        qnew@.len() == qac@.len(),
    ensures
        r == lift_terms(qnew@, qac@, alpha, *cl),
{
    let eps: S = tiny(6);
    let cl_new: S = cl(qnew, alpha);
    let cl_alpha: S = (cl(qnew, alpha + eps) - cl(qnew, alpha - eps)) / (whole::<S>(2) * eps);
    let mut nonzero: bool = false;
    let mut moved: Vec<S> = Vec::with_capacity(qnew.len());
    let mut i: usize = 0;
    while i < qnew.len()
        invariant
            arithmetic::<S>(),
            eps == tenths::<S>(6),
            i <= qnew@.len(),
            qnew@.len() == qac@.len(),
            nonzero == any_nonzero(qac@, i as nat),
            moved@ == Seq::new(i as nat, |k: int| qnew@[k] + eps * qac@[k]),
        decreases qnew@.len() - i,
    {
        nonzero = nonzero || abs(qac[i]) > whole(0);
        moved.push(qnew[i] + eps * qac[i]);
        i = i + 1;
    }
    let cl_ac: S = if nonzero {
        (cl(&moved, alpha) - cl_new) / eps
    } else {
        whole(0)
    };
    (cl_new, cl_alpha, cl_ac)
}

/// The trial lift of the stations, and its derivatives by the angle of attack and by the
/// operating variable.
pub fn compute_trial_cl_terms<S: Real, L: Fn(&Vec<S>, S) -> S>(
    n_nodes: usize,
    upper_stations: &[BlStation<S>],
    lower_stations: &[BlStation<S>],
    upper_u_new: &[S],
    lower_u_new: &[S],
    upper_u_ac: &[S],
    lower_u_ac: &[S],
    alpha_rad: S,
    cl: &L,
) -> (r: (S, S, S))
    requires
        arithmetic::<S>(),
        list_function(*cl),
    ensures
        r == lift_terms(
            closed_values(
                given_values(upper_stations@, upper_u_new@),
                given_values(lower_stations@, lower_u_new@),
                n_nodes as nat,
            ),
            closed_values(
                given_values(upper_stations@, upper_u_ac@),
                given_values(lower_stations@, lower_u_ac@),
                n_nodes as nat,
            ),
            alpha_rad,
            *cl,
        ),
{
    let qnew: Vec<S> = build_panel_values_from_surface_values(
        upper_stations,
        lower_stations,
        upper_u_new,
        lower_u_new,
        n_nodes,
    );
    let qac: Vec<S> = build_panel_values_from_surface_values(
        upper_stations,
        lower_stations,
        upper_u_ac,
        lower_u_ac,
        n_nodes,
    );
    lift_terms_of(&qnew, &qac, alpha_rad, cl)
}

/// The trial lift of the rows, and its derivatives by the angle of attack and by the
/// operating variable.
pub fn compute_trial_cl_terms_from_view<S: Real, L: Fn(&Vec<S>, S) -> S>(
    n_nodes: usize,
    state: &CanonicalNewtonStateView<S>,
    upper_u_new: &[S],
    lower_u_new: &[S],
    upper_u_ac: &[S],
    lower_u_ac: &[S],
    alpha_rad: S,
    cl: &L,
) -> (r: (S, S, S))
    requires
        arithmetic::<S>(),
        list_function(*cl),
    ensures
        r == lift_terms(
            closed_values(
                given_row_values(state.upper_rows@, upper_u_new@),
                given_row_values(state.lower_rows@, lower_u_new@),
                n_nodes as nat,
            ),
            closed_values(
                given_row_values(state.upper_rows@, upper_u_ac@),
                given_row_values(state.lower_rows@, lower_u_ac@),
                n_nodes as nat,
            ),
            alpha_rad,
            *cl,
        ),
{
    let qnew: Vec<S> = build_panel_values_from_row_values(
        &state.upper_rows,
        &state.lower_rows,
        upper_u_new,
        lower_u_new,
        n_nodes,
    );
    let qac: Vec<S> = build_panel_values_from_row_values(
        &state.upper_rows,
        &state.lower_rows,
        upper_u_ac,
        lower_u_ac,
        n_nodes,
    );
    lift_terms_of(&qnew, &qac, alpha_rad, cl)
}

} // verus!
