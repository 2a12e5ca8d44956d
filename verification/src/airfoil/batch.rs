//! Analyses at many angles of attack: what one of them gives, whatever the others do.
use crate::airfoil::inviscid::{
    error_message, error_text, flow_about, flows_about, InviscidError, InviscidSolution,
};
use crate::airfoil::report::text;
use crate::number::{arithmetic, whole, Formula, Real};
use vstd::prelude::*;

verus! {

/// A solved operating point.
#[derive(Clone, Copy, Debug)]
pub struct OperPoint<S> {
    pub alpha_deg: S,
    pub cl: S,
    pub cd: S,
    pub cm: S,
    pub converged: bool,
    pub iterations: usize,
    pub residual: S,
    pub x_tr_upper: S,
    pub x_tr_lower: S,
    pub cd_friction: S,
    pub cd_pressure: S,
    pub reynolds_eff: S,
}

/// The result of a viscous analysis at one angle of attack.
#[derive(Clone, Debug)]
pub struct FaithfulResult<S> {
    pub alpha_deg: S,
    pub cl: S,
    pub cd: S,
    pub cm: S,
    pub converged: bool,
    pub iterations: usize,
    pub residual: S,
    pub x_tr_upper: S,
    pub x_tr_lower: S,
    pub cd_friction: S,
    pub cd_pressure: S,
    /// The Reynolds number that the flow had.
    pub reynolds_eff: S,
    pub success: bool,
    pub error: Option<String>,
}

impl<S: Real> FaithfulResult<S> {
    /// Nothing but a message is there, for an angle and a Reynolds number.
    pub open spec fn is_error(&self, alpha_deg: S, reynolds: S, m: Seq<char>) -> bool {
        let zero = whole::<S>(0);
        let one = whole::<S>(1);
        &&& (self.alpha_deg, self.reynolds_eff) == (alpha_deg, reynolds)
        &&& (self.cl, self.cd, self.cm, self.residual) == (zero, zero, zero, zero)
        &&& (self.cd_friction, self.cd_pressure) == (zero, zero)
        &&& (self.x_tr_upper, self.x_tr_lower) == (one, one)
        &&& (self.converged, self.iterations, self.success) == (false, 0usize, false)
        &&& text(self.error) == Some(m)
    }

    /// A solved operating point is there.
    pub open spec fn shows(&self, p: OperPoint<S>) -> bool {
        &&& (self.alpha_deg, self.reynolds_eff) == (p.alpha_deg, p.reynolds_eff)
        &&& (self.cl, self.cd, self.cm, self.residual) == (p.cl, p.cd, p.cm, p.residual)
        &&& (self.cd_friction, self.cd_pressure) == (p.cd_friction, p.cd_pressure)
        &&& (self.x_tr_upper, self.x_tr_lower) == (p.x_tr_upper, p.x_tr_lower)
        &&& (self.converged, self.iterations, self.success) == (p.converged, p.iterations, true)
        &&& self.error is None
    }
}

/// The result at an angle of attack where there is none.
pub fn failed_result<S: Real>(alpha_deg: S, reynolds: S, m: String) -> (r: FaithfulResult<S>)
    requires
        arithmetic::<S>(),
    ensures
        r.is_error(alpha_deg, reynolds, m@),
{
    FaithfulResult {
        alpha_deg,
        cl: whole(0),
        cd: whole(0),
        cm: whole(0),
        converged: false,
        iterations: 0,
        residual: whole(0),
        x_tr_upper: whole(1),
        x_tr_lower: whole(1),
        cd_friction: whole(0),
        cd_pressure: whole(0),
        reynolds_eff: reynolds,
        success: false,
        error: Some(m),
    }
}

/// Solves one angle of attack. `solve` finds the operating point of a body.
pub fn solve_one_faithful<S: Real, B, F: Fn(&B, S) -> Result<OperPoint<S>, String>>(
    body: &B,
    alpha_deg: S,
    reynolds: S,
    solve: &F,
) -> (r: FaithfulResult<S>)
    requires
        arithmetic::<S>(),
        call_requires(*solve, (body, alpha_deg)),
    ensures
        exists|out: Result<OperPoint<S>, String>|
            {
                &&& #[trigger] call_ensures(*solve, (body, alpha_deg), out)
                &&& match out {
                    Ok(p) => r.shows(p),
                    Err(e) => r.is_error(alpha_deg, reynolds, e@),
                }
            },
{
    let out: Result<OperPoint<S>, String> = solve(body, alpha_deg);
    let ghost shown = out;
    assert(call_ensures(*solve, (body, alpha_deg), shown));
    match out {
        Ok(p) => FaithfulResult {
            alpha_deg: p.alpha_deg,
            cl: p.cl,
            cd: p.cd,
            cm: p.cm,
            converged: p.converged,
            iterations: p.iterations,
            residual: p.residual,
            x_tr_upper: p.x_tr_upper,
            x_tr_lower: p.x_tr_lower,
            cd_friction: p.cd_friction,
            cd_pressure: p.cd_pressure,
            reynolds_eff: p.reynolds_eff,
            success: true,
            error: None,
        },
        Err(e) => failed_result(alpha_deg, reynolds, e),
    }
}

/// The results at angles of attack for which there is no body: the same message for each.
pub fn failed_results<S: Real>(alphas: &[S], reynolds: S, m: &str) -> (r: Vec<FaithfulResult<S>>)
    requires
        arithmetic::<S>(),
    ensures
        r@.len() == alphas@.len(),
        forall|i: int|
            0 <= i < alphas@.len() ==> (#[trigger] r@[i]).is_error(alphas@[i], reynolds, m@),
{
    let mut r: Vec<FaithfulResult<S>> = Vec::new();
    let mut i: usize = 0;
    while i < alphas.len()
        invariant
            arithmetic::<S>(),
            i <= alphas@.len(),
            r@.len() == i,
            forall|k: int|
                0 <= k < i ==> (#[trigger] r@[k]).is_error(alphas@[k], reynolds, m@),
        decreases alphas@.len() - i,
    {
        r.push(failed_result(alphas[i], reynolds, m.to_owned()));
        i = i + 1;
    }
    r
}

/// The result of an inviscid analysis at one angle of attack.
#[derive(Clone, Debug)]
pub struct InviscidPoint<S> {
    pub cl: S,
    pub cm: S,
    pub cp: Vec<S>,
    pub cp_x: Vec<S>,
    pub success: bool,
    pub error: Option<String>,
}

impl<S: Real> InviscidPoint<S> {
    /// The outcome of an attempt.
    pub open spec fn reports(&self, out: Result<InviscidSolution<S>, InviscidError>) -> bool {
        match out {
            Ok(s) => {
                &&& (self.cl, self.cm, self.success) == (s.cl, s.cm, true)
                &&& self.cp@ == s.cp@
                &&& self.cp_x@ == s.cp_x@
                &&& self.error is None
            },
            Err(e) => {
                &&& (self.cl, self.cm, self.success) == (whole::<S>(0), whole::<S>(0), false)
                &&& (self.cp@.len(), self.cp_x@.len()) == (0nat, 0nat)
                &&& text(self.error) == Some(error_text(e))
            },
        }
    }
}

/// Solves one angle of attack without viscosity. `solve` finds the flow about a body.
pub fn solve_one_inviscid<
    S: Real,
    B,
    G: Fn(&B, S) -> Result<InviscidSolution<S>, String>,
>(body: &B, alpha_deg: S, solve: &G) -> (r: InviscidPoint<S>)
    requires
        arithmetic::<S>(),
        call_requires(*solve, (body, alpha_deg)),
    ensures
        exists|out: Result<InviscidSolution<S>, InviscidError>| #[trigger]
            flows_about(*solve, *body, alpha_deg, out) && r.reports(out),
{
    let out: Result<InviscidSolution<S>, InviscidError> = flow_about(
        body,
        alpha_deg,
        solve,
    );
    let ghost shown = out;
    assert(flows_about(*solve, *body, alpha_deg, shown));
    match out {
        Ok(s) => InviscidPoint {
            cl: s.cl,
            cm: s.cm,
            cp: s.cp,
            cp_x: s.cp_x,
            success: true,
            error: None,
        },
        Err(e) => InviscidPoint {
            cl: whole(0),
            cm: whole(0),
            cp: Vec::new(),
            cp_x: Vec::new(),
            success: false,
            error: Some(error_message(&e)),
        },
    }
}

} // verus!
