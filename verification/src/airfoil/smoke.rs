//! The flow that smoke drifts in, as it is set and read between the steps of an animation.
use crate::airfoil::faithful::{
    faithful_snapshot, free_operating_point, free_point, snapshots, FaithfulSolver, OperatingPoint,
};
use crate::airfoil::inviscid::{
    flow_about_points, flows_about_points, seeks_bodies, seeks_flows, InviscidError,
    InviscidSolution,
};
use crate::airfoil::layer::{FaithfulFlowField, FaithfulSnapshot};
use crate::airfoil::points::{is_outline, outline, paired, points_from_flat, Point};
use crate::elementary::Elementary;
use crate::number::{arithmetic, decimal, larger, radians, smaller, whole, Formula, Real};
use crate::station::copied;
use vstd::prelude::*;

verus! {

/// The flow that smoke drifts in: an inviscid one, or one with sources.
pub struct WasmSmokeSystem<S> {
    pub coords: Vec<Point<S>>,
    pub gamma: Vec<S>,
    /// Angle of attack in radians.
    pub alpha: S,
    pub v_inf: S,
    pub psi_0: S,
    pub faithful_field: Option<FaithfulFlowField<S>>,
}

/// The flow at one moment.
pub struct CurrentFlow<'a, S> {
    pub nodes: &'a Vec<Point<S>>,
    pub gamma: &'a Vec<S>,
    pub alpha: S,
    pub v_inf: S,
    /// The field that the sources are taken from.
    pub sources: Option<&'a FaithfulFlowField<S>>,
}

impl<S: Real> WasmSmokeSystem<S> {
    /// No airfoil, in a stream of unit speed.
    pub fn new() -> (r: Self)
        requires
            arithmetic::<S>(),
        ensures
            r.coords@.len() == 0,
            r.gamma@.len() == 0,
            (r.alpha, r.v_inf, r.psi_0) == (whole::<S>(0), whole::<S>(1), whole::<S>(0)),
            r.faithful_field is None,
    {
        WasmSmokeSystem {
            coords: Vec::new(),
            gamma: Vec::new(),
            alpha: whole(0),
            v_inf: whole(1),
            psi_0: whole(0),
            faithful_field: None,
        }
    }

    /// Whether the outline was taken, and what the solver said to it.
    pub open spec fn takes(
        &self,
        before: Self,
        coords: Seq<S>,
        alpha_deg: S,
        out: Result<InviscidSolution<S>, InviscidError>,
    ) -> bool {
        &&& self.coords@ == paired(coords)
        &&& self.alpha == radians(alpha_deg)
        &&& self.faithful_field is None
        &&& self.v_inf == before.v_inf
        &&& match out {
            Ok(s) => self.gamma@ == s.gamma@ && self.psi_0 == s.psi_0,
            Err(_) => self.gamma == before.gamma && self.psi_0 == before.psi_0,
        }
    }

    /// Sets an outline and its inviscid flow, and says whether streamlines have to be traced
    /// anew. A list that is no outline changes nothing; where there is no body or no flow the
    /// strengths stay. `from_points` makes the body, and `solve` finds the flow.
    pub fn set_flow<
        B,
        F: Fn(&Vec<Point<S>>, ()) -> Result<B, String>,
        G: Fn(&B, S) -> Result<InviscidSolution<S>, String>,
    >(&mut self, coords: &[S], alpha_deg: S, from_points: &F, solve: &G) -> (r: bool)
        requires
            arithmetic::<S>(),
            seeks_bodies(*from_points),
            seeks_flows(*solve),
        ensures
            !outline(coords@) ==> !r && *final(self) == *old(self),
            outline(coords@) ==> exists|out: Result<InviscidSolution<S>, InviscidError>|
                {
                    &&& #[trigger] flows_about_points(
                        *from_points,
                        *solve,
                        paired(coords@),
                        alpha_deg,
                        out,
                    )
                    &&& final(self).takes(*old(self), coords@, alpha_deg, out)
                    &&& r == !(out matches Err(InviscidError::Geometry(_)))
                },
    {
        if !is_outline(coords) {
            return false;
        }
        let points: Vec<Point<S>> = points_from_flat(coords);
        self.alpha = radians(alpha_deg);
        self.faithful_field = None;
        let out: Result<InviscidSolution<S>, InviscidError> = flow_about_points(
            &points,
            alpha_deg,
            from_points,
            solve,
        );
        let ghost shown = out;
        assert(flows_about_points(*from_points, *solve, paired(coords@), alpha_deg, shown));
        self.coords = points;
        match out {
            Ok(s) => {
                self.gamma = s.gamma;
                self.psi_0 = s.psi_0;
                true
            },
            Err(InviscidError::Geometry(_)) => false,
            Err(InviscidError::Solver(_)) => true,
        }
    }

    /// The flow is that of a snapshot.
    pub open spec fn drifts<E: Elementary<S>>(
        &self,
        before: Self,
        snapshot: FaithfulSnapshot<S>,
        alpha_deg: S,
        elementary: &E,
    ) -> bool {
        &&& self.faithful_field matches Some(f)
        &&& f.is_from(snapshot, alpha_deg, elementary)
        &&& self.coords@ == snapshot.nodes@
        &&& self.gamma@ == snapshot.gamma@
        &&& self.alpha == radians(alpha_deg)
        &&& self.psi_0 == snapshot.psi_0
        &&& self.v_inf == before.v_inf
    }

    /// Sets the viscous flow about an outline, and says whether streamlines have to be traced
    /// anew. Without a solution nothing changes.
    pub fn set_faithful_flow<F, D, P: FaithfulSolver<S, F, D>, E: Elementary<S>>(
        &mut self,
        coords: &[S],
        alpha_deg: S,
        reynolds: S,
        mach: S,
        ncrit: S,
        max_iterations: usize,
        solver: &P,
        elementary: &E,
    ) -> (r: bool)
        requires
            arithmetic::<S>(),
            solver.ready(),
            solver.has_rows(),
            elementary.lawful(),
        ensures
            exists|out: Result<FaithfulSnapshot<S>, String>|
                {
                    &&& #[trigger] snapshots::<S, F, D, P, E>(
                        solver,
                        elementary,
                        coords@,
                        free_point(alpha_deg, reynolds, mach, ncrit, max_iterations),
                        out,
                    )
                    &&& match out {
                        Ok(snapshot) => r && final(self).drifts(
                            *old(self),
                            snapshot,
                            alpha_deg,
                            elementary,
                        ),
                        Err(_) => !r && *final(self) == *old(self),
                    }
                },
    {
        let point: OperatingPoint<S> = free_operating_point(
            alpha_deg,
            reynolds,
            mach,
            ncrit,
            max_iterations,
        );
        let out: Result<FaithfulSnapshot<S>, String> = faithful_snapshot(
            coords,
            point,
            solver,
            elementary,
        );
        let ghost shown = out;
        assert(snapshots::<S, F, D, P, E>(solver, elementary, coords@, point, shown));
        match out {
            Ok(snapshot) => {
                let field: FaithfulFlowField<S> = FaithfulFlowField::from_snapshot(
                    &snapshot,
                    alpha_deg,
                    elementary,
                );
                self.coords = copied(&field.nodes);
                self.gamma = copied(&field.gamma);
                self.alpha = field.alpha;
                self.psi_0 = field.psi_0;
                self.faithful_field = Some(field);
                true
            },
            Err(_) => false,
        }
    }

    /// The flow that smoke drifts in now.
    pub fn current(&self) -> (r: CurrentFlow<'_, S>)
        ensures
            r.v_inf == self.v_inf,
            match self.faithful_field {
                Some(f) => *r.nodes == f.nodes && *r.gamma == f.gamma && r.alpha == f.alpha
                    && r.sources == Some(&f),
                None => *r.nodes == self.coords && *r.gamma == self.gamma && r.alpha == self.alpha
                    && r.sources is None,
            },
    {
        match &self.faithful_field {
            Some(f) => CurrentFlow {
                nodes: &f.nodes,
                gamma: &f.gamma,
                alpha: f.alpha,
                v_inf: self.v_inf,
                sources: Some(f),
            },
            None => CurrentFlow {
                nodes: &self.coords,
                gamma: &self.gamma,
                alpha: self.alpha,
                v_inf: self.v_inf,
                sources: None,
            },
        }
    }

    /// Sets the speed of the stream, kept between a tenth and ten.
    pub fn set_v_inf(&mut self, v_inf: S)
        requires
            arithmetic::<S>(),
        ensures
            *final(self) == (WasmSmokeSystem {
                v_inf: smaller(larger(v_inf, decimal::<S>(1, 10)), whole::<S>(10)),
                ..*old(self)
            }),
    {
        self.v_inf = smaller(larger(v_inf, decimal(1, 10)), whole(10));
    }

    /// The speed of the stream.
    pub fn get_v_inf(&self) -> (r: S)
        ensures
            r == self.v_inf,
    {
        self.v_inf
    }

    /// The stream function of the dividing streamline.
    pub fn get_psi_0(&self) -> (r: S)
        ensures
            r == (match self.faithful_field {
                Some(f) => f.psi_0,
                None => self.psi_0,
            }),
    {
        match &self.faithful_field {
            Some(f) => f.psi_0,
            None => self.psi_0,
        }
    }
}

} // verus!
