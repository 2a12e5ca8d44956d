//! Analyses of an outline, at one angle of attack or at many: what stops them, and what they
//! report.
use crate::airfoil::batch::{failed_results, FaithfulResult, InviscidPoint, OperPoint};
use crate::airfoil::faithful::{Operated, OperatingPoint};
use crate::airfoil::inviscid::{
    error_message, error_text, flow_about_points, flows_about_points, seeks_bodies, seeks_flows,
    InviscidError, InviscidSolution,
};
use crate::airfoil::layer::{
    column_ue, on_surface, rows_to_bl_distribution, surface_part, BLDistribution, BlRow,
};
use crate::airfoil::points::{
    flat_from_points, full_outline, is_full_outline, is_outline, outline, paired, points_from_flat,
    Point,
};
use crate::airfoil::report::prefixed;
use crate::callable::list_gives;
use crate::number::{arithmetic, Real};
use vstd::prelude::*;

verus! {

/// A list of coordinates comes to `out`: a body, or what is wrong with them. `odd` is what
/// is said of coordinates that are no outline.
pub open spec fn comes_to<S, B, F: Fn(&Vec<Point<S>>, ()) -> Result<B, String>>(
    from_points: F,
    coords: Seq<S>,
    odd: Seq<char>,
    out: Result<B, String>,
) -> bool {
    if !outline(coords) {
        out matches Err(m) && m@ == odd
    } else {
        match out {
            Ok(b) => list_gives(from_points, paired(coords), (), Ok::<B, String>(b)),
            Err(m) => exists|e: String|
                m@ == "Geometry error: "@ + e@ && #[trigger] list_gives(
                    from_points,
                    paired(coords),
                    (),
                    Err::<B, String>(e),
                ),
        }
    }
}

/// The body that an outline bounds.
fn body_of<S: Copy, B, F: Fn(&Vec<Point<S>>, ()) -> Result<B, String>>(
    coords: &[S],
    odd: &str,
    from_points: &F,
) -> (r: Result<B, String>)
    requires
        seeks_bodies(*from_points),
    ensures
        comes_to(*from_points, coords@, odd@, r),
{
    if !is_outline(coords) {
        return Err(odd.to_owned());
    }
    let points: Vec<Point<S>> = points_from_flat(coords);
    let out: Result<B, String> = from_points(&points, ());
    let ghost shown = out;
    assert(list_gives(*from_points, paired(coords@), (), shown));
    match out {
        Ok(b) => Ok(b),
        Err(e) => Err(prefixed("Geometry error: ", e.as_str())),
    }
}

/// An analysis of a body comes to `r`: nothing but a message where there is no body.
pub open spec fn analyses<B, C, T, F: Fn(&B, C) -> Result<T, String>>(
    solve: F,
    body: Result<B, String>,
    c: C,
    r: Result<T, String>,
) -> bool {
    match body {
        Ok(b) => call_ensures(solve, (&b, c), r),
        Err(m) => r matches Err(e) && e@ == m@,
    }
}

/// Viscous analysis of an outline at one operating point. `from_points` finds the body with
/// these points, and `solve` its operating point.
pub fn analyze_faithful<
    S: Real,
    B,
    F: Fn(&Vec<Point<S>>, ()) -> Result<B, String>,
    G: Fn(&B, OperatingPoint<S>) -> Result<OperPoint<S>, String>,
>(coords: &[S], point: OperatingPoint<S>, from_points: &F, solve: &G) -> (r: Result<
    OperPoint<S>,
    String,
>)
    requires
        seeks_bodies(*from_points),
        forall|b: B, p: OperatingPoint<S>| #[trigger] call_requires(*solve, (&b, p)),
    ensures
        exists|body: Result<B, String>|
            {
                &&& #[trigger] comes_to(
                    *from_points,
                    coords@,
                    "Invalid coordinates: need at least 3 points (6 values)"@,
                    body,
                )
                &&& analyses(*solve, body, point, r)
            },
{
    let body: Result<B, String> = body_of(
        coords,
        "Invalid coordinates: need at least 3 points (6 values)",
        from_points,
    );
    let ghost found = body;
    let r: Result<OperPoint<S>, String> = match body {
        Ok(b) => solve(&b, point),
        Err(m) => Err(m),
    };
    assert(comes_to(
        *from_points,
        coords@,
        "Invalid coordinates: need at least 3 points (6 values)"@,
        found,
    ));
    assert(analyses(*solve, found, point, r));
    r
}

/// Inviscid analysis of an outline at one angle of attack in degrees. `from_points` makes the
/// body with these points, and `solve` finds the flow about it.
pub fn analyze_inviscid<
    S: Real,
    B,
    F: Fn(&Vec<Point<S>>, ()) -> Result<B, String>,
    G: Fn(&B, S) -> Result<InviscidSolution<S>, String>,
>(coords: &[S], alpha_deg: S, from_points: &F, solve: &G) -> (r: Result<
    InviscidSolution<S>,
    String,
>)
    requires
        seeks_bodies(*from_points),
        seeks_flows(*solve),
    ensures
        !outline(coords@) ==> (r matches Err(m) && m@ == "Invalid coordinates"@),
        outline(coords@) ==> match r {
            Ok(s) => flows_about_points(*from_points, *solve, paired(coords@), alpha_deg, Ok(s)),
            Err(m) => exists|e: InviscidError|
                m@ == error_text(e) && #[trigger] flows_about_points(
                    *from_points,
                    *solve,
                    paired(coords@),
                    alpha_deg,
                    Err(e),
                ),
        },
{
    if !is_outline(coords) {
        return Err("Invalid coordinates".to_owned());
    }
    let points: Vec<Point<S>> = points_from_flat(coords);
    let out: Result<InviscidSolution<S>, InviscidError> = flow_about_points(
        &points,
        alpha_deg,
        from_points,
        solve,
    );
    let ghost shown = out;
    assert(flows_about_points(*from_points, *solve, paired(coords@), alpha_deg, shown));
    match out {
        Ok(s) => Ok(s),
        Err(e) => Err(error_message(&e)),
    }
}

/// The results of a viscous analysis at many angles: those of `solve_all` for the body, or
/// the same message at every angle.
pub open spec fn batch_reports<
    S: Real,
    B,
    G: Fn(&B, &[S]) -> Vec<FaithfulResult<S>>,
>(
    solve_all: G,
    body: Result<B, String>,
    alphas: &[S],
    reynolds: S,
    r: Vec<FaithfulResult<S>>,
) -> bool {
    match body {
        Ok(b) => call_ensures(solve_all, (&b, alphas), r),
        Err(m) => r@.len() == alphas@.len() && forall|i: int|
            0 <= i < alphas@.len() ==> (#[trigger] r@[i]).is_error(alphas@[i], reynolds, m@),
    }
}

/// Viscous analysis of an outline at many angles of attack in degrees. `solve_all` analyses
/// a body at each of them.
pub fn analyze_faithful_batch<
    S: Real,
    B,
    F: Fn(&Vec<Point<S>>, ()) -> Result<B, String>,
    G: Fn(&B, &[S]) -> Vec<FaithfulResult<S>>,
>(coords: &[S], alphas: &[S], reynolds: S, from_points: &F, solve_all: &G) -> (r: Vec<
    FaithfulResult<S>,
>)
    requires
        arithmetic::<S>(),
        seeks_bodies(*from_points),
        forall|b: B| #[trigger] call_requires(*solve_all, (&b, alphas)),
    ensures
        exists|body: Result<B, String>|
            {
                &&& #[trigger] comes_to(*from_points, coords@, "Invalid coordinates"@, body)
                &&& batch_reports(*solve_all, body, alphas, reynolds, r)
            },
{
    let body: Result<B, String> = body_of(coords, "Invalid coordinates", from_points);
    let ghost found = body;
    let r: Vec<FaithfulResult<S>> = match body {
        Ok(b) => solve_all(&b, alphas),
        Err(m) => failed_results(alphas, reynolds, m.as_str()),
    };
    assert(comes_to(*from_points, coords@, "Invalid coordinates"@, found));
    assert(batch_reports(*solve_all, found, alphas, reynolds, r));
    r
}

/// Inviscid analysis of an outline at many angles of attack in degrees. `solve_all` analyses
/// a body at each of them; where there is no body, one message stands for all.
pub fn analyze_inviscid_batch<
    S: Real,
    B,
    F: Fn(&Vec<Point<S>>, ()) -> Result<B, String>,
    G: Fn(&B, &[S]) -> Vec<InviscidPoint<S>>,
>(coords: &[S], alphas: &[S], from_points: &F, solve_all: &G) -> (r: Result<
    Vec<InviscidPoint<S>>,
    String,
>)
    requires
        seeks_bodies(*from_points),
        forall|b: B| #[trigger] call_requires(*solve_all, (&b, alphas)),
    ensures
        exists|body: Result<B, String>|
            {
                &&& #[trigger] comes_to(*from_points, coords@, "Invalid coordinates"@, body)
                &&& match (body, r) {
                    (Ok(b), Ok(points)) => call_ensures(*solve_all, (&b, alphas), points),
                    (Err(m), Err(e)) => e@ == m@,
                    _ => false,
                }
            },
{
    let body: Result<B, String> = body_of(coords, "Invalid coordinates", from_points);
    let ghost found = body;
    assert(comes_to(*from_points, coords@, "Invalid coordinates"@, found));
    match body {
        Ok(b) => Ok(solve_all(&b, alphas)),
        Err(m) => Err(m),
    }
}

/// The boundary layer at an operating point, with the edge velocities.
#[derive(Clone, Debug)]
pub struct LayerTable<S> {
    pub distribution: BLDistribution<S>,
    pub ue_upper: Vec<S>,
    pub ue_lower: Vec<S>,
}

impl<S: Real> LayerTable<S> {
    /// The table holds the rows of a solved operating point, up to the trailing edges.
    pub open spec fn shows(&self, o: Operated<S>) -> bool {
        let upper = on_surface(o.upper_rows@, o.iblte_upper);
        let lower = on_surface(o.lower_rows@, o.iblte_lower);
        let d = self.distribution;
        &&& d.columns(upper, lower)
        &&& self.ue_upper@ == upper.map_values(|r: BlRow<S>| r.uedg)
        &&& self.ue_lower@ == lower.map_values(|r: BlRow<S>| r.uedg)
        &&& (d.x_tr_upper, d.x_tr_lower) == (o.x_tr_upper, o.x_tr_lower)
        &&& (d.converged, d.iterations, d.residual) == (o.converged, o.iterations, o.residual)
        &&& d.success
        &&& d.error is None
    }
}

/// What is shown of the boundary layer about a body.
pub open spec fn layer_reports<
    S: Real,
    B,
    G: Fn(&B, OperatingPoint<S>) -> Result<Operated<S>, String>,
>(
    solve: G,
    body: Result<B, String>,
    point: OperatingPoint<S>,
    r: Result<LayerTable<S>, String>,
) -> bool {
    match body {
        Ok(b) => exists|out: Result<Operated<S>, String>|
            {
                &&& #[trigger] call_ensures(solve, (&b, point), out)
                &&& match (out, r) {
                    (Ok(o), Ok(t)) => t.shows(o),
                    (Err(m), Err(e)) => e@ == m@,
                    _ => false,
                }
            },
        Err(m) => r matches Err(e) && e@ == m@,
    }
}

/// The boundary layer about an outline at an operating point. `from_points` finds the body
/// with these points, and `solve` the operating point with its rows.
pub fn get_bl_distribution<
    S: Real,
    B,
    F: Fn(&Vec<Point<S>>, ()) -> Result<B, String>,
    G: Fn(&B, OperatingPoint<S>) -> Result<Operated<S>, String>,
>(coords: &[S], point: OperatingPoint<S>, from_points: &F, solve: &G) -> (r: Result<
    LayerTable<S>,
    String,
>)
    requires
        seeks_bodies(*from_points),
        forall|b: B, p: OperatingPoint<S>| #[trigger] call_requires(*solve, (&b, p)),
        forall|b: B, p: OperatingPoint<S>, o: Operated<S>| #[trigger]
            call_ensures(*solve, (&b, p), Ok(o)) ==> o.upper_rows@.len() > 0
                && o.lower_rows@.len() > 0,
    ensures
        exists|body: Result<B, String>|
            {
                &&& #[trigger] comes_to(*from_points, coords@, "Invalid coordinates"@, body)
                &&& layer_reports(*solve, body, point, r)
            },
{
    let body: Result<B, String> = body_of(coords, "Invalid coordinates", from_points);
    let ghost found = body;
    assert(comes_to(*from_points, coords@, "Invalid coordinates"@, found));
    let r: Result<LayerTable<S>, String> = match body {
        Ok(b) => {
            let out: Result<Operated<S>, String> = solve(&b, point);
            let ghost shown = out;
            assert(call_ensures(*solve, (&b, point), shown));
            match out {
                Ok(o) => {
                    let upper: Vec<BlRow<S>> = surface_part(&o.upper_rows, o.iblte_upper);
                    let lower: Vec<BlRow<S>> = surface_part(&o.lower_rows, o.iblte_lower);
                    Ok(
                        LayerTable {
                            distribution: rows_to_bl_distribution(
                                &o.upper_rows,
                                &o.lower_rows,
                                o.iblte_upper,
                                o.iblte_lower,
                                o.x_tr_upper,
                                o.x_tr_lower,
                                o.converged,
                                o.iterations,
                                o.residual,
                            ),
                            ue_upper: column_ue(&upper),
                            ue_lower: column_ue(&lower),
                        },
                    )
                },
                Err(m) => Err(m),
            }
        },
        Err(m) => Err(m),
    };
    assert(layer_reports(*solve, found, point, r));
    r
}

/// Deflects the flap of an outline, by the function `flap` of the points, the place of the
/// hinge along the chord and across the thickness, and the angle in degrees: nothing where
/// there are not four points.
pub fn deflect_flap<S: Real, F: Fn(&Vec<Point<S>>, (S, S, S)) -> Vec<Point<S>>>(
    coords: &[S],
    hinge_x_frac: S,
    deflection_deg: S,
    hinge_y_frac: S,
    flap: &F,
) -> (r: Vec<(S, S)>)
    requires
        forall|p: Vec<Point<S>>, a: (S, S, S)| p@.len() >= 4 ==> #[trigger] call_requires(
            *flap,
            (&p, a),
        ),
    ensures
        !full_outline(coords@) ==> r@.len() == 0,
        full_outline(coords@) ==> exists|to: Vec<Point<S>>|
            {
                &&& #[trigger] list_gives(
                    *flap,
                    paired(coords@),
                    (hinge_x_frac, hinge_y_frac, deflection_deg),
                    to,
                )
                &&& r@ == to@.map_values(|p: Point<S>| (p.x, p.y))
            },
{
    if !is_full_outline(coords) {
        return Vec::new();
    }
    let points: Vec<Point<S>> = points_from_flat(coords);
    let args: (S, S, S) = (hinge_x_frac, hinge_y_frac, deflection_deg);
    let to: Vec<Point<S>> = flap(&points, args);
    assert(list_gives(*flap, paired(coords@), args, to));
    flat_from_points(&to)
}

} // verus!
