//! Inviscid analysis of an outline, and the flow that is drawn around it.
use crate::airfoil::layer::{analysis_error, AnalysisResult};
use crate::airfoil::points::{
    flattened, is_outline, outline, paired, points_from_flat, points_to_flat, Point,
};
use crate::airfoil::report::{message, prefixed, text};
use crate::airfoil::spline::Splines;
use crate::callable::{list_gives, mapped};
use crate::number::{
    arithmetic, decimal, infinity, is_finite, larger, smaller, whole, Formula, Real,
};
use crate::station::copied;
use core::ops::Neg;
use vstd::prelude::*;

verus! {

/// A solved inviscid flow.
#[derive(Clone, Debug)]
pub struct InviscidSolution<S> {
    pub cl: S,
    pub cm: S,
    pub cp: Vec<S>,
    /// The abscissas of the midpoints of the panels.
    pub cp_x: Vec<S>,
    pub gamma: Vec<S>,
    pub psi_0: S,
}

/// Why there is no inviscid flow.
#[derive(Clone, Debug)]
pub enum InviscidError {
    /// The outline is not that of a body.
    Geometry(String),
    /// The flow could not be solved.
    Solver(String),
}

/// What an error says.
pub open spec fn error_text(e: InviscidError) -> Seq<char> {
    match e {
        InviscidError::Geometry(m) => "Geometry error: "@ + m@,
        InviscidError::Solver(m) => "Solver error: "@ + m@,
    }
}

/// What an error says.
pub fn error_message(e: &InviscidError) -> (r: String)
    ensures
        r@ == error_text(*e),
{
    match e {
        InviscidError::Geometry(m) => prefixed("Geometry error: ", m.as_str()),
        InviscidError::Solver(m) => prefixed("Solver error: ", m.as_str()),
    }
}

/// A body can be sought for any points.
pub open spec fn seeks_bodies<S, B, F: Fn(&Vec<Point<S>>, ()) -> Result<B, String>>(
    from_points: F,
) -> bool {
    forall|p: Vec<Point<S>>| #[trigger] call_requires(from_points, (&p, ()))
}

/// A flow can be sought about any body, at any angle of attack.
pub open spec fn seeks_flows<S, B, G: Fn(&B, S) -> Result<InviscidSolution<S>, String>>(
    solve: G,
) -> bool {
    forall|b: B, a: S| #[trigger] call_requires(solve, (&b, a))
}

/// The attempt at a flow about a body comes to `out`.
pub open spec fn flows_about<S, B, G: Fn(&B, S) -> Result<InviscidSolution<S>, String>>(
    solve: G,
    body: B,
    alpha_deg: S,
    out: Result<InviscidSolution<S>, InviscidError>,
) -> bool {
    match out {
        Ok(s) => call_ensures(solve, (&body, alpha_deg), Ok(s)),
        Err(InviscidError::Solver(m)) => call_ensures(solve, (&body, alpha_deg), Err(m)),
        Err(InviscidError::Geometry(_)) => false,
    }
}

/// The attempt at a flow about the body with these points comes to `out`.
pub open spec fn flows_about_points<
    S,
    B,
    F: Fn(&Vec<Point<S>>, ()) -> Result<B, String>,
    G: Fn(&B, S) -> Result<InviscidSolution<S>, String>,
>(
    from_points: F,
    solve: G,
    points: Seq<Point<S>>,
    alpha_deg: S,
    out: Result<InviscidSolution<S>, InviscidError>,
) -> bool {
    match out {
        Err(InviscidError::Geometry(m)) => list_gives(
            from_points,
            points,
            (),
            Err::<B, String>(m),
        ),
        _ => exists|b: B| #[trigger]
            list_gives(from_points, points, (), Ok::<B, String>(b)) && flows_about(
                solve,
                b,
                alpha_deg,
                out,
            ),
    }
}

/// The flow about a body.
pub fn flow_about<S: Copy, B, G: Fn(&B, S) -> Result<InviscidSolution<S>, String>>(
    body: &B,
    alpha_deg: S,
    solve: &G,
) -> (r: Result<InviscidSolution<S>, InviscidError>)
    requires
        call_requires(*solve, (body, alpha_deg)),
    ensures
        flows_about(*solve, *body, alpha_deg, r),
{
    match solve(body, alpha_deg) {
        Ok(s) => Ok(s),
        Err(m) => Err(InviscidError::Solver(m)),
    }
}

/// The flow about the body with these points. `from_points` makes the body, and `solve` finds
/// the flow.
pub fn flow_about_points<
    S: Copy,
    B,
    F: Fn(&Vec<Point<S>>, ()) -> Result<B, String>,
    G: Fn(&B, S) -> Result<InviscidSolution<S>, String>,
>(points: &Vec<Point<S>>, alpha_deg: S, from_points: &F, solve: &G) -> (r: Result<
    InviscidSolution<S>,
    InviscidError,
>)
    requires
        seeks_bodies(*from_points),
        seeks_flows(*solve),
    ensures
        flows_about_points(*from_points, *solve, points@, alpha_deg, r),
{
    let made: Result<B, String> = from_points(points, ());
    let ghost shown = made;
    assert(list_gives(*from_points, points@, (), shown));
    match made {
        Ok(b) => flow_about(&b, alpha_deg, solve),
        Err(m) => Err(InviscidError::Geometry(m)),
    }
}

impl<S: Real> AnalysisResult<S> {
    /// The result of an inviscid flow: no drag, and no transition before the trailing edge.
    pub open spec fn shows(&self, s: InviscidSolution<S>) -> bool {
        let zero = whole::<S>(0);
        let one = whole::<S>(1);
        &&& (self.cl, self.cd, self.cm, self.psi_0) == (s.cl, zero, s.cm, s.psi_0)
        &&& self.cp@ == s.cp@
        &&& self.cp_x@ == s.cp_x@
        &&& self.gamma@ == s.gamma@
        &&& (self.converged, self.iterations, self.residual) == (true, 0usize, zero)
        &&& (self.x_tr_upper, self.x_tr_lower) == (one, one)
        &&& self.success
        &&& self.error is None
    }

    /// The result of an attempt at an inviscid flow.
    pub open spec fn reports(&self, out: Result<InviscidSolution<S>, InviscidError>) -> bool {
        match out {
            Ok(s) => self.shows(s),
            Err(e) => self.is_error(error_text(e)),
        }
    }
}

/// The result of an attempt at an inviscid flow.
fn inviscid_result<S: Real>(out: Result<InviscidSolution<S>, InviscidError>) -> (r: AnalysisResult<
    S,
>)
    requires
        arithmetic::<S>(),
    ensures
        r.reports(out),
{
    match out {
        Ok(s) => AnalysisResult {
            cl: s.cl,
            cd: whole(0),
            cm: s.cm,
            cp: s.cp,
            cp_x: s.cp_x,
            gamma: s.gamma,
            psi_0: s.psi_0,
            converged: true,
            iterations: 0,
            residual: whole(0),
            x_tr_upper: whole(1),
            x_tr_lower: whole(1),
            success: true,
            error: None,
        },
        Err(e) => analysis_error(error_message(&e)),
    }
}

/// `r` is the analysis of an outline at an angle of attack in degrees.
pub open spec fn analyzes<
    S: Real,
    B,
    F: Fn(&Vec<Point<S>>, ()) -> Result<B, String>,
    G: Fn(&B, S) -> Result<InviscidSolution<S>, String>,
>(from_points: F, solve: G, coords: Seq<S>, alpha_deg: S, r: AnalysisResult<S>) -> bool {
    if outline(coords) {
        exists|out: Result<InviscidSolution<S>, InviscidError>| #[trigger]
            flows_about_points(from_points, solve, paired(coords), alpha_deg, out) && r.reports(out)
    } else {
        r.is_error("Invalid coordinates: need at least 3 points (6 values)"@)
    }
}

/// Analyses an outline at an angle of attack in degrees. `from_points` makes the body with
/// these points, and `solve` finds the flow about it.
pub fn analyze_airfoil_impl<
    S: Real,
    B,
    F: Fn(&Vec<Point<S>>, ()) -> Result<B, String>,
    G: Fn(&B, S) -> Result<InviscidSolution<S>, String>,
>(coords: &[S], alpha_deg: S, from_points: &F, solve: &G) -> (r: AnalysisResult<S>)
    requires
        arithmetic::<S>(),
        seeks_bodies(*from_points),
        seeks_flows(*solve),
    ensures
        analyzes(*from_points, *solve, coords@, alpha_deg, r),
{
    if !is_outline(coords) {
        return analysis_error(
            "Invalid coordinates: need at least 3 points (6 values)".to_owned(),
        );
    }
    let points: Vec<Point<S>> = points_from_flat(coords);
    let out: Result<InviscidSolution<S>, InviscidError> = flow_about_points(
        &points,
        alpha_deg,
        from_points,
        solve,
    );
    let ghost shown = out;
    let r: AnalysisResult<S> = inviscid_result(out);
    assert(flows_about_points(*from_points, *solve, paired(coords@), alpha_deg, shown));
    r
}

/// How streamlines are traced.
#[derive(Clone, Copy, Debug)]
pub struct StreamlineOptions<S> {
    pub seed_count: usize,
    pub seed_x: S,
    pub y_min: S,
    pub y_max: S,
    pub step_size: S,
    pub max_steps: usize,
    pub x_min: S,
    pub x_max: S,
}

/// Streamlines within bounds: the seeds stand at their left edge, and the domain begins half
/// a chord before it.
pub open spec fn streamline_options<S: Real>(b: Seq<S>, seeds: usize) -> StreamlineOptions<S> {
    StreamlineOptions {
        seed_count: seeds,
        seed_x: b[0],
        y_min: b[2],
        y_max: b[3],
        step_size: decimal::<S>(1, 100),
        max_steps: 2000,
        x_min: b[0] - decimal::<S>(5, 10),
        x_max: b[1],
    }
}

/// Streamlines within bounds.
pub fn options_within<S: Real>(bounds: &[S], seed_count: usize) -> (r: StreamlineOptions<S>)
    requires
        arithmetic::<S>(),
        bounds@.len() == 4,
    ensures
        r == streamline_options(bounds@, seed_count),
{
    StreamlineOptions {
        seed_count,
        seed_x: bounds[0],
        y_min: bounds[2],
        y_max: bounds[3],
        step_size: decimal(1, 100),
        max_steps: 2000,
        x_min: bounds[0] - decimal(5, 10),
        x_max: bounds[1],
    }
}

/// The points of a line, as they are shown.
pub open spec fn shown_line<S>(line: Seq<(S, S)>) -> Seq<[S; 2]> {
    line.map_values(|p: (S, S)| [p.0, p.1])
}

/// The points of a line, as they are shown.
pub fn show_line<S: Copy>(line: &[(S, S)]) -> (r: Vec<[S; 2]>)
    ensures
        r@ == shown_line(line@),
{
    let pair = |p: (S, S)| -> (q: [S; 2])
        ensures
            q == [p.0, p.1],
        {
            [p.0, p.1]
        };
    let r: Vec<[S; 2]> = mapped(line, pair);
    assert(r@ =~= shown_line(line@));
    r
}

/// Traced streamlines.
#[derive(Clone, Debug)]
pub struct StreamlineResult<S> {
    pub streamlines: Vec<Vec<[S; 2]>>,
    pub success: bool,
    pub error: Option<String>,
}

impl<S> StreamlineResult<S> {
    /// Nothing but a message is there.
    pub open spec fn is_error(&self, m: Seq<char>) -> bool {
        self.streamlines@.len() == 0 && !self.success && text(self.error) == Some(m)
    }

    /// The lines are there.
    pub open spec fn shows(&self, lines: Seq<Vec<(S, S)>>) -> bool {
        &&& self.streamlines@.len() == lines.len()
        &&& forall|i: int|
            0 <= i < lines.len() ==> (#[trigger] self.streamlines@[i])@ == shown_line(lines[i]@)
        &&& self.success
        &&& self.error is None
    }
}

/// Streamlines that are not there.
pub fn streamline_error<S>(m: String) -> (r: StreamlineResult<S>)
    ensures
        r.is_error(m@),
{
    StreamlineResult { streamlines: Vec::new(), success: false, error: Some(m) }
}

/// Streamlines as they are shown.
pub fn streamline_result<S: Copy>(lines: &Vec<Vec<(S, S)>>) -> (r: StreamlineResult<S>)
    ensures
        r.shows(lines@),
{
    let mut streamlines: Vec<Vec<[S; 2]>> = Vec::new();
    let mut i: usize = 0;
    while i < lines.len()
        invariant
            i <= lines@.len(),
            streamlines@.len() == i,
            forall|k: int|
                0 <= k < i ==> (#[trigger] streamlines@[k])@ == shown_line(lines@[k]@),
        decreases lines@.len() - i,
    {
        streamlines.push(show_line(&lines[i]));
        i = i + 1;
    }
    StreamlineResult { streamlines, success: true, error: None }
}

/// What is said of bounds that are not four numbers.
pub open spec fn bounds_message() -> Seq<char> {
    "bounds must have 4 values: [x_min, x_max, y_min, y_max]"@
}

/// Traces streamlines about an outline. `from_points` makes the body, `solve` finds
/// the flow, and `trace` the lines in it.
pub fn compute_streamlines_impl<
    S: Real,
    B,
    F: Fn(&Vec<Point<S>>, ()) -> Result<B, String>,
    G: Fn(&B, S) -> Result<InviscidSolution<S>, String>,
    T: Fn(&Vec<Point<S>>, (&InviscidSolution<S>, S, StreamlineOptions<S>)) -> Vec<Vec<(S, S)>>,
>(
    coords: &[S],
    alpha_deg: S,
    seed_count: u32,
    bounds: &[S],
    from_points: &F,
    solve: &G,
    trace: &T,
) -> (r: StreamlineResult<S>)
    requires
        arithmetic::<S>(),
        seeks_bodies(*from_points),
        seeks_flows(*solve),
        forall|p: Vec<Point<S>>, a: (&InviscidSolution<S>, S, StreamlineOptions<S>)| #[trigger]
            call_requires(*trace, (&p, a)),
    ensures
        !outline(coords@) ==> r.is_error("Invalid coordinates"@),
        outline(coords@) && bounds@.len() != 4 ==> r.is_error(bounds_message()),
        outline(coords@) && bounds@.len() == 4 ==> exists|
            out: Result<InviscidSolution<S>, InviscidError>,
        |
            {
                &&& #[trigger] flows_about_points(
                    *from_points,
                    *solve,
                    paired(coords@),
                    alpha_deg,
                    out,
                )
                &&& match out {
                    Err(e) => r.is_error(error_text(e)),
                    Ok(s) => exists|lines: Vec<Vec<(S, S)>>| #[trigger]
                        list_gives(
                            *trace,
                            paired(coords@),
                            (&s, alpha_deg, streamline_options(bounds@, seed_count as usize)),
                            lines,
                        ) && r.shows(lines@),
                }
            },
{
    if !is_outline(coords) {
        return streamline_error("Invalid coordinates".to_owned());
    }
    if bounds.len() != 4 {
        return streamline_error(
            "bounds must have 4 values: [x_min, x_max, y_min, y_max]".to_owned(),
        );
    }
    let points: Vec<Point<S>> = points_from_flat(coords);
    let out: Result<InviscidSolution<S>, InviscidError> = flow_about_points(
        &points,
        alpha_deg,
        from_points,
        solve,
    );
    assert(flows_about_points(*from_points, *solve, paired(coords@), alpha_deg, out));
    match &out {
        Err(e) => streamline_error(error_message(e)),
        Ok(s) => {
            let options: StreamlineOptions<S> = options_within(bounds, seed_count as usize);
            let lines: Vec<Vec<(S, S)>> = trace(&points, (s, alpha_deg, options));
            assert(list_gives(*trace, paired(coords@), (s, alpha_deg, options), lines));
            streamline_result(&lines)
        },
    }
}

/// The traced dividing streamline.
#[derive(Clone, Debug)]
pub struct DividingStreamlineResult<S> {
    pub streamline: Vec<[S; 2]>,
    pub success: bool,
    pub error: Option<String>,
}

impl<S> DividingStreamlineResult<S> {
    /// Nothing but a message is there.
    pub open spec fn is_error(&self, m: Seq<char>) -> bool {
        self.streamline@.len() == 0 && !self.success && text(self.error) == Some(m)
    }

    /// The line is there, or says that it could not be found.
    pub open spec fn reports(&self, line: Option<Vec<(S, S)>>) -> bool {
        match line {
            Some(l) => self.streamline@ == shown_line(l@) && self.success && self.error is None,
            None => self.is_error("Unable to bracket dividing streamline"@),
        }
    }
}

/// A dividing streamline that is not there.
pub fn dividing_error<S>(m: String) -> (r: DividingStreamlineResult<S>)
    ensures
        r.is_error(m@),
{
    DividingStreamlineResult { streamline: Vec::new(), success: false, error: Some(m) }
}

/// The dividing streamline as it is shown.
pub fn dividing_result<S: Copy>(line: &Option<Vec<(S, S)>>) -> (r: DividingStreamlineResult<S>)
    ensures
        r.reports(*line),
{
    match line {
        Some(l) => DividingStreamlineResult {
            streamline: show_line(l),
            success: true,
            error: None,
        },
        None => dividing_error("Unable to bracket dividing streamline".to_owned()),
    }
}

/// Traces the dividing streamline of an outline, from 33 seeds. `from_points` makes the
/// body, `solve` finds the flow, and `trace` the line in it.
pub fn compute_dividing_streamline_impl<
    S: Real,
    B,
    F: Fn(&Vec<Point<S>>, ()) -> Result<B, String>,
    G: Fn(&B, S) -> Result<InviscidSolution<S>, String>,
    T: Fn(&Vec<Point<S>>, (&InviscidSolution<S>, S, StreamlineOptions<S>)) -> Option<Vec<(S, S)>>,
>(
    coords: &[S],
    alpha_deg: S,
    bounds: &[S],
    from_points: &F,
    solve: &G,
    trace: &T,
) -> (r: DividingStreamlineResult<S>)
    requires
        arithmetic::<S>(),
        seeks_bodies(*from_points),
        seeks_flows(*solve),
        forall|p: Vec<Point<S>>, a: (&InviscidSolution<S>, S, StreamlineOptions<S>)| #[trigger]
            call_requires(*trace, (&p, a)),
    ensures
        !outline(coords@) ==> r.is_error("Invalid coordinates"@),
        outline(coords@) && bounds@.len() != 4 ==> r.is_error(bounds_message()),
        outline(coords@) && bounds@.len() == 4 ==> exists|
            out: Result<InviscidSolution<S>, InviscidError>,
        |
            {
                &&& #[trigger] flows_about_points(
                    *from_points,
                    *solve,
                    paired(coords@),
                    alpha_deg,
                    out,
                )
                &&& match out {
                    Err(e) => r.is_error(error_text(e)),
                    Ok(s) => exists|line: Option<Vec<(S, S)>>| #[trigger]
                        list_gives(
                            *trace,
                            paired(coords@),
                            (&s, alpha_deg, streamline_options(bounds@, 33)),
                            line,
                        ) && r.reports(line),
                }
            },
{
    if !is_outline(coords) {
        return dividing_error("Invalid coordinates".to_owned());
    }
    if bounds.len() != 4 {
        return dividing_error(
            "bounds must have 4 values: [x_min, x_max, y_min, y_max]".to_owned(),
        );
    }
    let points: Vec<Point<S>> = points_from_flat(coords);
    let out: Result<InviscidSolution<S>, InviscidError> = flow_about_points(
        &points,
        alpha_deg,
        from_points,
        solve,
    );
    assert(flows_about_points(*from_points, *solve, paired(coords@), alpha_deg, out));
    match &out {
        Err(e) => dividing_error(error_message(e)),
        Ok(s) => {
            let options: StreamlineOptions<S> = options_within(bounds, 33);
            let line: Option<Vec<(S, S)>> = trace(&points, (s, alpha_deg, options));
            assert(list_gives(*trace, paired(coords@), (s, alpha_deg, options), line));
            dividing_result(&line)
        },
    }
}

/// The stream function on a grid, row by row.
#[derive(Clone, Debug)]
pub struct PsiGridResult<S> {
    pub grid: Vec<S>,
    pub psi_0: S,
    pub nx: usize,
    pub ny: usize,
    /// The least and the largest finite value.
    pub psi_min: S,
    pub psi_max: S,
    pub success: bool,
    pub error: Option<String>,
}

/// The least and the largest of the finite values among the first `n`.
pub open spec fn extent<S: Real>(grid: Seq<S>, n: nat) -> (S, S)
    decreases n,
{
    if n == 0 {
        (infinity::<S>(), -infinity::<S>())
    } else {
        let (low, high) = extent(grid, (n - 1) as nat);
        let v = grid[n - 1];
        if is_finite(v) {
            (smaller(low, v), larger(high, v))
        } else {
            (low, high)
        }
    }
}

impl<S: Real> PsiGridResult<S> {
    /// Nothing but a message is there.
    pub open spec fn is_error(&self, m: Seq<char>) -> bool {
        let zero = whole::<S>(0);
        &&& self.grid@.len() == 0
        &&& (self.psi_0, self.psi_min, self.psi_max) == (zero, zero, zero)
        &&& (self.nx, self.ny, self.success) == (0usize, 0usize, false)
        &&& text(self.error) == Some(m)
    }

    /// The grid is there, with the stream function of the dividing streamline.
    pub open spec fn shows(&self, grid: Seq<S>, psi_0: S, nx: usize, ny: usize) -> bool {
        &&& self.grid@ == grid
        &&& (self.psi_min, self.psi_max) == extent(grid, grid.len())
        &&& (self.psi_0, self.nx, self.ny) == (psi_0, nx, ny)
        &&& self.success
        &&& self.error is None
    }
}

/// A grid that is not there.
pub fn psi_grid_error<S: Real>(m: String) -> (r: PsiGridResult<S>)
    requires
        arithmetic::<S>(),
    ensures
        r.is_error(m@),
{
    PsiGridResult {
        grid: Vec::new(),
        psi_0: whole(0),
        nx: 0,
        ny: 0,
        psi_min: whole(0),
        psi_max: whole(0),
        success: false,
        error: Some(m),
    }
}

/// A grid with its extent.
pub fn psi_grid_result<S: Real>(grid: Vec<S>, psi_0: S, nx: usize, ny: usize) -> (r: PsiGridResult<
    S,
>)
    requires
        arithmetic::<S>(),
    ensures
        r.shows(grid@, psi_0, nx, ny),
{
    let mut low: S = infinity();
    let mut high: S = infinity::<S>().neg();
    let mut i: usize = 0;
    while i < grid.len()
        invariant
            arithmetic::<S>(),
            i <= grid@.len(),
            (low, high) == extent(grid@, i as nat),
        decreases grid@.len() - i,
    {
        let v: S = grid[i];
        if is_finite(v) {
            low = smaller(low, v);
            high = larger(high, v);
        }
        i = i + 1;
    }
    PsiGridResult {
        grid,
        psi_0,
        nx,
        ny,
        psi_min: low,
        psi_max: high,
        success: true,
        error: None,
    }
}

/// What a grid is taken over: the bounds in x and in y, and the number of columns and rows.
#[derive(Clone, Copy, Debug)]
pub struct GridOptions<S> {
    pub x_min: S,
    pub x_max: S,
    pub y_min: S,
    pub y_max: S,
    pub nx: usize,
    pub ny: usize,
}

/// The grid within bounds, at a resolution.
pub open spec fn grid_options<S>(b: Seq<S>, n: Seq<u32>) -> GridOptions<S> {
    GridOptions {
        x_min: b[0],
        x_max: b[1],
        y_min: b[2],
        y_max: b[3],
        nx: n[0] as usize,
        ny: n[1] as usize,
    }
}

/// The grid within bounds, at a resolution.
pub fn grid_within<S: Copy>(bounds: &[S], resolution: &[u32]) -> (r: GridOptions<S>)
    requires
        bounds@.len() == 4,
        resolution@.len() == 2,
    ensures
        r == grid_options(bounds@, resolution@),
{
    GridOptions {
        x_min: bounds[0],
        x_max: bounds[1],
        y_min: bounds[2],
        y_max: bounds[3],
        nx: resolution[0] as usize,
        ny: resolution[1] as usize,
    }
}

/// What is wrong with the bounds and the resolution of a grid.
pub open spec fn grid_fault<S>(bounds: Seq<S>, resolution: Seq<u32>) -> Option<Seq<char>> {
    if bounds.len() != 4 {
        Some(bounds_message())
    } else if resolution.len() != 2 {
        Some("resolution must have 2 values: [nx, ny]"@)
    } else {
        None
    }
}

/// What is wrong with the bounds and the resolution of a grid.
pub fn find_grid_fault<S>(bounds: &[S], resolution: &[u32]) -> (r: Option<String>)
    ensures
        text(r) == grid_fault(bounds@, resolution@),
{
    if bounds.len() != 4 {
        message("bounds must have 4 values: [x_min, x_max, y_min, y_max]")
    } else if resolution.len() != 2 {
        message("resolution must have 2 values: [nx, ny]")
    } else {
        None
    }
}

/// The stream function about an outline, on a grid. `solve` finds the flow, and `sample` its
/// stream function.
pub fn compute_psi_grid_impl<
    S: Real,
    B,
    F: Fn(&Vec<Point<S>>, ()) -> Result<B, String>,
    G: Fn(&B, S) -> Result<InviscidSolution<S>, String>,
    T: Fn(&Vec<Point<S>>, (&InviscidSolution<S>, S, GridOptions<S>)) -> Vec<S>,
>(
    coords: &[S],
    alpha_deg: S,
    bounds: &[S],
    resolution: &[u32],
    from_points: &F,
    solve: &G,
    sample: &T,
) -> (r: PsiGridResult<S>)
    requires
        arithmetic::<S>(),
        seeks_bodies(*from_points),
        seeks_flows(*solve),
        forall|p: Vec<Point<S>>, a: (&InviscidSolution<S>, S, GridOptions<S>)| #[trigger]
            call_requires(*sample, (&p, a)),
    ensures
        !outline(coords@) ==> r.is_error("Invalid coordinates"@),
        outline(coords@) ==> match grid_fault(bounds@, resolution@) {
            Some(m) => r.is_error(m),
            None => exists|out: Result<InviscidSolution<S>, InviscidError>|
                {
                    &&& #[trigger] flows_about_points(
                        *from_points,
                        *solve,
                        paired(coords@),
                        alpha_deg,
                        out,
                    )
                    &&& match out {
                        Err(e) => r.is_error(error_text(e)),
                        Ok(s) => exists|grid: Vec<S>| #[trigger]
                            list_gives(
                                *sample,
                                paired(coords@),
                                (&s, alpha_deg, grid_options(bounds@, resolution@)),
                                grid,
                            ) && r.shows(
                                grid@,
                                s.psi_0,
                                resolution@[0] as usize,
                                resolution@[1] as usize,
                            ),
                    }
                },
        },
{
    if !is_outline(coords) {
        return psi_grid_error("Invalid coordinates".to_owned());
    }
    match find_grid_fault(bounds, resolution) {
        Some(m) => {
            return psi_grid_error(m);
        },
        None => {},
    }
    let points: Vec<Point<S>> = points_from_flat(coords);
    let out: Result<InviscidSolution<S>, InviscidError> = flow_about_points(
        &points,
        alpha_deg,
        from_points,
        solve,
    );
    assert(flows_about_points(*from_points, *solve, paired(coords@), alpha_deg, out));
    match &out {
        Err(e) => psi_grid_error(error_message(e)),
        Ok(s) => {
            let options: GridOptions<S> = grid_within(bounds, resolution);
            let grid: Vec<S> = sample(&points, (s, alpha_deg, options));
            assert(list_gives(*sample, paired(coords@), (s, alpha_deg, options), grid));
            psi_grid_result(grid, s.psi_0, options.nx, options.ny)
        },
    }
}

/// An airfoil that is worked on step by step: the body, if there is one, the angle of attack,
/// and the last result.
pub struct RustFoil<S, B> {
    pub body: Option<B>,
    pub alpha_deg: S,
    pub last_solution: Option<AnalysisResult<S>>,
}

impl<S: Real, B> RustFoil<S, B> {
    /// No body, at no angle of attack.
    pub fn new() -> (r: Self)
        requires
            arithmetic::<S>(),
        ensures
            r.body is None,
            r.alpha_deg == whole::<S>(0),
            r.last_solution is None,
    {
        RustFoil { body: None, alpha_deg: whole(0), last_solution: None }
    }

    /// What there is of a body after an outline was set.
    pub open spec fn bounded_by<F: Fn(&Vec<Point<S>>, ()) -> Result<B, String>>(
        &self,
        coords: Seq<S>,
        from_points: F,
    ) -> bool {
        match self.body {
            Some(b) => outline(coords) && list_gives(
                from_points,
                paired(coords),
                (),
                Ok::<B, String>(b),
            ),
            None => outline(coords) ==> exists|m: String| #[trigger]
                list_gives(from_points, paired(coords), (), Err::<B, String>(m)),
        }
    }

    /// Sets the outline, and says whether it is that of a body. A new body has no result
    /// yet; without one the last result stays. `from_points` makes a body of the points.
    pub fn set_coordinates<F: Fn(&Vec<Point<S>>, ()) -> Result<B, String>>(
        &mut self,
        coords: &[S],
        from_points: &F,
    ) -> (r: bool)
        requires
            seeks_bodies(*from_points),
        ensures
            r == final(self).body is Some,
            final(self).bounded_by(coords@, *from_points),
            final(self).last_solution == (if r {
                None
            } else {
                old(self).last_solution
            }),
            final(self).alpha_deg == old(self).alpha_deg,
    {
        if !is_outline(coords) {
            self.body = None;
            return false;
        }
        let points: Vec<Point<S>> = points_from_flat(coords);
        let made: Result<B, String> = from_points(&points, ());
        let ghost shown = made;
        assert(list_gives(*from_points, paired(coords@), (), shown));
        match made {
            Ok(b) => {
                self.body = Some(b);
                self.last_solution = None;
                true
            },
            Err(_) => {
                self.body = None;
                false
            },
        }
    }

    /// Sets the angle of attack in degrees; the last result is gone.
    pub fn set_alpha(&mut self, alpha_deg: S)
        ensures
            final(self).alpha_deg == alpha_deg,
            final(self).last_solution is None,
            final(self).body == old(self).body,
    {
        self.alpha_deg = alpha_deg;
        self.last_solution = None;
    }

    /// The angle of attack in degrees.
    pub fn get_alpha(&self) -> (r: S)
        ensures
            r == self.alpha_deg,
    {
        self.alpha_deg
    }

    /// `r` is the analysis of the body.
    pub open spec fn solves<G: Fn(&B, S) -> Result<InviscidSolution<S>, String>>(
        &self,
        solve: G,
        r: AnalysisResult<S>,
    ) -> bool {
        match self.body {
            None => r.is_error("No geometry set"@),
            Some(b) => exists|out: Result<InviscidSolution<S>, InviscidError>| #[trigger]
                flows_about(solve, b, self.alpha_deg, out) && r.reports(out),
        }
    }

    /// Analyses the body, and keeps the result. `solve` finds the flow about a body.
    pub fn solve<G: Fn(&B, S) -> Result<InviscidSolution<S>, String>>(&mut self, solve: &G) -> (r:
        AnalysisResult<S>)
        requires
            arithmetic::<S>(),
            seeks_flows(*solve),
        ensures
            old(self).solves(*solve, r),
            final(self).last_solution matches Some(kept) && same_result(kept, r),
            final(self).body == old(self).body,
            final(self).alpha_deg == old(self).alpha_deg,
    {
        let r: AnalysisResult<S> = match &self.body {
            None => analysis_error("No geometry set".to_owned()),
            Some(b) => {
                let out: Result<InviscidSolution<S>, InviscidError> = flow_about(
                    b,
                    self.alpha_deg,
                    solve,
                );
                assert(flows_about(*solve, *b, self.alpha_deg, out));
                inviscid_result(out)
            },
        };
        self.last_solution = Some(copied_result(&r));
        r
    }

    /// `r` is the number of panels of the body, or none.
    pub open spec fn counts<F: Fn(&B) -> usize>(&self, n_panels: F, r: usize) -> bool {
        match self.body {
            Some(b) => call_ensures(n_panels, (&b,), r),
            None => r == 0,
        }
    }

    /// The number of panels of the body, or none.
    pub fn panel_count<F: Fn(&B) -> usize>(&self, n_panels: &F) -> (r: usize)
        requires
            forall|b: B| #[trigger] call_requires(*n_panels, (&b,)),
        ensures
            self.counts(*n_panels, r),
    {
        match &self.body {
            Some(b) => n_panels(b),
            None => 0,
        }
    }

    /// The coordinates of the body with `n_panels` panels of cosine spacing, or none.
    /// `panels` are the ends of the panels of a body, of which there is one at least.
    pub fn repanel_cosine<F: Fn(&B) -> Vec<(Point<S>, Point<S>)>, Z, P: Splines<S, Z>>(
        &self,
        n_panels: usize,
        panels: &F,
        splines: &P,
    ) -> (r: Vec<S>)
        requires
            n_panels < usize::MAX,
            splines.lawful(),
            forall|b: B| #[trigger] call_requires(*panels, (&b,)),
            forall|b: B, p: Vec<(Point<S>, Point<S>)>| #[trigger]
                call_ensures(*panels, (&b,), p) ==> p@.len() > 0,
        ensures
            match self.body {
                None => r@.len() == 0,
                Some(b) => exists|p: Vec<(Point<S>, Point<S>)>, z: Option<Z>|
                    {
                        &&& #[trigger] call_ensures(*panels, (&b,), p)
                        &&& #[trigger] splines.fits(panel_ends(p@), z)
                        &&& cosine_spaced(splines, z, (n_panels + 1) as usize, r@)
                    },
            },
    {
        let body: &B = match &self.body {
            Some(b) => b,
            None => {
                return Vec::new();
            },
        };
        let list: Vec<(Point<S>, Point<S>)> = panels(body);
        assert(call_ensures(*panels, (body,), list));
        let first = |p: (Point<S>, Point<S>)| -> (q: Point<S>)
            ensures
                q == p.0,
            {
                p.0
            };
        let mut points: Vec<Point<S>> = mapped(&list, first);
        points.push(list[list.len() - 1].1);
        assert(points@ =~= panel_ends(list@));
        let fitted: Option<Z> = splines.from_points(&points);
        assert(splines.fits(panel_ends(list@), fitted));
        let ghost shown = fitted;
        match fitted {
            Some(z) => {
                let nodes: Vec<Point<S>> = splines.resample_cosine(&z, n_panels + 1);
                let r: Vec<S> = points_to_flat(&nodes);
                assert(splines.resamples_cosine(z, (n_panels + 1) as usize, nodes@));
                assert(cosine_spaced(splines, shown, (n_panels + 1) as usize, r@));
                r
            },
            None => {
                let r: Vec<S> = Vec::new();
                assert(cosine_spaced(splines, shown, (n_panels + 1) as usize, r@));
                r
            },
        }
    }
}

/// The first end of every panel, and the second of the last.
pub open spec fn panel_ends<S>(p: Seq<(Point<S>, Point<S>)>) -> Seq<Point<S>> {
    p.map_values(|q: (Point<S>, Point<S>)| q.0).push(p.last().1)
}

/// `r` are the coordinates of `n` points with cosine spacing, or none without a spline.
pub open spec fn cosine_spaced<S: Real, Z, P: Splines<S, Z>>(
    splines: &P,
    z: Option<Z>,
    n: usize,
    r: Seq<S>,
) -> bool {
    match z {
        Some(z) => exists|nodes: Seq<Point<S>>|
            #[trigger] splines.resamples_cosine(z, n, nodes) && r == flattened(nodes),
        None => r.len() == 0,
    }
}

/// Two results that say the same.
pub open spec fn same_result<S>(a: AnalysisResult<S>, b: AnalysisResult<S>) -> bool {
    &&& (a.cl, a.cd, a.cm, a.psi_0, a.residual) == (b.cl, b.cd, b.cm, b.psi_0, b.residual)
    &&& (a.cp@, a.cp_x@, a.gamma@) == (b.cp@, b.cp_x@, b.gamma@)
    &&& (a.converged, a.iterations, a.success) == (b.converged, b.iterations, b.success)
    &&& (a.x_tr_upper, a.x_tr_lower) == (b.x_tr_upper, b.x_tr_lower)
    &&& text(a.error) == text(b.error)
}

/// A copy of a result.
pub fn copied_result<S: Copy>(a: &AnalysisResult<S>) -> (r: AnalysisResult<S>)
    ensures
        same_result(r, *a),
{
    AnalysisResult {
        cl: a.cl,
        cd: a.cd,
        cm: a.cm,
        cp: copied(&a.cp),
        cp_x: copied(&a.cp_x),
        gamma: copied(&a.gamma),
        psi_0: a.psi_0,
        converged: a.converged,
        iterations: a.iterations,
        residual: a.residual,
        x_tr_upper: a.x_tr_upper,
        x_tr_lower: a.x_tr_lower,
        success: a.success,
        error: match &a.error {
            Some(m) => Some(m.clone()),
            None => None,
        },
    }
}

/// Two attempts at an inviscid flow that came to the same.
pub open spec fn same_outcome<S>(
    a: Result<InviscidSolution<S>, InviscidError>,
    b: Result<InviscidSolution<S>, InviscidError>,
) -> bool {
    match (a, b) {
        (Ok(s), Ok(t)) => {
            &&& (s.cl, s.cm, s.psi_0) == (t.cl, t.cm, t.psi_0)
            &&& (s.cp@, s.cp_x@, s.gamma@) == (t.cp@, t.cp_x@, t.gamma@)
        },
        (Err(e), Err(f)) => error_text(e) == error_text(f),
        _ => false,
    }
}

/// The flow about the body with these points is settled: to seek it twice comes to the same.
pub open spec fn settled<
    S,
    B,
    F: Fn(&Vec<Point<S>>, ()) -> Result<B, String>,
    G: Fn(&B, S) -> Result<InviscidSolution<S>, String>,
>(from_points: F, solve: G, points: Seq<Point<S>>, alpha_deg: S) -> bool {
    forall|
        a: Result<InviscidSolution<S>, InviscidError>,
        b: Result<InviscidSolution<S>, InviscidError>,
    |
        #[trigger] flows_about_points(from_points, solve, points, alpha_deg, a)
            && #[trigger] flows_about_points(from_points, solve, points, alpha_deg, b)
            ==> same_outcome(a, b)
}

/// The analysis of an airfoil that is worked on step by step agrees in everything with that
/// of its outline in one go, and with the analysis of the same airfoil again.
pub proof fn law_steps_agree_with_one_analysis<
    S: Real,
    B,
    F: Fn(&Vec<Point<S>>, ()) -> Result<B, String>,
    G: Fn(&B, S) -> Result<InviscidSolution<S>, String>,
>(
    foil: RustFoil<S, B>,
    coords: Seq<S>,
    from_points: F,
    solve: G,
    step_by_step: AnalysisResult<S>,
    again: AnalysisResult<S>,
    in_one_go: AnalysisResult<S>,
)
    requires
        foil.bounded_by(coords, from_points),
        foil.body is Some,
        settled(from_points, solve, paired(coords), foil.alpha_deg),
        foil.solves(solve, step_by_step),
        foil.solves(solve, again),
        analyzes(from_points, solve, coords, foil.alpha_deg, in_one_go),
    ensures
        same_result(step_by_step, in_one_go),
        same_result(step_by_step, again),
{
    let body = foil.body->0;
    assert(list_gives(from_points, paired(coords), (), Ok::<B, String>(body)));
    let a = choose|out: Result<InviscidSolution<S>, InviscidError>| #[trigger]
        flows_about(solve, body, foil.alpha_deg, out) && step_by_step.reports(out);
    let b = choose|out: Result<InviscidSolution<S>, InviscidError>| #[trigger]
        flows_about(solve, body, foil.alpha_deg, out) && again.reports(out);
    let c = choose|out: Result<InviscidSolution<S>, InviscidError>| #[trigger]
        flows_about_points(from_points, solve, paired(coords), foil.alpha_deg, out)
            && in_one_go.reports(out);
    assert(flows_about_points(from_points, solve, paired(coords), foil.alpha_deg, a));
    assert(flows_about_points(from_points, solve, paired(coords), foil.alpha_deg, b));
    assert(same_outcome(a, b) && same_outcome(a, c));
    assert(step_by_step.cp@ =~= in_one_go.cp@ && step_by_step.cp@ =~= again.cp@);
    assert(step_by_step.cp_x@ =~= in_one_go.cp_x@ && step_by_step.cp_x@ =~= again.cp_x@);
    assert(step_by_step.gamma@ =~= in_one_go.gamma@ && step_by_step.gamma@ =~= again.gamma@);
}

/// An airfoil without a body, to which no outline was set or none of a body, has no flow and
/// no panels: its analysis says that no geometry is set.
pub proof fn law_without_a_body_nothing_is_solved<
    S: Real,
    B,
    G: Fn(&B, S) -> Result<InviscidSolution<S>, String>,
    N: Fn(&B) -> usize,
>(foil: RustFoil<S, B>, solve: G, n_panels: N, r: AnalysisResult<S>, count: usize)
    requires
        foil.body is None,
        foil.solves(solve, r),
        foil.counts(n_panels, count),
    ensures
        !r.success,
        text(r.error) == Some("No geometry set"@),
        count == 0,
{
}

} // verus!
