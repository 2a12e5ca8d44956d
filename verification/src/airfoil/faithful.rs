//! Viscous analysis of an outline at an operating point, and what is shown of it.
use crate::airfoil::inviscid::{
    bounds_message, copied_result, dividing_error, dividing_result, find_grid_fault, grid_fault,
    grid_options, grid_within, options_within, psi_grid_error, psi_grid_result, same_result,
    streamline_error, streamline_options, streamline_result, DividingStreamlineResult,
    GridOptions, PsiGridResult, StreamlineOptions, StreamlineResult,
};
use crate::airfoil::layer::{
    analysis_error, bl_error, bl_vis_error, build_bl_visualization, rows_to_bl_distribution,
    AnalysisResult, BLDistribution, BLVisualizationData, BlRow, FaithfulFlowField, FaithfulSnapshot,
};
use crate::airfoil::points::{flat_from_points, is_outline, outline, paired, points_from_flat, Point};
use crate::airfoil::report::prefixed;
use crate::callable::mapped;
use crate::elementary::Elementary;
use crate::number::{abs, arithmetic, radians, tenths, tiny, whole, Formula, Real};
use crate::station::copied;
use vstd::prelude::*;

verus! {

/// What the Reynolds number belongs to: a fixed speed, a fixed lift, or both.
#[derive(Clone, Copy, Debug, PartialEq, Eq, Structural)]
pub enum ReType {
    Type1,
    Type2,
    Type3,
}

/// The kind of Reynolds number with the number `v`; the first where there is none.
pub open spec fn kind_of_reynolds(v: u8) -> ReType {
    if v == 2 {
        ReType::Type2
    } else if v == 3 {
        ReType::Type3
    } else {
        ReType::Type1
    }
}

/// The kind of Reynolds number with the number `v`.
pub fn re_type_from_int(v: u8) -> (r: ReType)
    ensures
        r == kind_of_reynolds(v),
{
    if v == 2 {
        ReType::Type2
    } else if v == 3 {
        ReType::Type3
    } else {
        ReType::Type1
    }
}

/// The operating point of a viscous analysis.
#[derive(Clone, Copy, Debug)]
pub struct OperatingPoint<S> {
    pub alpha_deg: S,
    pub reynolds: S,
    pub mach: S,
    pub ncrit: S,
    pub max_iterations: usize,
    pub re_type: ReType,
    pub xstrip_upper: S,
    pub xstrip_lower: S,
}

/// The operating point with free transition and a fixed Reynolds number.
pub open spec fn free_point<S: Real>(
    alpha_deg: S,
    reynolds: S,
    mach: S,
    ncrit: S,
    max_iterations: usize,
) -> OperatingPoint<S> {
    OperatingPoint {
        alpha_deg,
        reynolds,
        mach,
        ncrit,
        max_iterations,
        re_type: ReType::Type1,
        xstrip_upper: whole::<S>(1),
        xstrip_lower: whole::<S>(1),
    }
}

/// The operating point with free transition and a fixed Reynolds number.
pub fn free_operating_point<S: Real>(
    alpha_deg: S,
    reynolds: S,
    mach: S,
    ncrit: S,
    max_iterations: usize,
) -> (r: OperatingPoint<S>)
    requires
        arithmetic::<S>(),
    ensures
        r == free_point(alpha_deg, reynolds, mach, ncrit, max_iterations),
{
    OperatingPoint {
        alpha_deg,
        reynolds,
        mach,
        ncrit,
        max_iterations,
        re_type: re_type_from_int(1),
        xstrip_upper: whole(1),
        xstrip_lower: whole(1),
    }
}

/// The nodes of an outline, as the solver takes them.
pub struct NodeTable<S> {
    pub x: Vec<S>,
    pub y: Vec<S>,
    /// Arc length from the first node.
    pub s: Vec<S>,
    /// Angle of attack in radians.
    pub alpha: S,
}

/// A solved operating point.
pub struct Operated<S> {
    pub cl: S,
    pub cd: S,
    pub cm: S,
    pub converged: bool,
    pub iterations: usize,
    pub residual: S,
    pub x_tr_upper: S,
    pub x_tr_lower: S,
    pub gamma: Vec<S>,
    pub panel_x: Vec<S>,
    pub upper_rows: Vec<BlRow<S>>,
    pub lower_rows: Vec<BlRow<S>>,
    pub iblte_upper: usize,
    pub iblte_lower: usize,
    pub wake_x: Vec<S>,
    pub wake_y: Vec<S>,
}

/// A panel, by its ends.
pub type Ends<S> = (Point<S>, Point<S>);

/// The solver, step by step: `F` is a factorised inviscid flow, `D` its influence matrix.
pub trait FaithfulSolver<S: Real, F, D> {
    /// Every step can be taken.
    spec fn ready(&self) -> bool;

    /// A solved point has rows on both surfaces.
    spec fn has_rows(&self) -> bool;

    spec fn bodies(&self, points: Seq<Point<S>>, r: Result<Vec<Ends<S>>, String>) -> bool;

    spec fn factorizes(&self, nodes: Seq<(S, S)>, r: Result<F, String>) -> bool;

    spec fn stagnates(&self, f: F, alpha_deg: S, psi_0: S) -> bool;

    spec fn influences(&self, f: F, r: Result<D, String>) -> bool;

    spec fn operates(
        &self,
        f: F,
        d: D,
        x: Seq<S>,
        y: Seq<S>,
        s: Seq<S>,
        alpha: S,
        point: OperatingPoint<S>,
        r: Result<Operated<S>, String>,
    ) -> bool;

    /// The panels of the body with these points.
    fn body(&self, points: &Vec<Point<S>>) -> (r: Result<Vec<Ends<S>>, String>)
        requires
            self.ready(),
        ensures
            self.bodies(points@, r),
    ;

    /// The inviscid flow about the nodes, factorised.
    fn factorize(&self, nodes: &Vec<(S, S)>) -> (r: Result<F, String>)
        requires
            self.ready(),
        ensures
            self.factorizes(nodes@, r),
    ;

    /// The stream function of the dividing streamline.
    fn psi_0(&self, f: &F, alpha_deg: S) -> (r: S)
        requires
            self.ready(),
        ensures
            self.stagnates(*f, alpha_deg, r),
    ;

    /// The influence of sources on the edge velocities.
    fn influence(&self, f: &F) -> (r: Result<D, String>)
        requires
            self.ready(),
        ensures
            self.influences(*f, r),
    ;

    /// The solution at an operating point.
    fn operate(&self, f: &F, d: &D, table: &NodeTable<S>, point: OperatingPoint<S>) -> (r: Result<
        Operated<S>,
        String,
    >)
        requires
            self.ready(),
        ensures
            self.operates(*f, *d, table.x@, table.y@, table.s@, table.alpha, point, r),
            self.has_rows() ==> (r matches Ok(o) ==> o.upper_rows@.len() > 0
                && o.lower_rows@.len() > 0),
    ;
}

/// The solver, function by function.
pub struct FaithfulFunctions<A, B, C, G, H> {
    pub body: A,
    pub factorize: B,
    pub psi_0: C,
    pub influence: G,
    pub operate: H,
}

impl<
    S: Real,
    F,
    D,
    A: Fn(&Vec<Point<S>>) -> Result<Vec<Ends<S>>, String>,
    B: Fn(&Vec<(S, S)>) -> Result<F, String>,
    C: Fn(&F, S) -> S,
    G: Fn(&F) -> Result<D, String>,
    H: Fn(&F, &D, &NodeTable<S>, OperatingPoint<S>) -> Result<Operated<S>, String>,
> FaithfulSolver<S, F, D> for FaithfulFunctions<A, B, C, G, H> {
    open spec fn ready(&self) -> bool {
        &&& forall|p: Vec<Point<S>>| #[trigger] call_requires(self.body, (&p,))
        &&& forall|p: Vec<(S, S)>| #[trigger] call_requires(self.factorize, (&p,))
        &&& forall|f: F, a: S| #[trigger] call_requires(self.psi_0, (&f, a))
        &&& forall|f: F| #[trigger] call_requires(self.influence, (&f,))
        &&& forall|f: F, d: D, t: NodeTable<S>, p: OperatingPoint<S>| #[trigger]
            call_requires(self.operate, (&f, &d, &t, p))
    }

    open spec fn has_rows(&self) -> bool {
        forall|f: F, d: D, t: NodeTable<S>, p: OperatingPoint<S>, o: Operated<S>| #[trigger]
            call_ensures(self.operate, (&f, &d, &t, p), Ok(o)) ==> o.upper_rows@.len() > 0
                && o.lower_rows@.len() > 0
    }

    open spec fn bodies(&self, points: Seq<Point<S>>, r: Result<Vec<Ends<S>>, String>) -> bool {
        exists|p: Vec<Point<S>>| p@ == points && #[trigger] call_ensures(self.body, (&p,), r)
    }

    open spec fn factorizes(&self, nodes: Seq<(S, S)>, r: Result<F, String>) -> bool {
        exists|p: Vec<(S, S)>| p@ == nodes && #[trigger] call_ensures(self.factorize, (&p,), r)
    }

    open spec fn stagnates(&self, f: F, alpha_deg: S, psi_0: S) -> bool {
        call_ensures(self.psi_0, (&f, alpha_deg), psi_0)
    }

    open spec fn influences(&self, f: F, r: Result<D, String>) -> bool {
        call_ensures(self.influence, (&f,), r)
    }

    open spec fn operates(
        &self,
        f: F,
        d: D,
        x: Seq<S>,
        y: Seq<S>,
        s: Seq<S>,
        alpha: S,
        point: OperatingPoint<S>,
        r: Result<Operated<S>, String>,
    ) -> bool {
        exists|t: NodeTable<S>|
            {
                &&& t.x@ == x && t.y@ == y && t.s@ == s && t.alpha == alpha
                &&& #[trigger] call_ensures(self.operate, (&f, &d, &t, point), r)
            }
    }

    fn body(&self, points: &Vec<Point<S>>) -> (r: Result<Vec<Ends<S>>, String>) {
        (self.body)(points)
    }

    fn factorize(&self, nodes: &Vec<(S, S)>) -> (r: Result<F, String>) {
        (self.factorize)(nodes)
    }

    fn psi_0(&self, f: &F, alpha_deg: S) -> (r: S) {
        (self.psi_0)(f, alpha_deg)
    }

    fn influence(&self, f: &F) -> (r: Result<D, String>) {
        (self.influence)(f)
    }

    fn operate(&self, f: &F, d: &D, table: &NodeTable<S>, point: OperatingPoint<S>) -> (r: Result<
        Operated<S>,
        String,
    >) {
        (self.operate)(f, d, table, point)
    }
}

/// The nodes of a body: the first end of every panel, and the second of the last where the
/// body is not closed.
pub open spec fn nodes_of<S: Real>(p: Seq<Ends<S>>) -> Seq<Point<S>> {
    let firsts = p.map_values(|q: Ends<S>| q.0);
    if p.len() > 0 && (abs(p.last().1.x - p[0].0.x) > tenths::<S>(10) || abs(
        p.last().1.y - p[0].0.y,
    ) > tenths::<S>(10)) {
        firsts.push(p.last().1)
    } else {
        firsts
    }
}

/// The nodes of a body.
pub fn find_nodes<S: Real>(panels: &Vec<Ends<S>>) -> (r: Vec<Point<S>>)
    requires
        arithmetic::<S>(),
    ensures
        r@ == nodes_of(panels@),
{
    let first = |p: Ends<S>| -> (q: Point<S>)
        ensures
            q == p.0,
        {
            p.0
        };
    let mut r: Vec<Point<S>> = mapped(panels, first);
    assert(r@ =~= panels@.map_values(|q: Ends<S>| q.0));
    if panels.len() > 0 {
        let end: Point<S> = panels[panels.len() - 1].1;
        let start: Point<S> = panels[0].0;
        if abs(end.x - start.x) > tiny(10) || abs(end.y - start.y) > tiny(10) {
            r.push(end);
        }
    }
    r
}

/// The length of the polygon from the first node to the node `i`.
pub open spec fn arc_to<S: Real, E: Elementary<S>>(
    elementary: &E,
    nodes: Seq<Point<S>>,
    i: int,
) -> S
    decreases i,
{
    if i <= 0 {
        whole::<S>(0)
    } else {
        let dx = nodes[i].x - nodes[i - 1].x;
        let dy = nodes[i].y - nodes[i - 1].y;
        arc_to(elementary, nodes, i - 1) + elementary.sqrt_of(dx * dx + dy * dy)
    }
}

/// How many arc lengths there are: one for each node, and one where there is none.
pub open spec fn arc_count(n: nat) -> nat {
    if n == 0 {
        1
    } else {
        n
    }
}

/// The arc lengths of the nodes, from the first on.
pub open spec fn arcs<S: Real, E: Elementary<S>>(elementary: &E, nodes: Seq<Point<S>>) -> Seq<S> {
    Seq::new(arc_count(nodes.len()), |i: int| arc_to(elementary, nodes, i))
}

/// The arc lengths of the nodes.
pub fn arc_lengths<S: Real, E: Elementary<S>>(elementary: &E, nodes: &[Point<S>]) -> (r: Vec<S>)
    requires
        arithmetic::<S>(),
        elementary.lawful(),
    ensures
        r@ == arcs(elementary, nodes@),
{
    let mut r: Vec<S> = Vec::new();
    let mut acc: S = whole(0);
    r.push(acc);
    let mut i: usize = 1;
    while i < nodes.len()
        invariant
            arithmetic::<S>(),
            elementary.lawful(),
            1 <= i,
            i <= arc_count(nodes@.len()),
            acc == arc_to(elementary, nodes@, i - 1),
            r@.len() == i,
            forall|k: int| 0 <= k < i ==> #[trigger] r@[k] == arc_to(elementary, nodes@, k),
        decreases nodes@.len() - i,
    {
        let dx: S = nodes[i].x - nodes[i - 1].x;
        let dy: S = nodes[i].y - nodes[i - 1].y;
        acc = acc + elementary.sqrt(dx * dx + dy * dy);
        r.push(acc);
        i = i + 1;
    }
    assert(r@ =~= arcs(elementary, nodes@));
    r
}

/// The pressure coefficients that belong to velocities.
pub open spec fn pressures<S: Real>(gamma: Seq<S>) -> Seq<S> {
    gamma.map_values(|g: S| whole::<S>(1) - g * g)
}

/// The pressure coefficients that belong to velocities.
fn pressures_of<S: Real>(gamma: &[S]) -> (r: Vec<S>)
    requires
        arithmetic::<S>(),
    ensures
        r@ == pressures(gamma@),
{
    let cp = |g: S| -> (c: S)
        requires
            arithmetic::<S>(),
        ensures
            c == whole::<S>(1) - g * g,
        {
            whole::<S>(1) - g * g
        };
    let r: Vec<S> = mapped(gamma, cp);
    assert(r@ =~= pressures(gamma@));
    r
}

/// The coordinates of points, in pairs.
pub open spec fn pairs_of<S>(p: Seq<Point<S>>) -> Seq<(S, S)> {
    p.map_values(|q: Point<S>| (q.x, q.y))
}

/// The abscissas of points.
pub open spec fn xs_of<S>(p: Seq<Point<S>>) -> Seq<S> {
    p.map_values(|q: Point<S>| q.x)
}

/// The ordinates of points.
pub open spec fn ys_of<S>(p: Seq<Point<S>>) -> Seq<S> {
    p.map_values(|q: Point<S>| q.y)
}

impl<S: Real> FaithfulSnapshot<S> {
    /// The snapshot holds a solved operating point of the nodes.
    pub open spec fn holds(&self, nodes: Seq<Point<S>>, psi_0: S, o: Operated<S>) -> bool {
        let a = self.result;
        &&& self.nodes@ == nodes
        &&& self.gamma@ == o.gamma@
        &&& self.psi_0 == psi_0
        &&& self.cp_x@ == o.panel_x@
        &&& (a.cl, a.cd, a.cm, a.psi_0) == (o.cl, o.cd, o.cm, psi_0)
        &&& (a.converged, a.iterations, a.residual) == (o.converged, o.iterations, o.residual)
        &&& (a.x_tr_upper, a.x_tr_lower) == (o.x_tr_upper, o.x_tr_lower)
        &&& a.cp@ == pressures(o.gamma@)
        &&& a.cp_x@ == o.panel_x@
        &&& a.gamma@ == o.gamma@
        &&& a.success && a.error is None
        &&& self.upper_rows@ == o.upper_rows@
        &&& self.lower_rows@ == o.lower_rows@
        &&& (self.iblte_upper, self.iblte_lower) == (o.iblte_upper, o.iblte_lower)
        &&& self.wake_x@ == o.wake_x@
        &&& self.wake_y@ == o.wake_y@
    }
}

/// What the steps of the solver gave, as far as they were taken.
pub struct Steps<S, F, D> {
    pub panels: Result<Vec<Ends<S>>, String>,
    pub factors: Result<F, String>,
    pub psi_0: S,
    pub influence: Result<D, String>,
    pub operated: Result<Operated<S>, String>,
}

/// What a failure says.
pub open spec fn fails<T>(r: Result<T, String>, words: Seq<char>, detail: String) -> bool {
    r matches Err(m) && m@ == words + detail@
}

/// `r` is the snapshot of an outline at an operating point, by way of the steps `t`, or says
/// which of them failed.
pub open spec fn solved_by<S: Real, F, D, P: FaithfulSolver<S, F, D>, E: Elementary<S>>(
    solver: &P,
    elementary: &E,
    coords: Seq<S>,
    point: OperatingPoint<S>,
    t: Steps<S, F, D>,
    r: Result<FaithfulSnapshot<S>, String>,
) -> bool {
    &&& solver.bodies(paired(coords), t.panels)
    &&& match t.panels {
        Err(e) => fails(r, "Geometry error: "@, e),
        Ok(panels) => {
            let nodes = nodes_of(panels@);
            &&& solver.factorizes(pairs_of(nodes), t.factors)
            &&& match t.factors {
                Err(e) => fails(r, "Factorization error: "@, e),
                Ok(f) => {
                    &&& solver.stagnates(f, point.alpha_deg, t.psi_0)
                    &&& solver.influences(f, t.influence)
                    &&& match t.influence {
                        Err(e) => fails(r, "DIJ error: "@, e),
                        Ok(d) => {
                            &&& solver.operates(
                                f,
                                d,
                                xs_of(nodes),
                                ys_of(nodes),
                                arcs(elementary, nodes),
                                radians(point.alpha_deg),
                                point,
                                t.operated,
                            )
                            &&& match t.operated {
                                Err(e) => fails(r, "Faithful solver error: "@, e),
                                Ok(o) => {
                                    &&& r matches Ok(snapshot)
                                    &&& snapshot.holds(nodes, t.psi_0, o)
                                },
                            }
                        },
                    }
                },
            }
        },
    }
}

/// `r` is the snapshot of an outline at an operating point, or says why there is none.
pub open spec fn snapshots<S: Real, F, D, P: FaithfulSolver<S, F, D>, E: Elementary<S>>(
    solver: &P,
    elementary: &E,
    coords: Seq<S>,
    point: OperatingPoint<S>,
    r: Result<FaithfulSnapshot<S>, String>,
) -> bool {
    if outline(coords) {
        exists|t: Steps<S, F, D>| #[trigger] solved_by(solver, elementary, coords, point, t, r)
    } else {
        r matches Err(m) && m@ == "Invalid coordinates: need at least 3 points (6 values)"@
    }
}

/// Solves the viscous flow about an outline at an operating point.
pub fn faithful_snapshot<S: Real, F, D, P: FaithfulSolver<S, F, D>, E: Elementary<S>>(
    coords: &[S],
    point: OperatingPoint<S>,
    solver: &P,
    elementary: &E,
) -> (r: Result<FaithfulSnapshot<S>, String>)
    requires
        arithmetic::<S>(),
        solver.ready(),
        elementary.lawful(),
    ensures
        snapshots::<S, F, D, P, E>(solver, elementary, coords@, point, r),
        solver.has_rows() ==> (r matches Ok(snapshot) ==> snapshot.has_rows()),
{
    if !is_outline(coords) {
        return Err("Invalid coordinates: need at least 3 points (6 values)".to_owned());
    }
    let points: Vec<Point<S>> = points_from_flat(coords);
    let made: Result<Vec<Ends<S>>, String> = solver.body(&points);
    let ghost t0: Steps<S, F, D> = arbitrary();
    let ghost t1: Steps<S, F, D> = Steps { panels: made, ..t0 };
    let panels: Vec<Ends<S>> = match made {
        Ok(p) => p,
        Err(e) => {
            let r: Result<FaithfulSnapshot<S>, String> = Err(
                prefixed("Geometry error: ", e.as_str()),
            );
            assert(solved_by(solver, elementary, coords@, point, t1, r));
            return r;
        },
    };
    let nodes: Vec<Point<S>> = find_nodes(&panels);
    let pairs: Vec<(S, S)> = flat_from_points(&nodes);
    let tried: Result<F, String> = solver.factorize(&pairs);
    let ghost t2: Steps<S, F, D> = Steps { factors: tried, ..t1 };
    let factors: F = match tried {
        Ok(f) => f,
        Err(e) => {
            let r: Result<FaithfulSnapshot<S>, String> = Err(
                prefixed("Factorization error: ", e.as_str()),
            );
            assert(solved_by(solver, elementary, coords@, point, t2, r));
            return r;
        },
    };
    let psi_0: S = solver.psi_0(&factors, point.alpha_deg);
    let abscissa = |p: Point<S>| -> (x: S)
        ensures
            x == p.x,
        {
            p.x
        };
    let ordinate = |p: Point<S>| -> (y: S)
        ensures
            y == p.y,
        {
            p.y
        };
    let table = NodeTable {
        x: mapped(&nodes, abscissa),
        y: mapped(&nodes, ordinate),
        s: arc_lengths(elementary, &nodes),
        alpha: radians(point.alpha_deg),
    };
    assert(table.x@ =~= xs_of(nodes@));
    assert(table.y@ =~= ys_of(nodes@));
    let built: Result<D, String> = solver.influence(&factors);
    let ghost t3: Steps<S, F, D> = Steps { psi_0, influence: built, ..t2 };
    let influence: D = match built {
        Ok(d) => d,
        Err(e) => {
            let r: Result<FaithfulSnapshot<S>, String> = Err(
                prefixed("DIJ error: ", e.as_str()),
            );
            assert(solved_by(solver, elementary, coords@, point, t3, r));
            return r;
        },
    };
    let done: Result<Operated<S>, String> = solver.operate(&factors, &influence, &table, point);
    let ghost t4: Steps<S, F, D> = Steps { operated: done, ..t3 };
    let o: Operated<S> = match done {
        Ok(o) => o,
        Err(e) => {
            let r: Result<FaithfulSnapshot<S>, String> = Err(
                prefixed("Faithful solver error: ", e.as_str()),
            );
            assert(solved_by(solver, elementary, coords@, point, t4, r));
            return r;
        },
    };
    let result = AnalysisResult {
        cl: o.cl,
        cd: o.cd,
        cm: o.cm,
        cp: pressures_of(&o.gamma),
        cp_x: copied(&o.panel_x),
        gamma: copied(&o.gamma),
        psi_0,
        converged: o.converged,
        iterations: o.iterations,
        residual: o.residual,
        x_tr_upper: o.x_tr_upper,
        x_tr_lower: o.x_tr_lower,
        success: true,
        error: None,
    };
    let ghost shown = o;
    let snapshot = FaithfulSnapshot {
        nodes,
        gamma: o.gamma,
        psi_0,
        cp_x: o.panel_x,
        result,
        upper_rows: o.upper_rows,
        lower_rows: o.lower_rows,
        iblte_upper: o.iblte_upper,
        iblte_lower: o.iblte_lower,
        wake_x: o.wake_x,
        wake_y: o.wake_y,
    };
    let r: Result<FaithfulSnapshot<S>, String> = Ok(snapshot);
    proof {
        assert(t4.operated == Ok::<Operated<S>, String>(shown));
        assert(snapshot.holds(nodes_of(panels@), psi_0, shown));
        assert(solved_by(solver, elementary, coords@, point, t4, r));
    }
    r
}

/// Analyses an outline at an operating point.
pub fn analyze_airfoil_faithful<S: Real, F, D, P: FaithfulSolver<S, F, D>, E: Elementary<S>>(
    coords: &[S],
    alpha_deg: S,
    reynolds: S,
    mach: S,
    ncrit: S,
    max_iterations: usize,
    re_type: u8,
    xstrip_upper: S,
    xstrip_lower: S,
    solver: &P,
    elementary: &E,
) -> (r: AnalysisResult<S>)
    requires
        arithmetic::<S>(),
        solver.ready(),
        elementary.lawful(),
    ensures
        exists|out: Result<FaithfulSnapshot<S>, String>|
            {
                &&& #[trigger] snapshots::<S, F, D, P, E>(
                    solver,
                    elementary,
                    coords@,
                    (OperatingPoint {
                        alpha_deg,
                        reynolds,
                        mach,
                        ncrit,
                        max_iterations,
                        re_type: kind_of_reynolds(re_type),
                        xstrip_upper,
                        xstrip_lower,
                    }),
                    out,
                )
                &&& match out {
                    Ok(snapshot) => same_result(r, snapshot.result),
                    Err(m) => r.is_error(m@),
                }
            },
{
    let point = OperatingPoint {
        alpha_deg,
        reynolds,
        mach,
        ncrit,
        max_iterations,
        re_type: re_type_from_int(re_type),
        xstrip_upper,
        xstrip_lower,
    };
    let out: Result<FaithfulSnapshot<S>, String> = faithful_snapshot(
        coords,
        point,
        solver,
        elementary,
    );
    let ghost shown = out;
    assert(snapshots::<S, F, D, P, E>(solver, elementary, coords@, point, shown));
    match out {
        Ok(snapshot) => copied_result(&snapshot.result),
        Err(m) => analysis_error(m),
    }
}

/// The boundary layer along an outline at an operating point with free transition.
pub fn get_bl_distribution_faithful<S: Real, F, D, P: FaithfulSolver<S, F, D>, E: Elementary<S>>(
    coords: &[S],
    alpha_deg: S,
    reynolds: S,
    mach: S,
    ncrit: S,
    max_iterations: usize,
    solver: &P,
    elementary: &E,
) -> (r: BLDistribution<S>)
    requires
        arithmetic::<S>(),
        solver.ready(),
        solver.has_rows(),
        elementary.lawful(),
    ensures
        exists|out: Result<FaithfulSnapshot<S>, String>|
            {
                &&& #[trigger] snapshots::<S, F, D, P, E>(
                    solver,
                    elementary,
                    coords@,
                    free_point(alpha_deg, reynolds, mach, ncrit, max_iterations),
                    out,
                )
                &&& match out {
                    Ok(snapshot) => distributes(r, snapshot),
                    Err(m) => r.is_error(m@),
                }
            },
{
    let point: OperatingPoint<S> = free_operating_point(
        alpha_deg,
        reynolds,
        mach,
        ncrit,
        max_iterations,
    );
    let out: Result<FaithfulSnapshot<S>, String> = faithful_snapshot(
        coords,
        point,
        solver,
        elementary,
    );
    let ghost shown = out;
    assert(snapshots::<S, F, D, P, E>(solver, elementary, coords@, point, shown));
    match out {
        Ok(snapshot) => rows_to_bl_distribution(
            &snapshot.upper_rows,
            &snapshot.lower_rows,
            snapshot.iblte_upper,
            snapshot.iblte_lower,
            snapshot.result.x_tr_upper,
            snapshot.result.x_tr_lower,
            snapshot.result.converged,
            snapshot.result.iterations,
            snapshot.result.residual,
        ),
        Err(m) => bl_error(m),
    }
}

/// `r` is the boundary layer of a snapshot.
pub open spec fn distributes<S: Real>(r: BLDistribution<S>, snapshot: FaithfulSnapshot<S>) -> bool {
    let a = snapshot.result;
    &&& r.columns(snapshot.upper(), snapshot.lower())
    &&& (r.x_tr_upper, r.x_tr_lower) == (a.x_tr_upper, a.x_tr_lower)
    &&& (r.converged, r.iterations, r.residual) == (a.converged, a.iterations, a.residual)
    &&& r.success
    &&& r.error is None
}

/// The boundary layer along an outline, as it is drawn.
pub fn get_bl_visualization_faithful<S: Real, F, D, P: FaithfulSolver<S, F, D>, E: Elementary<S>>(
    coords: &[S],
    alpha_deg: S,
    reynolds: S,
    mach: S,
    ncrit: S,
    max_iterations: usize,
    solver: &P,
    elementary: &E,
) -> (r: BLVisualizationData<S>)
    requires
        arithmetic::<S>(),
        solver.ready(),
        solver.has_rows(),
        elementary.lawful(),
    ensures
        exists|out: Result<FaithfulSnapshot<S>, String>|
            {
                &&& #[trigger] snapshots::<S, F, D, P, E>(
                    solver,
                    elementary,
                    coords@,
                    free_point(alpha_deg, reynolds, mach, ncrit, max_iterations),
                    out,
                )
                &&& match out {
                    Ok(snapshot) => r.shows(snapshot),
                    Err(m) => r.is_error(m@),
                }
            },
{
    let point: OperatingPoint<S> = free_operating_point(
        alpha_deg,
        reynolds,
        mach,
        ncrit,
        max_iterations,
    );
    let out: Result<FaithfulSnapshot<S>, String> = faithful_snapshot(
        coords,
        point,
        solver,
        elementary,
    );
    let ghost shown = out;
    assert(snapshots::<S, F, D, P, E>(solver, elementary, coords@, point, shown));
    match out {
        Ok(snapshot) => build_bl_visualization(&snapshot),
        Err(m) => bl_vis_error(m),
    }
}

/// The streamlines about an outline at an operating point. `trace` finds them in the field.
pub fn compute_streamlines_faithful<
    S: Real,
    F,
    D,
    P: FaithfulSolver<S, F, D>,
    E: Elementary<S>,
    T: Fn(&FaithfulFlowField<S>, StreamlineOptions<S>) -> Vec<Vec<(S, S)>>,
>(
    coords: &[S],
    alpha_deg: S,
    reynolds: S,
    mach: S,
    ncrit: S,
    max_iterations: usize,
    seed_count: u32,
    bounds: &[S],
    solver: &P,
    trace: &T,
    elementary: &E,
) -> (r: StreamlineResult<S>)
    requires
        arithmetic::<S>(),
        solver.ready(),
        bounds@.len() == 4 ==> solver.has_rows(),
        elementary.lawful(),
        forall|f: FaithfulFlowField<S>, o: StreamlineOptions<S>| #[trigger]
            call_requires(*trace, (&f, o)),
    ensures
        exists|out: Result<FaithfulSnapshot<S>, String>|
            {
                &&& #[trigger] snapshots::<S, F, D, P, E>(
                    solver,
                    elementary,
                    coords@,
                    free_point(alpha_deg, reynolds, mach, ncrit, max_iterations),
                    out,
                )
                &&& match out {
                    Err(m) => r.is_error(m@),
                    Ok(snapshot) => if bounds@.len() != 4 {
                        r.is_error(bounds_message())
                    } else {
                        exists|f: FaithfulFlowField<S>, lines: Vec<Vec<(S, S)>>|
                            {
                                &&& f.is_from(snapshot, alpha_deg, elementary)
                                &&& #[trigger] call_ensures(
                                    *trace,
                                    (&f, streamline_options(bounds@, seed_count as usize)),
                                    lines,
                                )
                                &&& r.shows(lines@)
                            }
                    },
                }
            },
{
    let point: OperatingPoint<S> = free_operating_point(
        alpha_deg,
        reynolds,
        mach,
        ncrit,
        max_iterations,
    );
    let out: Result<FaithfulSnapshot<S>, String> = faithful_snapshot(
        coords,
        point,
        solver,
        elementary,
    );
    let ghost shown = out;
    assert(snapshots::<S, F, D, P, E>(solver, elementary, coords@, point, shown));
    match out {
        Ok(snapshot) => if bounds.len() != 4 {
            streamline_error(
                "bounds must have 4 values: [x_min, x_max, y_min, y_max]".to_owned(),
            )
        } else {
            let field: FaithfulFlowField<S> = FaithfulFlowField::from_snapshot(
                &snapshot,
                alpha_deg,
                elementary,
            );
            let options: StreamlineOptions<S> = options_within(bounds, seed_count as usize);
            let lines: Vec<Vec<(S, S)>> = trace(&field, options);
            assert(call_ensures(*trace, (&field, options), lines));
            streamline_result(&lines)
        },
        Err(m) => streamline_error(m),
    }
}

/// The dividing streamline of an outline at an operating point, from 33 seeds. `trace` finds
/// it in the field.
pub fn compute_dividing_streamline_faithful<
    S: Real,
    F,
    D,
    P: FaithfulSolver<S, F, D>,
    E: Elementary<S>,
    T: Fn(&FaithfulFlowField<S>, StreamlineOptions<S>) -> Option<Vec<(S, S)>>,
>(
    coords: &[S],
    alpha_deg: S,
    reynolds: S,
    mach: S,
    ncrit: S,
    max_iterations: usize,
    bounds: &[S],
    solver: &P,
    trace: &T,
    elementary: &E,
) -> (r: DividingStreamlineResult<S>)
    requires
        arithmetic::<S>(),
        solver.ready(),
        bounds@.len() == 4 ==> solver.has_rows(),
        elementary.lawful(),
        forall|f: FaithfulFlowField<S>, o: StreamlineOptions<S>| #[trigger]
            call_requires(*trace, (&f, o)),
    ensures
        exists|out: Result<FaithfulSnapshot<S>, String>|
            {
                &&& #[trigger] snapshots::<S, F, D, P, E>(
                    solver,
                    elementary,
                    coords@,
                    free_point(alpha_deg, reynolds, mach, ncrit, max_iterations),
                    out,
                )
                &&& match out {
                    Err(m) => r.is_error(m@),
                    Ok(snapshot) => if bounds@.len() != 4 {
                        r.is_error(bounds_message())
                    } else {
                        exists|f: FaithfulFlowField<S>, line: Option<Vec<(S, S)>>|
                            {
                                &&& f.is_from(snapshot, alpha_deg, elementary)
                                &&& #[trigger] call_ensures(
                                    *trace,
                                    (&f, streamline_options(bounds@, 33)),
                                    line,
                                )
                                &&& r.reports(line)
                            }
                    },
                }
            },
{
    let point: OperatingPoint<S> = free_operating_point(
        alpha_deg,
        reynolds,
        mach,
        ncrit,
        max_iterations,
    );
    let out: Result<FaithfulSnapshot<S>, String> = faithful_snapshot(
        coords,
        point,
        solver,
        elementary,
    );
    let ghost shown = out;
    assert(snapshots::<S, F, D, P, E>(solver, elementary, coords@, point, shown));
    match out {
        Ok(snapshot) => if bounds.len() != 4 {
            dividing_error(
                "bounds must have 4 values: [x_min, x_max, y_min, y_max]".to_owned(),
            )
        } else {
            let field: FaithfulFlowField<S> = FaithfulFlowField::from_snapshot(
                &snapshot,
                alpha_deg,
                elementary,
            );
            let options: StreamlineOptions<S> = options_within(bounds, 33);
            let line: Option<Vec<(S, S)>> = trace(&field, options);
            assert(call_ensures(*trace, (&field, options), line));
            dividing_result(&line)
        },
        Err(m) => dividing_error(m),
    }
}

/// The stream function about an outline at an operating point, on a grid. `sample` takes it
/// from the field, and leaves what lies inside the airfoil without a value.
pub fn compute_psi_grid_faithful<
    S: Real,
    F,
    D,
    P: FaithfulSolver<S, F, D>,
    E: Elementary<S>,
    T: Fn(&FaithfulFlowField<S>, GridOptions<S>) -> Vec<S>,
>(
    coords: &[S],
    alpha_deg: S,
    reynolds: S,
    mach: S,
    ncrit: S,
    max_iterations: usize,
    bounds: &[S],
    resolution: &[u32],
    solver: &P,
    sample: &T,
    elementary: &E,
) -> (r: PsiGridResult<S>)
    requires
        arithmetic::<S>(),
        solver.ready(),
        grid_fault(bounds@, resolution@) is None ==> solver.has_rows(),
        elementary.lawful(),
        forall|f: FaithfulFlowField<S>, o: GridOptions<S>| #[trigger]
            call_requires(*sample, (&f, o)),
    ensures
        exists|out: Result<FaithfulSnapshot<S>, String>|
            {
                &&& #[trigger] snapshots::<S, F, D, P, E>(
                    solver,
                    elementary,
                    coords@,
                    free_point(alpha_deg, reynolds, mach, ncrit, max_iterations),
                    out,
                )
                &&& match out {
                    Err(m) => r.is_error(m@),
                    Ok(snapshot) => match grid_fault(bounds@, resolution@) {
                        Some(m) => r.is_error(m),
                        None => exists|f: FaithfulFlowField<S>, grid: Vec<S>|
                            {
                                &&& f.is_from(snapshot, alpha_deg, elementary)
                                &&& #[trigger] call_ensures(
                                    *sample,
                                    (&f, grid_options(bounds@, resolution@)),
                                    grid,
                                )
                                &&& r.shows(
                                    grid@,
                                    snapshot.psi_0,
                                    resolution@[0] as usize,
                                    resolution@[1] as usize,
                                )
                            },
                    },
                }
            },
{
    let point: OperatingPoint<S> = free_operating_point(
        alpha_deg,
        reynolds,
        mach,
        ncrit,
        max_iterations,
    );
    let out: Result<FaithfulSnapshot<S>, String> = faithful_snapshot(
        coords,
        point,
        solver,
        elementary,
    );
    let ghost shown = out;
    assert(snapshots::<S, F, D, P, E>(solver, elementary, coords@, point, shown));
    match out {
        Ok(snapshot) => match find_grid_fault(bounds, resolution) {
            Some(m) => psi_grid_error(m),
            None => {
                let field: FaithfulFlowField<S> = FaithfulFlowField::from_snapshot(
                    &snapshot,
                    alpha_deg,
                    elementary,
                );
                let options: GridOptions<S> = grid_within(bounds, resolution);
                let grid: Vec<S> = sample(&field, options);
                assert(call_ensures(*sample, (&field, options), grid));
                psi_grid_result(grid, snapshot.psi_0, options.nx, options.ny)
            },
        },
        Err(m) => psi_grid_error(m),
    }
}

} // verus!
