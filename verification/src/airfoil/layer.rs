//! The solved boundary layer along an airfoil, and what is shown of it.
use crate::airfoil::flap::appended;
use crate::airfoil::points::{point, Point};
use crate::airfoil::report::text;
use crate::callable::{mapped, tabulated};
use crate::elementary::Elementary;
use crate::number::{
    arithmetic, count, decimal, larger, radians, tenths, tiny, whole, Formula, Real,
};
use crate::station::{copied, filled};
use core::ops::Neg;
use vstd::prelude::*;

verus! {

/// One station of a solved boundary layer.
#[derive(Clone, Copy, Debug)]
pub struct BlRow<S> {
    /// The node of the outline, or of the wake, that the station stands on.
    pub panel_idx: usize,
    pub x_coord: S,
    pub y_coord: S,
    pub theta: S,
    pub dstr: S,
    pub mass: S,
    pub h: S,
    pub hk: S,
    pub cf: S,
    pub uedg: S,
    pub ampl: S,
    pub is_laminar: bool,
    pub is_wake: bool,
}

/// The result of an analysis.
#[derive(Clone, Debug)]
pub struct AnalysisResult<S> {
    pub cl: S,
    pub cd: S,
    pub cm: S,
    /// Pressure coefficients, and the abscissas that they belong to.
    pub cp: Vec<S>,
    pub cp_x: Vec<S>,
    /// Vorticity at the nodes.
    pub gamma: Vec<S>,
    /// Stream function of the dividing streamline.
    pub psi_0: S,
    pub converged: bool,
    pub iterations: usize,
    pub residual: S,
    pub x_tr_upper: S,
    pub x_tr_lower: S,
    pub success: bool,
    pub error: Option<String>,
}

impl<S: Real> AnalysisResult<S> {
    /// Nothing but a message is there.
    pub open spec fn is_error(&self, m: Seq<char>) -> bool {
        let zero = whole::<S>(0);
        let one = whole::<S>(1);
        &&& (self.cl, self.cd, self.cm, self.psi_0, self.residual) == (zero, zero, zero, zero, zero)
        &&& (self.cp@.len(), self.cp_x@.len(), self.gamma@.len()) == (0nat, 0nat, 0nat)
        &&& (self.converged, self.iterations, self.success) == (false, 0usize, false)
        &&& (self.x_tr_upper, self.x_tr_lower) == (one, one)
        &&& text(self.error) == Some(m)
    }
}

/// The result of an analysis that could not be made.
pub fn analysis_error<S: Real>(m: String) -> (r: AnalysisResult<S>)
    requires
        arithmetic::<S>(),
    ensures
        r.is_error(m@),
{
    let zero: S = whole(0);
    let one: S = whole(1);
    AnalysisResult {
        cl: zero,
        cd: zero,
        cm: zero,
        cp: Vec::new(),
        cp_x: Vec::new(),
        gamma: Vec::new(),
        psi_0: zero,
        converged: false,
        iterations: 0,
        residual: zero,
        x_tr_upper: one,
        x_tr_lower: one,
        success: false,
        error: Some(m),
    }
}

/// The boundary layer along both surfaces.
#[derive(Clone, Debug)]
pub struct BLDistribution<S> {
    pub x_upper: Vec<S>,
    pub x_lower: Vec<S>,
    pub theta_upper: Vec<S>,
    pub theta_lower: Vec<S>,
    pub delta_star_upper: Vec<S>,
    pub delta_star_lower: Vec<S>,
    pub h_upper: Vec<S>,
    pub h_lower: Vec<S>,
    pub cf_upper: Vec<S>,
    pub cf_lower: Vec<S>,
    pub x_tr_upper: S,
    pub x_tr_lower: S,
    pub converged: bool,
    pub iterations: usize,
    pub residual: S,
    pub success: bool,
    pub error: Option<String>,
}

impl<S: Real> BLDistribution<S> {
    /// Nothing but a message is there.
    pub open spec fn is_error(&self, m: Seq<char>) -> bool {
        let one = whole::<S>(1);
        &&& self.columns(Seq::empty(), Seq::empty())
        &&& (self.x_tr_upper, self.x_tr_lower) == (one, one)
        &&& (self.converged, self.iterations, self.residual) == (false, 0usize, whole::<S>(0))
        &&& !self.success
        &&& text(self.error) == Some(m)
    }

    /// The columns are those of the rows of both surfaces.
    pub open spec fn columns(&self, upper: Seq<BlRow<S>>, lower: Seq<BlRow<S>>) -> bool {
        &&& self.x_upper@ == upper.map_values(|r: BlRow<S>| r.x_coord)
        &&& self.x_lower@ == lower.map_values(|r: BlRow<S>| r.x_coord)
        &&& self.theta_upper@ == upper.map_values(|r: BlRow<S>| r.theta)
        &&& self.theta_lower@ == lower.map_values(|r: BlRow<S>| r.theta)
        &&& self.delta_star_upper@ == upper.map_values(|r: BlRow<S>| r.dstr)
        &&& self.delta_star_lower@ == lower.map_values(|r: BlRow<S>| r.dstr)
        &&& self.h_upper@ == upper.map_values(|r: BlRow<S>| r.h)
        &&& self.h_lower@ == lower.map_values(|r: BlRow<S>| r.h)
        &&& self.cf_upper@ == upper.map_values(|r: BlRow<S>| r.cf)
        &&& self.cf_lower@ == lower.map_values(|r: BlRow<S>| r.cf)
    }
}

/// The distribution of a boundary layer that is not there.
pub fn bl_error<S: Real>(m: String) -> (r: BLDistribution<S>)
    requires
        arithmetic::<S>(),
    ensures
        r.is_error(m@),
{
    let r = BLDistribution {
        x_upper: Vec::new(),
        x_lower: Vec::new(),
        theta_upper: Vec::new(),
        theta_lower: Vec::new(),
        delta_star_upper: Vec::new(),
        delta_star_lower: Vec::new(),
        h_upper: Vec::new(),
        h_lower: Vec::new(),
        cf_upper: Vec::new(),
        cf_lower: Vec::new(),
        x_tr_upper: whole(1),
        x_tr_lower: whole(1),
        converged: false,
        iterations: 0,
        residual: whole(0),
        success: false,
        error: Some(m),
    };
    proof {
        let none = Seq::<BlRow<S>>::empty();
        assert(Seq::<S>::empty() =~= none.map_values(|r: BlRow<S>| r.x_coord));
        assert(Seq::<S>::empty() =~= none.map_values(|r: BlRow<S>| r.theta));
        assert(Seq::<S>::empty() =~= none.map_values(|r: BlRow<S>| r.dstr));
        assert(Seq::<S>::empty() =~= none.map_values(|r: BlRow<S>| r.h));
        assert(Seq::<S>::empty() =~= none.map_values(|r: BlRow<S>| r.cf));
        assert(r.columns(none, none));
    }
    r
}

/// How many rows a surface has up to its trailing edge: at least one, and all where the
/// trailing edge lies past them.
pub open spec fn surface_rows(n: nat, iblte: usize) -> int {
    if iblte < n {
        iblte + 1
    } else {
        n as int
    }
}

/// How many rows a surface has up to its trailing edge.
fn count_surface_rows(n: usize, iblte: usize) -> (r: usize)
    ensures
        r == surface_rows(n as nat, iblte),
{
    if iblte < n {
        iblte + 1
    } else {
        n
    }
}

/// The rows of a surface up to its trailing edge.
pub open spec fn on_surface<S>(rows: Seq<BlRow<S>>, iblte: usize) -> Seq<BlRow<S>> {
    rows.subrange(0, surface_rows(rows.len(), iblte))
}

/// The rows past the trailing edge.
pub open spec fn past_surface<S>(rows: Seq<BlRow<S>>, iblte: usize) -> Seq<BlRow<S>> {
    rows.subrange(surface_rows(rows.len(), iblte), rows.len() as int)
}

/// The rows from `from` up to `to`.
fn rows_part<S: Copy>(rows: &[BlRow<S>], from: usize, to: usize) -> (r: Vec<BlRow<S>>)
    requires
        from <= to <= rows@.len(),
    ensures
        r@ == rows@.subrange(from as int, to as int),
{
    let mut r: Vec<BlRow<S>> = Vec::with_capacity(to - from);
    let mut i: usize = from;
    while i < to
        invariant
            from <= i <= to <= rows@.len(),
            r@ == rows@.subrange(from as int, i as int),
        decreases to - i,
    {
        r.push(rows[i]);
        i = i + 1;
    }
    r
}

/// The rows of a surface up to its trailing edge.
pub fn surface_part<S: Copy>(rows: &[BlRow<S>], iblte: usize) -> (r: Vec<BlRow<S>>)
    ensures
        r@ == on_surface(rows@, iblte),
{
    rows_part(rows, 0, count_surface_rows(rows.len(), iblte))
}

/// The rows past the trailing edge.
pub fn wake_part<S: Copy>(rows: &[BlRow<S>], iblte: usize) -> (r: Vec<BlRow<S>>)
    ensures
        r@ == past_surface(rows@, iblte),
{
    rows_part(rows, count_surface_rows(rows.len(), iblte), rows.len())
}

/// The abscissas of the rows.
fn column_x<S: Copy>(rows: &[BlRow<S>]) -> (c: Vec<S>)
    ensures
        c@ == rows@.map_values(|r: BlRow<S>| r.x_coord),
{
    let field = |r: BlRow<S>| -> (v: S)
        ensures
            v == r.x_coord,
        {
            r.x_coord
        };
    let c: Vec<S> = mapped(rows, field);
    assert(c@ =~= rows@.map_values(|r: BlRow<S>| r.x_coord));
    c
}

/// The ordinates of the rows.
fn column_y<S: Copy>(rows: &[BlRow<S>]) -> (c: Vec<S>)
    ensures
        c@ == rows@.map_values(|r: BlRow<S>| r.y_coord),
{
    let field = |r: BlRow<S>| -> (v: S)
        ensures
            v == r.y_coord,
        {
            r.y_coord
        };
    let c: Vec<S> = mapped(rows, field);
    assert(c@ =~= rows@.map_values(|r: BlRow<S>| r.y_coord));
    c
}

/// The momentum thicknesses of the rows.
fn column_theta<S: Copy>(rows: &[BlRow<S>]) -> (c: Vec<S>)
    ensures
        c@ == rows@.map_values(|r: BlRow<S>| r.theta),
{
    let field = |r: BlRow<S>| -> (v: S)
        ensures
            v == r.theta,
        {
            r.theta
        };
    let c: Vec<S> = mapped(rows, field);
    assert(c@ =~= rows@.map_values(|r: BlRow<S>| r.theta));
    c
}

/// The displacement thicknesses of the rows.
fn column_dstr<S: Copy>(rows: &[BlRow<S>]) -> (c: Vec<S>)
    ensures
        c@ == rows@.map_values(|r: BlRow<S>| r.dstr),
{
    let field = |r: BlRow<S>| -> (v: S)
        ensures
            v == r.dstr,
        {
            r.dstr
        };
    let c: Vec<S> = mapped(rows, field);
    assert(c@ =~= rows@.map_values(|r: BlRow<S>| r.dstr));
    c
}

/// The shape parameters of the rows.
fn column_h<S: Copy>(rows: &[BlRow<S>]) -> (c: Vec<S>)
    ensures
        c@ == rows@.map_values(|r: BlRow<S>| r.h),
{
    let field = |r: BlRow<S>| -> (v: S)
        ensures
            v == r.h,
        {
            r.h
        };
    let c: Vec<S> = mapped(rows, field);
    assert(c@ =~= rows@.map_values(|r: BlRow<S>| r.h));
    c
}

/// The kinematic shape parameters of the rows.
fn column_hk<S: Copy>(rows: &[BlRow<S>]) -> (c: Vec<S>)
    ensures
        c@ == rows@.map_values(|r: BlRow<S>| r.hk),
{
    let field = |r: BlRow<S>| -> (v: S)
        ensures
            v == r.hk,
        {
            r.hk
        };
    let c: Vec<S> = mapped(rows, field);
    assert(c@ =~= rows@.map_values(|r: BlRow<S>| r.hk));
    c
}

/// The friction coefficients of the rows.
fn column_cf<S: Copy>(rows: &[BlRow<S>]) -> (c: Vec<S>)
    ensures
        c@ == rows@.map_values(|r: BlRow<S>| r.cf),
{
    let field = |r: BlRow<S>| -> (v: S)
        ensures
            v == r.cf,
        {
            r.cf
        };
    let c: Vec<S> = mapped(rows, field);
    assert(c@ =~= rows@.map_values(|r: BlRow<S>| r.cf));
    c
}

/// The edge velocities of the rows.
pub fn column_ue<S: Copy>(rows: &[BlRow<S>]) -> (c: Vec<S>)
    ensures
        c@ == rows@.map_values(|r: BlRow<S>| r.uedg),
{
    let field = |r: BlRow<S>| -> (v: S)
        ensures
            v == r.uedg,
        {
            r.uedg
        };
    let c: Vec<S> = mapped(rows, field);
    assert(c@ =~= rows@.map_values(|r: BlRow<S>| r.uedg));
    c
}

/// The amplifications of the rows.
fn column_ampl<S: Copy>(rows: &[BlRow<S>]) -> (c: Vec<S>)
    ensures
        c@ == rows@.map_values(|r: BlRow<S>| r.ampl),
{
    let field = |r: BlRow<S>| -> (v: S)
        ensures
            v == r.ampl,
        {
            r.ampl
        };
    let c: Vec<S> = mapped(rows, field);
    assert(c@ =~= rows@.map_values(|r: BlRow<S>| r.ampl));
    c
}

/// Which rows are laminar.
fn column_laminar<S: Copy>(rows: &[BlRow<S>]) -> (c: Vec<bool>)
    ensures
        c@ == rows@.map_values(|r: BlRow<S>| r.is_laminar),
{
    let field = |r: BlRow<S>| -> (v: bool)
        ensures
            v == r.is_laminar,
        {
            r.is_laminar
        };
    let c: Vec<bool> = mapped(rows, field);
    assert(c@ =~= rows@.map_values(|r: BlRow<S>| r.is_laminar));
    c
}

/// The boundary layer along both surfaces, up to their trailing edges.
pub fn rows_to_bl_distribution<S: Real>(
    upper_rows: &[BlRow<S>],
    lower_rows: &[BlRow<S>],
    iblte_upper: usize,
    iblte_lower: usize,
    x_tr_upper: S,
    x_tr_lower: S,
    converged: bool,
    iterations: usize,
    residual: S,
) -> (r: BLDistribution<S>)
    requires
        upper_rows@.len() > 0,
        lower_rows@.len() > 0,
    ensures
        r.columns(on_surface(upper_rows@, iblte_upper), on_surface(lower_rows@, iblte_lower)),
        (r.x_tr_upper, r.x_tr_lower) == (x_tr_upper, x_tr_lower),
        (r.converged, r.iterations, r.residual) == (converged, iterations, residual),
        r.success,
        r.error is None,
{
    let upper: Vec<BlRow<S>> = surface_part(upper_rows, iblte_upper);
    let lower: Vec<BlRow<S>> = surface_part(lower_rows, iblte_lower);
    BLDistribution {
        x_upper: column_x(&upper),
        x_lower: column_x(&lower),
        theta_upper: column_theta(&upper),
        theta_lower: column_theta(&lower),
        delta_star_upper: column_dstr(&upper),
        delta_star_lower: column_dstr(&lower),
        h_upper: column_h(&upper),
        h_lower: column_h(&lower),
        cf_upper: column_cf(&upper),
        cf_lower: column_cf(&lower),
        x_tr_upper,
        x_tr_lower,
        converged,
        iterations,
        residual,
        success: true,
        error: None,
    }
}

/// What is drawn of the stations of a surface.
#[derive(Clone, Debug)]
pub struct BLStationData<S> {
    pub x: Vec<S>,
    pub y: Vec<S>,
    pub delta_star: Vec<S>,
    pub theta: Vec<S>,
    pub cf: Vec<S>,
    pub ue: Vec<S>,
    pub hk: Vec<S>,
    pub ampl: Vec<S>,
    pub is_laminar: Vec<bool>,
}

impl<S> BLStationData<S> {
    /// The columns are those of the rows.
    pub open spec fn columns(&self, rows: Seq<BlRow<S>>) -> bool {
        &&& self.x@ == rows.map_values(|r: BlRow<S>| r.x_coord)
        &&& self.y@ == rows.map_values(|r: BlRow<S>| r.y_coord)
        &&& self.delta_star@ == rows.map_values(|r: BlRow<S>| r.dstr)
        &&& self.theta@ == rows.map_values(|r: BlRow<S>| r.theta)
        &&& self.cf@ == rows.map_values(|r: BlRow<S>| r.cf)
        &&& self.ue@ == rows.map_values(|r: BlRow<S>| r.uedg)
        &&& self.hk@ == rows.map_values(|r: BlRow<S>| r.hk)
        &&& self.ampl@ == rows.map_values(|r: BlRow<S>| r.ampl)
        &&& self.is_laminar@ == rows.map_values(|r: BlRow<S>| r.is_laminar)
    }
}

/// What is drawn of the rows of a surface.
pub fn rows_to_station_data<S: Copy>(rows: &[BlRow<S>]) -> (r: BLStationData<S>)
    ensures
        r.columns(rows@),
{
    BLStationData {
        x: column_x(rows),
        y: column_y(rows),
        delta_star: column_dstr(rows),
        theta: column_theta(rows),
        cf: column_cf(rows),
        ue: column_ue(rows),
        hk: column_hk(rows),
        ampl: column_ampl(rows),
        is_laminar: column_laminar(rows),
    }
}

/// What is drawn of the wake.
#[derive(Clone, Debug)]
pub struct WakeData<S> {
    pub x: Vec<S>,
    pub y: Vec<S>,
    pub delta_star: Vec<S>,
    pub theta: Vec<S>,
}

impl<S> WakeData<S> {
    /// The columns are those of the rows.
    pub open spec fn columns(&self, rows: Seq<BlRow<S>>) -> bool {
        &&& self.x@ == rows.map_values(|r: BlRow<S>| r.x_coord)
        &&& self.y@ == rows.map_values(|r: BlRow<S>| r.y_coord)
        &&& self.delta_star@ == rows.map_values(|r: BlRow<S>| r.dstr)
        &&& self.theta@ == rows.map_values(|r: BlRow<S>| r.theta)
    }
}

/// The solved flow about an airfoil at one operating point.
#[derive(Clone, Debug)]
pub struct FaithfulSnapshot<S> {
    pub nodes: Vec<Point<S>>,
    pub gamma: Vec<S>,
    pub psi_0: S,
    pub cp_x: Vec<S>,
    pub result: AnalysisResult<S>,
    pub upper_rows: Vec<BlRow<S>>,
    pub lower_rows: Vec<BlRow<S>>,
    /// The stations of the trailing edge.
    pub iblte_upper: usize,
    pub iblte_lower: usize,
    pub wake_x: Vec<S>,
    pub wake_y: Vec<S>,
}

impl<S> FaithfulSnapshot<S> {
    /// Both surfaces have rows.
    pub open spec fn has_rows(&self) -> bool {
        self.upper_rows@.len() > 0 && self.lower_rows@.len() > 0
    }

    /// The rows of the upper surface.
    pub open spec fn upper(&self) -> Seq<BlRow<S>> {
        on_surface(self.upper_rows@, self.iblte_upper)
    }

    /// The rows of the lower surface.
    pub open spec fn lower(&self) -> Seq<BlRow<S>> {
        on_surface(self.lower_rows@, self.iblte_lower)
    }

    /// The rows of the wake, which both surfaces share.
    pub open spec fn wake(&self) -> Seq<BlRow<S>> {
        past_surface(self.upper_rows@, self.iblte_upper)
    }
}

/// The boundary layer and the wake, as they are drawn.
#[derive(Clone, Debug)]
pub struct BLVisualizationData<S> {
    pub upper: BLStationData<S>,
    pub lower: BLStationData<S>,
    pub wake: WakeData<S>,
    /// The part of the thickness of the wake that belongs to the upper side.
    pub wake_upper_fraction: S,
    pub wake_geometry_x: Vec<S>,
    pub wake_geometry_y: Vec<S>,
    pub x_tr_upper: S,
    pub x_tr_lower: S,
    pub converged: bool,
    pub iterations: usize,
    pub residual: S,
    pub success: bool,
    pub error: Option<String>,
}

impl<S: Real> BLVisualizationData<S> {
    /// Nothing but a message is there.
    pub open spec fn is_error(&self, m: Seq<char>) -> bool {
        let one = whole::<S>(1);
        &&& self.upper.columns(Seq::empty())
        &&& self.lower.columns(Seq::empty())
        &&& self.wake.columns(Seq::empty())
        &&& self.wake_upper_fraction == decimal::<S>(5, 10)
        &&& (self.wake_geometry_x@.len(), self.wake_geometry_y@.len()) == (0nat, 0nat)
        &&& (self.x_tr_upper, self.x_tr_lower) == (one, one)
        &&& (self.converged, self.iterations, self.residual) == (false, 0usize, whole::<S>(0))
        &&& !self.success
        &&& text(self.error) == Some(m)
    }

    /// The boundary layer of a snapshot is there.
    pub open spec fn shows(&self, snapshot: FaithfulSnapshot<S>) -> bool {
        &&& self.upper.columns(snapshot.upper())
        &&& self.lower.columns(snapshot.lower())
        &&& self.wake.columns(snapshot.wake())
        &&& self.wake_upper_fraction == upper_fraction(
            snapshot.upper().last().dstr,
            snapshot.lower().last().dstr,
        )
        &&& self.wake_geometry_x@ == snapshot.wake_x@
        &&& self.wake_geometry_y@ == snapshot.wake_y@
        &&& (self.x_tr_upper, self.x_tr_lower) == (
            snapshot.result.x_tr_upper,
            snapshot.result.x_tr_lower,
        )
        &&& (self.converged, self.iterations, self.residual) == (
            snapshot.result.converged,
            snapshot.result.iterations,
            snapshot.result.residual,
        )
        &&& self.success
        &&& self.error is None
    }
}

/// The part of the thickness of the wake that belongs to the upper side, by the thicknesses
/// at the trailing edge: half where there is none.
pub open spec fn upper_fraction<S: Real>(upper: S, lower: S) -> S {
    let total = upper + lower;
    if total > tenths::<S>(12) {
        upper / total
    } else {
        decimal::<S>(5, 10)
    }
}

/// The boundary layer of a snapshot, as it is drawn.
pub fn build_bl_visualization<S: Real>(snapshot: &FaithfulSnapshot<S>) -> (r: BLVisualizationData<
    S,
>)
    requires
        arithmetic::<S>(),
        snapshot.has_rows(),
    ensures
        r.shows(*snapshot),
{
    let upper: Vec<BlRow<S>> = surface_part(&snapshot.upper_rows, snapshot.iblte_upper);
    let lower: Vec<BlRow<S>> = surface_part(&snapshot.lower_rows, snapshot.iblte_lower);
    let rest: Vec<BlRow<S>> = wake_part(&snapshot.upper_rows, snapshot.iblte_upper);
    let wake = WakeData {
        x: column_x(&rest),
        y: column_y(&rest),
        delta_star: column_dstr(&rest),
        theta: column_theta(&rest),
    };
    let upper_te: S = upper[upper.len() - 1].dstr;
    let lower_te: S = lower[lower.len() - 1].dstr;
    let total: S = upper_te + lower_te;
    let wake_upper_fraction: S = if total > tiny(12) {
        upper_te / total
    } else {
        decimal(5, 10)
    };
    BLVisualizationData {
        upper: rows_to_station_data(&upper),
        lower: rows_to_station_data(&lower),
        wake,
        wake_upper_fraction,
        wake_geometry_x: copied(&snapshot.wake_x),
        wake_geometry_y: copied(&snapshot.wake_y),
        x_tr_upper: snapshot.result.x_tr_upper,
        x_tr_lower: snapshot.result.x_tr_lower,
        converged: snapshot.result.converged,
        iterations: snapshot.result.iterations,
        residual: snapshot.result.residual,
        success: true,
        error: None,
    }
}

/// The drawing of a boundary layer that is not there.
pub fn bl_vis_error<S: Real>(m: String) -> (r: BLVisualizationData<S>)
    requires
        arithmetic::<S>(),
    ensures
        r.is_error(m@),
{
    let none: Vec<BlRow<S>> = Vec::new();
    assert(none@ =~= Seq::<BlRow<S>>::empty());
    BLVisualizationData {
        upper: rows_to_station_data(&none),
        lower: rows_to_station_data(&none),
        wake: WakeData {
            x: column_x(&none),
            y: column_y(&none),
            delta_star: column_dstr(&none),
            theta: column_theta(&none),
        },
        wake_upper_fraction: decimal(5, 10),
        wake_geometry_x: Vec::new(),
        wake_geometry_y: Vec::new(),
        x_tr_upper: whole(1),
        x_tr_lower: whole(1),
        converged: false,
        iterations: 0,
        residual: whole(0),
        success: false,
        error: Some(m),
    }
}

/// The source strengths at `n` nodes after the first `k` rows have left their mass defect at
/// their nodes.
pub open spec fn sources<S: Real>(before: Seq<S>, rows: Seq<BlRow<S>>, k: nat) -> Seq<S>
    decreases k,
{
    if k == 0 {
        before
    } else {
        let so_far = sources(before, rows, (k - 1) as nat);
        let row = rows[k - 1];
        if row.panel_idx < before.len() {
            so_far.update(row.panel_idx as int, row.mass)
        } else {
            so_far
        }
    }
}

/// The source strengths that the boundary layer of a snapshot has at the nodes: zero where
/// neither surface reaches.
pub open spec fn surface_sources<S: Real>(snapshot: FaithfulSnapshot<S>) -> Seq<S> {
    let zeros = Seq::new(snapshot.nodes@.len(), |i: int| whole::<S>(0));
    let upper = sources(
        zeros,
        snapshot.upper_rows@,
        surface_rows(snapshot.upper_rows@.len(), snapshot.iblte_upper) as nat,
    );
    sources(
        upper,
        snapshot.lower_rows@,
        surface_rows(snapshot.lower_rows@.len(), snapshot.iblte_lower) as nat,
    )
}

/// Leaves the mass defect of the first `n` rows at their nodes.
fn spread_sources<S: Real>(sigma: Vec<S>, rows: &[BlRow<S>], n: usize) -> (r: Vec<S>)
    requires
        n <= rows@.len(),
    ensures
        r@ == sources(sigma@, rows@, n as nat),
        r@.len() == sigma@.len(),
{
    let mut r: Vec<S> = sigma;
    let mut k: usize = 0;
    while k < n
        invariant
            k <= n <= rows@.len(),
            r@ == sources(sigma@, rows@, k as nat),
            r@.len() == sigma@.len(),
        decreases n - k,
    {
        let row: BlRow<S> = rows[k];
        if row.panel_idx < r.len() {
            r.set(row.panel_idx, row.mass);
        }
        k = k + 1;
    }
    r
}

/// The source strengths that the boundary layer of a snapshot has at the nodes.
pub fn build_surface_sigma_from_snapshot<S: Real>(snapshot: &FaithfulSnapshot<S>) -> (r: Vec<S>)
    requires
        arithmetic::<S>(),
    ensures
        r@ == surface_sources(*snapshot),
        r@.len() == snapshot.nodes@.len(),
{
    let zeros: Vec<S> = filled(whole(0), snapshot.nodes.len());
    let n_upper: usize = count_surface_rows(snapshot.upper_rows.len(), snapshot.iblte_upper);
    let n_lower: usize = count_surface_rows(snapshot.lower_rows.len(), snapshot.iblte_lower);
    let upper: Vec<S> = spread_sources(zeros, &snapshot.upper_rows, n_upper);
    spread_sources(upper, &snapshot.lower_rows, n_lower)
}

/// The sources of the wake.
#[derive(Clone, Debug)]
pub struct WakePanels<S> {
    pub x: Vec<S>,
    pub y: Vec<S>,
    pub sigma: Vec<S>,
}

/// The mass defects of the wake rows among the first `n`.
pub open spec fn wake_masses<S: Real>(rows: Seq<BlRow<S>>, n: nat) -> Seq<S>
    decreases n,
{
    if n == 0 {
        Seq::empty()
    } else {
        let before = wake_masses(rows, (n - 1) as nat);
        if rows[n - 1].is_wake {
            before.push(rows[n - 1].mass)
        } else {
            before
        }
    }
}

/// The source strengths at the `n` points of the wake: the mass defects of the wake rows,
/// and zero past them.
pub open spec fn wake_sources<S: Real>(rows: Seq<BlRow<S>>, n: nat) -> Seq<S> {
    let masses = wake_masses(rows, rows.len());
    Seq::new(
        n,
        |i: int|
            if i < masses.len() {
                masses[i]
            } else {
                whole::<S>(0)
            },
    )
}

/// The sources of the wake of a snapshot. A wake has two points at least.
pub fn build_wake_source_panels_from_snapshot<S: Real>(snapshot: &FaithfulSnapshot<S>) -> (r: Option<
    WakePanels<S>,
>)
    requires
        arithmetic::<S>(),
    ensures
        r is Some <==> snapshot.wake_x@.len() >= 2,
        r matches Some(w) ==> w.x@ == snapshot.wake_x@ && w.y@ == snapshot.wake_y@ && w.sigma@
            == wake_sources(snapshot.upper_rows@, snapshot.wake_x@.len()),
{
    let nw: usize = snapshot.wake_x.len();
    if nw < 2 {
        return None;
    }
    let rows: &Vec<BlRow<S>> = &snapshot.upper_rows;
    let mut masses: Vec<S> = Vec::new();
    let mut k: usize = 0;
    while k < rows.len()
        invariant
            k <= rows@.len(),
            masses@ == wake_masses(rows@, k as nat),
        decreases rows@.len() - k,
    {
        if rows[k].is_wake {
            masses.push(rows[k].mass);
        }
        k = k + 1;
    }
    let zero: S = whole(0);
    let at = |i: usize| -> (s: S)
        requires
            i < nw,
        ensures
            s == (if i < masses@.len() {
                masses@[i as int]
            } else {
                zero
            }),
        {
            if i < masses.len() {
                masses[i]
            } else {
                zero
            }
        };
    let sigma: Vec<S> = tabulated(nw, at);
    proof {
        let to = wake_sources(rows@, nw as nat);
        assert forall|i: int| 0 <= i < nw implies #[trigger] sigma@[i] == to[i] by {
            assert(i as usize == i);
        }
        assert(sigma@ =~= to);
    }
    Some(WakePanels { x: copied(&snapshot.wake_x), y: copied(&snapshot.wake_y), sigma })
}

/// The direction of a row of stations at the station `i`: to the neighbour at an end, and
/// between the neighbours elsewhere. A single station points along `sign`.
pub open spec fn tangent<S: Real>(rows: Seq<BlRow<S>>, i: int, sign: S) -> (S, S) {
    let n = rows.len();
    if n < 2 {
        (whole::<S>(0), sign)
    } else if i == 0 {
        (rows[1].x_coord - rows[0].x_coord, rows[1].y_coord - rows[0].y_coord)
    } else if i == n - 1 {
        (rows[i].x_coord - rows[i - 1].x_coord, rows[i].y_coord - rows[i - 1].y_coord)
    } else {
        (rows[i + 1].x_coord - rows[i - 1].x_coord, rows[i + 1].y_coord - rows[i - 1].y_coord)
    }
}

/// The length of a direction, kept from zero.
pub open spec fn direction_length<S: Real, E: Elementary<S>>(elementary: &E, x: S, y: S) -> S {
    larger(elementary.sqrt_of(x * x + y * y), tenths::<S>(10))
}

/// The normal of a row of stations at the station `i`, to the side of `sign`.
pub open spec fn normal<S: Real, E: Elementary<S>>(
    elementary: &E,
    rows: Seq<BlRow<S>>,
    i: int,
    sign: S,
) -> (S, S) {
    let (tx, ty) = tangent(rows, i, sign);
    let len = direction_length(elementary, tx, ty);
    (-ty / len * sign, tx / len * sign)
}

/// The station `i` moved out along its normal by its displacement thickness.
pub open spec fn displaced<S: Real, E: Elementary<S>>(
    elementary: &E,
    rows: Seq<BlRow<S>>,
    i: int,
    sign: S,
) -> Point<S> {
    let (nx, ny) = normal(elementary, rows, i, sign);
    let row = rows[i];
    Point { x: row.x_coord + nx * row.dstr, y: row.y_coord + ny * row.dstr }
}

/// The normal at the trailing edge of a surface.
pub open spec fn trailing_normal<S: Real, E: Elementary<S>>(
    elementary: &E,
    rows: Seq<BlRow<S>>,
    sign: S,
) -> (S, S) {
    if rows.len() > 1 {
        normal(elementary, rows, rows.len() - 1, sign)
    } else {
        (whole::<S>(0), sign)
    }
}

/// How far the normal of the wake has turned from that of the trailing edge: in up to five
/// steps.
pub open spec fn wake_blend<S: Real>(i: int, n: int) -> S {
    let steps = if n < 5 {
        n
    } else {
        5
    };
    if i < steps {
        count::<S>(i as usize) / count::<S>(steps as usize)
    } else {
        whole::<S>(1)
    }
}

/// The station `i` of the wake moved out to one side by a part of its thickness. `te` is the
/// normal of the trailing edge on that side; the lower side is opposite to the normal.
pub open spec fn wake_displaced<S: Real, E: Elementary<S>>(
    elementary: &E,
    wake: Seq<BlRow<S>>,
    te: (S, S),
    lower: bool,
    part: S,
    i: int,
) -> Point<S> {
    let one = whole::<S>(1);
    let (wx, wy) = normal(elementary, wake, i, one);
    let t = wake_blend::<S>(i, wake.len() as int);
    let nx = te.0 * (one - t) + (if lower {
        -wx
    } else {
        wx
    }) * t;
    let ny = te.1 * (one - t) + (if lower {
        -wy
    } else {
        wy
    }) * t;
    let len = direction_length(elementary, nx, ny);
    let ds = wake[i].dstr * part;
    Point { x: wake[i].x_coord + nx / len * ds, y: wake[i].y_coord + ny / len * ds }
}

/// The part of the thickness at the trailing edge that the upper side has.
pub open spec fn upper_share<S: Real>(upper: S, lower: S) -> S {
    upper / larger(upper + lower, tenths::<S>(12))
}

/// The outline that the outer flow sees: out along the upper surface, along the wake and back
/// where there is one, and along the lower surface back, all moved out by the displacement
/// thickness.
pub open spec fn effective_body<S: Real, E: Elementary<S>>(
    elementary: &E,
    upper: Seq<BlRow<S>>,
    lower: Seq<BlRow<S>>,
    wake: Seq<BlRow<S>>,
) -> Seq<Point<S>> {
    let one = whole::<S>(1);
    let minus = -one;
    let share = upper_share(upper.last().dstr, lower.last().dstr);
    let te_upper = trailing_normal(elementary, upper, one);
    let te_lower = trailing_normal(elementary, lower, minus);
    let nl = lower.len();
    let nw = wake.len();
    Seq::new(upper.len(), |i: int| displaced(elementary, upper, i, one)) + Seq::new(
        nw,
        |i: int| wake_displaced(elementary, wake, te_upper, false, share, i),
    ) + Seq::new(
        nw,
        |i: int| wake_displaced(elementary, wake, te_lower, true, one - share, nw - 1 - i),
    ) + Seq::new(nl, |i: int| displaced(elementary, lower, nl - 1 - i, minus))
}

/// The normal of a row of stations.
fn normal_at<S: Real, E: Elementary<S>>(elementary: &E, rows: &[BlRow<S>], i: usize, sign: S) -> (r: (
    S,
    S,
))
    requires
        arithmetic::<S>(),
        elementary.lawful(),
        i < rows@.len(),
    ensures
        r == normal(elementary, rows@, i as int, sign),
{
    let n: usize = rows.len();
    let (tx, ty): (S, S) = if n < 2 {
        (whole(0), sign)
    } else if i == 0 {
        (rows[1].x_coord - rows[0].x_coord, rows[1].y_coord - rows[0].y_coord)
    } else if i == n - 1 {
        (rows[i].x_coord - rows[i - 1].x_coord, rows[i].y_coord - rows[i - 1].y_coord)
    } else {
        (rows[i + 1].x_coord - rows[i - 1].x_coord, rows[i + 1].y_coord - rows[i - 1].y_coord)
    };
    let len: S = larger(elementary.sqrt(tx * tx + ty * ty), tiny(10));
    (ty.neg() / len * sign, tx / len * sign)
}

/// The stations of a surface, moved out.
fn displaced_surface<S: Real, E: Elementary<S>>(elementary: &E, rows: &[BlRow<S>], sign: S) -> (r:
    Vec<Point<S>>)
    requires
        arithmetic::<S>(),
        elementary.lawful(),
    ensures
        r@ == Seq::new(rows@.len(), |i: int| displaced(elementary, rows@, i, sign)),
{
    let n: usize = rows.len();
    let at = |i: usize| -> (p: Point<S>)
        requires
            arithmetic::<S>(),
            elementary.lawful(),
            i < n,
            n == rows@.len(),
        ensures
            p == displaced(elementary, rows@, i as int, sign),
        {
            let (nx, ny): (S, S) = normal_at(elementary, rows, i, sign);
            let row: BlRow<S> = rows[i];
            point(row.x_coord + nx * row.dstr, row.y_coord + ny * row.dstr)
        };
    let r: Vec<Point<S>> = tabulated(n, at);
    proof {
        let to = Seq::new(rows@.len(), |i: int| displaced(elementary, rows@, i, sign));
        assert forall|i: int| 0 <= i < n implies #[trigger] r@[i] == to[i] by {
            assert(i as usize == i);
        }
        assert(r@ =~= to);
    }
    r
}

/// One side of the wake, moved out.
fn displaced_wake<S: Real, E: Elementary<S>>(
    elementary: &E,
    wake: &[BlRow<S>],
    te: (S, S),
    lower: bool,
    share: S,
) -> (r: Vec<Point<S>>)
    requires
        arithmetic::<S>(),
        elementary.lawful(),
    ensures
        r@ == Seq::new(
            wake@.len(),
            |i: int| wake_displaced(elementary, wake@, te, lower, share, i),
        ),
{
    let n: usize = wake.len();
    let steps: usize = if n < 5 {
        n
    } else {
        5
    };
    let one: S = whole(1);
    let at = |i: usize| -> (p: Point<S>)
        requires
            arithmetic::<S>(),
            elementary.lawful(),
            i < n,
            n == wake@.len(),
            one == whole::<S>(1),
            steps == (if n < 5 {
                n
            } else {
                5
            }),
        ensures
            p == wake_displaced(elementary, wake@, te, lower, share, i as int),
        {
            let (wx, wy): (S, S) = normal_at(elementary, wake, i, one);
            let t: S = if i < steps {
                count::<S>(i) / count(steps)
            } else {
                one
            };
            let (sx, sy): (S, S) = if lower {
                (wx.neg(), wy.neg())
            } else {
                (wx, wy)
            };
            let nx: S = te.0 * (one - t) + sx * t;
            let ny: S = te.1 * (one - t) + sy * t;
            let len: S = larger(elementary.sqrt(nx * nx + ny * ny), tiny(10));
            let ds: S = wake[i].dstr * share;
            point(wake[i].x_coord + nx / len * ds, wake[i].y_coord + ny / len * ds)
        };
    let r: Vec<Point<S>> = tabulated(n, at);
    proof {
        let to = Seq::new(
            wake@.len(),
            |i: int| wake_displaced(elementary, wake@, te, lower, share, i),
        );
        assert forall|i: int| 0 <= i < n implies #[trigger] r@[i] == to[i] by {
            assert(i as usize == i);
        }
        assert(r@ =~= to);
    }
    r
}

/// The points of `pts` in reverse, behind `a`.
fn appended_reversed<S: Copy>(a: Vec<Point<S>>, pts: &[Point<S>]) -> (r: Vec<Point<S>>)
    ensures
        r@ == a@ + pts@.reverse(),
{
    let n: usize = pts.len();
    let mut r: Vec<Point<S>> = a;
    let mut i: usize = 0;
    while i < n
        invariant
            i <= n == pts@.len(),
            r@ == a@ + pts@.reverse().subrange(0, i as int),
        decreases n - i,
    {
        r.push(pts[n - 1 - i]);
        i = i + 1;
        assert(r@ =~= a@ + pts@.reverse().subrange(0, i as int));
    }
    assert(r@ =~= a@ + pts@.reverse());
    r
}

/// The outline that the outer flow sees about the airfoil of a snapshot.
pub fn build_effective_body_polygon_from_snapshot<S: Real, E: Elementary<S>>(
    snapshot: &FaithfulSnapshot<S>,
    elementary: &E,
) -> (r: Vec<Point<S>>)
    requires
        arithmetic::<S>(),
        elementary.lawful(),
        snapshot.has_rows(),
    ensures
        r@ == effective_body(elementary, snapshot.upper(), snapshot.lower(), snapshot.wake()),
{
    let upper: Vec<BlRow<S>> = surface_part(&snapshot.upper_rows, snapshot.iblte_upper);
    let lower: Vec<BlRow<S>> = surface_part(&snapshot.lower_rows, snapshot.iblte_lower);
    let wake: Vec<BlRow<S>> = wake_part(&snapshot.upper_rows, snapshot.iblte_upper);
    let zero: S = whole(0);
    let one: S = whole(1);
    let minus: S = one.neg();
    let upper_te: S = upper[upper.len() - 1].dstr;
    let lower_te: S = lower[lower.len() - 1].dstr;
    let share: S = upper_te / larger(upper_te + lower_te, tiny(12));
    let te_upper: (S, S) = if upper.len() > 1 {
        normal_at(elementary, &upper, upper.len() - 1, one)
    } else {
        (zero, one)
    };
    let te_lower: (S, S) = if lower.len() > 1 {
        normal_at(elementary, &lower, lower.len() - 1, minus)
    } else {
        (zero, minus)
    };
    let first: Vec<Point<S>> = displaced_surface(elementary, &upper, one);
    let out: Vec<Point<S>> = displaced_wake(elementary, &wake, te_upper, false, share);
    let back: Vec<Point<S>> = displaced_wake(elementary, &wake, te_lower, true, one - share);
    let last: Vec<Point<S>> = displaced_surface(elementary, &lower, minus);
    let ghost nl = lower@.len();
    let ghost nw = wake@.len();
    proof {
        assert(out@.subrange(0, out@.len() as int) =~= out@);
        assert(back@.reverse() =~= Seq::new(
            nw,
            |i: int| wake_displaced(elementary, wake@, te_lower, true, one - share, nw - 1 - i),
        ));
        assert(last@.reverse() =~= Seq::new(
            nl,
            |i: int| displaced(elementary, lower@, nl - 1 - i, minus),
        ));
    }
    let r: Vec<Point<S>> = appended(first, &out, 0);
    let r: Vec<Point<S>> = appended_reversed(r, &back);
    appended_reversed(r, &last)
}

/// The flow about an airfoil, as streamlines are traced through it.
#[derive(Clone, Debug)]
pub struct FaithfulFlowField<S> {
    pub nodes: Vec<Point<S>>,
    pub gamma: Vec<S>,
    pub sigma: Vec<S>,
    /// Angle of attack in radians.
    pub alpha: S,
    pub v_inf: S,
    pub psi_0: S,
    pub wake_panels: Option<WakePanels<S>>,
    pub effective_body: Vec<Point<S>>,
}

impl<S: Real> FaithfulFlowField<S> {
    /// The field is that of a snapshot, at an angle of attack in degrees.
    pub open spec fn is_from<E: Elementary<S>>(
        &self,
        snapshot: FaithfulSnapshot<S>,
        alpha_deg: S,
        elementary: &E,
    ) -> bool {
        &&& self.nodes@ == snapshot.nodes@
        &&& self.gamma@ == snapshot.gamma@
        &&& self.sigma@ == surface_sources(snapshot)
        &&& self.alpha == radians(alpha_deg)
        &&& self.v_inf == whole::<S>(1)
        &&& self.psi_0 == snapshot.psi_0
        &&& self.wake_panels is Some <==> snapshot.wake_x@.len() >= 2
        &&& self.wake_panels matches Some(w) ==> w.x@ == snapshot.wake_x@ && w.y@
            == snapshot.wake_y@ && w.sigma@ == wake_sources(
            snapshot.upper_rows@,
            snapshot.wake_x@.len(),
        )
        &&& self.effective_body@ == effective_body(
            elementary,
            snapshot.upper(),
            snapshot.lower(),
            snapshot.wake(),
        )
    }

    /// The field of a snapshot.
    pub fn from_snapshot<E: Elementary<S>>(
        snapshot: &FaithfulSnapshot<S>,
        alpha_deg: S,
        elementary: &E,
    ) -> (r: Self)
        requires
            arithmetic::<S>(),
            elementary.lawful(),
            snapshot.has_rows(),
        ensures
            r.is_from(*snapshot, alpha_deg, elementary),
    {
        FaithfulFlowField {
            nodes: copied(&snapshot.nodes),
            gamma: copied(&snapshot.gamma),
            sigma: build_surface_sigma_from_snapshot(snapshot),
            alpha: radians(alpha_deg),
            v_inf: whole(1),
            psi_0: snapshot.psi_0,
            wake_panels: build_wake_source_panels_from_snapshot(snapshot),
            effective_body: build_effective_body_polygon_from_snapshot(snapshot, elementary),
        }
    }

    /// The effective body, where it is a polygon.
    pub fn effective_body_ref(&self) -> (r: Option<&[Point<S>]>)
        ensures
            r is Some <==> self.effective_body@.len() >= 3,
            r matches Some(b) ==> b@ == self.effective_body@,
    {
        if self.effective_body.len() >= 3 {
            Some(self.effective_body.as_slice())
        } else {
            None
        }
    }
}

} // verus!
