//! Inverse design: an outline for a prescribed pressure or velocity distribution.
use crate::airfoil::points::{
    flat_from, flat_pairs, full_outline, is_full_outline, pairs_from, pairs_in,
};
use crate::airfoil::report::{message, prefixed, text};
use crate::callable::mapped;
use crate::number::{arithmetic, decimal, whole, Formula, Real};
use crate::station::copied;
use vstd::prelude::*;
use vstd::string::StrSliceExecFns;

verus! {

/// What is prescribed on a surface.
#[derive(Clone, Copy, Debug, PartialEq, Eq, Structural)]
pub enum QdesTargetKind {
    PressureCoefficient,
    EdgeVelocity,
}

/// Values at places on a surface.
#[derive(Clone, Debug)]
pub struct QdesTarget<S> {
    pub x: Vec<S>,
    pub values: Vec<S>,
}

/// A task for the inverse design.
#[derive(Clone, Debug)]
pub struct QdesRequest<S> {
    pub coords: Vec<(S, S)>,
    pub alpha_deg: S,
    pub reynolds: S,
    pub mach: S,
    pub ncrit: S,
    pub max_iterations: usize,
    pub target_kind: QdesTargetKind,
    pub upper: Option<QdesTarget<S>>,
    pub lower: Option<QdesTarget<S>>,
    pub outer_iterations: usize,
    pub update_damping: S,
}

/// One iteration of the inverse design.
#[derive(Clone, Copy, Debug)]
pub struct InverseDesignIterationSnapshot<S> {
    pub iteration: usize,
    pub rms_error: S,
    pub max_error: S,
    pub geometry_delta_norm: S,
    pub cl: S,
    pub cd: S,
}

/// What the inverse design has come to.
#[derive(Clone, Debug)]
pub struct QdesSolution<S> {
    pub input_coords: Vec<(S, S)>,
    pub output_coords: Vec<(S, S)>,
    pub paneled_coords: Vec<(S, S)>,
    pub cl: S,
    pub cd: S,
    pub cm: S,
    pub converged: bool,
    pub iterations: usize,
    pub rms_error: S,
    pub max_error: S,
    pub target_kind: QdesTargetKind,
    pub target_upper: Option<QdesTarget<S>>,
    pub target_lower: Option<QdesTarget<S>>,
    pub achieved_upper: Option<QdesTarget<S>>,
    pub achieved_lower: Option<QdesTarget<S>>,
    pub history: Vec<InverseDesignIterationSnapshot<S>>,
}

/// The result of an inverse design, as it is shown.
#[derive(Clone, Debug)]
pub struct InverseDesignResult<S> {
    pub input_coords: Vec<S>,
    pub output_coords: Vec<S>,
    pub paneled_coords: Vec<S>,
    pub cl: S,
    pub cd: S,
    pub cm: S,
    pub converged: bool,
    pub iterations: usize,
    pub rms_error: S,
    pub max_error: S,
    pub target_kind: String,
    pub target_upper_x: Vec<S>,
    pub target_upper_values: Vec<S>,
    pub target_lower_x: Vec<S>,
    pub target_lower_values: Vec<S>,
    pub achieved_upper_x: Vec<S>,
    pub achieved_upper_values: Vec<S>,
    pub achieved_lower_x: Vec<S>,
    pub achieved_lower_values: Vec<S>,
    pub history: Vec<InverseDesignIterationSnapshot<S>>,
    pub success: bool,
    pub error: Option<String>,
}

/// The places of a target, or none.
pub open spec fn places<S>(t: Option<QdesTarget<S>>) -> Seq<S> {
    match t {
        Some(t) => t.x@,
        None => Seq::empty(),
    }
}

/// The values of a target, or none.
pub open spec fn values<S>(t: Option<QdesTarget<S>>) -> Seq<S> {
    match t {
        Some(t) => t.values@,
        None => Seq::empty(),
    }
}

impl<S: Real> InverseDesignResult<S> {
    /// Nothing but a message is there.
    pub open spec fn is_error(&self, m: Seq<char>) -> bool {
        let zero = whole::<S>(0);
        let none = Seq::<S>::empty();
        &&& (self.input_coords@, self.output_coords@, self.paneled_coords@) == (none, none, none)
        &&& (self.cl, self.cd, self.cm, self.rms_error, self.max_error) == (
            zero,
            zero,
            zero,
            zero,
            zero,
        )
        &&& (self.converged, self.iterations, self.success) == (false, 0usize, false)
        &&& self.target_kind@.len() == 0
        &&& (self.target_upper_x@, self.target_upper_values@) == (none, none)
        &&& (self.target_lower_x@, self.target_lower_values@) == (none, none)
        &&& (self.achieved_upper_x@, self.achieved_upper_values@) == (none, none)
        &&& (self.achieved_lower_x@, self.achieved_lower_values@) == (none, none)
        &&& self.history@.len() == 0
        &&& text(self.error) == Some(m)
    }

    /// A solution is there.
    pub open spec fn shows(&self, q: QdesSolution<S>) -> bool {
        &&& self.input_coords@ == flat_pairs(q.input_coords@)
        &&& self.output_coords@ == flat_pairs(q.output_coords@)
        &&& self.paneled_coords@ == flat_pairs(q.paneled_coords@)
        &&& (self.cl, self.cd, self.cm) == (q.cl, q.cd, q.cm)
        &&& (self.converged, self.iterations) == (q.converged, q.iterations)
        &&& (self.rms_error, self.max_error) == (q.rms_error, q.max_error)
        &&& self.target_kind@ == (match q.target_kind {
            QdesTargetKind::PressureCoefficient => "cp"@,
            QdesTargetKind::EdgeVelocity => "velocity"@,
        })
        &&& (self.target_upper_x@, self.target_upper_values@) == (
            places(q.target_upper),
            values(q.target_upper),
        )
        &&& (self.target_lower_x@, self.target_lower_values@) == (
            places(q.target_lower),
            values(q.target_lower),
        )
        &&& (self.achieved_upper_x@, self.achieved_upper_values@) == (
            places(q.achieved_upper),
            values(q.achieved_upper),
        )
        &&& (self.achieved_lower_x@, self.achieved_lower_values@) == (
            places(q.achieved_lower),
            values(q.achieved_lower),
        )
        &&& self.history@ == q.history@
        &&& self.success
        &&& self.error is None
    }

    /// The outcome of an attempt.
    pub open spec fn reports(&self, out: Result<QdesSolution<S>, String>) -> bool {
        match out {
            Ok(q) => self.shows(q),
            Err(e) => self.is_error("Inverse design failed: "@ + e@),
        }
    }
}

/// The result of an inverse design that could not be made.
pub fn inverse_design_error<S: Real>(m: String) -> (r: InverseDesignResult<S>)
    requires
        arithmetic::<S>(),
    ensures
        r.is_error(m@),
{
    let r = InverseDesignResult {
        input_coords: Vec::new(),
        output_coords: Vec::new(),
        paneled_coords: Vec::new(),
        cl: whole(0),
        cd: whole(0),
        cm: whole(0),
        converged: false,
        iterations: 0,
        rms_error: whole(0),
        max_error: whole(0),
        target_kind: String::new(),
        target_upper_x: Vec::new(),
        target_upper_values: Vec::new(),
        target_lower_x: Vec::new(),
        target_lower_values: Vec::new(),
        achieved_upper_x: Vec::new(),
        achieved_upper_values: Vec::new(),
        achieved_lower_x: Vec::new(),
        achieved_lower_values: Vec::new(),
        history: Vec::new(),
        success: false,
        error: Some(m),
    };
    r
}

/// Whether two texts are the same.
fn same_text(a: &str, b: &str) -> (r: bool)
    ensures
        r == (a@ == b@),
{
    let n: usize = a.unicode_len();
    if n != b.unicode_len() {
        return false;
    }
    let mut i: usize = 0;
    while i < n
        invariant
            i <= n,
            n == a@.len(),
            n == b@.len(),
            forall|k: int| 0 <= k < i ==> a@[k] == b@[k],
        decreases n - i,
    {
        if a.get_char(i) != b.get_char(i) {
            return false;
        }
        i = i + 1;
    }
    assert(a@ =~= b@);
    true
}

/// The kind that a name stands for: pressure by any of its names, and else velocity.
pub open spec fn kind_named(name: Seq<char>) -> QdesTargetKind {
    if name == "cp"@ || name == "Cp"@ || name == "CP"@ || name == "pressure"@ {
        QdesTargetKind::PressureCoefficient
    } else {
        QdesTargetKind::EdgeVelocity
    }
}

/// The kind that a name stands for.
pub fn target_kind_from_name(name: &str) -> (r: QdesTargetKind)
    ensures
        r == kind_named(name@),
{
    if same_text(name, "cp") || same_text(name, "Cp") || same_text(name, "CP") || same_text(
        name,
        "pressure",
    ) {
        QdesTargetKind::PressureCoefficient
    } else {
        QdesTargetKind::EdgeVelocity
    }
}

/// What is wrong with a task, if anything: the first that applies.
pub open spec fn task_fault<S>(
    coords: Seq<S>,
    upper_x: Seq<S>,
    upper_values: Seq<S>,
    lower_x: Seq<S>,
    lower_values: Seq<S>,
) -> Option<Seq<char>> {
    if !full_outline(coords) {
        Some("Invalid coordinates: need at least 4 points"@)
    } else if upper_x.len() == 0 && lower_x.len() == 0 {
        Some("At least one surface target (upper or lower) is required"@)
    } else if upper_x.len() != upper_values.len() {
        Some("upper_x and upper_values must have the same length"@)
    } else if lower_x.len() != lower_values.len() {
        Some("lower_x and lower_values must have the same length"@)
    } else {
        None
    }
}

/// What is wrong with a task, if anything.
fn find_task_fault<S>(
    coords: &[S],
    upper_x: &[S],
    upper_values: &[S],
    lower_x: &[S],
    lower_values: &[S],
) -> (r: Option<String>)
    ensures
        text(r) == task_fault(coords@, upper_x@, upper_values@, lower_x@, lower_values@),
{
    if !is_full_outline(coords) {
        message("Invalid coordinates: need at least 4 points")
    } else if upper_x.len() == 0 && lower_x.len() == 0 {
        message("At least one surface target (upper or lower) is required")
    } else if upper_x.len() != upper_values.len() {
        message("upper_x and upper_values must have the same length")
    } else if lower_x.len() != lower_values.len() {
        message("lower_x and lower_values must have the same length")
    } else {
        None
    }
}

/// `t` is the target with these places and values; there is none without a place.
pub open spec fn aims<S>(t: Option<QdesTarget<S>>, x: Seq<S>, v: Seq<S>) -> bool {
    match t {
        Some(t) => x.len() > 0 && t.x@ == x && t.values@ == v,
        None => x.len() == 0,
    }
}

/// The target with these places and values.
fn target<S: Copy>(x: &[S], v: &[S]) -> (r: Option<QdesTarget<S>>)
    ensures
        aims(r, x@, v@),
{
    if x.len() > 0 {
        Some(QdesTarget { x: copied(x), values: copied(v) })
    } else {
        None
    }
}

impl<S: Real> QdesRequest<S> {
    /// The task is this one. Where nothing is said of them there are six iterations with a
    /// damping of six tenths; the analyses within take up to a hundred.
    pub open spec fn asks(
        &self,
        coords: Seq<S>,
        flow: (S, S, S, S),
        kind: QdesTargetKind,
        upper: (Seq<S>, Seq<S>),
        lower: (Seq<S>, Seq<S>),
        max_design_iterations: Option<usize>,
        damping: Option<S>,
    ) -> bool {
        &&& self.coords@ == pairs_in(coords)
        &&& (self.alpha_deg, self.reynolds, self.mach, self.ncrit) == flow
        &&& self.max_iterations == 100
        &&& self.target_kind == kind
        &&& aims(self.upper, upper.0, upper.1)
        &&& aims(self.lower, lower.0, lower.1)
        &&& self.outer_iterations == (match max_design_iterations {
            Some(n) => n,
            None => 6,
        })
        &&& self.update_damping == (match damping {
            Some(d) => d,
            None => decimal::<S>(6, 10),
        })
    }
}

/// The places and the values of a target, or none.
fn target_lists<S: Copy>(t: &Option<QdesTarget<S>>) -> (r: (Vec<S>, Vec<S>))
    ensures
        r.0@ == places(*t),
        r.1@ == values(*t),
{
    match t {
        Some(t) => (copied(&t.x), copied(&t.values)),
        None => (Vec::new(), Vec::new()),
    }
}

/// A solution as it is shown.
fn inverse_design_result<S: Real>(q: &QdesSolution<S>) -> (r: InverseDesignResult<S>)
    ensures
        r.shows(*q),
{
    let (target_upper_x, target_upper_values): (Vec<S>, Vec<S>) = target_lists(&q.target_upper);
    let (target_lower_x, target_lower_values): (Vec<S>, Vec<S>) = target_lists(&q.target_lower);
    let (achieved_upper_x, achieved_upper_values): (Vec<S>, Vec<S>) = target_lists(
        &q.achieved_upper,
    );
    let (achieved_lower_x, achieved_lower_values): (Vec<S>, Vec<S>) = target_lists(
        &q.achieved_lower,
    );
    let kind: &str = match q.target_kind {
        QdesTargetKind::PressureCoefficient => "cp",
        QdesTargetKind::EdgeVelocity => "velocity",
    };
    InverseDesignResult {
        input_coords: flat_from(&q.input_coords),
        output_coords: flat_from(&q.output_coords),
        paneled_coords: flat_from(&q.paneled_coords),
        cl: q.cl,
        cd: q.cd,
        cm: q.cm,
        converged: q.converged,
        iterations: q.iterations,
        rms_error: q.rms_error,
        max_error: q.max_error,
        target_kind: kind.to_owned(),
        target_upper_x,
        target_upper_values,
        target_lower_x,
        target_lower_values,
        achieved_upper_x,
        achieved_upper_values,
        achieved_lower_x,
        achieved_lower_values,
        history: copied(&q.history),
        success: true,
        error: None,
    }
}

/// Designs an outline for a distribution on one surface or on both. `solve` finds it.
pub fn inverse_design_qdes_impl<
    S: Real,
    F: Fn(&QdesRequest<S>) -> Result<QdesSolution<S>, String>,
>(
    coords: &[S],
    alpha_deg: S,
    reynolds: S,
    mach: S,
    ncrit: S,
    target_kind: &str,
    upper_x: &[S],
    upper_values: &[S],
    lower_x: &[S],
    lower_values: &[S],
    max_design_iterations: Option<usize>,
    damping: Option<S>,
    solve: &F,
) -> (r: InverseDesignResult<S>)
    requires
        arithmetic::<S>(),
        forall|q: QdesRequest<S>| #[trigger] call_requires(*solve, (&q,)),
    ensures
        match task_fault(coords@, upper_x@, upper_values@, lower_x@, lower_values@) {
            Some(m) => r.is_error(m),
            None => exists|q: QdesRequest<S>, out: Result<QdesSolution<S>, String>|
                {
                    &&& q.asks(
                        coords@,
                        (alpha_deg, reynolds, mach, ncrit),
                        kind_named(target_kind@),
                        (upper_x@, upper_values@),
                        (lower_x@, lower_values@),
                        max_design_iterations,
                        damping,
                    )
                    &&& #[trigger] call_ensures(*solve, (&q,), out)
                    &&& r.reports(out)
                },
        },
{
    match find_task_fault(coords, upper_x, upper_values, lower_x, lower_values) {
        Some(m) => {
            return inverse_design_error(m);
        },
        None => {},
    }
    let request = QdesRequest {
        coords: pairs_from(coords),
        alpha_deg,
        reynolds,
        mach,
        ncrit,
        max_iterations: 100,
        target_kind: target_kind_from_name(target_kind),
        upper: target(upper_x, upper_values),
        lower: target(lower_x, lower_values),
        outer_iterations: match max_design_iterations {
            Some(n) => n,
            None => 6,
        },
        update_damping: match damping {
            Some(d) => d,
            None => decimal(6, 10),
        },
    };
    let out: Result<QdesSolution<S>, String> = solve(&request);
    let ghost shown = out;
    assert(call_ensures(*solve, (&request,), shown));
    match out {
        Ok(q) => inverse_design_result(&q),
        Err(e) => inverse_design_error(prefixed("Inverse design failed: ", e.as_str())),
    }
}

/// The result of a full-inverse design.
#[derive(Clone, Debug)]
pub struct MdesDesignResult<S> {
    pub x: Vec<S>,
    pub y: Vec<S>,
    pub qspec_x: Vec<S>,
    pub qspec_values: Vec<S>,
    pub cl: S,
    pub cm: S,
    pub success: bool,
    pub error: Option<String>,
}

impl<S: Real> MdesDesignResult<S> {
    /// Nothing but a message is there.
    pub open spec fn is_error(&self, m: Seq<char>) -> bool {
        let zero = whole::<S>(0);
        &&& (self.x@.len(), self.y@.len()) == (0nat, 0nat)
        &&& (self.qspec_x@.len(), self.qspec_values@.len()) == (0nat, 0nat)
        &&& (self.cl, self.cm, self.success) == (zero, zero, false)
        &&& text(self.error) == Some(m)
    }
}

/// A task for the full-inverse design.
#[derive(Clone, Debug)]
pub struct MdesRequest<S> {
    pub x: Vec<S>,
    pub y: Vec<S>,
    /// The velocities to design for; those of the outline itself where there are none.
    pub target_q: Option<Vec<S>>,
    /// The number of points on the circle.
    pub nc: usize,
    pub alpha_deg: S,
    pub symmetric: bool,
    pub filter_strength: S,
}

impl<S: Real> MdesRequest<S> {
    /// The task is this one. A circle has 33 points at least, and else 129.
    pub open spec fn asks(
        &self,
        coords: Seq<S>,
        alpha_deg: S,
        symmetric: bool,
        filter_strength: S,
        target_q: Seq<S>,
        nc: usize,
    ) -> bool {
        &&& self.x@ == pairs_in(coords).map_values(|p: (S, S)| p.0)
        &&& self.y@ == pairs_in(coords).map_values(|p: (S, S)| p.1)
        &&& match self.target_q {
            Some(q) => target_q.len() > 0 && q@ == target_q,
            None => target_q.len() == 0,
        }
        &&& self.nc == (if nc >= 33 {
            nc
        } else {
            129
        })
        &&& (self.alpha_deg, self.symmetric, self.filter_strength) == (
            alpha_deg,
            symmetric,
            filter_strength,
        )
    }
}

/// Designs a whole outline for a velocity distribution. `solve` finds it.
pub fn full_inverse_design_mdes_impl<S: Real, F: Fn(&MdesRequest<S>) -> MdesDesignResult<S>>(
    coords: &[S],
    alpha_deg: S,
    symmetric: bool,
    filter_strength: S,
    target_q: &[S],
    nc: usize,
    solve: &F,
) -> (r: MdesDesignResult<S>)
    requires
        arithmetic::<S>(),
        forall|q: MdesRequest<S>| #[trigger] call_requires(*solve, (&q,)),
    ensures
        !full_outline(coords@) ==> r.is_error("Invalid coordinates: need at least 4 points"@),
        full_outline(coords@) ==> exists|q: MdesRequest<S>|
            {
                &&& q.asks(coords@, alpha_deg, symmetric, filter_strength, target_q@, nc)
                &&& #[trigger] call_ensures(*solve, (&q,), r)
            },
{
    if !is_full_outline(coords) {
        return MdesDesignResult {
            x: Vec::new(),
            y: Vec::new(),
            qspec_x: Vec::new(),
            qspec_values: Vec::new(),
            cl: whole(0),
            cm: whole(0),
            success: false,
            error: message("Invalid coordinates: need at least 4 points"),
        };
    }
    let pairs: Vec<(S, S)> = pairs_from(coords);
    let abscissa = |p: (S, S)| -> (v: S)
        ensures
            v == p.0,
        {
            p.0
        };
    let ordinate = |p: (S, S)| -> (v: S)
        ensures
            v == p.1,
        {
            p.1
        };
    let x: Vec<S> = mapped(&pairs, abscissa);
    let y: Vec<S> = mapped(&pairs, ordinate);
    assert(x@ =~= pairs@.map_values(|p: (S, S)| p.0));
    assert(y@ =~= pairs@.map_values(|p: (S, S)| p.1));
    let request = MdesRequest {
        x,
        y,
        target_q: if target_q.len() > 0 {
            Some(copied(target_q))
        } else {
            None
        },
        nc: if nc >= 33 {
            nc
        } else {
            129
        },
        alpha_deg,
        symmetric,
        filter_strength,
    };
    let r: MdesDesignResult<S> = solve(&request);
    assert(call_ensures(*solve, (&request,), r));
    r
}

} // verus!
