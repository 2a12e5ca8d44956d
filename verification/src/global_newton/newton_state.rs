//! The row form of the boundary-layer state that one Newton iteration works on.
use crate::global_newton::influence::EdgePoint;
use crate::number::Real;
use crate::station::{BlDerivatives, FlowType};
use vstd::prelude::*;

verus! {

/// One station in row form.
#[derive(Clone, Copy, Debug)]
pub struct CanonicalNewtonRow<S> {
    pub x: S,
    pub x_coord: S,
    pub panel_idx: usize,
    /// Edge velocity, with its sign.
    pub uedg: S,
    /// Inviscid edge velocity.
    pub uinv: S,
    /// Sensitivity of the inviscid edge velocity to the angle of attack.
    pub uinv_a: S,
    pub theta: S,
    pub dstr: S,
    /// The amplification of a laminar row, the shear stress of any other.
    pub ctau_or_ampl: S,
    pub ctau: S,
    pub ampl: S,
    pub mass: S,
    pub h: S,
    pub hk: S,
    pub hs: S,
    pub hc: S,
    pub r_theta: S,
    pub cf: S,
    pub cd: S,
    pub us: S,
    pub cq: S,
    pub de: S,
    pub dw: S,
    pub is_laminar: bool,
    pub is_turbulent: bool,
    pub is_wake: bool,
    pub derivs: BlDerivatives<S>,
}

/// Both surfaces in row form, with the velocities that belong to them.
pub struct CanonicalNewtonStateView<S> {
    pub upper_rows: Vec<CanonicalNewtonRow<S>>,
    pub lower_rows: Vec<CanonicalNewtonRow<S>>,
    pub upper_flow_types: Vec<FlowType>,
    pub lower_flow_types: Vec<FlowType>,
    pub upper_ue_current: Vec<S>,
    pub lower_ue_current: Vec<S>,
    pub upper_ue_inviscid: Vec<S>,
    pub lower_ue_inviscid: Vec<S>,
    pub upper_ue_from_mass: Vec<S>,
    pub lower_ue_from_mass: Vec<S>,
    pub upper_ue_operating: Vec<S>,
    pub lower_ue_operating: Vec<S>,
    pub sst_go: S,
    pub sst_gp: S,
    pub ante: S,
}

/// What the influence sums read of the rows.
pub open spec fn row_points_of<S: Real>(rows: Seq<CanonicalNewtonRow<S>>) -> Seq<EdgePoint<S>> {
    Seq::new(
        rows.len(),
        |j: int|
            EdgePoint { panel_idx: rows[j].panel_idx, u: rows[j].uedg, mass: rows[j].mass },
    )
}

/// What the influence sums read of the rows.
pub fn row_edge_points<S: Real>(rows: &[CanonicalNewtonRow<S>]) -> (r: Vec<EdgePoint<S>>)
    ensures
        r@ == row_points_of(rows@),
{
    let mut r: Vec<EdgePoint<S>> = Vec::with_capacity(rows.len());
    let mut j: usize = 0;
    while j < rows.len()
        invariant
            j <= rows@.len(),
            r@ == row_points_of(rows@).subrange(0, j as int),
        decreases rows@.len() - j,
    {
        let s: CanonicalNewtonRow<S> = rows[j];
        r.push(EdgePoint { panel_idx: s.panel_idx, u: s.uedg, mass: s.mass });
        j = j + 1;
    }
    assert(r@ =~= row_points_of(rows@));
    r
}

/// The edge velocities of the rows.
pub fn row_velocities<S: Real>(rows: &[CanonicalNewtonRow<S>]) -> (r: Vec<S>)
    ensures
        r@ == Seq::new(rows@.len(), |j: int| rows@[j].uedg),
{
    let mut r: Vec<S> = Vec::with_capacity(rows.len());
    let mut j: usize = 0;
    while j < rows.len()
        invariant
            j <= rows@.len(),
            r@ == Seq::new(j as nat, |k: int| rows@[k].uedg),
        decreases rows@.len() - j,
    {
        r.push(rows[j].uedg);
        j = j + 1;
    }
    r
}

} // verus!
