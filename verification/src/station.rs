//! One boundary-layer station, and the small tables that stations are kept in.
use vstd::prelude::*;

verus! {

/// The regime of the flow between two stations.
#[derive(Clone, Copy, Debug, PartialEq, Eq, Structural)]
pub enum FlowType {
    Laminar,
    Turbulent,
    Wake,
}

/// Derivatives of the shape parameters at a station.
#[derive(Clone, Copy, Debug)]
pub struct BlDerivatives<S> {
    pub h_theta: S,
    pub h_delta_star: S,
    pub hk_h: S,
}

/// The state of the boundary layer at one station.
#[derive(Clone, Copy, Debug)]
pub struct BlStation<S> {
    /// Arc length from the stagnation point.
    pub x: S,
    /// Chordwise coordinate of the panel node.
    pub x_coord: S,
    /// Row of the influence matrix that belongs to the station.
    pub panel_idx: usize,
    /// Edge velocity.
    pub u: S,
    /// Momentum thickness.
    pub theta: S,
    /// Displacement thickness, without the wake gap.
    pub delta_star: S,
    /// Shear stress coefficient (root of the maximum shear stress).
    pub ctau: S,
    /// Amplification of the most amplified wave.
    pub ampl: S,
    pub h: S,
    pub hk: S,
    pub hs: S,
    pub hc: S,
    pub r_theta: S,
    pub cf: S,
    pub cd: S,
    pub us: S,
    pub cq: S,
    pub de: S,
    /// Thickness of the wake gap.
    pub dw: S,
    /// Mass defect, edge velocity times displacement thickness.
    pub mass_defect: S,
    pub is_laminar: bool,
    pub is_turbulent: bool,
    pub is_wake: bool,
    pub derivs: BlDerivatives<S>,
}

/// A vector of `n` copies of `x`.
pub fn filled<T: Copy>(x: T, n: usize) -> (r: Vec<T>)
    ensures
        r@ == Seq::new(n as nat, |i: int| x),
{
    let mut r: Vec<T> = Vec::with_capacity(n);
    let mut i: usize = 0;
    while i < n
        invariant
            i <= n,
            r@ == Seq::new(i as nat, |j: int| x),
        decreases n - i,
    {
        r.push(x);
        i = i + 1;
    }
    r
}

/// The entry `i` of `s`, or `default` past its end.
pub open spec fn seq_or<T>(s: Seq<T>, i: int, default: T) -> T {
    if i < s.len() {
        s[i]
    } else {
        default
    }
}

/// The entry `i` of `v`, or `default` past its end.
pub fn entry_or<T: Copy>(v: &[T], i: usize, default: T) -> (r: T)
    ensures
        r == seq_or(v@, i as int, default),
{
    if i < v.len() {
        v[i]
    } else {
        default
    }
}

/// The entries of a list, where there is one.
pub open spec fn entries<T>(v: Option<&[T]>) -> Option<Seq<T>> {
    match v {
        Some(s) => Some(s@),
        None => None,
    }
}

/// A copy of `v`.
pub fn copied<T: Copy>(v: &[T]) -> (r: Vec<T>)
    ensures
        r@ == v@,
{
    let mut r: Vec<T> = Vec::with_capacity(v.len());
    let mut i: usize = 0;
    while i < v.len()
        invariant
            i <= v@.len(),
            r@ == v@.subrange(0, i as int),
        decreases v@.len() - i,
    {
        r.push(v[i]);
        i = i + 1;
    }
    r
}

/// A dense matrix, row by row.
pub struct Matrix<S> {
    pub nrows: usize,
    pub ncols: usize,
    pub rows: Vec<Vec<S>>,
}

impl<S> Matrix<S> {
    /// Every row is there, with an entry for every column.
    pub open spec fn wf(&self) -> bool {
        &&& self.rows@.len() == self.nrows
        &&& forall|i: int|
            0 <= i < self.nrows ==> (#[trigger] self.rows@[i])@.len() == self.ncols
    }

    /// The entry in row `i` and column `j`.
    pub open spec fn entry(&self, i: int, j: int) -> S {
        self.rows@[i]@[j]
    }

    /// Whether there is an entry in row `i` and column `j`.
    pub open spec fn covers(&self, i: int, j: int) -> bool {
        i < self.nrows && j < self.ncols
    }
}

} // verus!
