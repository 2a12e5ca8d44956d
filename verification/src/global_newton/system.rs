//! The system's storage, its index maps and its residual norms.
use crate::closure::BlClosure;
use crate::number::{abs, arithmetic, count, finite_or_zero, larger, whole, Formula, Real};
use crate::station::filled;
use vstd::prelude::*;

verus! {

/// The coupled system of both surfaces.
///
/// Row `iv` runs from one to `nsys`; entry zero of every table is padding. The rows of
/// the upper surface come first, its station `ibl` in row `ibl`; the lower surface
/// follows, its station `ibl` in row `n_upper - 1 + ibl`. Station zero of either surface,
/// the stagnation point, has no row.
pub struct GlobalNewtonSystem<S> {
    /// Number of rows.
    pub nsys: usize,
    /// Number of stations on the upper surface, stagnation point and wake included.
    pub n_upper: usize,
    /// Number of stations on the lower surface, stagnation point and wake included.
    pub n_lower: usize,
    /// Station of the trailing edge on the upper surface.
    pub iblte_upper: usize,
    /// Station of the trailing edge on the lower surface.
    pub iblte_lower: usize,
    /// Diagonal blocks: derivatives by the row's own station.
    pub va: Vec<[[S; 3]; 3]>,
    /// Lower blocks: derivatives by the station upstream.
    pub vb: Vec<[[S; 3]; 3]>,
    /// The block that ties the upper trailing edge to the first wake station.
    pub vz: [[S; 2]; 3],
    /// Mass influence: how equation `k` of row `iv` answers to the mass at row `jv`.
    pub vm: Vec<Vec<[S; 3]>>,
    /// Residuals, the first right-hand side.
    pub vdel: Vec<[S; 3]>,
    /// Sensitivity to the operating variable, the second right-hand side.
    pub vdel_operating: Vec<[S; 3]>,
    /// Direction of the surface: one on the upper, minus one on the lower.
    pub vti: Vec<S>,
    /// Row of the influence matrix for each station.
    pub panel_idx: Vec<usize>,
    /// Whether the station lies behind the trailing edge.
    pub is_wake: Vec<bool>,
    /// Arc length of both surfaces up to the trailing edge.
    pub airfoil_arc_length: S,
    /// Derivatives by the displacement thickness upstream.
    pub vs1_delta: Vec<[S; 3]>,
    /// Derivatives by the edge velocity upstream.
    pub vs1_ue: Vec<[S; 3]>,
    /// Derivatives by the displacement thickness.
    pub vs2_delta: Vec<[S; 3]>,
    /// Derivatives by the edge velocity.
    pub vs2_ue: Vec<[S; 3]>,
    /// Derivatives by the arc length upstream.
    pub vs1_x: Vec<[S; 3]>,
    /// Derivatives by the arc length.
    pub vs2_x: Vec<[S; 3]>,
    /// Derivative of the stagnation arc length by the vorticity before it.
    pub sst_go: S,
    /// Derivative of the stagnation arc length by the vorticity behind it.
    pub sst_gp: S,
    /// Forced change of the first edge velocity on the upper surface.
    pub dule1: S,
    /// Forced change of the first edge velocity on the lower surface.
    pub dule2: S,
    /// The Newton iteration that the system was built for.
    pub current_iteration: usize,
    /// Thickness of a blunt trailing edge.
    pub ante: S,
    /// Arc length of forced transition on the upper surface.
    pub xiforc_upper: Option<S>,
    /// Arc length of forced transition on the lower surface.
    pub xiforc_lower: Option<S>,
}

impl<S> GlobalNewtonSystem<S> {
    /// The tables fit the number of stations, and the rows of both surfaces can be numbered,
    /// that of the first wake station among them. A trailing edge need not be a station.
    pub open spec fn wf(&self) -> bool {
        &&& self.sized()
        &&& 1 <= self.n_upper
        &&& self.n_upper + self.iblte_lower <= usize::MAX
    }

    /// The tables fit the number of stations.
    pub open spec fn sized(&self) -> bool {
        &&& self.nsys + 2 == self.n_upper + self.n_lower <= usize::MAX
        &&& self.va@.len() == self.nsys + 1
        &&& self.vb@.len() == self.nsys + 1
        &&& self.vm@.len() == self.nsys + 1
        &&& forall|i: int| 0 <= i <= self.nsys ==> (#[trigger] self.vm@[i])@.len() == self.nsys + 1
        &&& self.vti@.len() == self.nsys + 1
        &&& self.panel_idx@.len() == self.nsys + 1
        &&& self.is_wake@.len() == self.nsys + 1
        &&& self.vdel@.len() == self.nsys + 1
        &&& self.vdel_operating@.len() == self.nsys + 1
        &&& self.vs1_delta@.len() == self.nsys + 1
        &&& self.vs1_ue@.len() == self.nsys + 1
        &&& self.vs2_delta@.len() == self.nsys + 1
        &&& self.vs2_ue@.len() == self.nsys + 1
        &&& self.vs1_x@.len() == self.nsys + 1
        &&& self.vs2_x@.len() == self.nsys + 1
    }

    /// The row of station `local_ibl` of a surface.
    pub open spec fn row_of(&self, surface: int, local_ibl: int) -> int {
        if surface == 0 {
            local_ibl
        } else {
            self.n_upper - 1 + local_ibl
        }
    }

    /// The surface and the station of a row.
    pub open spec fn station_of(&self, iv: int) -> (int, int) {
        if iv < self.n_upper {
            (0, iv)
        } else {
            (1, iv - (self.n_upper - 1))
        }
    }

    /// The row of the upper trailing edge.
    pub open spec fn upper_te_row(&self) -> int {
        self.iblte_upper as int
    }

    /// The row of the first wake station behind the lower trailing edge.
    pub open spec fn first_wake_row(&self) -> int {
        self.n_upper + self.iblte_lower
    }
}

/// The triple of zeros.
pub open spec fn zeros<S: Real>() -> [S; 3] {
    [whole::<S>(0), whole::<S>(0), whole::<S>(0)]
}

/// The three-by-three block of zeros.
pub open spec fn zero_block<S: Real>() -> [[S; 3]; 3] {
    [zeros::<S>(), zeros::<S>(), zeros::<S>()]
}

/// The three-by-two block of zeros.
pub open spec fn zero_coupling<S: Real>() -> [[S; 2]; 3] {
    [
        [whole::<S>(0), whole::<S>(0)],
        [whole::<S>(0), whole::<S>(0)],
        [whole::<S>(0), whole::<S>(0)],
    ]
}

/// Two triples with the same entries are the same.
pub proof fn lemma_triples_equal<S>(a: [S; 3], b: [S; 3])
    requires
        a[0] == b[0],
        a[1] == b[1],
        a[2] == b[2],
    ensures
        a == b,
{
    assert(a@ =~= b@);
}

/// The triple of zeros.
pub fn zero_triple<S: Real>() -> (r: [S; 3])
    requires
        arithmetic::<S>(),
    ensures
        r == zeros::<S>(),
{
    let z: S = whole(0);
    [z, z, z]
}

impl<S: Real> GlobalNewtonSystem<S> {
    /// What a new system holds: zeros, upward signs, and a unit arc length.
    pub open spec fn blank(
        &self,
        n_upper: usize,
        n_lower: usize,
        iblte_upper: usize,
        iblte_lower: usize,
    ) -> bool {
        let n = (n_upper + n_lower - 1) as nat;
        &&& self.nsys == n_upper + n_lower - 2
        &&& self.n_upper == n_upper
        &&& self.n_lower == n_lower
        &&& self.iblte_upper == iblte_upper
        &&& self.iblte_lower == iblte_lower
        &&& self.va@ == Seq::new(n, |i: int| zero_block::<S>())
        &&& self.vb@ == Seq::new(n, |i: int| zero_block::<S>())
        &&& self.vz == zero_coupling::<S>()
        &&& self.vm@.len() == n
        &&& forall|i: int|
            0 <= i < n ==> (#[trigger] self.vm@[i])@ == Seq::new(n, |j: int| zeros::<S>())
        &&& self.vdel@ == Seq::new(n, |i: int| zeros::<S>())
        &&& self.vdel_operating@ == Seq::new(n, |i: int| zeros::<S>())
        &&& self.vs1_delta@ == Seq::new(n, |i: int| zeros::<S>())
        &&& self.vs1_ue@ == Seq::new(n, |i: int| zeros::<S>())
        &&& self.vs2_delta@ == Seq::new(n, |i: int| zeros::<S>())
        &&& self.vs2_ue@ == Seq::new(n, |i: int| zeros::<S>())
        &&& self.vs1_x@ == Seq::new(n, |i: int| zeros::<S>())
        &&& self.vs2_x@ == Seq::new(n, |i: int| zeros::<S>())
        &&& self.vti@ == Seq::new(n, |i: int| whole::<S>(1))
        &&& self.panel_idx@ == Seq::new(n, |i: int| 0usize)
        &&& self.is_wake@ == Seq::new(n, |i: int| false)
        &&& self.airfoil_arc_length == whole::<S>(1)
        &&& self.sst_go == whole::<S>(0)
        &&& self.sst_gp == whole::<S>(0)
        &&& self.dule1 == whole::<S>(0)
        &&& self.dule2 == whole::<S>(0)
        &&& self.current_iteration == 0
        &&& self.ante == whole::<S>(0)
        &&& self.xiforc_upper is None
        &&& self.xiforc_lower is None
    }

    /// A system for `n_upper` and `n_lower` stations, with nothing built yet.
    ///
    /// It has a row for every station but the two stagnation points.
    pub fn new(n_upper: usize, n_lower: usize, iblte_upper: usize, iblte_lower: usize) -> (r: Self)
        requires
            arithmetic::<S>(),
            2 <= n_upper + n_lower <= usize::MAX,
        ensures
            r.blank(n_upper, n_lower, iblte_upper, iblte_lower),
            r.sized(),
            r.wf() <==> 1 <= n_upper && n_upper + iblte_lower <= usize::MAX,
    {
        let nsys: usize = n_upper + n_lower - 2;
        let n: usize = nsys + 1;
        let z: S = whole(0);
        let one: S = whole(1);
        let t: [S; 3] = zero_triple();
        let block: [[S; 3]; 3] = [t, t, t];
        let mut vm: Vec<Vec<[S; 3]>> = Vec::with_capacity(n);
        let mut i: usize = 0;
        while i < n
            invariant
                i <= n,
                t == zeros::<S>(),
                vm@.len() == i,
                forall|j: int|
                    0 <= j < i ==> (#[trigger] vm@[j])@ == Seq::new(n as nat, |k: int| zeros::<S>()),
            decreases n - i,
        {
            vm.push(filled(t, n));
            i = i + 1;
        }
        GlobalNewtonSystem {
            nsys,
            n_upper,
            n_lower,
            iblte_upper,
            iblte_lower,
            va: filled(block, n),
            vb: filled(block, n),
            vz: [[z, z], [z, z], [z, z]],
            vm,
            vdel: filled(t, n),
            vdel_operating: filled(t, n),
            vti: filled(one, n),
            panel_idx: filled(0usize, n),
            is_wake: filled(false, n),
            airfoil_arc_length: one,
            vs1_delta: filled(t, n),
            vs1_ue: filled(t, n),
            vs2_delta: filled(t, n),
            vs2_ue: filled(t, n),
            vs1_x: filled(t, n),
            vs2_x: filled(t, n),
            sst_go: z,
            sst_gp: z,
            dule1: z,
            dule2: z,
            current_iteration: 0,
            ante: z,
            xiforc_upper: None,
            xiforc_lower: None,
        }
    }

    /// The row of station `local_ibl` of a surface: zero is the upper, any other the lower.
    pub fn to_global(&self, surface: usize, local_ibl: usize) -> (r: usize)
        requires
            surface == 0 || 1 <= self.n_upper,
            surface == 0 || self.n_upper - 1 + local_ibl <= usize::MAX,
        ensures
            r == self.row_of(surface as int, local_ibl as int),
    {
        if surface == 0 {
            local_ibl
        } else {
            self.n_upper - 1 + local_ibl
        }
    }

    /// The surface, zero for upper and one for lower, and the station of row `iv`.
    pub fn from_global(&self, iv: usize) -> (r: (usize, usize))
        requires
            iv < self.n_upper || 1 <= self.n_upper,
        ensures
            (r.0 as int, r.1 as int) == self.station_of(iv as int),
    {
        if iv < self.n_upper {
            (0, iv)
        } else {
            (1, iv - (self.n_upper - 1))
        }
    }

    /// Sets how the stagnation point moves with the vorticity on either side of it.
    /// A derivative that is not finite counts as zero.
    pub fn set_stagnation_derivs(&mut self, sst_go: S, sst_gp: S)
        requires
            arithmetic::<S>(),
        ensures
            *final(self) == (GlobalNewtonSystem {
                sst_go: finite_or_zero(sst_go),
                sst_gp: finite_or_zero(sst_gp),
                ..*old(self)
            }),
    {
        self.sst_go = finite_or_zero(sst_go);
        self.sst_gp = finite_or_zero(sst_gp);
    }

    /// The largest magnitude among the first `n` entries of the residuals, rows in order.
    pub open spec fn residual_bound(&self, n: nat) -> S
        decreases n,
    {
        if n == 0 {
            whole::<S>(0)
        } else {
            larger(
                self.residual_bound((n - 1) as nat),
                abs(self.vdel@[(n - 1) / 3 + 1][(n - 1) % 3]),
            )
        }
    }

    /// The sum of the squares of the first `n` entries of the residuals, rows in order.
    pub open spec fn residual_squares(&self, n: nat) -> S
        decreases n,
    {
        if n == 0 {
            whole::<S>(0)
        } else {
            self.residual_squares((n - 1) as nat) + self.vdel@[(n - 1) / 3 + 1][(n - 1) % 3]
                * self.vdel@[(n - 1) / 3 + 1][(n - 1) % 3]
        }
    }

    /// The mean of the squared residuals.
    pub open spec fn mean_square(&self) -> S {
        self.residual_squares(3 * self.nsys as nat) / (whole::<S>(3) * count::<S>(self.nsys))
    }

    /// The largest magnitude of a residual.
    pub fn max_residual(&self) -> (r: S)
        requires
            arithmetic::<S>(),
            self.sized(),
        ensures
            r == self.residual_bound(3 * self.nsys as nat),
    {
        let mut r: S = whole(0);
        let mut iv: usize = 0;
        while iv < self.nsys
            invariant
                arithmetic::<S>(),
                self.sized(),
                iv <= self.nsys,
                r == self.residual_bound(3 * iv as nat),
            decreases self.nsys - iv,
        {
            let row: [S; 3] = self.vdel[iv + 1];
            proof {
                let n = 3 * iv as nat;
                reveal_with_fuel(GlobalNewtonSystem::residual_bound, 4);
                assert((n + 2) / 3 == iv && (n + 1) / 3 == iv && n / 3 == iv);
                assert((n + 2) % 3 == 2 && (n + 1) % 3 == 1 && n % 3 == 0);
            }
            r = larger(r, abs(row[0]));
            r = larger(r, abs(row[1]));
            r = larger(r, abs(row[2]));
            iv = iv + 1;
        }
        r
    }

    /// The root of the mean squared residual.
    pub fn rms_residual<P: BlClosure<S>>(&self, closure: &P) -> (r: S)
        requires
            arithmetic::<S>(),
            closure.lawful(),
            self.sized(),
        ensures
            r == (closure.laws().sqrt)(self.mean_square()),
    {
        let mut r: S = whole(0);
        let mut iv: usize = 0;
        while iv < self.nsys
            invariant
                arithmetic::<S>(),
                self.sized(),
                iv <= self.nsys,
                r == self.residual_squares(3 * iv as nat),
            decreases self.nsys - iv,
        {
            let row: [S; 3] = self.vdel[iv + 1];
            proof {
                let n = 3 * iv as nat;
                reveal_with_fuel(GlobalNewtonSystem::residual_squares, 4);
                assert((n + 2) / 3 == iv && (n + 1) / 3 == iv && n / 3 == iv);
                assert((n + 2) % 3 == 2 && (n + 1) % 3 == 1 && n % 3 == 0);
            }
            r = r + row[0] * row[0];
            r = r + row[1] * row[1];
            r = r + row[2] * row[2];
            iv = iv + 1;
        }
        closure.sqrt(r / (whole::<S>(3) * count::<S>(self.nsys)))
    }

    /// Whether every residual is smaller than `tolerance`.
    pub fn is_converged(&self, tolerance: S) -> (r: bool)
        requires
            arithmetic::<S>(),
            self.sized(),
        ensures
            r == (self.residual_bound(3 * self.nsys as nat) < tolerance),
    {
        self.max_residual() < tolerance
    }
}

/// Every row belongs to one station of one surface, and back: the two index maps undo
/// each other, on the rows of the system and on the stations behind the stagnation points.
pub proof fn law_index_maps_are_inverse<S>(system: GlobalNewtonSystem<S>, iv: int, ibl: int)
    requires
        system.wf(),
        1 <= system.n_lower,
    ensures
        1 <= iv <= system.nsys ==> system.row_of(system.station_of(iv).0, system.station_of(iv).1) == iv,
        1 <= iv < system.n_upper ==> system.station_of(iv).0 == 0 && 1 <= system.station_of(iv).1
            < system.n_upper,
        system.n_upper <= iv <= system.nsys ==> system.station_of(iv).0 == 1 && 1
            <= system.station_of(iv).1 < system.n_lower,
        1 <= ibl < system.n_upper ==> system.station_of(system.row_of(0, ibl)) == (0int, ibl) && 1
            <= system.row_of(0, ibl) <= system.nsys,
        1 <= ibl < system.n_lower ==> system.station_of(system.row_of(1, ibl)) == (1int, ibl) && 1
            <= system.row_of(1, ibl) <= system.nsys,
{
}

} // verus!
