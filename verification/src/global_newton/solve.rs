//! Elimination and back substitution.
//!
//! The forward sweep takes the rows in order. It brings the block of the row to the unit
//! matrix, by operations that every later column of the row and both right-hand sides go
//! through alike, and then clears the column of the row from the rows below. The entries
//! far below the diagonal are cleared only where they are large enough to matter.
//! Back substitution carries each mass change up through the columns above it.
use crate::global_newton::system::{lemma_triples_equal, zero_triple, zeros, GlobalNewtonSystem};
use crate::number::{abs, arithmetic, decimal, larger, tenths, tiny, whole, Formula, Real};
use crate::station::{copied, filled};
use vstd::prelude::*;

verus! {

/// The solution of the system for both right-hand sides. Entry zero is padding.
pub struct GlobalSolveResult<S> {
    /// The Newton step.
    pub state_deltas: Vec<[S; 3]>,
    /// Its derivative by the operating variable.
    pub operating_deltas: Vec<[S; 3]>,
}

/// The factors that bring the block of a row to the unit matrix.
#[derive(Clone, Copy)]
pub struct PivotFactors<S> {
    /// Inverses of the three pivots.
    pub pivot: [S; 3],
    /// The entry right of the first pivot, normalised.
    pub above: S,
    /// The entries below the first pivot.
    pub below: [S; 2],
    /// The entry below the second pivot.
    pub last: S,
    /// The entries of the mass column above its pivot.
    pub mass: [S; 2],
}

/// `1 / x`, or zero where `x` is too close to zero to divide by.
pub open spec fn guarded_inverse<S: Real>(x: S) -> S {
    if abs(x) < tenths::<S>(25) {
        whole::<S>(0)
    } else {
        whole::<S>(1) / x
    }
}

/// The first three steps of the reduction: the column is in triangular form.
pub open spec fn triangular<S: Real>(c: [S; 3], p0: S, below: [S; 2], p1: S, last: S) -> [S; 3] {
    let c0 = c[0] * p0;
    let c1 = (c[1] - below[0] * c0) * p1;
    [c0, c1, c[2] - below[1] * c0 - last * c1]
}

/// The factors for a row with the block `a` and the mass column `m`.
pub open spec fn pivot_factors<S: Real>(a: [[S; 3]; 3], m: [S; 3]) -> PivotFactors<S> {
    let p0 = guarded_inverse(a[0][0]);
    let above = a[0][1] * p0;
    let below = [a[1][0], a[2][0]];
    let p1 = guarded_inverse(a[1][1] - a[1][0] * above);
    let last = a[2][1] - a[2][0] * above;
    let t = triangular(m, p0, below, p1, last);
    PivotFactors {
        pivot: [p0, p1, guarded_inverse(t[2])],
        above,
        below,
        last,
        mass: [t[0], t[1]],
    }
}

/// The column `c` of a row, reduced with the row's factors.
pub open spec fn reduced<S: Real>(c: [S; 3], f: PivotFactors<S>) -> [S; 3] {
    let t = triangular(c, f.pivot[0], f.below, f.pivot[1], f.last);
    let c2 = t[2] * f.pivot[2];
    let c1 = t[1] - f.mass[1] * c2;
    [t[0] - f.mass[0] * c2 - f.above * c1, c1, c2]
}

/// The column `c` of the row below, after the block `b` and the mass column `lead` are
/// cleared with the reduced column `r`.
pub open spec fn next_row_cleared<S: Real>(
    c: [S; 3],
    b: [[S; 3]; 3],
    lead: [S; 3],
    r: [S; 3],
) -> [S; 3] {
    [
        c[0] - (b[0][0] * r[0] + b[0][1] * r[1] + lead[0] * r[2]),
        c[1] - (b[1][0] * r[0] + b[1][1] * r[1] + lead[1] * r[2]),
        c[2] - (b[2][0] * r[0] + b[2][1] * r[1] + lead[2] * r[2]),
    ]
}

/// The column `c` of the first wake row, after the trailing edge block `z` is cleared.
pub open spec fn wake_row_cleared<S: Real>(c: [S; 3], z: [[S; 2]; 3], r: [S; 3]) -> [S; 3] {
    [
        c[0] - (z[0][0] * r[0] + z[0][1] * r[1]),
        c[1] - (z[1][0] * r[0] + z[1][1] * r[1]),
        c[2] - (z[2][0] * r[0] + z[2][1] * r[1]),
    ]
}

/// The entry `c` of a row far below, after the entry `lead` of the mass column is cleared,
/// which it is only where it exceeds `threshold`.
pub open spec fn far_entry_cleared<S: Real>(c: S, lead: S, threshold: S, r: S) -> S {
    if abs(lead) > threshold {
        c - lead * r
    } else {
        c
    }
}

/// The column `c` of a row far below, after the mass column `lead` is cleared.
pub open spec fn far_row_cleared<S: Real>(
    c: [S; 3],
    lead: [S; 3],
    thresholds: [S; 2],
    r: [S; 3],
) -> [S; 3] {
    [
        far_entry_cleared(c[0], lead[0], thresholds[0], r[2]),
        far_entry_cleared(c[1], lead[1], thresholds[1], r[2]),
        far_entry_cleared(c[2], lead[2], thresholds[1], r[2]),
    ]
}

/// The reduced column `r` of a row that is the first wake row itself: the trailing edge block
/// `z` is cleared from it entry by entry, each with those before it.
pub open spec fn own_row_cleared<S: Real>(z: [[S; 2]; 3], r: [S; 3]) -> [S; 3] {
    let r0 = r[0] - (z[0][0] * r[0] + z[0][1] * r[1]);
    let r1 = r[1] - (z[1][0] * r0 + z[1][1] * r[1]);
    [r0, r1, r[2] - (z[2][0] * r0 + z[2][1] * r1)]
}

impl<S: Real> GlobalNewtonSystem<S> {
    /// The thresholds for entries far below the diagonal: of the first equation, and of
    /// the second and third, which scale with the arc length.
    pub open spec fn thresholds(&self) -> [S; 2] {
        [
            decimal::<S>(1, 100),
            decimal::<S>(1, 100) * whole::<S>(2) / larger(self.airfoil_arc_length, whole::<S>(1)),
        ]
    }

    /// Whether the trailing edge block is cleared with row `iv`: that of the upper trailing
    /// edge, where another row follows it.
    pub open spec fn edge_at(&self, iv: int) -> bool {
        iv == self.upper_te_row() && iv < self.nsys
    }

    /// What row `iv` keeps of its reduced column `r`.
    pub open spec fn kept_column(&self, iv: int, r: [S; 3]) -> [S; 3] {
        if self.edge_at(iv) && iv == self.first_wake_row() {
            own_row_cleared(self.vz, r)
        } else {
            r
        }
    }

    /// What clearing the column of row `iv` leaves of a column `c` of another row `i`: `lead`
    /// is the mass column of row `i` at `iv`, and `r` the reduced column of row `iv`. Of the
    /// rows above, only a first wake row is touched.
    pub open spec fn cleared(&self, iv: int, i: int, c: [S; 3], lead: [S; 3], r: [S; 3]) -> [S; 3] {
        if i < iv {
            if self.edge_at(iv) && i == self.first_wake_row() {
                wake_row_cleared(c, self.vz, r)
            } else {
                c
            }
        } else {
            let c = if i == iv + 1 {
                next_row_cleared(c, self.vb@[i], lead, r)
            } else {
                c
            };
            let c = if iv == self.upper_te_row() && i == self.first_wake_row() {
                wake_row_cleared(c, self.vz, r)
            } else {
                c
            };
            if i > iv + 1 {
                far_row_cleared(c, lead, self.thresholds(), self.kept_column(iv, r))
            } else {
                c
            }
        }
    }

    /// The mass column `l` of row `i` after the first `n` rows were eliminated.
    pub open spec fn mass_after(&self, n: nat, i: int, l: int) -> [S; 3]
        decreases n,
    {
        if n == 0 {
            self.vm@[i]@[l]
        } else {
            let m = (n - 1) as nat;
            let iv = n as int;
            let c = self.mass_after(m, i, l);
            let f = pivot_factors(self.va@[iv], self.mass_after(m, iv, iv));
            let r = reduced(self.mass_after(m, iv, l), f);
            if l <= iv {
                c
            } else if i == iv {
                self.kept_column(iv, r)
            } else {
                self.cleared(iv, i, c, self.mass_after(m, i, iv), r)
            }
        }
    }

    /// The factors of row `iv` after the first `n` rows were eliminated.
    pub open spec fn factors_at(&self, n: nat, iv: int) -> PivotFactors<S> {
        pivot_factors(self.va@[iv], self.mass_after(n, iv, iv))
    }

    /// Entry `i` of the right-hand side `b` after the first `n` rows were eliminated.
    pub open spec fn rhs_after(&self, b: Seq<[S; 3]>, n: nat, i: int) -> [S; 3]
        decreases n,
    {
        if n == 0 {
            b[i]
        } else {
            let m = (n - 1) as nat;
            let iv = n as int;
            let c = self.rhs_after(b, m, i);
            let r = reduced(self.rhs_after(b, m, iv), self.factors_at(m, iv));
            if i == iv {
                self.kept_column(iv, r)
            } else {
                self.cleared(iv, i, c, self.mass_after(m, i, iv), r)
            }
        }
    }

    /// Entry `i` of the eliminated right-hand side after the mass changes of the rows from
    /// `nsys` down to `from` were carried up.
    pub open spec fn carried(&self, b: Seq<[S; 3]>, i: int, from: int) -> [S; 3]
        decreases self.nsys + 1 - from,
    {
        if from > self.nsys {
            self.rhs_after(b, self.nsys as nat, i)
        } else {
            let c = self.carried(b, i, from + 1);
            let m = self.mass_after(self.nsys as nat, i, from);
            let mass = self.carried(b, from, from + 1)[2];
            [c[0] - m[0] * mass, c[1] - m[1] * mass, c[2] - m[2] * mass]
        }
    }

    /// The solution of the system for the right-hand side `b`. A system of fewer than two
    /// rows has the zero solution.
    pub open spec fn solution(&self, b: Seq<[S; 3]>) -> Seq<[S; 3]> {
        Seq::new(
            (self.nsys + 1) as nat,
            |i: int|
                if self.nsys < 2 {
                    zeros::<S>()
                } else if i == 0 {
                    b[0]
                } else {
                    self.carried(b, i, i + 1)
                },
        )
    }

    /// `vm` holds the mass columns after the first `n` rows were eliminated.
    pub open spec fn masses_are(&self, n: nat, vm: Seq<Vec<[S; 3]>>) -> bool {
        &&& vm.len() == self.nsys + 1
        &&& forall|i: int| 0 <= i <= self.nsys ==> (#[trigger] vm[i])@.len() == self.nsys + 1
        &&& forall|i: int, l: int|
            1 <= i <= self.nsys && 1 <= l <= self.nsys ==> #[trigger] vm[i]@[l] == self.mass_after(
                n,
                i,
                l,
            )
    }

    /// `v` holds the right-hand side `b` after the first `n` rows were eliminated.
    pub open spec fn rhs_is(&self, b: Seq<[S; 3]>, n: nat, v: Seq<[S; 3]>) -> bool {
        &&& v.len() == self.nsys + 1
        &&& forall|i: int| 0 <= i <= self.nsys ==> #[trigger] v[i] == self.rhs_after(b, n, i)
    }
}

/// `1 / x`, or zero where `x` is too close to zero to divide by.
fn safe_inv<S: Real>(x: S) -> (r: S)
    requires
        arithmetic::<S>(),
    ensures
        r == guarded_inverse(x),
{
    if abs(x) < tiny(25) {
        whole(0)
    } else {
        whole::<S>(1) / x
    }
}

/// The factors for a row with the block `a` and the mass column `m`.
fn factor_pivot<S: Real>(a: &[[S; 3]; 3], m: &[S; 3]) -> (r: PivotFactors<S>)
    requires
        arithmetic::<S>(),
    ensures
        r == pivot_factors(*a, *m),
{
    let p0: S = safe_inv(a[0][0]);
    let above: S = a[0][1] * p0;
    let p1: S = safe_inv(a[1][1] - a[1][0] * above);
    let last: S = a[2][1] - a[2][0] * above;
    let t0: S = m[0] * p0;
    let t1: S = (m[1] - a[1][0] * t0) * p1;
    let t2: S = m[2] - a[2][0] * t0 - last * t1;
    PivotFactors {
        pivot: [p0, p1, safe_inv(t2)],
        above,
        below: [a[1][0], a[2][0]],
        last,
        mass: [t0, t1],
    }
}

/// The column `c` of a row, reduced with the row's factors.
fn reduce<S: Real>(c: &[S; 3], f: &PivotFactors<S>) -> (r: [S; 3])
    requires
        arithmetic::<S>(),
    ensures
        r == reduced(*c, *f),
{
    let t0: S = c[0] * f.pivot[0];
    let t1: S = (c[1] - f.below[0] * t0) * f.pivot[1];
    let t2: S = c[2] - f.below[1] * t0 - f.last * t1;
    let c2: S = t2 * f.pivot[2];
    let c1: S = t1 - f.mass[1] * c2;
    [t0 - f.mass[0] * c2 - f.above * c1, c1, c2]
}

/// How the column of a pivot row is cleared from one row below it.
struct Clearing<S> {
    next: Option<[[S; 3]; 3]>,
    wake: Option<[[S; 2]; 3]>,
    lead: [S; 3],
    far: [bool; 3],
}

impl<S: Real> Clearing<S> {
    /// This is the clearing of the column of row `iv` from row `i` of `system`.
    spec fn is_for(&self, system: GlobalNewtonSystem<S>, iv: int, i: int, lead: [S; 3]) -> bool {
        let t = system.thresholds();
        &&& self.next == (if i == iv + 1 {
            Some(system.vb@[i])
        } else {
            None
        })
        &&& self.wake == (if iv == system.upper_te_row() && i == system.first_wake_row() {
            Some(system.vz)
        } else {
            None
        })
        &&& self.lead == lead
        &&& self.far[0] == (i > iv + 1 && abs(lead[0]) > t[0])
        &&& self.far[1] == (i > iv + 1 && abs(lead[1]) > t[1])
        &&& self.far[2] == (i > iv + 1 && abs(lead[2]) > t[1])
    }

    /// Whether there is nothing to clear.
    fn is_idle(&self) -> (r: bool)
        ensures
            r <==> self.next is None && self.wake is None && !self.far[0] && !self.far[1]
                && !self.far[2],
    {
        self.next.is_none() && self.wake.is_none() && !self.far[0] && !self.far[1]
            && !self.far[2]
    }

    /// The column `c` of the row below with the reduced column `r` cleared from it, of which
    /// its own row has kept `kept`.
    fn apply(
        &self,
        c: &[S; 3],
        r: &[S; 3],
        kept: &[S; 3],
        Ghost(system): Ghost<GlobalNewtonSystem<S>>,
        Ghost(iv): Ghost<int>,
        Ghost(i): Ghost<int>,
    ) -> (out: [S; 3])
        requires
            arithmetic::<S>(),
            i > iv,
            i <= system.nsys,
            self.is_for(system, iv, i, self.lead),
            *kept == system.kept_column(iv, *r),
        ensures
            out == system.cleared(iv, i, *c, self.lead, *r),
    {
        let mut out: [S; 3] = *c;
        if let Some(b) = self.next {
            let lead: [S; 3] = self.lead;
            out = [
                out[0] - (b[0][0] * r[0] + b[0][1] * r[1] + lead[0] * r[2]),
                out[1] - (b[1][0] * r[0] + b[1][1] * r[1] + lead[1] * r[2]),
                out[2] - (b[2][0] * r[0] + b[2][1] * r[1] + lead[2] * r[2]),
            ];
        }
        if let Some(z) = self.wake {
            out = [
                out[0] - (z[0][0] * r[0] + z[0][1] * r[1]),
                out[1] - (z[1][0] * r[0] + z[1][1] * r[1]),
                out[2] - (z[2][0] * r[0] + z[2][1] * r[1]),
            ];
        }
        let ghost before = out;
        if self.far[0] {
            out[0] = out[0] - self.lead[0] * kept[2];
        }
        if self.far[1] {
            out[1] = out[1] - self.lead[1] * kept[2];
        }
        if self.far[2] {
            out[2] = out[2] - self.lead[2] * kept[2];
        }
        proof {
            lemma_triples_equal(out, system.cleared(iv, i, *c, self.lead, *r));
        }
        out
    }
}

/// What a row keeps of its reduced column `r`, where `own` says that it is the first wake row
/// of its own trailing edge.
fn keep_column<S: Real>(z: &[[S; 2]; 3], r: &[S; 3], own: bool) -> (out: [S; 3])
    requires
        arithmetic::<S>(),
    ensures
        out == (if own {
            own_row_cleared(*z, *r)
        } else {
            *r
        }),
{
    if own {
        let r0: S = r[0] - (z[0][0] * r[0] + z[0][1] * r[1]);
        let r1: S = r[1] - (z[1][0] * r0 + z[1][1] * r[1]);
        [r0, r1, r[2] - (z[2][0] * r0 + z[2][1] * r1)]
    } else {
        *r
    }
}

/// The column `c` of a first wake row, after the trailing edge block `z` is cleared.
fn clear_wake_row<S: Real>(c: &[S; 3], z: &[[S; 2]; 3], r: &[S; 3]) -> (out: [S; 3])
    requires
        arithmetic::<S>(),
    ensures
        out == wake_row_cleared(*c, *z, *r),
{
    [
        c[0] - (z[0][0] * r[0] + z[0][1] * r[1]),
        c[1] - (z[1][0] * r[0] + z[1][1] * r[1]),
        c[2] - (z[2][0] * r[0] + z[2][1] * r[1]),
    ]
}

/// The columns of a row that is eliminated: the mass columns, and both right-hand sides.
struct PivotRow<S> {
    masses: Vec<[S; 3]>,
    state: [S; 3],
    operating: [S; 3],
}

impl<S: Real> PivotRow<S> {
    /// These are the reduced columns of row `iv`.
    spec fn is_for(&self, system: GlobalNewtonSystem<S>, iv: int) -> bool {
        let m = (iv - 1) as nat;
        let f = system.factors_at(m, iv);
        &&& self.masses@.len() == system.nsys + 1
        &&& forall|l: int|
            iv < l <= system.nsys ==> #[trigger] self.masses@[l] == reduced(
                system.mass_after(m, iv, l),
                f,
            )
        &&& self.state == reduced(system.rhs_after(system.vdel@, m, iv), f)
        &&& self.operating == reduced(system.rhs_after(system.vdel_operating@, m, iv), f)
    }
}

/// Reduces the columns of row `iv`, and gives them as they are before the row is touched by
/// its own trailing edge block.
fn reduce_row<S: Real>(
    system: &GlobalNewtonSystem<S>,
    iv: usize,
    vm: &mut Vec<Vec<[S; 3]>>,
    state: &mut Vec<[S; 3]>,
    operating: &mut Vec<[S; 3]>,
) -> (r: PivotRow<S>)
    requires
        arithmetic::<S>(),
        system.wf(),
        1 <= iv <= system.nsys,
        system.masses_are((iv - 1) as nat, old(vm)@),
        system.rhs_is(system.vdel@, (iv - 1) as nat, old(state)@),
        system.rhs_is(system.vdel_operating@, (iv - 1) as nat, old(operating)@),
    ensures
        r.is_for(*system, iv as int),
        final(vm)@.len() == system.nsys + 1,
        forall|i: int|
            0 <= i <= system.nsys ==> (#[trigger] final(vm)@[i])@.len() == system.nsys + 1,
        forall|i: int, k: int|
            1 <= i <= system.nsys && 1 <= k <= system.nsys ==> #[trigger] final(vm)@[i]@[k] == (
            if i == iv {
                system.mass_after(iv as nat, i, k)
            } else {
                system.mass_after((iv - 1) as nat, i, k)
            }),
        final(state)@ == old(state)@.update(
            iv as int,
            system.rhs_after(system.vdel@, iv as nat, iv as int),
        ),
        final(operating)@ == old(operating)@.update(
            iv as int,
            system.rhs_after(system.vdel_operating@, iv as nat, iv as int),
        ),
{
    let nsys: usize = system.nsys;
    let ghost m = (iv - 1) as nat;
    let f: PivotFactors<S> = factor_pivot(&system.va[iv], &vm[iv][iv]);
    let own: bool = iv == system.iblte_upper && iv < nsys && iv == system.n_upper
        + system.iblte_lower;
    let mut masses: Vec<[S; 3]> = filled(zero_triple(), nsys + 1);
    let mut l: usize = iv + 1;
    while l <= nsys
        invariant
            arithmetic::<S>(),
            system.wf(),
            nsys == system.nsys,
            1 <= iv <= nsys,
            iv < l <= nsys + 1,
            m == iv - 1,
            f == system.factors_at(m, iv as int),
            own == (system.edge_at(iv as int) && iv == system.first_wake_row()),
            masses@.len() == nsys + 1,
            forall|k: int|
                iv < k < l ==> #[trigger] masses@[k] == reduced(
                    system.mass_after(m, iv as int, k),
                    f,
                ),
            vm@.len() == nsys + 1,
            forall|i: int| 0 <= i <= nsys ==> (#[trigger] vm@[i])@.len() == nsys + 1,
            forall|i: int, k: int|
                1 <= i <= nsys && 1 <= k <= nsys ==> #[trigger] vm@[i]@[k] == (if i == iv && k < l {
                    system.mass_after(iv as nat, i, k)
                } else {
                    system.mass_after(m, i, k)
                }),
        decreases nsys + 1 - l,
    {
        let c: [S; 3] = reduce(&vm[iv][l], &f);
        masses[l] = c;
        vm[iv][l] = keep_column(&system.vz, &c, own);
        l = l + 1;
    }
    let rs: [S; 3] = reduce(&state[iv], &f);
    let ro: [S; 3] = reduce(&operating[iv], &f);
    state[iv] = keep_column(&system.vz, &rs, own);
    operating[iv] = keep_column(&system.vz, &ro, own);
    PivotRow { masses, state: rs, operating: ro }
}

/// Clears the trailing edge block from a first wake row above row `iv`.
fn clear_above<S: Real>(
    system: &GlobalNewtonSystem<S>,
    iv: usize,
    pivot: &PivotRow<S>,
    vm: &mut Vec<Vec<[S; 3]>>,
    state: &mut Vec<[S; 3]>,
    operating: &mut Vec<[S; 3]>,
)
    requires
        arithmetic::<S>(),
        system.wf(),
        1 <= iv <= system.nsys,
        pivot.is_for(*system, iv as int),
        old(vm)@.len() == system.nsys + 1,
        forall|i: int|
            0 <= i <= system.nsys ==> (#[trigger] old(vm)@[i])@.len() == system.nsys + 1,
        forall|i: int, k: int|
            1 <= i <= system.nsys && 1 <= k <= system.nsys ==> #[trigger] old(vm)@[i]@[k] == (
            if i == iv {
                system.mass_after(iv as nat, i, k)
            } else {
                system.mass_after((iv - 1) as nat, i, k)
            }),
        old(state)@.len() == system.nsys + 1,
        old(operating)@.len() == system.nsys + 1,
        forall|i: int|
            0 <= i <= system.nsys && i != iv ==> #[trigger] old(state)@[i] == system.rhs_after(
                system.vdel@,
                (iv - 1) as nat,
                i,
            ),
        forall|i: int|
            0 <= i <= system.nsys && i != iv ==> #[trigger] old(operating)@[i]
                == system.rhs_after(system.vdel_operating@, (iv - 1) as nat, i),
    ensures
        final(vm)@.len() == system.nsys + 1,
        forall|i: int|
            0 <= i <= system.nsys ==> (#[trigger] final(vm)@[i])@.len() == system.nsys + 1,
        forall|i: int, k: int|
            1 <= i <= system.nsys && 1 <= k <= system.nsys ==> #[trigger] final(vm)@[i]@[k] == (
            if i <= iv {
                system.mass_after(iv as nat, i, k)
            } else {
                system.mass_after((iv - 1) as nat, i, k)
            }),
        final(state)@.len() == system.nsys + 1,
        final(operating)@.len() == system.nsys + 1,
        final(state)@[iv as int] == old(state)@[iv as int],
        final(operating)@[iv as int] == old(operating)@[iv as int],
        forall|i: int|
            0 <= i <= system.nsys && i != iv ==> #[trigger] final(state)@[i] == system.rhs_after(
                system.vdel@,
                (if i < iv {
                    iv as nat
                } else {
                    (iv - 1) as nat
                }),
                i,
            ),
        forall|i: int|
            0 <= i <= system.nsys && i != iv ==> #[trigger] final(operating)@[i]
                == system.rhs_after(
                system.vdel_operating@,
                (if i < iv {
                    iv as nat
                } else {
                    (iv - 1) as nat
                }),
                i,
            ),
{
    let nsys: usize = system.nsys;
    let wake: usize = system.n_upper + system.iblte_lower;
    let ghost m = (iv - 1) as nat;
    if iv == system.iblte_upper && iv < nsys && wake < iv {
        let mut l: usize = iv + 1;
        while l <= nsys
            invariant
                arithmetic::<S>(),
                system.wf(),
                nsys == system.nsys,
                wake == system.first_wake_row(),
                1 <= wake < iv < nsys,
                system.edge_at(iv as int),
                iv < l <= nsys + 1,
                m == iv - 1,
                pivot.is_for(*system, iv as int),
                vm@.len() == nsys + 1,
                forall|i: int| 0 <= i <= nsys ==> (#[trigger] vm@[i])@.len() == nsys + 1,
                forall|i: int, k: int|
                    1 <= i <= nsys && 1 <= k <= nsys ==> #[trigger] vm@[i]@[k] == (if i == iv || (i
                        == wake && k < l) {
                        system.mass_after(iv as nat, i, k)
                    } else {
                        system.mass_after(m, i, k)
                    }),
            decreases nsys + 1 - l,
        {
            let c: [S; 3] = clear_wake_row(&vm[wake][l], &system.vz, &pivot.masses[l]);
            vm[wake][l] = c;
            l = l + 1;
        }
        let cs: [S; 3] = clear_wake_row(&state[wake], &system.vz, &pivot.state);
        let co: [S; 3] = clear_wake_row(&operating[wake], &system.vz, &pivot.operating);
        state[wake] = cs;
        operating[wake] = co;
    }
}

/// Eliminates row `iv`: reduces its columns, and clears its own column from the other rows.
fn eliminate_row<S: Real>(
    system: &GlobalNewtonSystem<S>,
    iv: usize,
    thresholds: &[S; 2],
    vm: &mut Vec<Vec<[S; 3]>>,
    state: &mut Vec<[S; 3]>,
    operating: &mut Vec<[S; 3]>,
)
    requires
        arithmetic::<S>(),
        system.wf(),
        1 <= iv <= system.nsys,
        *thresholds == system.thresholds(),
        system.masses_are((iv - 1) as nat, old(vm)@),
        system.rhs_is(system.vdel@, (iv - 1) as nat, old(state)@),
        system.rhs_is(system.vdel_operating@, (iv - 1) as nat, old(operating)@),
    ensures
        system.masses_are(iv as nat, final(vm)@),
        system.rhs_is(system.vdel@, iv as nat, final(state)@),
        system.rhs_is(system.vdel_operating@, iv as nat, final(operating)@),
{
    let nsys: usize = system.nsys;
    let ghost m = (iv - 1) as nat;
    let ghost bs = system.vdel@;
    let ghost bo = system.vdel_operating@;
    let pivot: PivotRow<S> = reduce_row(system, iv, vm, state, operating);
    clear_above(system, iv, &pivot, vm, state, operating);
    let rs: [S; 3] = state[iv];
    let ro: [S; 3] = operating[iv];
    let ivte: usize = system.iblte_upper;
    let wake: usize = system.n_upper + system.iblte_lower;
    let mut kv: usize = iv + 1;
    while kv <= nsys
        invariant
            arithmetic::<S>(),
            system.wf(),
            nsys == system.nsys,
            1 <= iv <= nsys,
            iv < kv <= nsys + 1,
            m == iv - 1,
            pivot.is_for(*system, iv as int),
            ivte == system.upper_te_row(),
            wake == system.first_wake_row(),
            *thresholds == system.thresholds(),
            bs == system.vdel@,
            bo == system.vdel_operating@,
            rs == system.rhs_after(bs, iv as nat, iv as int),
            ro == system.rhs_after(bo, iv as nat, iv as int),
            vm@.len() == nsys + 1,
            forall|i: int| 0 <= i <= nsys ==> (#[trigger] vm@[i])@.len() == nsys + 1,
            forall|i: int, k: int|
                1 <= i <= nsys && 1 <= k <= nsys ==> #[trigger] vm@[i]@[k] == (if i < kv {
                    system.mass_after(iv as nat, i, k)
                } else {
                    system.mass_after(m, i, k)
                }),
            state@.len() == nsys + 1,
            operating@.len() == nsys + 1,
            forall|i: int| 0 <= i <= nsys ==> #[trigger] state@[i] == (if i < kv {
                system.rhs_after(bs, iv as nat, i)
            } else {
                system.rhs_after(bs, m, i)
            }),
            forall|i: int| 0 <= i <= nsys ==> #[trigger] operating@[i] == (if i < kv {
                system.rhs_after(bo, iv as nat, i)
            } else {
                system.rhs_after(bo, m, i)
            }),
        decreases nsys + 1 - kv,
    {
        let lead: [S; 3] = vm[kv][iv];
        let far: bool = kv > iv + 1;
        let clearing = Clearing {
            next: if kv == iv + 1 {
                Some(system.vb[kv])
            } else {
                None
            },
            wake: if iv == ivte && kv == wake {
                Some(system.vz)
            } else {
                None
            },
            lead,
            far: [
                far && abs(lead[0]) > thresholds[0],
                far && abs(lead[1]) > thresholds[1],
                far && abs(lead[2]) > thresholds[1],
            ],
        };
        assert(clearing.is_for(*system, iv as int, kv as int, lead));
        let idle: bool = clearing.is_idle();
        if idle {
            assert forall|k: int| 1 <= k <= nsys implies vm@[kv as int]@[k] == system.mass_after(
                iv as nat,
                kv as int,
                k,
            ) by {
                let c = vm@[kv as int]@[k];
                assert(c == system.mass_after(m, kv as int, k));
                lemma_triples_equal(far_row_cleared(c, lead, *thresholds, vm@[iv as int]@[k]), c);
                if k > iv {
                    assert(vm@[iv as int]@[k] == system.kept_column(
                        iv as int,
                        pivot.masses@[k],
                    ));
                }
            }
        }
        let mut l: usize = if idle {
            nsys + 1
        } else {
            iv + 1
        };
        while l <= nsys
            invariant
                arithmetic::<S>(),
                system.wf(),
                nsys == system.nsys,
                1 <= iv < kv <= nsys,
                iv < l <= nsys + 1,
                m == iv - 1,
                clearing.is_for(*system, iv as int, kv as int, lead),
                lead == system.mass_after(m, kv as int, iv as int),
                pivot.is_for(*system, iv as int),
                vm@.len() == nsys + 1,
                forall|i: int| 0 <= i <= nsys ==> (#[trigger] vm@[i])@.len() == nsys + 1,
                forall|i: int, k: int|
                    1 <= i <= nsys && 1 <= k <= nsys ==> #[trigger] vm@[i]@[k] == (if i < kv || (i == kv
                        && k < l) {
                        system.mass_after(iv as nat, i, k)
                    } else {
                        system.mass_after(m, i, k)
                    }),
            decreases nsys + 1 - l,
        {
            let kept: [S; 3] = vm[iv][l];
            assert(vm@[iv as int]@[l as int] == system.mass_after(iv as nat, iv as int, l as int));
            let c: [S; 3] = clearing.apply(
                &vm[kv][l],
                &pivot.masses[l],
                &kept,
                Ghost(*system),
                Ghost(iv as int),
                Ghost(kv as int),
            );
            vm[kv][l] = c;
            l = l + 1;
        }
        let cs: [S; 3] = clearing.apply(
            &state[kv],
            &pivot.state,
            &rs,
            Ghost(*system),
            Ghost(iv as int),
            Ghost(kv as int),
        );
        let co: [S; 3] = clearing.apply(
            &operating[kv],
            &pivot.operating,
            &ro,
            Ghost(*system),
            Ghost(iv as int),
            Ghost(kv as int),
        );
        state[kv] = cs;
        operating[kv] = co;
        kv = kv + 1;
    }
}

/// Carries the mass change of row `iv` up through the columns above it.
fn carry_up<S: Real>(
    system: &GlobalNewtonSystem<S>,
    iv: usize,
    vm: &Vec<Vec<[S; 3]>>,
    v: &mut Vec<[S; 3]>,
    Ghost(b): Ghost<Seq<[S; 3]>>,
)
    requires
        arithmetic::<S>(),
        system.wf(),
        2 <= iv <= system.nsys,
        system.masses_are(system.nsys as nat, vm@),
        old(v)@.len() == system.nsys + 1,
        old(v)@[0] == b[0],
        forall|i: int|
            1 <= i <= system.nsys ==> #[trigger] old(v)@[i] == system.carried(b, i, (if i <= iv {
                iv + 1
            } else {
                i + 1
            })),
    ensures
        final(v)@.len() == system.nsys + 1,
        final(v)@[0] == b[0],
        forall|i: int|
            1 <= i <= system.nsys ==> #[trigger] final(v)@[i] == system.carried(b, i, (if i < iv {
                iv as int
            } else {
                i + 1
            })),
{
    let mass: S = v[iv][2];
    let mut kv: usize = 1;
    while kv < iv
        invariant
            arithmetic::<S>(),
            system.wf(),
            1 <= kv <= iv,
            2 <= iv <= system.nsys,
            mass == system.carried(b, iv as int, iv + 1)[2],
            system.masses_are(system.nsys as nat, vm@),
            v@.len() == system.nsys + 1,
            v@[0] == b[0],
            forall|i: int|
                1 <= i <= system.nsys ==> #[trigger] v@[i] == system.carried(b, i, (if i < kv {
                    iv as int
                } else if i <= iv {
                    iv + 1
                } else {
                    i + 1
                })),
        decreases iv - kv,
    {
        let m: [S; 3] = vm[kv][iv];
        let c: [S; 3] = v[kv];
        v[kv] = [c[0] - m[0] * mass, c[1] - m[1] * mass, c[2] - m[2] * mass];
        kv = kv + 1;
    }
}

/// Solves the system for both right-hand sides, by block elimination.
///
/// Both solutions are the same function of their right-hand side. The system stays as it is.
pub fn solve_global_system<S: Real>(system: &mut GlobalNewtonSystem<S>) -> (r: GlobalSolveResult<S>)
    requires
        arithmetic::<S>(),
        old(system).wf(),
    ensures
        *final(system) == *old(system),
        r.state_deltas@ == old(system).solution(old(system).vdel@),
        r.operating_deltas@ == old(system).solution(old(system).vdel_operating@),
{
    let system: &GlobalNewtonSystem<S> = system;
    let nsys: usize = system.nsys;
    if nsys < 2 {
        let z: [S; 3] = zero_triple();
        return GlobalSolveResult {
            state_deltas: filled(z, nsys + 1),
            operating_deltas: filled(z, nsys + 1),
        };
    }
    let hundredth: S = decimal(1, 100);
    let thresholds: [S; 2] = [
        hundredth,
        hundredth * whole::<S>(2) / larger(system.airfoil_arc_length, whole::<S>(1)),
    ];
    let mut state: Vec<[S; 3]> = copied(&system.vdel);
    let mut operating: Vec<[S; 3]> = copied(&system.vdel_operating);
    let mut vm: Vec<Vec<[S; 3]>> = Vec::with_capacity(nsys + 1);
    let mut i: usize = 0;
    while i <= nsys
        invariant
            system.wf(),
            nsys == system.nsys,
            i <= nsys + 1,
            vm@.len() == i,
            forall|j: int| 0 <= j < i ==> (#[trigger] vm@[j])@ == system.vm@[j]@,
        decreases nsys + 1 - i,
    {
        vm.push(copied(&system.vm[i]));
        i = i + 1;
    }
    let mut iv: usize = 1;
    while iv <= nsys
        invariant
            arithmetic::<S>(),
            system.wf(),
            nsys == system.nsys,
            1 <= iv <= nsys + 1,
            thresholds == system.thresholds(),
            system.masses_are((iv - 1) as nat, vm@),
            system.rhs_is(system.vdel@, (iv - 1) as nat, state@),
            system.rhs_is(system.vdel_operating@, (iv - 1) as nat, operating@),
        decreases nsys + 1 - iv,
    {
        eliminate_row(system, iv, &thresholds, &mut vm, &mut state, &mut operating);
        iv = iv + 1;
    }
    proof {
        lemma_padding_unchanged(*system, system.vdel@, nsys as nat);
        lemma_padding_unchanged(*system, system.vdel_operating@, nsys as nat);
    }
    let mut iv: usize = nsys;
    while iv >= 2
        invariant
            arithmetic::<S>(),
            system.wf(),
            nsys == system.nsys,
            1 <= iv <= nsys,
            system.masses_are(nsys as nat, vm@),
            state@.len() == nsys + 1,
            operating@.len() == nsys + 1,
            state@[0] == system.vdel@[0],
            operating@[0] == system.vdel_operating@[0],
            forall|i: int|
                1 <= i <= nsys ==> #[trigger] state@[i] == system.carried(
                    system.vdel@,
                    i,
                    (if i <= iv {
                        iv + 1
                    } else {
                        i + 1
                    }),
                ),
            forall|i: int|
                1 <= i <= nsys ==> #[trigger] operating@[i] == system.carried(
                    system.vdel_operating@,
                    i,
                    (if i <= iv {
                        iv + 1
                    } else {
                        i + 1
                    }),
                ),
        decreases iv,
    {
        carry_up(system, iv, &vm, &mut state, Ghost(system.vdel@));
        carry_up(system, iv, &vm, &mut operating, Ghost(system.vdel_operating@));
        iv = iv - 1;
    }
    GlobalSolveResult { state_deltas: state, operating_deltas: operating }
}

/// Elimination leaves the padding entry of a right-hand side alone.
proof fn lemma_padding_unchanged<S: Real>(
    system: GlobalNewtonSystem<S>,
    b: Seq<[S; 3]>,
    n: nat,
)
    requires
        system.wf(),
    ensures
        system.rhs_after(b, n, 0) == b[0],
    decreases n,
{
    if n > 0 {
        lemma_padding_unchanged(system, b, (n - 1) as nat);
    }
}

} // verus!
