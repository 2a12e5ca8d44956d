//! A system and its solution as they are listed: row by row, without the padding.
use crate::callable::{mapped, tabulated};
use crate::global_newton::system::GlobalNewtonSystem;
use crate::number::{abs, arithmetic, tenths, tiny, Formula, Real};
use vstd::prelude::*;

verus! {

/// The entries of a table, without the padding in front of them.
pub open spec fn past_padding<T>(v: Seq<T>) -> Seq<T> {
    if v.len() == 0 {
        v
    } else {
        v.subrange(1, v.len() as int)
    }
}

/// The entries of a table, such as the solution of a system, without the padding in front of
/// them.
pub fn without_padding<T: Copy>(v: &[T]) -> (r: Vec<T>)
    ensures
        r@ == past_padding(v@),
{
    let n: usize = if v.len() == 0 {
        0
    } else {
        v.len() - 1
    };
    let entry = |i: usize| -> (t: T)
        requires
            i + 1 < v@.len(),
        ensures
            t == v@[i + 1],
        {
            v[i + 1]
        };
    let r: Vec<T> = tabulated(n, entry);
    proof {
        assert forall|i: int| 0 <= i < n implies #[trigger] r@[i] == past_padding(v@)[i] by {
            assert(i as usize == i);
        }
        assert(r@ =~= past_padding(v@));
    }
    r
}

/// The two columns of a block that stand for its first two variables.
pub open spec fn two_columns<S>(b: [[S; 3]; 3]) -> [[S; 2]; 3] {
    [[b[0][0], b[0][1]], [b[1][0], b[1][1]], [b[2][0], b[2][1]]]
}

/// The blocks of a system, two columns of each.
fn list_blocks<S: Copy>(v: &[[[S; 3]; 3]]) -> (r: Vec<[[S; 2]; 3]>)
    ensures
        r@ == past_padding(v@).map_values(|b: [[S; 3]; 3]| two_columns(b)),
{
    let columns = |b: [[S; 3]; 3]| -> (c: [[S; 2]; 3])
        ensures
            c == two_columns(b),
        {
            [[b[0][0], b[0][1]], [b[1][0], b[1][1]], [b[2][0], b[2][1]]]
        };
    let r: Vec<[[S; 2]; 3]> = mapped(&without_padding(v), columns);
    assert(r@ =~= past_padding(v@).map_values(|b: [[S; 3]; 3]| two_columns(b)));
    r
}

/// A built system as it is listed.
#[derive(Clone, Debug)]
pub struct SystemListing<S> {
    pub nsys: usize,
    pub va_blocks: Vec<[[S; 2]; 3]>,
    pub vb_blocks: Vec<[[S; 2]; 3]>,
    pub vdel_rhs: Vec<[S; 3]>,
    /// The mass column of every row for the row's own station.
    pub vm_diag: Vec<[S; 3]>,
    /// The mass columns of single rows, where the system has them.
    pub vm_row1: Vec<[S; 3]>,
    pub vm_row24: Option<Vec<[S; 3]>>,
    pub vm_row25: Option<Vec<[S; 3]>>,
    pub vm_row26: Option<Vec<[S; 3]>>,
    /// All mass columns, where they were asked for.
    pub vm_full: Option<Vec<Vec<[S; 3]>>>,
}

impl<S> SystemListing<S> {
    /// The listing of a system, with all mass columns or without.
    pub open spec fn lists(&self, system: &GlobalNewtonSystem<S>, full: bool) -> bool {
        &&& self.nsys == system.nsys
        &&& self.va_blocks@ == past_padding(system.va@).map_values(
            |b: [[S; 3]; 3]| two_columns(b),
        )
        &&& self.vb_blocks@ == past_padding(system.vb@).map_values(
            |b: [[S; 3]; 3]| two_columns(b),
        )
        &&& self.vdel_rhs@ == past_padding(system.vdel@)
        &&& self.vm_diag@ == Seq::new(
            system.nsys as nat,
            |i: int| system.vm@[i + 1]@[i + 1],
        )
        &&& self.vm_row1@ == Seq::new(system.nsys as nat, |j: int| system.vm@[1]@[j + 1])
        &&& system.lists_row(24, self.vm_row24)
        &&& system.lists_row(25, self.vm_row25)
        &&& system.lists_row(26, self.vm_row26)
        &&& match self.vm_full {
            Some(rows) => {
                &&& full
                &&& rows@.len() == system.nsys
                &&& forall|i: int|
                    0 <= i < rows@.len() ==> (#[trigger] rows@[i])@ == past_padding(
                        system.vm@[i + 1]@,
                    )
            },
            None => !full,
        }
    }
}

impl<S> GlobalNewtonSystem<S> {
    /// The mass columns of a row, where the system has it.
    pub open spec fn lists_row(&self, row: usize, r: Option<Vec<[S; 3]>>) -> bool {
        match r {
            Some(v) => row <= self.nsys && v@ == past_padding(self.vm@[row as int]@),
            None => row > self.nsys,
        }
    }
}

impl<S: Real> GlobalNewtonSystem<S> {
    /// The mass columns of a row, where the system has it.
    pub fn mass_row(&self, row: usize) -> (r: Option<Vec<[S; 3]>>)
        requires
            self.sized(),
        ensures
            self.lists_row(row, r),
    {
        if row > self.nsys {
            None
        } else {
            Some(without_padding(&self.vm[row]))
        }
    }

    /// The listing of the system, with all mass columns or without.
    pub fn setbl_listing(&self, full: bool) -> (r: SystemListing<S>)
        requires
            self.sized(),
        ensures
            r.lists(self, full),
    {
        let n: usize = self.nsys;
        let own = |i: usize| -> (c: [S; 3])
            requires
                self.sized(),
                i < self.nsys,
            ensures
                c == self.vm@[i + 1]@[i + 1],
            {
                self.vm[i + 1][i + 1]
            };
        let vm_diag: Vec<[S; 3]> = tabulated(n, own);
        let first = |j: usize| -> (c: [S; 3])
            requires
                self.sized(),
                j < self.nsys,
            ensures
                c == self.vm@[1]@[j + 1],
            {
                self.vm[1][j + 1]
            };
        let vm_row1: Vec<[S; 3]> = tabulated(n, first);
        let columns = |i: usize| -> (c: Vec<[S; 3]>)
            requires
                self.sized(),
                i < self.nsys,
            ensures
                c@ == past_padding(self.vm@[i + 1]@),
            {
                without_padding(&self.vm[i + 1])
            };
        let vm_full: Option<Vec<Vec<[S; 3]>>> = if full {
            let rows: Vec<Vec<[S; 3]>> = tabulated(n, columns);
            proof {
                assert forall|i: int| 0 <= i < n implies (#[trigger] rows@[i])@ == past_padding(
                    self.vm@[i + 1]@,
                ) by {
                    assert(i as usize == i);
                }
            }
            Some(rows)
        } else {
            None
        };
        proof {
            let diagonal = Seq::new(n as nat, |i: int| self.vm@[i + 1]@[i + 1]);
            let row = Seq::new(n as nat, |j: int| self.vm@[1]@[j + 1]);
            assert forall|i: int| 0 <= i < n implies #[trigger] vm_diag@[i] == diagonal[i] by {
                assert(i as usize == i);
            }
            assert forall|j: int| 0 <= j < n implies #[trigger] vm_row1@[j] == row[j] by {
                assert(j as usize == j);
            }
            assert(vm_diag@ =~= diagonal);
            assert(vm_row1@ =~= row);
        }
        SystemListing {
            nsys: n,
            va_blocks: list_blocks(&self.va),
            vb_blocks: list_blocks(&self.vb),
            vdel_rhs: without_padding(&self.vdel),
            vm_diag,
            vm_row1,
            vm_row24: self.mass_row(24),
            vm_row25: self.mass_row(25),
            vm_row26: self.mass_row(26),
            vm_full,
        }
    }
}

/// Whether a mass column is more than next to nothing.
pub open spec fn stands_out<S: Real>(c: [S; 3]) -> bool {
    abs(c[0]) > tenths::<S>(6) || abs(c[1]) > tenths::<S>(6) || abs(c[2]) > tenths::<S>(6)
}

/// The columns that stand out among the first `n`, each with its number, from one.
pub open spec fn standing_out<S: Real>(columns: Seq<[S; 3]>, n: nat) -> Seq<(usize, [S; 3])>
    decreases n,
{
    if n == 0 {
        Seq::empty()
    } else {
        let before = standing_out(columns, (n - 1) as nat);
        if stands_out(columns[n - 1]) {
            before.push((n as usize, columns[n - 1]))
        } else {
            before
        }
    }
}

/// The columns that stand out, each with its number, from one.
pub fn find_standing_out<S: Real>(columns: &[[S; 3]]) -> (r: Vec<(usize, [S; 3])>)
    requires
        arithmetic::<S>(),
    ensures
        r@ == standing_out(columns@, columns@.len()),
{
    let mut r: Vec<(usize, [S; 3])> = Vec::new();
    let mut i: usize = 0;
    while i < columns.len()
        invariant
            arithmetic::<S>(),
            i <= columns@.len(),
            r@ == standing_out(columns@, i as nat),
        decreases columns@.len() - i,
    {
        let c: [S; 3] = columns[i];
        i = i + 1;
        if abs(c[0]) > tiny(6) || abs(c[1]) > tiny(6) || abs(c[2]) > tiny(6) {
            r.push((i, c));
        }
    }
    r
}

} // verus!
