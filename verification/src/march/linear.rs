//! Small dense systems.
use crate::number::{abs, arithmetic, tenths, tiny, whole, Formula, Real};
use vstd::prelude::*;

verus! {

/// The system `a x = b` of four equations.
#[verifier::reject_recursive_types(S)]
pub struct System4<S> {
    pub a: spec_fn(int, int) -> S,
    pub b: spec_fn(int) -> S,
}

/// The row with the entry of largest magnitude in column `k`, among the rows from `k` up to,
/// but not including, `n`: the first of those that tie.
pub open spec fn pivot_row<S: Real>(m: System4<S>, k: int, n: int) -> int
    decreases n - k,
{
    if n <= k + 1 {
        k
    } else {
        let best = pivot_row(m, k, n - 1);
        if abs((m.a)(n - 1, k)) > abs((m.a)(best, k)) {
            n - 1
        } else {
            best
        }
    }
}

/// Whether a number is too close to zero to divide by.
pub open spec fn negligible<S: Real>(x: S) -> bool {
    abs(x) < tenths::<S>(30)
}

/// The system with the equations `p` and `q` exchanged.
pub open spec fn exchanged<S: Real>(m: System4<S>, p: int, q: int) -> System4<S> {
    let row = |i: int|
        if i == p {
            q
        } else if i == q {
            p
        } else {
            i
        };
    System4 { a: |i: int, j: int| (m.a)(row(i), j), b: |i: int| (m.b)(row(i)) }
}

/// The system with unknown `k` taken out of the equations below `k`, where its pivot is not
/// negligible.
pub open spec fn reduced_below<S: Real>(m: System4<S>, k: int) -> System4<S> {
    if negligible((m.a)(k, k)) {
        m
    } else {
        System4 {
            a: |i: int, j: int|
                if i > k && j >= k {
                    (m.a)(i, j) - (m.a)(i, k) / (m.a)(k, k) * (m.a)(k, j)
                } else {
                    (m.a)(i, j)
                },
            b: |i: int|
                if i > k {
                    (m.b)(i) - (m.a)(i, k) / (m.a)(k, k) * (m.b)(k)
                } else {
                    (m.b)(i)
                },
        }
    }
}

/// The system after the first `n` unknowns were eliminated, each with its largest pivot.
pub open spec fn eliminated<S: Real>(m: System4<S>, n: nat) -> System4<S>
    decreases n,
{
    if n == 0 {
        m
    } else {
        let k = n - 1;
        let before = eliminated(m, k as nat);
        reduced_below(exchanged(before, k, pivot_row(before, k, 4)), k)
    }
}

/// `b[i]` less the products of row `i` with the unknowns from `i + 1` up to, but not
/// including, `n`.
pub open spec fn remainder<S: Real>(m: System4<S>, i: int, n: int) -> S
    decreases 4 - i, n,
{
    if n <= i + 1 || i < 0 || n > 4 {
        (m.b)(i)
    } else {
        remainder(m, i, n - 1) - (m.a)(i, n - 1) * unknown(m, n - 1)
    }
}

/// Unknown `i` of an eliminated system: zero where its pivot is negligible.
pub open spec fn unknown<S: Real>(m: System4<S>, i: int) -> S
    decreases 4 - i, 5int,
{
    if i < 0 || i >= 4 || negligible((m.a)(i, i)) {
        whole::<S>(0)
    } else {
        remainder(m, i, 4) / (m.a)(i, i)
    }
}

/// The system with the matrix `a` and the right-hand side `b`.
pub open spec fn system_of<S>(a: [[S; 4]; 4], b: [S; 4]) -> System4<S> {
    System4 { a: |i: int, j: int| a[i][j], b: |i: int| b[i] }
}

/// The matrix `a` and the right-hand side `b` hold the system `m`.
pub open spec fn holds<S>(a: [[S; 4]; 4], b: [S; 4], m: System4<S>) -> bool {
    &&& forall|i: int, j: int|
        0 <= i < 4 && 0 <= j < 4 ==> #[trigger] a[i][j] == (m.a)(i, j)
    &&& forall|i: int| 0 <= i < 4 ==> #[trigger] b[i] == (m.b)(i)
}

/// Solves `a x = b` by Gauss elimination with partial pivoting. The solution takes the place
/// of `b`, and the triangular matrix that of `a`.
pub fn gauss_4x4<S: Real>(a: &mut [[S; 4]; 4], b: &mut [S; 4])
    requires
        arithmetic::<S>(),
    ensures
        ({
            let m = eliminated(system_of(*old(a), *old(b)), 4);
            &&& forall|i: int, j: int|
                0 <= i < 4 && 0 <= j < 4 ==> #[trigger] final(a)[i][j] == (m.a)(i, j)
            &&& forall|i: int| 0 <= i < 4 ==> #[trigger] final(b)[i] == unknown(m, i)
        }),
{
    let ghost start = system_of(*a, *b);
    let mut k: usize = 0;
    while k < 4
        invariant
            arithmetic::<S>(),
            k <= 4,
            holds(*a, *b, eliminated(start, k as nat)),
        decreases 4 - k,
    {
        let ghost m = eliminated(start, k as nat);
        let mut row: usize = k;
        let mut i: usize = k + 1;
        while i < 4
            invariant
                arithmetic::<S>(),
                k < 4,
                k < i <= 4,
                k <= row < 4,
                holds(*a, *b, m),
                row == pivot_row(m, k as int, i as int),
            decreases 4 - i,
        {
            if abs(a[i][k]) > abs(a[row][k]) {
                row = i;
            }
            i = i + 1;
        }
        let ghost swapped = exchanged(m, k as int, row as int);
        let upper: [S; 4] = a[k];
        let lower: [S; 4] = a[row];
        a[k] = lower;
        a[row] = upper;
        let bu: S = b[k];
        let bl: S = b[row];
        b[k] = bl;
        b[row] = bu;
        assert(holds(*a, *b, swapped));
        if !(abs(a[k][k]) < tiny(30)) {
            let ghost done = reduced_below(swapped, k as int);
            let mut i: usize = k + 1;
            while i < 4
                invariant
                    arithmetic::<S>(),
                    k < 4,
                    k < i <= 4,
                    !negligible((swapped.a)(k as int, k as int)),
                    done == reduced_below(swapped, k as int),
                    forall|p: int, q: int|
                        0 <= p < 4 && 0 <= q < 4 ==> #[trigger] a[p][q] == (if p < i {
                            (done.a)(p, q)
                        } else {
                            (swapped.a)(p, q)
                        }),
                    forall|p: int|
                        0 <= p < 4 ==> #[trigger] b[p] == (if p < i {
                            (done.b)(p)
                        } else {
                            (swapped.b)(p)
                        }),
                decreases 4 - i,
            {
                let factor: S = a[i][k] / a[k][k];
                let mut j: usize = k;
                while j < 4
                    invariant
                        arithmetic::<S>(),
                        k < i < 4,
                        k <= j <= 4,
                        !negligible((swapped.a)(k as int, k as int)),
                        done == reduced_below(swapped, k as int),
                        factor == (swapped.a)(i as int, k as int) / (swapped.a)(k as int, k as int),
                        forall|p: int, q: int|
                            0 <= p < 4 && 0 <= q < 4 ==> #[trigger] a[p][q] == (if p < i || (p
                                == i && q < j) {
                                (done.a)(p, q)
                            } else {
                                (swapped.a)(p, q)
                            }),
                    decreases 4 - j,
                {
                    let entry: S = a[i][j] - factor * a[k][j];
                    a[i][j] = entry;
                    j = j + 1;
                }
                let entry: S = b[i] - factor * b[k];
                b[i] = entry;
                i = i + 1;
            }
        }
        k = k + 1;
    }
    let ghost m = eliminated(start, 4);
    let mut i: usize = 4;
    while i > 0
        invariant
            arithmetic::<S>(),
            i <= 4,
            forall|p: int, q: int|
                0 <= p < 4 && 0 <= q < 4 ==> #[trigger] a[p][q] == (m.a)(p, q),
            forall|p: int|
                0 <= p < 4 ==> #[trigger] b[p] == (if p < i {
                    (m.b)(p)
                } else {
                    unknown(m, p)
                }),
        decreases i,
    {
        i = i - 1;
        if abs(a[i][i]) < tiny(30) {
            b[i] = whole(0);
        } else {
            let mut x: S = b[i];
            let mut j: usize = i + 1;
            while j < 4
                invariant
                    arithmetic::<S>(),
                    i < j <= 4,
                    x == remainder(m, i as int, j as int),
                    forall|p: int, q: int|
                        0 <= p < 4 && 0 <= q < 4 ==> #[trigger] a[p][q] == (m.a)(p, q),
                    forall|p: int| i < p < 4 ==> #[trigger] b[p] == unknown(m, p),
                decreases 4 - j,
            {
                x = x - a[i][j] * b[j];
                j = j + 1;
            }
            b[i] = x / a[i][i];
        }
    }
}

/// The system of a station: the first four columns of its three equations, and a fourth
/// equation.
pub open spec fn closed_system<S>(
    vs2: [[S; 5]; 3],
    res: [S; 3],
    row4: [S; 4],
    rhs4: S,
) -> ([[S; 4]; 4], [S; 4]) {
    (
        [
            [vs2[0][0], vs2[0][1], vs2[0][2], vs2[0][3]],
            [vs2[1][0], vs2[1][1], vs2[1][2], vs2[1][3]],
            [vs2[2][0], vs2[2][1], vs2[2][2], vs2[2][3]],
            row4,
        ],
        [res[0], res[1], res[2], rhs4],
    )
}

/// Closes the three equations of a station with a fourth one.
pub fn build_mrchdu_4x4<S: Real>(
    vs2: &[[S; 5]; 3],
    res: &[S; 3],
    row4: [S; 4],
    rhs4: S,
) -> (r: ([[S; 4]; 4], [S; 4]))
    ensures
        r == closed_system(*vs2, *res, row4, rhs4),
{
    (
        [
            [vs2[0][0], vs2[0][1], vs2[0][2], vs2[0][3]],
            [vs2[1][0], vs2[1][1], vs2[1][2], vs2[1][3]],
            [vs2[2][0], vs2[2][1], vs2[2][2], vs2[2][3]],
            row4,
        ],
        [res[0], res[1], res[2], rhs4],
    )
}

/// The minor of `a` that leaves out one row and one column, with its sign: the rows `p`, `q`
/// and the columns `r`, `s` stay.
pub open spec fn minor<S: Real>(a: [[S; 3]; 3], p: int, q: int, r: int, s: int) -> S {
    a[p][r] * a[q][s] - a[p][s] * a[q][r]
}

/// The determinant of `a`, by its first row.
pub open spec fn determinant<S: Real>(a: [[S; 3]; 3]) -> S {
    a[0][0] * minor(a, 1, 2, 1, 2) - a[0][1] * minor(a, 1, 2, 0, 2) + a[0][2] * minor(
        a,
        1,
        2,
        0,
        1,
    )
}

/// The adjoint of `m` over its determinant.
pub open spec fn inverse<S: Real>(m: [[S; 3]; 3]) -> [[S; 3]; 3] {
    let d = whole::<S>(1) / determinant(m);
    [
        [
            minor(m, 1, 2, 1, 2) * d,
            (m[0][2] * m[2][1] - m[0][1] * m[2][2]) * d,
            minor(m, 0, 1, 1, 2) * d,
        ],
        [
            (m[1][2] * m[2][0] - m[1][0] * m[2][2]) * d,
            minor(m, 0, 2, 0, 2) * d,
            (m[0][2] * m[1][0] - m[0][0] * m[1][2]) * d,
        ],
        [
            minor(m, 1, 2, 0, 1) * d,
            (m[0][1] * m[2][0] - m[0][0] * m[2][1]) * d,
            minor(m, 0, 1, 0, 1) * d,
        ],
    ]
}

/// The inverse of `a`, as its adjoint over its determinant: none where the determinant is
/// negligible.
pub fn invert_3x3_opt<S: Real>(a: &[[S; 3]; 3]) -> (r: Option<[[S; 3]; 3]>)
    requires
        arithmetic::<S>(),
    ensures
        r is None <==> negligible(determinant(*a)),
        r matches Some(x) ==> x == inverse(*a),
{
    let det: S = a[0][0] * (a[1][1] * a[2][2] - a[1][2] * a[2][1]) - a[0][1] * (a[1][0] * a[2][2]
        - a[1][2] * a[2][0]) + a[0][2] * (a[1][0] * a[2][1] - a[1][1] * a[2][0]);
    if abs(det) < tiny(30) {
        return None;
    }
    let d: S = whole::<S>(1) / det;
    Some(
        [
            [
                (a[1][1] * a[2][2] - a[1][2] * a[2][1]) * d,
                (a[0][2] * a[2][1] - a[0][1] * a[2][2]) * d,
                (a[0][1] * a[1][2] - a[0][2] * a[1][1]) * d,
            ],
            [
                (a[1][2] * a[2][0] - a[1][0] * a[2][2]) * d,
                (a[0][0] * a[2][2] - a[0][2] * a[2][0]) * d,
                (a[0][2] * a[1][0] - a[0][0] * a[1][2]) * d,
            ],
            [
                (a[1][0] * a[2][1] - a[1][1] * a[2][0]) * d,
                (a[0][1] * a[2][0] - a[0][0] * a[2][1]) * d,
                (a[0][0] * a[1][1] - a[0][1] * a[1][0]) * d,
            ],
        ],
    )
}

} // verus!
