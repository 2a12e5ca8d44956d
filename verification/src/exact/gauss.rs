//! Gauss elimination solves its system.
use super::algebra::{lemma_distribute, lemma_quotient, lemma_term, lemma_zero};
use super::{exact, lemma_not_small};
use crate::march::linear::{
    eliminated, exchanged, negligible, pivot_row, reduced_below, remainder, unknown, System4,
};
use crate::number::{Formula, Real};
use vstd::prelude::*;

verus! {

/// A number that is not negligible is not zero.
pub proof fn lemma_not_negligible<S: Real>(v: spec_fn(S) -> real, x: S)
    requires
        exact(v),
        !negligible(x),
    ensures
        v(x) != 0real,
{
    lemma_not_small(v, x, 30);
}

/// The unknowns `x` satisfy equation `i` of the system.
pub open spec fn satisfies<S: Real>(
    v: spec_fn(S) -> real,
    m: System4<S>,
    x: spec_fn(int) -> S,
    i: int,
) -> bool {
    v((m.a)(i, 0)) * v(x(0)) + v((m.a)(i, 1)) * v(x(1)) + v((m.a)(i, 2)) * v(x(2)) + v(
        (m.a)(i, 3),
    ) * v(x(3)) == v((m.b)(i))
}

/// The pivot is one of the rows that are left.
proof fn lemma_pivot_bounds<S: Real>(m: System4<S>, k: int, n: int)
    requires
        0 <= k < n,
    ensures
        k <= pivot_row(m, k, n) < n,
    decreases n - k,
{
    if n > k + 1 {
        lemma_pivot_bounds(m, k, n - 1);
    }
}

/// Below the diagonal, the columns of the unknowns that were eliminated are zero, as long as
/// no pivot was negligible.
proof fn lemma_triangular<S: Real>(v: spec_fn(S) -> real, m: System4<S>, n: nat)
    requires
        exact(v),
        n <= 4,
        forall|k: int| 0 <= k < n ==> !negligible(#[trigger] (eliminated(m, n).a)(k, k)),
    ensures
        forall|i: int, j: int|
            0 <= j < n && j < i < 4 ==> v(#[trigger] (eliminated(m, n).a)(i, j)) == 0real,
    decreases n,
{
    if n > 0 {
        let k = n - 1;
        let before = eliminated(m, k as nat);
        let p = pivot_row(before, k, 4);
        lemma_pivot_bounds(before, k, 4);
        let swapped = exchanged(before, k, p);
        let after = eliminated(m, n);
        assert(after == reduced_below(swapped, k));
        assert((after.a)(k, k) == (swapped.a)(k, k));
        assert forall|l: int| 0 <= l < k implies !negligible(#[trigger] (before.a)(l, l)) by {
            assert((after.a)(l, l) == (before.a)(l, l));
        }
        lemma_triangular(v, m, k as nat);
        lemma_not_negligible(v, (swapped.a)(k, k));
        assert forall|i: int, j: int| 0 <= j < n && j < i < 4 implies v(
            #[trigger] (after.a)(i, j),
        ) == 0real by {
            if j < k {
                let r = if i == k {
                    p
                } else if i == p {
                    k
                } else {
                    i
                };
                assert((after.a)(i, j) == (before.a)(r, j));
            } else {
                let a = (swapped.a)(i, k);
                let d = (swapped.a)(k, k);
                assert((after.a)(i, j) == a - a / d * d);
                let x = v(a);
                let y = v(d);
                lemma_quotient(x, y);
            }
        }
    }
}

/// What back substitution takes off a right-hand side.
proof fn lemma_remainder<S: Real>(v: spec_fn(S) -> real, m: System4<S>, i: int)
    requires
        exact(v),
        0 <= i < 4,
    ensures
        ({
            let t = |j: int|
                if j > i {
                    v((m.a)(i, j)) * v(unknown(m, j))
                } else {
                    0real
                };
            v(remainder(m, i, 4)) == v((m.b)(i)) - t(0) - t(1) - t(2) - t(3)
        }),
{
    reveal_with_fuel(remainder, 5);
}

/// The unknowns of back substitution satisfy a triangular system.
proof fn lemma_back_substitution<S: Real>(v: spec_fn(S) -> real, m: System4<S>, i: int)
    requires
        exact(v),
        0 <= i < 4,
        !negligible((m.a)(i, i)),
        forall|j: int| 0 <= j < i ==> v(#[trigger] (m.a)(i, j)) == 0real,
    ensures
        satisfies(v, m, |j: int| unknown(m, j), i),
{
    lemma_remainder(v, m, i);
    lemma_not_negligible(v, (m.a)(i, i));
    let d = v((m.a)(i, i));
    let r = v(remainder(m, i, 4));
    lemma_quotient(r, d);
    let x = |j: int| unknown(m, j);
    assert forall|j: int| 0 <= j < i implies #[trigger] v((m.a)(i, j)) * v(x(j)) == 0real by {
        lemma_zero(v(x(j)));
    }
    assert(v(x(i)) == r / d);
    if i == 0 {
    } else if i == 1 {
        assert(v((m.a)(i, 0)) * v(x(0)) == 0real);
    } else if i == 2 {
        assert(v((m.a)(i, 0)) * v(x(0)) == 0real);
        assert(v((m.a)(i, 1)) * v(x(1)) == 0real);
    } else {
        assert(v((m.a)(i, 0)) * v(x(0)) == 0real);
        assert(v((m.a)(i, 1)) * v(x(1)) == 0real);
        assert(v((m.a)(i, 2)) * v(x(2)) == 0real);
    }
}

/// Adding a multiple of a satisfied equation to a satisfied equation leaves one.
proof fn lemma_combined(a: spec_fn(int) -> real, k: spec_fn(int) -> real, x: spec_fn(int) -> real, b: real, c: real, f: real)
    requires
        (a(0) - f * k(0)) * x(0) + (a(1) - f * k(1)) * x(1) + (a(2) - f * k(2)) * x(2) + (a(3) - f
            * k(3)) * x(3) == b - f * c,
        k(0) * x(0) + k(1) * x(1) + k(2) * x(2) + k(3) * x(3) == c,
    ensures
        a(0) * x(0) + a(1) * x(1) + a(2) * x(2) + a(3) * x(3) == b,
{
    lemma_term(a(0), f, k(0), x(0));
    lemma_term(a(1), f, k(1), x(1));
    lemma_term(a(2), f, k(2), x(2));
    lemma_term(a(3), f, k(3), x(3));
    let s = k(0) * x(0);
    let t = k(1) * x(1);
    let u = k(2) * x(2);
    let w = k(3) * x(3);
    lemma_distribute(f, s + t + u, w);
    lemma_distribute(f, s + t, u);
    lemma_distribute(f, s, t);
}

/// What satisfies the system after an elimination satisfies it before.
proof fn lemma_elimination_step<S: Real>(
    v: spec_fn(S) -> real,
    m: System4<S>,
    n: nat,
    x: spec_fn(int) -> S,
)
    requires
        exact(v),
        1 <= n <= 4,
        forall|k: int| 0 <= k < n ==> !negligible(#[trigger] (eliminated(m, n).a)(k, k)),
        forall|i: int| 0 <= i < 4 ==> #[trigger] satisfies(v, eliminated(m, n), x, i),
    ensures
        forall|i: int|
            0 <= i < 4 ==> #[trigger] satisfies(v, eliminated(m, (n - 1) as nat), x, i),
        forall|k: int|
            0 <= k < n - 1 ==> !negligible(#[trigger] (eliminated(m, (n - 1) as nat).a)(k, k)),
{
    let k = n - 1;
    let before = eliminated(m, k as nat);
    let p = pivot_row(before, k, 4);
    lemma_pivot_bounds(before, k, 4);
    let swapped = exchanged(before, k, p);
    let after = eliminated(m, n);
    assert(after == reduced_below(swapped, k));
    assert((after.a)(k, k) == (swapped.a)(k, k));
    assert forall|l: int| 0 <= l < k implies !negligible(#[trigger] (before.a)(l, l)) by {
        assert((after.a)(l, l) == (before.a)(l, l));
    }
    lemma_triangular(v, m, k as nat);
    lemma_not_negligible(v, (swapped.a)(k, k));
    assert(satisfies(v, after, x, k));
    assert(satisfies(v, swapped, x, k));
    assert forall|i: int| 0 <= i < 4 implies #[trigger] satisfies(v, swapped, x, i) by {
        assert(satisfies(v, after, x, i));
        if i > k {
            let q = (swapped.a)(i, k) / (swapped.a)(k, k);
            let f = v(q);
            assert forall|j: int| 0 <= j < 4 implies v(#[trigger] (after.a)(i, j)) == v(
                (swapped.a)(i, j),
            ) - f * v((swapped.a)(k, j)) by {
                if j < k {
                    assert((swapped.a)(k, j) == (before.a)(p, j));
                    assert(v((before.a)(p, j)) == 0real);
                    lemma_zero(f);
                } else {
                    assert((after.a)(i, j) == (swapped.a)(i, j) - q * (swapped.a)(k, j));
                }
            }
            assert(v((after.a)(i, 0)) == v((swapped.a)(i, 0)) - f * v((swapped.a)(k, 0)));
            assert(v((after.a)(i, 1)) == v((swapped.a)(i, 1)) - f * v((swapped.a)(k, 1)));
            assert(v((after.a)(i, 2)) == v((swapped.a)(i, 2)) - f * v((swapped.a)(k, 2)));
            assert(v((after.a)(i, 3)) == v((swapped.a)(i, 3)) - f * v((swapped.a)(k, 3)));
            assert((after.b)(i) == (swapped.b)(i) - q * (swapped.b)(k));
            lemma_combined(
                |j: int| v((swapped.a)(i, j)),
                |j: int| v((swapped.a)(k, j)),
                |j: int| v(x(j)),
                v((swapped.b)(i)),
                v((swapped.b)(k)),
                f,
            );
        }
    }
    assert forall|i: int| 0 <= i < 4 implies #[trigger] satisfies(v, before, x, i) by {
        let r = if i == k {
            p
        } else if i == p {
            k
        } else {
            i
        };
        assert(satisfies(v, swapped, x, r));
    }
}

/// What satisfies the system after `n` eliminations satisfies the system.
proof fn lemma_eliminations<S: Real>(
    v: spec_fn(S) -> real,
    m: System4<S>,
    n: nat,
    x: spec_fn(int) -> S,
)
    requires
        exact(v),
        n <= 4,
        forall|k: int| 0 <= k < n ==> !negligible(#[trigger] (eliminated(m, n).a)(k, k)),
        forall|i: int| 0 <= i < 4 ==> #[trigger] satisfies(v, eliminated(m, n), x, i),
    ensures
        forall|i: int| 0 <= i < 4 ==> #[trigger] satisfies(v, m, x, i),
    decreases n,
{
    if n > 0 {
        lemma_elimination_step(v, m, n, x);
        lemma_eliminations(v, m, (n - 1) as nat, x);
    } else {
        assert(eliminated(m, n) == m);
    }
}

/// The unknowns that Gauss elimination finds.
pub open spec fn solution<S: Real>(m: System4<S>) -> spec_fn(int) -> S {
    |j: int| unknown(eliminated(m, 4), j)
}

/// Gauss elimination solves its system, as long as no pivot is negligible.
pub proof fn law_gauss_solves<S: Real>(v: spec_fn(S) -> real, m: System4<S>)
    requires
        exact(v),
        forall|k: int| 0 <= k < 4 ==> !negligible(#[trigger] (eliminated(m, 4).a)(k, k)),
    ensures
        forall|i: int| 0 <= i < 4 ==> #[trigger] satisfies(v, m, solution(m), i),
{
    let e = eliminated(m, 4);
    let x = solution(m);
    lemma_triangular(v, m, 4);
    assert forall|i: int| 0 <= i < 4 implies #[trigger] satisfies(v, e, x, i) by {
        assert(!negligible((e.a)(i, i)));
        lemma_back_substitution(v, e, i);
    }
    lemma_eliminations(v, m, 4, x);
}

} // verus!
