//! The global solution solves the global system.
use super::algebra::{
    lemma_associate, lemma_commute, lemma_distribute, lemma_distribute_three, lemma_inverse,
    lemma_term, lemma_zero,
};
use super::{exact, lemma_not_small};
use crate::global_newton::solve::{guarded_inverse, pivot_factors, reduced, triangular};
use crate::global_newton::system::GlobalNewtonSystem;
use crate::number::{abs, tenths, Formula, Real};
use vstd::prelude::*;

verus! {

/// The sum of the products `c(l) x(l)`, from `from` up to, but not including, `to`.
pub open spec fn weighted(
    c: spec_fn(int) -> real,
    x: spec_fn(int) -> real,
    from: int,
    to: int,
) -> real
    decreases to - from,
{
    if from >= to {
        0real
    } else {
        c(from) * x(from) + weighted(c, x, from + 1, to)
    }
}

/// The weighted sum of a combination is the combination of the weighted sums.
proof fn lemma_combination(
    c: spec_fn(int) -> real,
    d: spec_fn(int) -> real,
    r0: spec_fn(int) -> real,
    r1: spec_fn(int) -> real,
    r2: spec_fn(int) -> real,
    p0: real,
    p1: real,
    p2: real,
    x: spec_fn(int) -> real,
    from: int,
    to: int,
)
    requires
        forall|l: int|
            from <= l < to ==> #[trigger] c(l) == d(l) + p0 * r0(l) + p1 * r1(l) + p2 * r2(l),
    ensures
        weighted(c, x, from, to) == weighted(d, x, from, to) + p0 * weighted(r0, x, from, to) + p1
            * weighted(r1, x, from, to) + p2 * weighted(r2, x, from, to),
    decreases to - from,
{
    if from >= to {
        lemma_zero(p0);
        lemma_zero(p1);
        lemma_zero(p2);
    } else {
        lemma_combination(c, d, r0, r1, r2, p0, p1, p2, x, from + 1, to);
        let y = x(from);
        let e = d(from);
        let s = p0 * r0(from);
        let t = p1 * r1(from);
        let u = p2 * r2(from);
        assert(c(from) == e + s + t + u);
        lemma_commute(e + s + t + u, y);
        lemma_distribute(y, e + s + t, u);
        lemma_distribute_three(y, e, s, t);
        lemma_commute(e, y);
        lemma_commute(s, y);
        lemma_commute(t, y);
        lemma_commute(u, y);
        lemma_associate(p0, r0(from), y);
        lemma_associate(p1, r1(from), y);
        lemma_associate(p2, r2(from), y);
        lemma_distribute(p0, r0(from) * y, weighted(r0, x, from + 1, to));
        lemma_distribute(p1, r1(from) * y, weighted(r1, x, from + 1, to));
        lemma_distribute(p2, r2(from) * y, weighted(r2, x, from + 1, to));
    }
}

/// The weighted sum of zeros.
proof fn lemma_no_weight(x: spec_fn(int) -> real, from: int, to: int)
    ensures
        weighted(|l: int| 0real, x, from, to) == 0real,
    decreases to - from,
{
    if from < to {
        lemma_no_weight(x, from + 1, to);
        lemma_zero(x(from));
    }
}

/// Sums of equal terms are equal.
proof fn lemma_weights_agree(
    c: spec_fn(int) -> real,
    d: spec_fn(int) -> real,
    x: spec_fn(int) -> real,
    from: int,
    to: int,
)
    requires
        forall|l: int| from <= l < to ==> #[trigger] c(l) == d(l),
    ensures
        weighted(c, x, from, to) == weighted(d, x, from, to),
    decreases to - from,
{
    if from < to {
        assert(c(from) == d(from));
        lemma_weights_agree(c, d, x, from + 1, to);
    }
}

/// The equation of the first row of a block, from its reduced column.
proof fn lemma_first_row(a00: real, a01: real, m0: real, c0: real, r1: real, r2: real)
    requires
        a00 != 0real,
    ensures
        ({
            let p0 = 1real / a00;
            let r0 = c0 * p0 - (m0 * p0) * r2 - (a01 * p0) * r1;
            c0 == a00 * r0 + a01 * r1 + m0 * r2
        }),
{
    let p0 = 1real / a00;
    let s0 = c0 * p0;
    let t0 = m0 * p0;
    let above = a01 * p0;
    lemma_inverse(c0, a00);
    lemma_inverse(m0, a00);
    lemma_inverse(a01, a00);
    lemma_associate(a00, t0, r2);
    lemma_associate(a00, above, r1);
    let r0 = s0 - t0 * r2 - above * r1;
    lemma_distribute_three(a00, r0, t0 * r2, above * r1);
    assert(r0 + t0 * r2 + above * r1 == s0);
}

/// The equation of the second row of a block, from its reduced column: `s0` is the first
/// entry of its triangular column.
proof fn lemma_second_row(
    a10: real,
    a11: real,
    above: real,
    m1: real,
    t0: real,
    c1: real,
    s0: real,
    r0: real,
    r2: real,
)
    requires
        a11 - a10 * above != 0real,
        ({
            let p1 = 1real / (a11 - a10 * above);
            let t1 = (m1 - a10 * t0) * p1;
            let r1 = (c1 - a10 * s0) * p1 - t1 * r2;
            s0 == r0 + t0 * r2 + above * r1
        }),
    ensures
        ({
            let p1 = 1real / (a11 - a10 * above);
            let t1 = (m1 - a10 * t0) * p1;
            let r1 = (c1 - a10 * s0) * p1 - t1 * r2;
            c1 == a10 * r0 + a11 * r1 + m1 * r2
        }),
{
    let d = a11 - a10 * above;
    let p1 = 1real / d;
    let t1 = (m1 - a10 * t0) * p1;
    let s1 = (c1 - a10 * s0) * p1;
    let r1 = s1 - t1 * r2;
    lemma_inverse(c1 - a10 * s0, d);
    lemma_inverse(m1 - a10 * t0, d);
    assert(d * s1 == c1 - a10 * s0);
    lemma_distribute(d, r1, t1 * r2);
    assert(r1 + t1 * r2 == s1);
    lemma_associate(d, t1, r2);
    lemma_term(m1, a10, t0, r2);
    lemma_term(a11, a10, above, r1);
    lemma_distribute_three(a10, r0, t0 * r2, above * r1);
}

/// The equation of the third row of a block, from its reduced column: `s0` and `s1` are the
/// first entries of its triangular column.
proof fn lemma_third_row(
    a20: real,
    a21: real,
    above: real,
    m2: real,
    t0: real,
    t1: real,
    c2: real,
    s0: real,
    s1: real,
    r0: real,
    r1: real,
)
    requires
        m2 - a20 * t0 - (a21 - a20 * above) * t1 != 0real,
        ({
            let last = a21 - a20 * above;
            let p2 = 1real / (m2 - a20 * t0 - last * t1);
            let r2 = (c2 - a20 * s0 - last * s1) * p2;
            &&& s0 == r0 + t0 * r2 + above * r1
            &&& s1 == r1 + t1 * r2
        }),
    ensures
        ({
            let last = a21 - a20 * above;
            let p2 = 1real / (m2 - a20 * t0 - last * t1);
            let r2 = (c2 - a20 * s0 - last * s1) * p2;
            c2 == a20 * r0 + a21 * r1 + m2 * r2
        }),
{
    let last = a21 - a20 * above;
    let t2 = m2 - a20 * t0 - last * t1;
    let s2 = c2 - a20 * s0 - last * s1;
    let p2 = 1real / t2;
    let r2 = s2 * p2;
    lemma_inverse(s2, t2);
    assert(t2 * r2 == s2);
    lemma_term(m2 - a20 * t0, last, t1, r2);
    lemma_term(m2, a20, t0, r2);
    lemma_distribute(last, r1, t1 * r2);
    lemma_term(a21, a20, above, r1);
    lemma_distribute_three(a20, r0, t0 * r2, above * r1);
}

/// No pivot of the block `a` with the mass column `m` is too small to divide by.
pub open spec fn divisible<S: Real>(a: [[S; 3]; 3], m: [S; 3]) -> bool {
    let f = pivot_factors(a, m);
    let t = triangular(m, f.pivot[0], f.below, f.pivot[1], f.last);
    &&& !(abs(a[0][0]) < tenths::<S>(25))
    &&& !(abs(a[1][1] - a[1][0] * f.above) < tenths::<S>(25))
    &&& !(abs(t[2]) < tenths::<S>(25))
}

/// The inverse of a number that is not too small.
proof fn lemma_guarded<S: Real>(v: spec_fn(S) -> real, x: S)
    requires
        exact(v),
        !(abs(x) < tenths::<S>(25)),
    ensures
        v(x) != 0real,
        v(guarded_inverse(x)) == 1real / v(x),
{
    lemma_not_small(v, x, 25);
}

/// The block times a reduced column is the column.
proof fn lemma_reduced<S: Real>(
    v: spec_fn(S) -> real,
    a: [[S; 3]; 3],
    m: [S; 3],
    c: [S; 3],
    k: int,
)
    requires
        exact(v),
        divisible(a, m),
        0 <= k < 3,
    ensures
        ({
            let r = reduced(c, pivot_factors(a, m));
            v(c[k]) == v(a[k][0]) * v(r[0]) + v(a[k][1]) * v(r[1]) + v(m[k]) * v(r[2])
        }),
{
    let f = pivot_factors(a, m);
    let t = triangular(m, f.pivot[0], f.below, f.pivot[1], f.last);
    let s = triangular(c, f.pivot[0], f.below, f.pivot[1], f.last);
    let r = reduced(c, f);
    lemma_guarded(v, a[0][0]);
    lemma_guarded(v, a[1][1] - a[1][0] * f.above);
    lemma_guarded(v, t[2]);
    assert(v(r[2]) == v(s[2]) * v(f.pivot[2]));
    assert(v(r[1]) == v(s[1]) - v(t[1]) * v(r[2]));
    assert(v(r[0]) == v(s[0]) - v(t[0]) * v(r[2]) - v(f.above) * v(r[1]));
    if k == 0 {
        lemma_first_row(v(a[0][0]), v(a[0][1]), v(m[0]), v(c[0]), v(r[1]), v(r[2]));
    } else if k == 1 {
        lemma_second_row(
            v(a[1][0]),
            v(a[1][1]),
            v(f.above),
            v(m[1]),
            v(t[0]),
            v(c[1]),
            v(s[0]),
            v(r[0]),
            v(r[2]),
        );
    } else {
        lemma_third_row(
            v(a[2][0]),
            v(a[2][1]),
            v(f.above),
            v(m[2]),
            v(t[0]),
            v(t[1]),
            v(c[2]),
            v(s[0]),
            v(s[1]),
            v(r[0]),
            v(r[1]),
        );
    }
}

/// The mass changes of a solution.
pub open spec fn masses<S: Real>(v: spec_fn(S) -> real, x: Seq<[S; 3]>) -> spec_fn(int) -> real {
    |l: int| v(x[l][2])
}

/// The first two columns of a block times the first two changes of a station.
pub open spec fn block<S: Real>(v: spec_fn(S) -> real, a: [[S; 3]; 3], x: [S; 3], k: int) -> real {
    v(a[k][0]) * v(x[0]) + v(a[k][1]) * v(x[1])
}

/// The trailing-edge block times the first two changes of a station.
pub open spec fn edge_block<S: Real>(
    v: spec_fn(S) -> real,
    z: [[S; 2]; 3],
    x: [S; 3],
    k: int,
) -> real {
    v(z[k][0]) * v(x[0]) + v(z[k][1]) * v(x[1])
}

/// The left-hand side of equation `k` of row `i`, for the changes `x`: the station's own
/// block, the block of the station upstream, the block of the upper trailing edge on the
/// first wake row, and the mass influence of all stations.
pub open spec fn left_side<S: Real>(
    v: spec_fn(S) -> real,
    system: GlobalNewtonSystem<S>,
    x: Seq<[S; 3]>,
    i: int,
    k: int,
) -> real {
    let te = system.upper_te_row();
    let upstream = if i > 1 {
        block(v, system.vb@[i], x[i - 1], k)
    } else {
        0real
    };
    let edge = if i == system.first_wake_row() && te >= 1 {
        edge_block(v, system.vz, x[te], k)
    } else {
        0real
    };
    block(v, system.va@[i], x[i], k) + upstream + edge + weighted(
        |l: int| v(system.vm@[i]@[l][k]),
        masses(v, x),
        1,
        system.nsys + 1,
    )
}

/// Every row has pivots that can be divided by.
pub open spec fn regular<S: Real>(system: GlobalNewtonSystem<S>) -> bool {
    forall|iv: int|
        1 <= iv <= system.nsys ==> divisible(
            #[trigger] system.va@[iv],
            system.mass_after((iv - 1) as nat, iv, iv),
        )
}

/// The threshold that an entry of equation `k` far below the diagonal has to exceed.
pub open spec fn threshold<S: Real>(system: GlobalNewtonSystem<S>, k: int) -> S {
    if k == 0 {
        system.thresholds()[0]
    } else {
        system.thresholds()[1]
    }
}

/// No entry far below the diagonal is passed over, but for zeros.
pub open spec fn nothing_skipped<S: Real>(
    v: spec_fn(S) -> real,
    system: GlobalNewtonSystem<S>,
) -> bool {
    forall|iv: int, i: int, k: int|
        1 <= iv && iv + 1 < i <= system.nsys && 0 <= k < 3 ==> {
            let lead = #[trigger] system.mass_after((iv - 1) as nat, i, iv)[k];
            abs(lead) > threshold(system, k) || v(lead) == 0real
        }
}

/// Equation `k` of the mass columns of row `i` after `n` rows were eliminated.
spec fn row_masses<S: Real>(
    v: spec_fn(S) -> real,
    system: GlobalNewtonSystem<S>,
    n: nat,
    i: int,
    k: int,
) -> spec_fn(int) -> real {
    |l: int| v(system.mass_after(n, i, l)[k])
}

/// The left-hand side of a row that is left after `n` rows were eliminated.
spec fn pending<S: Real>(
    v: spec_fn(S) -> real,
    system: GlobalNewtonSystem<S>,
    x: Seq<[S; 3]>,
    n: nat,
    i: int,
    k: int,
) -> real {
    let te = system.upper_te_row();
    let upstream = if i - 1 > n {
        block(v, system.vb@[i], x[i - 1], k)
    } else {
        0real
    };
    let edge = if i == system.first_wake_row() && te > n {
        edge_block(v, system.vz, x[te], k)
    } else {
        0real
    };
    block(v, system.va@[i], x[i], k) + upstream + edge + weighted(
        row_masses(v, system, n, i, k),
        masses(v, x),
        (n + 1) as int,
        system.nsys + 1,
    )
}

/// The left-hand side of a row that was eliminated.
spec fn settled<S: Real>(
    v: spec_fn(S) -> real,
    system: GlobalNewtonSystem<S>,
    x: Seq<[S; 3]>,
    i: int,
    k: int,
) -> real {
    v(x[i][k]) + weighted(
        row_masses(v, system, i as nat, i, k),
        masses(v, x),
        i + 1,
        system.nsys + 1,
    )
}

/// A row that was eliminated stays as it is.
proof fn lemma_stays<S: Real>(
    system: GlobalNewtonSystem<S>,
    b: Seq<[S; 3]>,
    n: nat,
    i: int,
    l: int,
)
    requires
        system.upper_te_row() < system.first_wake_row(),
        1 <= i <= n,
        i < l,
    ensures
        system.mass_after(n, i, l) == system.mass_after(i as nat, i, l),
        system.rhs_after(b, n, i) == system.rhs_after(b, i as nat, i),
    decreases n,
{
    if n > i {
        lemma_stays(system, b, (n - 1) as nat, i, l);
    }
}

/// What back substitution leaves of a right-hand side.
proof fn lemma_carried<S: Real>(
    v: spec_fn(S) -> real,
    system: GlobalNewtonSystem<S>,
    b: Seq<[S; 3]>,
    i: int,
    from: int,
    k: int,
)
    requires
        exact(v),
        system.nsys >= 2,
        1 <= i < from <= system.nsys + 1,
        0 <= k < 3,
    ensures
        v(system.carried(b, i, from)[k]) == v(system.rhs_after(b, system.nsys as nat, i)[k])
            - weighted(
            row_masses(v, system, system.nsys as nat, i, k),
            masses(v, system.solution(b)),
            from,
            system.nsys + 1,
        ),
    decreases system.nsys + 1 - from,
{
    if from <= system.nsys {
        lemma_carried(v, system, b, i, from + 1, k);
        let mass = system.carried(b, from, from + 1)[2];
        assert(system.solution(b)[from] == system.carried(b, from, from + 1));
        let m = system.mass_after(system.nsys as nat, i, from);
        let c = system.carried(b, i, from + 1);
        assert(system.carried(b, i, from)[k] == c[k] - m[k] * mass);
    }
}

/// The solution satisfies the rows as the elimination leaves them.
proof fn lemma_settled<S: Real>(
    v: spec_fn(S) -> real,
    system: GlobalNewtonSystem<S>,
    b: Seq<[S; 3]>,
    i: int,
    k: int,
)
    requires
        exact(v),
        system.nsys >= 2,
        system.upper_te_row() < system.first_wake_row(),
        1 <= i <= system.nsys,
        0 <= k < 3,
    ensures
        settled(v, system, system.solution(b), i, k) == v(system.rhs_after(b, i as nat, i)[k]),
{
    let n = system.nsys as nat;
    lemma_carried(v, system, b, i, i + 1, k);
    lemma_stays(system, b, n, i, i + 1);
    let c = row_masses(v, system, n, i, k);
    let d = row_masses(v, system, i as nat, i, k);
    assert forall|l: int| i + 1 <= l < system.nsys + 1 implies #[trigger] c(l) == d(l) by {
        lemma_stays(system, b, n, i, l);
    }
    lemma_weights_agree(c, d, masses(v, system.solution(b)), i + 1, system.nsys + 1);
    assert(system.solution(b)[i] == system.carried(b, i, i + 1));
}

/// A combination of three equations.
proof fn lemma_equations(
    p0: real,
    p1: real,
    p2: real,
    x0: real,
    x1: real,
    x2: real,
    w0: real,
    w1: real,
    w2: real,
)
    ensures
        p0 * (x0 + w0) + p1 * (x1 + w1) + p2 * (x2 + w2) == (p0 * x0 + p1 * x1 + p2 * x2) + (p0 * w0
            + p1 * w1 + p2 * w2),
{
    lemma_distribute(p0, x0, w0);
    lemma_distribute(p1, x1, w1);
    lemma_distribute(p2, x2, w2);
}

/// The row that is eliminated next: what satisfies it after satisfies it before.
proof fn lemma_next_row<S: Real>(
    v: spec_fn(S) -> real,
    system: GlobalNewtonSystem<S>,
    b: Seq<[S; 3]>,
    x: Seq<[S; 3]>,
    iv: int,
    k: int,
)
    requires
        exact(v),
        system.wf(),
        system.upper_te_row() < system.first_wake_row(),
        regular(system),
        1 <= iv <= system.nsys,
        0 <= k < 3,
        forall|q: int|
            0 <= q < 3 ==> #[trigger] settled(v, system, x, iv, q) == v(
                system.rhs_after(b, iv as nat, iv)[q],
            ),
    ensures
        pending(v, system, x, (iv - 1) as nat, iv, k) == v(
            system.rhs_after(b, (iv - 1) as nat, iv)[k],
        ),
{
    let n = (iv - 1) as nat;
    let end = system.nsys + 1;
    let a = system.va@[iv];
    let m = system.mass_after(n, iv, iv);
    let f = pivot_factors(a, m);
    assert(divisible(a, m));
    let y = masses(v, x);
    let c = row_masses(v, system, n, iv, k);
    let r0 = row_masses(v, system, iv as nat, iv, 0);
    let r1 = row_masses(v, system, iv as nat, iv, 1);
    let r2 = row_masses(v, system, iv as nat, iv, 2);
    let none = |l: int| 0real;
    let p0 = v(a[k][0]);
    let p1 = v(a[k][1]);
    let p2 = v(m[k]);
    assert forall|l: int| iv + 1 <= l < end implies #[trigger] c(l) == none(l) + p0 * r0(l) + p1
        * r1(l) + p2 * r2(l) by {
        let col = system.mass_after(n, iv, l);
        lemma_reduced(v, a, m, col, k);
        assert(system.mass_after(iv as nat, iv, l) == reduced(col, f));
    }
    lemma_combination(c, none, r0, r1, r2, p0, p1, p2, y, iv + 1, end);
    lemma_no_weight(y, iv + 1, end);
    let w0 = weighted(r0, y, iv + 1, end);
    let w1 = weighted(r1, y, iv + 1, end);
    let w2 = weighted(r2, y, iv + 1, end);
    let rhs = system.rhs_after(b, n, iv);
    lemma_reduced(v, a, m, rhs, k);
    assert(system.rhs_after(b, iv as nat, iv) == reduced(rhs, f));
    assert(settled(v, system, x, iv, 0) == v(x[iv][0]) + w0);
    assert(settled(v, system, x, iv, 1) == v(x[iv][1]) + w1);
    assert(settled(v, system, x, iv, 2) == v(x[iv][2]) + w2);
    lemma_equations(p0, p1, p2, v(x[iv][0]), v(x[iv][1]), v(x[iv][2]), w0, w1, w2);
    assert(weighted(c, y, iv, end) == p2 * v(x[iv][2]) + weighted(c, y, iv + 1, end));
}

/// How much of the three reduced entries of row `iv` is taken off row `i`.
spec fn shares<S: Real>(
    v: spec_fn(S) -> real,
    system: GlobalNewtonSystem<S>,
    iv: int,
    i: int,
    lead: [S; 3],
    k: int,
) -> (real, real, real) {
    let next = i == iv + 1;
    let edge = iv == system.upper_te_row() && i == system.first_wake_row();
    let b = system.vb@[i];
    (
        (if next {
            v(b[k][0])
        } else {
            0real
        }) + (if edge {
            v(system.vz[k][0])
        } else {
            0real
        }),
        (if next {
            v(b[k][1])
        } else {
            0real
        }) + (if edge {
            v(system.vz[k][1])
        } else {
            0real
        }),
        v(lead[k]),
    )
}

/// What clearing takes off a column.
proof fn lemma_cleared<S: Real>(
    v: spec_fn(S) -> real,
    system: GlobalNewtonSystem<S>,
    iv: int,
    i: int,
    c: [S; 3],
    lead: [S; 3],
    r: [S; 3],
    k: int,
)
    requires
        exact(v),
        system.upper_te_row() < system.first_wake_row(),
        iv < i,
        0 <= k < 3,
        i > iv + 1 ==> abs(lead[k]) > threshold(system, k) || v(lead[k]) == 0real,
    ensures
        ({
            let (p0, p1, p2) = shares(v, system, iv, i, lead, k);
            v(c[k]) == v(system.cleared(iv, i, c, lead, r)[k]) + p0 * v(r[0]) + p1 * v(r[1]) + p2
                * v(r[2])
        }),
{
    let b = system.vb@[i];
    let u0 = if i == iv + 1 {
        v(b[k][0])
    } else {
        0real
    };
    let u1 = if i == iv + 1 {
        v(b[k][1])
    } else {
        0real
    };
    let edge = iv == system.upper_te_row() && i == system.first_wake_row();
    let z0 = if edge {
        v(system.vz[k][0])
    } else {
        0real
    };
    let z1 = if edge {
        v(system.vz[k][1])
    } else {
        0real
    };
    lemma_commute(u0 + z0, v(r[0]));
    lemma_distribute(v(r[0]), u0, z0);
    lemma_commute(u0, v(r[0]));
    lemma_commute(z0, v(r[0]));
    lemma_commute(u1 + z1, v(r[1]));
    lemma_distribute(v(r[1]), u1, z1);
    lemma_commute(u1, v(r[1]));
    lemma_commute(z1, v(r[1]));
    lemma_zero(v(r[0]));
    lemma_zero(v(r[1]));
    lemma_zero(v(r[2]));
    assert(k == 0 || k == 1 || k == 2);
}

/// A row further below: what satisfies it after an elimination satisfies it before.
proof fn lemma_row_below<S: Real>(
    v: spec_fn(S) -> real,
    system: GlobalNewtonSystem<S>,
    b: Seq<[S; 3]>,
    x: Seq<[S; 3]>,
    iv: int,
    i: int,
    k: int,
)
    requires
        exact(v),
        system.wf(),
        system.upper_te_row() < system.first_wake_row(),
        nothing_skipped(v, system),
        1 <= iv < i <= system.nsys,
        0 <= k < 3,
        forall|q: int|
            0 <= q < 3 ==> #[trigger] settled(v, system, x, iv, q) == v(
                system.rhs_after(b, iv as nat, iv)[q],
            ),
        pending(v, system, x, iv as nat, i, k) == v(system.rhs_after(b, iv as nat, i)[k]),
    ensures
        pending(v, system, x, (iv - 1) as nat, i, k) == v(
            system.rhs_after(b, (iv - 1) as nat, i)[k],
        ),
{
    let n = (iv - 1) as nat;
    let end = system.nsys + 1;
    let y = masses(v, x);
    let lead = system.mass_after(n, i, iv);
    let (p0, p1, p2) = shares(v, system, iv, i, lead, k);
    let c = row_masses(v, system, n, i, k);
    let d = row_masses(v, system, iv as nat, i, k);
    let r0 = row_masses(v, system, iv as nat, iv, 0);
    let r1 = row_masses(v, system, iv as nat, iv, 1);
    let r2 = row_masses(v, system, iv as nat, iv, 2);
    if i > iv + 1 {
        assert(abs(system.mass_after((iv - 1) as nat, i, iv)[k]) > threshold(system, k) || v(
            system.mass_after((iv - 1) as nat, i, iv)[k],
        ) == 0real);
    }
    assert forall|l: int| iv + 1 <= l < end implies #[trigger] c(l) == d(l) + p0 * r0(l) + p1 * r1(
        l,
    ) + p2 * r2(l) by {
        let col = system.mass_after(n, i, l);
        let r = system.mass_after(iv as nat, iv, l);
        lemma_cleared(v, system, iv, i, col, lead, r, k);
        assert(system.mass_after(iv as nat, i, l) == system.cleared(iv, i, col, lead, r));
    }
    lemma_combination(c, d, r0, r1, r2, p0, p1, p2, y, iv + 1, end);
    let w0 = weighted(r0, y, iv + 1, end);
    let w1 = weighted(r1, y, iv + 1, end);
    let w2 = weighted(r2, y, iv + 1, end);
    let rhs = system.rhs_after(b, n, i);
    let r = system.rhs_after(b, iv as nat, iv);
    lemma_cleared(v, system, iv, i, rhs, lead, r, k);
    assert(system.rhs_after(b, iv as nat, i) == system.cleared(iv, i, rhs, lead, r));
    assert(settled(v, system, x, iv, 0) == v(x[iv][0]) + w0);
    assert(settled(v, system, x, iv, 1) == v(x[iv][1]) + w1);
    assert(settled(v, system, x, iv, 2) == v(x[iv][2]) + w2);
    lemma_equations(p0, p1, p2, v(x[iv][0]), v(x[iv][1]), v(x[iv][2]), w0, w1, w2);
    assert(weighted(c, y, iv, end) == p2 * v(x[iv][2]) + weighted(c, y, iv + 1, end));
    lemma_shares(v, system, x, iv, i, lead, k);
}

/// The shares of a row, as terms of its left-hand side.
proof fn lemma_shares<S: Real>(
    v: spec_fn(S) -> real,
    system: GlobalNewtonSystem<S>,
    x: Seq<[S; 3]>,
    iv: int,
    i: int,
    lead: [S; 3],
    k: int,
)
    ensures
        ({
            let (p0, p1, p2) = shares(v, system, iv, i, lead, k);
            p0 * v(x[iv][0]) + p1 * v(x[iv][1]) == (if i == iv + 1 {
                block(v, system.vb@[i], x[iv], k)
            } else {
                0real
            }) + (if iv == system.upper_te_row() && i == system.first_wake_row() {
                edge_block(v, system.vz, x[iv], k)
            } else {
                0real
            })
        }),
{
    let b = system.vb@[i];
    let u0 = if i == iv + 1 {
        v(b[k][0])
    } else {
        0real
    };
    let u1 = if i == iv + 1 {
        v(b[k][1])
    } else {
        0real
    };
    let edge = iv == system.upper_te_row() && i == system.first_wake_row();
    let z0 = if edge {
        v(system.vz[k][0])
    } else {
        0real
    };
    let z1 = if edge {
        v(system.vz[k][1])
    } else {
        0real
    };
    let x0 = v(x[iv][0]);
    let x1 = v(x[iv][1]);
    lemma_commute(u0 + z0, x0);
    lemma_distribute(x0, u0, z0);
    lemma_commute(u0, x0);
    lemma_commute(z0, x0);
    lemma_commute(u1 + z1, x1);
    lemma_distribute(x1, u1, z1);
    lemma_commute(u1, x1);
    lemma_commute(z1, x1);
    lemma_zero(x0);
    lemma_zero(x1);
}

/// The solution satisfies the rows that are left after `n` were eliminated.
proof fn lemma_pending<S: Real>(
    v: spec_fn(S) -> real,
    system: GlobalNewtonSystem<S>,
    b: Seq<[S; 3]>,
    n: nat,
    i: int,
    k: int,
)
    requires
        exact(v),
        system.wf(),
        system.upper_te_row() < system.first_wake_row(),
        system.nsys >= 2,
        regular(system),
        nothing_skipped(v, system),
        n < i <= system.nsys,
        0 <= k < 3,
    ensures
        pending(v, system, system.solution(b), n, i, k) == v(system.rhs_after(b, n, i)[k]),
    decreases i - n,
{
    let iv: int = (n + 1) as int;
    let x = system.solution(b);
    assert forall|q: int| 0 <= q < 3 implies #[trigger] settled(v, system, x, iv, q) == v(
        system.rhs_after(b, iv as nat, iv)[q],
    ) by {
        lemma_settled(v, system, b, iv, q);
    }
    if i == iv {
        lemma_next_row(v, system, b, x, iv, k);
    } else {
        lemma_pending(v, system, b, iv as nat, i, k);
        lemma_row_below(v, system, b, x, iv, i, k);
    }
}

/// The solution for a right-hand side satisfies every equation of the system, as long as the
/// pivots can be divided by, no entry far below the diagonal is passed over, and the row of the
/// upper trailing edge stands above that of the first wake station.
pub proof fn law_solution_solves<S: Real>(
    v: spec_fn(S) -> real,
    system: GlobalNewtonSystem<S>,
    b: Seq<[S; 3]>,
)
    requires
        exact(v),
        system.wf(),
        system.upper_te_row() < system.first_wake_row(),
        system.nsys >= 2,
        regular(system),
        nothing_skipped(v, system),
    ensures
        forall|i: int, k: int|
            1 <= i <= system.nsys && 0 <= k < 3 ==> #[trigger] left_side(
                v,
                system,
                system.solution(b),
                i,
                k,
            ) == v(b[i][k]),
{
    let x = system.solution(b);
    assert forall|i: int, k: int| 1 <= i <= system.nsys && 0 <= k < 3 implies #[trigger] left_side(
        v,
        system,
        x,
        i,
        k,
    ) == v(b[i][k]) by {
        lemma_pending(v, system, b, 0, i, k);
        lemma_weights_agree(
            row_masses(v, system, 0, i, k),
            |l: int| v(system.vm@[i]@[l][k]),
            masses(v, x),
            1,
            system.nsys + 1,
        );
    }
}

} // verus!
