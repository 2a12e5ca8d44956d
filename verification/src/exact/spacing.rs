//! The nodes of a distribution are in order, and share the integral of the density.
use super::algebra::{
    lemma_associate, lemma_cancel, lemma_commute, lemma_one, lemma_positive_quotient,
    lemma_product_order, lemma_quotient, lemma_quotient_order, lemma_ratio, lemma_zero,
    lemma_zero_over,
};
use super::{exact, lemma_not_small, lemma_tenths};
use crate::airfoil::spacing::{bracket, cumulated, distribution, fraction_at, place_of, step};
use crate::number::{abs, count, tenths, whole, Formula, Real};
use vstd::prelude::*;

verus! {

/// A count is the number of things.
pub proof fn lemma_count<S: Real>(v: spec_fn(S) -> real, n: usize)
    requires
        exact(v),
    ensures
        v(count::<S>(n)) == n as real,
{
    if n > u32::MAX {
        let high = n / 65536 / 65536;
        let low = n / 65536 % 65536 * 65536 + n % 65536;
        assert(n == high * 4294967296 + low);
        assert(low <= u32::MAX);
        assert(high <= u32::MAX);
        assert(65536real * 65536real == 4294967296real) by (nonlinear_arith);
        assert(v(whole::<S>(65536) * whole::<S>(65536)) == 4294967296real);
    }
}

/// Steps are in order, from 0 to 1.
proof fn lemma_step<S: Real>(v: spec_fn(S) -> real, i: int, j: int, n: int)
    requires
        exact(v),
        0 <= i <= j < n <= usize::MAX,
        n >= 2,
    ensures
        0real <= v(step::<S>(i, n)) <= v(step::<S>(j, n)) <= 1real,
        i == 0 ==> v(step::<S>(i, n)) == 0real,
        j == n - 1 ==> v(step::<S>(j, n)) == 1real,
{
    lemma_count(v, i as usize);
    lemma_count(v, j as usize);
    lemma_count(v, (n - 1) as usize);
    let d = (n - 1) as real;
    lemma_zero_over(d);
    lemma_ratio(d);
    lemma_quotient_order(0real, i as real, d);
    lemma_quotient_order(i as real, j as real, d);
    lemma_quotient_order(j as real, d, d);
}

/// The integral of a density that is not negative is not negative.
proof fn lemma_cumulated<S: Real>(v: spec_fn(S) -> real, density: Seq<S>, i: int)
    requires
        exact(v),
        2 <= density.len() <= usize::MAX,
        0 <= i < density.len(),
        forall|k: int| 0 <= k < density.len() ==> v(#[trigger] density[k]) >= 0real,
    ensures
        v(cumulated(density, i)) >= 0real,
    decreases i,
{
    if i > 0 {
        lemma_cumulated(v, density, i - 1);
        let n = (density.len() - 1) as usize;
        lemma_count(v, n);
        let d = n as real;
        lemma_positive_quotient(1real, d);
        let a = v(density[i - 1]) + v(density[i]);
        lemma_quotient_order(0real, a, 2real);
        lemma_zero_over(2real);
        lemma_product_order(0real, a / 2real, 1real / d);
        lemma_zero(1real / d);
    }
}

/// What a bracket is around `u`.
proof fn lemma_bracket<S: Real>(v: spec_fn(S) -> real, density: Seq<S>, u: S, lo: int, hi: int)
    requires
        exact(v),
        0 <= lo < hi,
        v(fraction_at(density, lo)) <= v(u) <= v(fraction_at(density, hi)),
    ensures
        ({
            let (l, h) = bracket(density, u, lo, hi);
            &&& lo <= l < h <= hi
            &&& v(fraction_at(density, l)) <= v(u) <= v(fraction_at(density, h))
        }),
    decreases hi - lo,
{
    if hi - lo > 1 {
        let mid = (lo + hi) / 2;
        if fraction_at(density, mid) < u {
            lemma_bracket(v, density, u, mid, hi);
        } else {
            lemma_bracket(v, density, u, lo, mid);
        }
    }
}

/// Brackets are in order: the same, or one behind the other.
proof fn lemma_brackets<S: Real>(
    v: spec_fn(S) -> real,
    density: Seq<S>,
    u: S,
    w: S,
    lo: int,
    hi: int,
)
    requires
        exact(v),
        0 <= lo < hi,
        v(u) <= v(w),
        v(fraction_at(density, lo)) <= v(u),
        v(w) <= v(fraction_at(density, hi)),
    ensures
        ({
            let a = bracket(density, u, lo, hi);
            let b = bracket(density, w, lo, hi);
            a == b || a.1 <= b.0
        }),
    decreases hi - lo,
{
    if hi - lo > 1 {
        let mid = (lo + hi) / 2;
        if fraction_at(density, mid) < u {
            lemma_brackets(v, density, u, w, mid, hi);
        } else if fraction_at(density, mid) < w {
            lemma_bracket(v, density, u, lo, mid);
            lemma_bracket(v, density, w, mid, hi);
        } else {
            lemma_brackets(v, density, u, w, lo, mid);
        }
    }
}

/// A place within a step.
proof fn lemma_within(w: real, d: real, g: real)
    requires
        0real <= w <= d,
        d > 0real,
        g >= 0real,
    ensures
        0real <= w * g / d <= g,
{
    lemma_product_order(0real, w, g);
    lemma_product_order(w, d, g);
    lemma_zero(g);
    lemma_quotient_order(0real, w * g, d);
    lemma_quotient_order(w * g, d * g, d);
    lemma_zero_over(d);
    lemma_cancel(d, g);
}

/// The fractions run from 0 to 1.
proof fn lemma_fractions<S: Real>(v: spec_fn(S) -> real, density: Seq<S>)
    requires
        exact(v),
        density.len() >= 2,
        v(cumulated(density, density.len() - 1)) > 0real,
    ensures
        v(fraction_at(density, 0)) == 0real,
        v(fraction_at(density, density.len() - 1)) == 1real,
{
    let total = v(cumulated(density, density.len() - 1));
    lemma_zero_over(total);
    lemma_ratio(total);
}

/// The place of a fraction lies within its bracket.
proof fn lemma_place<S: Real>(v: spec_fn(S) -> real, density: Seq<S>, u: S)
    requires
        exact(v),
        2 <= density.len() <= usize::MAX,
        v(cumulated(density, density.len() - 1)) > 0real,
        forall|k: int| 0 <= k < density.len() ==> v(#[trigger] density[k]) >= 0real,
        0real <= v(u) <= 1real,
    ensures
        ({
            let n = density.len() as int;
            let (lo, hi) = bracket(density, u, 0, n - 1);
            &&& 0 <= lo < hi < n
            &&& 0real <= v(step::<S>(lo, n)) <= v(place_of(density, u)) <= v(step::<S>(hi, n))
                <= 1real
            &&& v(u) == 0real ==> v(place_of(density, u)) == 0real
        }),
{
    let n = density.len() as int;
    lemma_fractions(v, density);
    lemma_bracket(v, density, u, 0, n - 1);
    let (lo, hi) = bracket(density, u, 0, n - 1);
    lemma_step(v, lo, hi, n);
    let c_lo = fraction_at(density, lo);
    let c_hi = fraction_at(density, hi);
    let w = v(u) - v(c_lo);
    let d = v(c_hi) - v(c_lo);
    let g = v(step::<S>(hi, n)) - v(step::<S>(lo, n));
    if !(abs(c_hi - c_lo) < tenths::<S>(10)) {
        lemma_not_small(v, c_hi - c_lo, 10);
        lemma_within(w, d, g);
    }
    if v(u) == 0real {
        let total = v(cumulated(density, n - 1));
        assert forall|i: int| 0 <= i <= n - 1 implies v(#[trigger] fraction_at(density, i))
            >= 0real by {
            lemma_cumulated(v, density, i);
            lemma_quotient_order(0real, v(cumulated(density, i)), total);
            lemma_zero_over(total);
        }
        lemma_first_bracket(v, density, u, n - 1);
        lemma_step(v, 0, 0, n);
        if d != 0real {
            lemma_zero(g);
            lemma_zero_over(d);
        }
    }
}

/// The bracket of zero is the first.
proof fn lemma_first_bracket<S: Real>(v: spec_fn(S) -> real, density: Seq<S>, u: S, hi: int)
    requires
        exact(v),
        hi >= 1,
        v(u) == 0real,
        forall|i: int| 0 <= i <= hi ==> v(#[trigger] fraction_at(density, i)) >= 0real,
    ensures
        bracket(density, u, 0, hi).0 == 0,
    decreases hi,
{
    if hi > 1 {
        let mid = (0 + hi) / 2;
        assert(v(fraction_at(density, mid)) >= 0real);
        lemma_first_bracket(v, density, u, mid);
    }
}

/// Within one bracket, places are in the order of their fractions.
proof fn lemma_same_bracket(s: real, a: real, b: real, g: real, d: real)
    requires
        a <= b,
        d > 0real,
        g >= 0real,
    ensures
        s + a * g / d <= s + b * g / d,
{
    lemma_product_order(a, b, g);
    lemma_quotient_order(a * g, b * g, d);
}

/// Places are in the order of their fractions.
proof fn lemma_places<S: Real>(v: spec_fn(S) -> real, density: Seq<S>, u: S, w: S)
    requires
        exact(v),
        2 <= density.len() <= usize::MAX,
        v(cumulated(density, density.len() - 1)) > 0real,
        forall|k: int| 0 <= k < density.len() ==> v(#[trigger] density[k]) >= 0real,
        0real <= v(u) <= v(w) <= 1real,
    ensures
        v(place_of(density, u)) <= v(place_of(density, w)),
{
    let n = density.len() as int;
    lemma_place(v, density, u);
    lemma_place(v, density, w);
    lemma_fractions(v, density);
    lemma_brackets(v, density, u, w, 0, n - 1);
    let (lo, hi) = bracket(density, u, 0, n - 1);
    let (low, high) = bracket(density, w, 0, n - 1);
    if (lo, hi) == (low, high) {
        lemma_bracket(v, density, u, 0, n - 1);
        lemma_step(v, lo, hi, n);
        let c_lo = fraction_at(density, lo);
        let c_hi = fraction_at(density, hi);
        let d = v(c_hi) - v(c_lo);
        let g = v(step::<S>(hi, n)) - v(step::<S>(lo, n));
        if !(abs(c_hi - c_lo) < tenths::<S>(10)) {
            lemma_not_small(v, c_hi - c_lo, 10);
            lemma_bracket(v, density, w, 0, n - 1);
            lemma_within(v(u) - v(c_lo), d, g);
            lemma_within(v(w) - v(c_lo), d, g);
            lemma_same_bracket(v(step::<S>(lo, n)), v(u) - v(c_lo), v(w) - v(c_lo), g, d);
        }
    } else {
        lemma_step(v, hi, low, n);
    }
}

/// The nodes of a distribution are in order, and lie from 0 to 1, the first of them at 0: for
/// densities that are nowhere negative.
pub proof fn law_nodes_in_order<S: Real>(v: spec_fn(S) -> real, density: Seq<S>, n: int)
    requires
        exact(v),
        2 <= density.len() <= usize::MAX,
        2 <= n <= usize::MAX,
        forall|k: int| 0 <= k < density.len() ==> v(#[trigger] density[k]) >= 0real,
    ensures
        distribution(density, n).len() == n,
        v(distribution(density, n)[0]) == 0real,
        forall|i: int, j: int|
            0 <= i <= j < n ==> 0real <= v(#[trigger] distribution(density, n)[i]) <= v(
                #[trigger] distribution(density, n)[j],
            ) <= 1real,
{
    let r = distribution(density, n);
    let total = cumulated(density, density.len() - 1);
    lemma_step(v, 0, 0, n);
    if !(total < tenths::<S>(10)) {
        lemma_tenths(v, 10);
        lemma_place(v, density, step::<S>(0, n));
    }
    assert forall|i: int, j: int| 0 <= i <= j < n implies 0real <= v(#[trigger] r[i]) <= v(
        #[trigger] r[j],
    ) <= 1real by {
        lemma_step(v, i, j, n);
        if !(total < tenths::<S>(10)) {
            lemma_place(v, density, step::<S>(i, n));
            lemma_place(v, density, step::<S>(j, n));
            lemma_places(v, density, step::<S>(i, n), step::<S>(j, n));
        }
    }
}

/// The integral of the density up to a place between the samples `k` and `k + 1`, as a
/// fraction of the whole: linear between the samples.
pub open spec fn fraction_between<S: Real>(density: Seq<S>, k: int, place: S) -> S {
    let n = density.len() as int;
    let c = fraction_at(density, k);
    let s = step::<S>(k, n);
    c + (place - s) * (fraction_at(density, k + 1) - c) / (step::<S>(k + 1, n) - s)
}

/// Between the samples `k` and `k + 1` the fraction reaches `part` at a place: exactly where
/// it grows by 1e-10 or more between them, and else within 1e-10.
pub open spec fn reaches<S: Real>(
    v: spec_fn(S) -> real,
    density: Seq<S>,
    k: int,
    place: S,
    part: real,
) -> bool {
    let n = density.len() as int;
    let at = v(fraction_between(density, k, place));
    let growth = v(fraction_at(density, k + 1)) - v(fraction_at(density, k));
    &&& 0 <= k < n - 1
    &&& v(step::<S>(k, n)) <= v(place) <= v(step::<S>(k + 1, n))
    &&& at <= part < at + v(tenths::<S>(10))
    &&& growth >= v(tenths::<S>(10)) ==> at == part
}

/// A bracket is between neighbours.
proof fn lemma_neighbours<S: Real>(density: Seq<S>, u: S, lo: int, hi: int)
    requires
        lo < hi,
    ensures
        ({
            let (l, h) = bracket(density, u, lo, hi);
            h == l + 1
        }),
    decreases hi - lo,
{
    if hi - lo > 1 {
        let mid = (lo + hi) / 2;
        if fraction_at(density, mid) < u {
            lemma_neighbours(density, u, mid, hi);
        } else {
            lemma_neighbours(density, u, lo, mid);
        }
    }
}

/// A step is longer than none.
proof fn lemma_step_length<S: Real>(v: spec_fn(S) -> real, k: int, n: int)
    requires
        exact(v),
        0 <= k < n - 1,
        n <= usize::MAX,
    ensures
        v(step::<S>(k, n)) < v(step::<S>(k + 1, n)),
{
    lemma_count(v, k as usize);
    lemma_count(v, (k + 1) as usize);
    lemma_count(v, (n - 1) as usize);
    let d = (n - 1) as real;
    lemma_quotient(k as real, d);
    lemma_quotient((k + 1) as real, d);
    lemma_quotient_order(k as real, (k + 1) as real, d);
}

/// What a line does, its inverse undoes.
proof fn lemma_back(w: real, d: real, g: real)
    requires
        d != 0real,
        g != 0real,
    ensures
        w * g / d * d / g == w,
{
    lemma_quotient(w * g, d);
    lemma_commute(w, g);
    lemma_cancel(g, w);
}

/// Every step of a distribution holds the same part of the integral of the density: up to
/// the node `i` of `n` the integral, linear between the samples, is `i / (n - 1)` of the
/// whole. For densities that are nowhere negative, and an integral that is not nothing.
pub proof fn law_nodes_share_the_integral<S: Real>(
    v: spec_fn(S) -> real,
    density: Seq<S>,
    n: int,
    i: int,
)
    requires
        exact(v),
        2 <= density.len() <= usize::MAX,
        2 <= n <= usize::MAX,
        forall|k: int| 0 <= k < density.len() ==> v(#[trigger] density[k]) >= 0real,
        v(cumulated(density, density.len() - 1)) >= v(tenths::<S>(10)),
        0 <= i < n,
    ensures
        exists|k: int| #[trigger]
            reaches(v, density, k, distribution(density, n)[i], i as real / (n - 1) as real),
{
    let m = density.len() as int;
    let u = step::<S>(i, n);
    let place = distribution(density, n)[i];
    lemma_tenths(v, 10);
    lemma_step(v, i, i, n);
    lemma_count(v, i as usize);
    lemma_count(v, (n - 1) as usize);
    assert(v(u) == i as real / (n - 1) as real);
    assert(place == place_of(density, u));
    lemma_place(v, density, u);
    lemma_fractions(v, density);
    lemma_bracket(v, density, u, 0, m - 1);
    lemma_neighbours(density, u, 0, m - 1);
    let (k, h) = bracket(density, u, 0, m - 1);
    lemma_step(v, k, h, m);
    lemma_step_length::<S>(v, k, m);
    let low = fraction_at(density, k);
    let high = fraction_at(density, h);
    let w = v(u) - v(low);
    let d = v(high) - v(low);
    let g = v(step::<S>(h, m)) - v(step::<S>(k, m));
    if abs(high - low) < tenths::<S>(10) {
        assert(v(place) == v(step::<S>(k, m)));
        lemma_zero(d);
        lemma_zero_over(g);
        assert(v(fraction_between(density, k, place)) == v(low));
    } else {
        lemma_not_small(v, high - low, 10);
        lemma_within(w, d, g);
        assert(v(place) == v(step::<S>(k, m)) + w * g / d);
        lemma_back(w, d, g);
        assert(v(fraction_between(density, k, place)) == v(u));
    }
    assert(reaches(v, density, k, place, i as real / (n - 1) as real));
}

/// The integral of the density grows from sample to sample by the mean of their densities,
/// over their distance, and starts with nothing.
pub proof fn law_integral_by_trapezoids<S: Real>(v: spec_fn(S) -> real, density: Seq<S>, i: int)
    requires
        exact(v),
        2 <= density.len() <= usize::MAX,
        0 < i < density.len(),
    ensures
        v(cumulated(density, 0)) == 0real,
        2real * ((density.len() - 1) as real * (v(cumulated(density, i)) - v(
            cumulated(density, i - 1),
        ))) == v(density[i - 1]) + v(density[i]),
{
    let n = (density.len() - 1) as usize;
    lemma_count(v, n);
    let d = n as real;
    let a = (v(density[i - 1]) + v(density[i])) / 2real;
    lemma_quotient(1real, d);
    lemma_commute(a, 1real / d);
    lemma_associate(d, 1real / d, a);
    lemma_one(a);
    assert(v(cumulated(density, i)) - v(cumulated(density, i - 1)) == a * (1real / d));
}

} // verus!
