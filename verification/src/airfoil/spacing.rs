//! Repaneling: where along a spline the nodes of an outline are put.
use crate::airfoil::points::{
    flattened, is_outline, outline, paired, pairs_from, pairs_in, points_from_flat, points_to_flat,
    Point,
};
use crate::airfoil::spline::Splines;
use crate::callable::{mapped, tabulated};
use crate::elementary::Elementary;
use crate::number::{
    abs, arithmetic, clamp, count, decimal, larger, tenths, tiny, whole, Formula, Real,
};
use crate::station::filled;
use vstd::prelude::*;

verus! {

/// A knot of a spacing function: the place on the outline, and the density there.
pub type Knot<S> = (S, S);

/// `i` of `n` steps, from 0 to 1.
pub open spec fn step<S: Real>(i: int, n: int) -> S {
    count::<S>(i as usize) / count::<S>((n - 1) as usize)
}

/// The integral of the sampled density up to the sample `i`, by trapezoids.
pub open spec fn cumulated<S: Real>(density: Seq<S>, i: int) -> S
    decreases i,
{
    if i <= 0 {
        whole::<S>(0)
    } else {
        let ds = whole::<S>(1) / count::<S>((density.len() - 1) as usize);
        cumulated(density, i - 1) + (density[i - 1] + density[i]) / whole::<S>(2) * ds
    }
}

/// The integral of the density up to the sample `i`, as a fraction of the whole.
pub open spec fn fraction_at<S: Real>(density: Seq<S>, i: int) -> S {
    cumulated(density, i) / cumulated(density, density.len() - 1)
}

/// The samples between which the fraction reaches `u`, by bisection of the samples from `lo`
/// to `hi`.
pub open spec fn bracket<S: Real>(density: Seq<S>, u: S, lo: int, hi: int) -> (int, int)
    decreases hi - lo,
{
    if hi - lo <= 1 {
        (lo, hi)
    } else {
        let mid = (lo + hi) / 2;
        if fraction_at(density, mid) < u {
            bracket(density, u, mid, hi)
        } else {
            bracket(density, u, lo, mid)
        }
    }
}

/// The place at which the fraction is `u`, linear between the samples.
pub open spec fn place_of<S: Real>(density: Seq<S>, u: S) -> S {
    let n = density.len() as int;
    let (lo, hi) = bracket(density, u, 0, n - 1);
    let c_lo = fraction_at(density, lo);
    let c_hi = fraction_at(density, hi);
    let s_lo = step::<S>(lo, n);
    let s_hi = step::<S>(hi, n);
    let s = if abs(c_hi - c_lo) < tenths::<S>(10) {
        s_lo
    } else {
        s_lo + (u - c_lo) * (s_hi - s_lo) / (c_hi - c_lo)
    };
    clamp(s, whole::<S>(0), whole::<S>(1))
}

/// The places of `n` nodes whose density follows the samples: such that every step holds the
/// same part of the integral. Without any density the nodes are evenly spaced.
pub open spec fn distribution<S: Real>(density: Seq<S>, n: int) -> Seq<S> {
    if cumulated(density, density.len() - 1) < tenths::<S>(10) {
        Seq::new(n as nat, |i: int| step::<S>(i, n))
    } else {
        Seq::new(n as nat, |i: int| place_of(density, step::<S>(i, n)))
    }
}

/// The samples between which the fraction reaches `u`.
fn find_bracket<S: Real>(fractions: &[S], u: S, Ghost(density): Ghost<Seq<S>>) -> (r: (
    usize,
    usize,
))
    requires
        arithmetic::<S>(),
        fractions@.len() == density.len(),
        density.len() > 0,
        forall|i: int|
            0 <= i < density.len() ==> #[trigger] fractions@[i] == fraction_at(density, i),
    ensures
        (r.0 as int, r.1 as int) == bracket(density, u, 0, density.len() - 1),
        r.0 < density.len(),
        r.1 < density.len(),
{
    let mut lo: usize = 0;
    let mut hi: usize = fractions.len() - 1;
    while hi - lo > 1
        invariant
            arithmetic::<S>(),
            fractions@.len() == density.len(),
            lo <= hi < density.len(),
            forall|i: int|
                0 <= i < density.len() ==> #[trigger] fractions@[i] == fraction_at(density, i),
            bracket(density, u, 0, density.len() - 1) == bracket(
                density,
                u,
                lo as int,
                hi as int,
            ),
        decreases hi - lo,
    {
        let mid: usize = lo + (hi - lo) / 2;
        assert(mid == (lo + hi) / 2);
        assert(fractions@[mid as int] == fraction_at(density, mid as int));
        if fractions[mid] < u {
            lo = mid;
        } else {
            hi = mid;
        }
    }
    (lo, hi)
}

/// The places of `n_points` nodes whose density follows the samples.
pub fn spacing_to_distribution<S: Real>(spacing_values: &[S], n_points: usize) -> (r: Vec<S>)
    requires
        arithmetic::<S>(),
        spacing_values@.len() > 0,
    ensures
        r@ == distribution(spacing_values@, n_points as int),
{
    let ghost density = spacing_values@;
    let n: usize = spacing_values.len();
    let ds: S = whole::<S>(1) / count(n - 1);
    let mut cumulative: Vec<S> = Vec::with_capacity(n);
    cumulative.push(whole(0));
    let mut i: usize = 1;
    while i < n
        invariant
            arithmetic::<S>(),
            density == spacing_values@,
            1 <= i <= n == density.len(),
            ds == whole::<S>(1) / count::<S>((n - 1) as usize),
            cumulative@.len() == i,
            forall|k: int| 0 <= k < i ==> #[trigger] cumulative@[k] == cumulated(density, k),
        decreases n - i,
    {
        let average: S = (spacing_values[i - 1] + spacing_values[i]) / whole(2);
        let last: S = cumulative[i - 1];
        cumulative.push(last + average * ds);
        i = i + 1;
    }
    let total: S = cumulative[n - 1];
    if total < tiny(10) {
        let even = |k: usize| -> (s: S)
            requires
                arithmetic::<S>(),
                k < n_points,
            ensures
                s == step::<S>(k as int, n_points as int),
            {
                count::<S>(k) / count(n_points - 1)
            };
        let r: Vec<S> = tabulated(n_points, even);
        proof {
            assert forall|k: int| 0 <= k < n_points implies #[trigger] r@[k] == distribution(
                density,
                n_points as int,
            )[k] by {
                assert(k as usize == k);
            }
            assert(r@ =~= distribution(density, n_points as int));
        }
        return r;
    }
    let share = |c: S| -> (f: S)
        requires
            arithmetic::<S>(),
        ensures
            f == c / total,
        {
            c / total
        };
    let fractions: Vec<S> = mapped(&cumulative, share);
    assert forall|k: int| 0 <= k < n implies #[trigger] fractions@[k] == fraction_at(density, k) by {
        assert(cumulative@[k] == cumulated(density, k));
    }
    let mut r: Vec<S> = Vec::new();
    let mut k: usize = 0;
    while k < n_points
        invariant
            arithmetic::<S>(),
            n == density.len(),
            n > 0,
            k <= n_points,
            fractions@.len() == n,
            forall|j: int| 0 <= j < n ==> #[trigger] fractions@[j] == fraction_at(density, j),
            r@.len() == k,
            forall|j: int|
                0 <= j < k ==> #[trigger] r@[j] == place_of(density, step::<S>(j, n_points as int)),
        decreases n_points - k,
    {
        let u: S = count::<S>(k) / count(n_points - 1);
        let (lo, hi): (usize, usize) = find_bracket(&fractions, u, Ghost(density));
        let s_lo: S = count::<S>(lo) / count(n - 1);
        let s_hi: S = count::<S>(hi) / count(n - 1);
        let c_lo: S = fractions[lo];
        let c_hi: S = fractions[hi];
        let s: S = if abs(c_hi - c_lo) < tiny(10) {
            s_lo
        } else {
            s_lo + (u - c_lo) * (s_hi - s_lo) / (c_hi - c_lo)
        };
        r.push(clamp(s, whole(0), whole(1)));
        k = k + 1;
    }
    assert(r@ =~= distribution(density, n_points as int));
    r
}

/// The largest of zero and the first `n` curvatures.
pub open spec fn largest<S: Real>(k: Seq<S>, n: nat) -> S
    decreases n,
{
    if n == 0 {
        whole::<S>(0)
    } else {
        larger(largest(k, (n - 1) as nat), k[n - 1])
    }
}

/// The density that curvature asks for: a base level, and above it the square root of the
/// curvature against the largest. A flat outline has the same density everywhere.
pub open spec fn density_of<S: Real, E: Elementary<S>>(elementary: &E, k: Seq<S>) -> Seq<S> {
    let top = largest(k, k.len());
    let base = decimal::<S>(3, 10);
    if top < tenths::<S>(10) {
        Seq::new(k.len(), |i: int| whole::<S>(1))
    } else {
        k.map_values(
            |c: S| base + (whole::<S>(1) - base) * elementary.sqrt_of(c / top),
        )
    }
}

/// The densities that the curvatures ask for.
pub fn curvature_to_spacing<S: Real, E: Elementary<S>>(curvatures: &[S], elementary: &E) -> (r: Vec<
    S,
>)
    requires
        arithmetic::<S>(),
        elementary.lawful(),
    ensures
        r@ == density_of(elementary, curvatures@),
{
    let n: usize = curvatures.len();
    let mut top: S = whole(0);
    let mut i: usize = 0;
    while i < n
        invariant
            arithmetic::<S>(),
            i <= n == curvatures@.len(),
            top == largest(curvatures@, i as nat),
        decreases n - i,
    {
        top = larger(top, curvatures[i]);
        i = i + 1;
    }
    if top < tiny(10) {
        return filled(whole(1), n);
    }
    let base: S = decimal(3, 10);
    let scale: S = whole::<S>(1) - base;
    let density = |c: S| -> (d: S)
        requires
            arithmetic::<S>(),
            elementary.lawful(),
        ensures
            d == base + scale * elementary.sqrt_of(c / top),
        {
            base + scale * elementary.sqrt(c / top)
        };
    let r: Vec<S> = mapped(curvatures, density);
    assert(r@ =~= density_of(elementary, curvatures@));
    r
}

/// Where a knot goes among knots in order: behind all that are not further on.
pub open spec fn insertion<S: Real>(k: Seq<Knot<S>>, s: S, i: int) -> int
    decreases i,
{
    if i <= 0 {
        0
    } else if k[i - 1].0 > s {
        insertion(k, s, i - 1)
    } else {
        i
    }
}

/// The first `n` knots, ordered by their place. Knots at one place keep their order.
pub open spec fn in_order<S: Real>(k: Seq<Knot<S>>, n: nat) -> Seq<Knot<S>>
    decreases n,
{
    if n == 0 {
        Seq::empty()
    } else {
        let before = in_order(k, (n - 1) as nat);
        before.insert(insertion(before, k[n - 1].0, before.len() as int), k[n - 1])
    }
}

/// The knots, ordered by their place.
fn ordered<S: Real>(knots: &[Knot<S>]) -> (r: Vec<Knot<S>>)
    requires
        arithmetic::<S>(),
    ensures
        r@ == in_order(knots@, knots@.len()),
        r@.len() == knots@.len(),
{
    let mut r: Vec<Knot<S>> = Vec::with_capacity(knots.len());
    let mut n: usize = 0;
    while n < knots.len()
        invariant
            arithmetic::<S>(),
            n <= knots@.len(),
            r@ == in_order(knots@, n as nat),
            r@.len() == n,
        decreases knots@.len() - n,
    {
        let knot: Knot<S> = knots[n];
        let mut i: usize = r.len();
        while i > 0 && r[i - 1].0 > knot.0
            invariant
                arithmetic::<S>(),
                i <= r@.len(),
                insertion(r@, knot.0, r@.len() as int) == insertion(r@, knot.0, i as int),
            decreases i,
        {
            i = i - 1;
        }
        r.insert(i, knot);
        n = n + 1;
    }
    r
}

/// Where a knot goes, everything behind is further on, and what is before is not.
proof fn lemma_insertion<S: Real>(k: Seq<Knot<S>>, s: S, i: int)
    requires
        0 <= i <= k.len(),
    ensures
        0 <= insertion(k, s, i) <= i,
        forall|j: int| insertion(k, s, i) <= j < i ==> (#[trigger] k[j]).0 > s,
        insertion(k, s, i) > 0 ==> !(k[insertion(k, s, i) - 1].0 > s),
    decreases i,
{
    if i > 0 && k[i - 1].0 > s {
        lemma_insertion(k, s, i - 1);
    }
}

/// Whether `>` orders the places of the knots: no two are further on than each other, and
/// what is not further on than a knot is not further on than one behind it.
pub open spec fn orderly<S: Real>(k: Seq<Knot<S>>) -> bool {
    &&& forall|i: int, j: int|
        0 <= i < k.len() && 0 <= j < k.len() && (#[trigger] k[i]).0 > (#[trigger] k[j]).0 ==> !(
        k[j].0 > k[i].0)
    &&& forall|i: int, j: int, l: int|
        0 <= i < k.len() && 0 <= j < k.len() && 0 <= l < k.len() && !((#[trigger] k[i]).0 > (
        #[trigger] k[j]).0) && !(k[j].0 > (#[trigger] k[l]).0) ==> !(k[i].0 > k[l].0)
}

/// Knots in order are the same knots, and none stands before one that it is further on than.
pub proof fn law_knots_in_order<S: Real>(k: Seq<Knot<S>>)
    requires
        orderly(k),
    ensures
        in_order(k, k.len()).to_multiset() == k.to_multiset(),
        forall|i: int, j: int|
            0 <= i < j < in_order(k, k.len()).len() ==> !((#[trigger] in_order(k, k.len())[i]).0 > (
            #[trigger] in_order(k, k.len())[j]).0),
{
    lemma_in_order(k, k.len());
    assert(k.subrange(0, k.len() as int) =~= k);
}

/// The law for the first `n` knots; each knot in order is one of them.
proof fn lemma_in_order<S: Real>(k: Seq<Knot<S>>, n: nat)
    requires
        orderly(k),
        n <= k.len(),
    ensures
        in_order(k, n).len() == n,
        in_order(k, n).to_multiset() == k.subrange(0, n as int).to_multiset(),
        forall|i: int|
            0 <= i < n ==> exists|m: int| 0 <= m < n && k[m] == #[trigger] in_order(k, n)[i],
        forall|i: int, j: int|
            0 <= i < j < n ==> !((#[trigger] in_order(k, n)[i]).0 > (#[trigger] in_order(
                k,
                n,
            )[j]).0),
    decreases n,
{
    if n == 0 {
        assert(in_order(k, n) =~= k.subrange(0, 0));
    } else {
        lemma_in_order(k, (n - 1) as nat);
        let before = in_order(k, (n - 1) as nat);
        let e = k[n - 1];
        let p = insertion(before, e.0, before.len() as int);
        lemma_insertion(before, e.0, before.len() as int);
        let after = before.insert(p, e);
        assert(after == in_order(k, n));
        before.to_multiset_ensures();
        vstd::seq_lib::to_multiset_insert(before, p, e);
        vstd::seq_lib::to_multiset_build(k.subrange(0, n - 1), e);
        assert(k.subrange(0, n - 1).push(e) =~= k.subrange(0, n as int));
        assert forall|i: int| 0 <= i < n implies exists|m: int|
            0 <= m < n && k[m] == #[trigger] after[i] by {
            if i < p {
                assert(after[i] == before[i]);
            } else if i == p {
                assert(k[n - 1] == after[i]);
            } else {
                assert(after[i] == before[i - 1]);
            }
        }
        assert forall|i: int, j: int| 0 <= i < j < n implies !((#[trigger] after[i]).0 > (
        #[trigger] after[j]).0) by {
            if j < p {
                assert(after[i] == before[i] && after[j] == before[j]);
            } else if i > p {
                assert(after[i] == before[i - 1] && after[j] == before[j - 1]);
            } else if i == p {
                assert(after[j] == before[j - 1]);
                let m = choose|m: int| 0 <= m < n - 1 && k[m] == before[j - 1];
                assert(k[m].0 > k[n - 1].0);
            } else if j == p {
                assert(after[i] == before[i]);
                let m = choose|m: int| 0 <= m < n - 1 && k[m] == before[i];
                let l = choose|l: int| 0 <= l < n - 1 && k[l] == before[p - 1];
                if i < p - 1 {
                    assert(!(before[i].0 > before[p - 1].0));
                    assert(!(k[m].0 > k[l].0));
                    assert(!(k[l].0 > k[n - 1].0));
                }
            } else {
                assert(after[i] == before[i] && after[j] == before[j - 1]);
            }
        }
    }
}

/// The density between the knots in order, from the knot `i` on.
pub open spec fn density_between<S: Real>(k: Seq<Knot<S>>, s: S, i: int) -> S
    decreases k.len() - i,
{
    if i < 0 || i + 1 >= k.len() {
        whole::<S>(1)
    } else if s >= k[i].0 && s <= k[i + 1].0 {
        let t = (s - k[i].0) / (k[i + 1].0 - k[i].0);
        k[i].1 + t * (k[i + 1].1 - k[i].1)
    } else {
        density_between(k, s, i + 1)
    }
}

/// The density at `s`: linear between the knots, and constant outside them.
pub open spec fn density_at<S: Real>(knots: Seq<Knot<S>>, s: S) -> S {
    let k = in_order(knots, knots.len());
    if knots.len() == 0 {
        whole::<S>(1)
    } else if knots.len() == 1 {
        knots[0].1
    } else if s <= k[0].0 {
        k[0].1
    } else if s >= k.last().0 {
        k.last().1
    } else {
        density_between(k, s, 0)
    }
}

/// Whether any two knots can be put in order.
pub open spec fn comparable<S: Real>(knots: Seq<Knot<S>>) -> bool {
    forall|i: int, j: int|
        0 <= i < knots.len() && 0 <= j < knots.len() ==> (#[trigger] knots[i]).0 <= (
        #[trigger] knots[j]).0 || knots[i].0 > knots[j].0
}

/// The density of the knots at `s`.
pub fn interpolate_spacing<S: Real>(knots: &[Knot<S>], s: S) -> (r: S)
    requires
        arithmetic::<S>(),
        comparable(knots@),
    ensures
        r == density_at(knots@, s),
{
    let n: usize = knots.len();
    if n == 0 {
        return whole(1);
    }
    if n == 1 {
        return knots[0].1;
    }
    let k: Vec<Knot<S>> = ordered(knots);
    if s <= k[0].0 {
        return k[0].1;
    }
    if s >= k[n - 1].0 {
        return k[n - 1].1;
    }
    let mut i: usize = 0;
    while i < n - 1
        invariant
            arithmetic::<S>(),
            2 <= n == k@.len(),
            i < n,
            density_at(knots@, s) == density_between(k@, s, i as int),
        decreases n - i,
    {
        let (s0, f0): Knot<S> = k[i];
        let (s1, f1): Knot<S> = k[i + 1];
        if s >= s0 && s <= s1 {
            let t: S = (s - s0) / (s1 - s0);
            return f0 + t * (f1 - f0);
        }
        i = i + 1;
    }
    whole(1)
}

/// The curvature of a spline at `n` evenly spaced places, without its sign.
pub open spec fn bends<S: Real, Z, P: Splines<S, Z>>(splines: &P, z: Z, n: int) -> Seq<S> {
    Seq::new(
        n as nat,
        |i: int| abs(splines.bend(z, step::<S>(i, n) * splines.length(z))),
    )
}

/// The curvature of a spline at `n` evenly spaced places, without its sign.
fn sample_curvature<S: Real, Z, P: Splines<S, Z>>(splines: &P, z: &Z, n: usize) -> (r: Vec<S>)
    requires
        arithmetic::<S>(),
        splines.lawful(),
    ensures
        r@ == bends(splines, *z, n as int),
{
    let s_max: S = splines.total_arc_length(z);
    let bend = |i: usize| -> (k: S)
        requires
            arithmetic::<S>(),
            splines.lawful(),
            i < n,
        ensures
            k == abs(splines.bend(*z, step::<S>(i as int, n as int) * s_max)),
        {
            let s: S = (count::<S>(i) / count(n - 1)) * s_max;
            abs(splines.curvature(z, s))
        };
    let r: Vec<S> = tabulated(n, bend);
    proof {
        assert forall|i: int| 0 <= i < n implies #[trigger] r@[i] == bends(
            splines,
            *z,
            n as int,
        )[i] by {
            assert(i as usize == i);
        }
        assert(r@ =~= bends(splines, *z, n as int));
    }
    r
}

/// How many samples the spacing function is taken at.
pub const SAMPLES: usize = 1000;

/// The density at the samples: that of the knots and that of the curvature, the latter with
/// the weight `w`.
pub open spec fn blended<S: Real, Z, P: Splines<S, Z>, E: Elementary<S>>(
    splines: &P,
    z: Z,
    knots: Seq<Knot<S>>,
    w: S,
    elementary: &E,
) -> Seq<S> {
    let curved = density_of(elementary, bends(splines, z, SAMPLES as int));
    Seq::new(
        SAMPLES as nat,
        |i: int|
            (whole::<S>(1) - w) * density_at(knots, step::<S>(i, SAMPLES as int)) + w * curved[i],
    )
}

/// The places of `n` nodes on a spline, between the knots and the curvature.
pub open spec fn blended_distribution<S: Real, Z, P: Splines<S, Z>, E: Elementary<S>>(
    splines: &P,
    z: Z,
    knots: Seq<Knot<S>>,
    n: int,
    w: S,
    elementary: &E,
) -> Seq<S> {
    if n < 2 {
        seq![whole::<S>(0), whole::<S>(1)]
    } else {
        distribution(blended(splines, z, knots, w, elementary), n)
    }
}

/// The places of `n_points` nodes on a spline, between the knots and the curvature.
pub fn generate_blended_distribution<S: Real, Z, P: Splines<S, Z>, E: Elementary<S>>(
    splines: &P,
    spline: &Z,
    knots: &[Knot<S>],
    n_points: usize,
    curvature_weight: S,
    elementary: &E,
) -> (r: Vec<S>)
    requires
        arithmetic::<S>(),
        splines.lawful(),
        elementary.lawful(),
        n_points >= 2 ==> comparable(knots@),
    ensures
        r@ == blended_distribution(
            splines,
            *spline,
            knots@,
            n_points as int,
            curvature_weight,
            elementary,
        ),
{
    if n_points < 2 {
        let mut r: Vec<S> = Vec::new();
        r.push(whole(0));
        r.push(whole(1));
        assert(r@ =~= seq![whole::<S>(0), whole::<S>(1)]);
        return r;
    }
    let curvatures: Vec<S> = sample_curvature(splines, spline, SAMPLES);
    let curved: Vec<S> = curvature_to_spacing(&curvatures, elementary);
    let blend = |i: usize| -> (d: S)
        requires
            arithmetic::<S>(),
            comparable(knots@),
            i < SAMPLES,
            curved@.len() == SAMPLES,
        ensures
            d == (whole::<S>(1) - curvature_weight) * density_at(
                knots@,
                step::<S>(i as int, SAMPLES as int),
            ) + curvature_weight * curved@[i as int],
        {
            let ssp: S = interpolate_spacing(knots, count::<S>(i) / count(SAMPLES - 1));
            (whole::<S>(1) - curvature_weight) * ssp + curvature_weight * curved[i]
        };
    let density: Vec<S> = tabulated(SAMPLES, blend);
    proof {
        let to = blended(splines, *spline, knots@, curvature_weight, elementary);
        assert forall|i: int| 0 <= i < SAMPLES implies #[trigger] density@[i] == to[i] by {
            assert(i as usize == i);
        }
        assert(density@ =~= to);
    }
    spacing_to_distribution(&density, n_points)
}

/// Whether a list is that of a spacing function: whole knots, and two of them.
pub open spec fn knot_list<S>(k: Seq<S>) -> bool {
    k.len() >= 4 && k.len() % 2 == 0
}

/// The coordinates of the nodes at the places `params` of a spline.
pub open spec fn sampled<S: Real, Z, P: Splines<S, Z>>(splines: &P, z: Z, params: Seq<S>) -> Seq<
    S,
> {
    flattened(params.map_values(|s: S| splines.place(z, s * splines.length(z))))
}

/// The coordinates of an outline, repaneled by a spacing function and by curvature.
pub open spec fn repaneled<S: Real, Z, P: Splines<S, Z>, E: Elementary<S>>(
    splines: &P,
    z: Option<Z>,
    knots: Seq<S>,
    n_panels: int,
    weight: S,
    elementary: &E,
) -> Seq<S> {
    match z {
        Some(z) => sampled(
            splines,
            z,
            blended_distribution(
                splines,
                z,
                pairs_in(knots),
                n_panels + 1,
                clamp(weight, whole::<S>(0), whole::<S>(1)),
                elementary,
            ),
        ),
        None => Seq::empty(),
    }
}

/// Repanels an outline with a blend of a spacing function and of curvature. The list is empty
/// where the outline, the knots or the spline are not there.
pub fn repanel_with_spacing_and_curvature<S: Real, Z, P: Splines<S, Z>, E: Elementary<S>>(
    coords: &[S],
    spacing_knots: &[S],
    n_panels: usize,
    curvature_weight: S,
    splines: &P,
    elementary: &E,
) -> (r: Vec<S>)
    requires
        arithmetic::<S>(),
        splines.lawful(),
        elementary.lawful(),
        n_panels < usize::MAX,
        outline(coords@) && knot_list(spacing_knots@) && n_panels > 0 ==> comparable(
            pairs_in(spacing_knots@),
        ),
    ensures
        !outline(coords@) || !knot_list(spacing_knots@) ==> r@.len() == 0,
        outline(coords@) && knot_list(spacing_knots@) ==> exists|z: Option<Z>|
            #[trigger] splines.fits(paired(coords@), z) && r@ == repaneled(
                splines,
                z,
                spacing_knots@,
                n_panels as int,
                curvature_weight,
                elementary,
            ),
{
    if !is_outline(coords) || spacing_knots.len() < 4 || spacing_knots.len() % 2 != 0 {
        return Vec::new();
    }
    let points: Vec<Point<S>> = points_from_flat(coords);
    let knots: Vec<Knot<S>> = pairs_from(spacing_knots);
    let fitted: Option<Z> = splines.from_points(&points);
    assert(splines.fits(paired(coords@), fitted));
    let ghost shown = fitted;
    let spline: Z = match fitted {
        Some(z) => z,
        None => {
            let r: Vec<S> = Vec::new();
            assert(r@ =~= Seq::<S>::empty());
            return r;
        },
    };
    let s_max: S = splines.total_arc_length(&spline);
    let weight: S = clamp(curvature_weight, whole(0), whole(1));
    let params: Vec<S> = generate_blended_distribution(
        splines,
        &spline,
        &knots,
        n_panels + 1,
        weight,
        elementary,
    );
    let curve: &Z = &spline;
    let place = |s: S| -> (p: Point<S>)
        requires
            arithmetic::<S>(),
            splines.lawful(),
        ensures
            p == splines.place(*curve, s * s_max),
        {
            splines.evaluate(curve, s * s_max)
        };
    let nodes: Vec<Point<S>> = mapped(&params, place);
    assert(nodes@ =~= params@.map_values(
        |s: S| splines.place(spline, s * splines.length(spline)),
    ));
    let r: Vec<S> = points_to_flat(&nodes);
    assert(shown == Some(spline));
    r
}

/// Repanels an outline with a spacing function.
pub fn repanel_with_spacing<S: Real, Z, P: Splines<S, Z>, E: Elementary<S>>(
    coords: &[S],
    spacing_knots: &[S],
    n_panels: usize,
    splines: &P,
    elementary: &E,
) -> (r: Vec<S>)
    requires
        arithmetic::<S>(),
        splines.lawful(),
        elementary.lawful(),
        n_panels < usize::MAX,
        outline(coords@) && knot_list(spacing_knots@) && n_panels > 0 ==> comparable(
            pairs_in(spacing_knots@),
        ),
    ensures
        !outline(coords@) || !knot_list(spacing_knots@) ==> r@.len() == 0,
        outline(coords@) && knot_list(spacing_knots@) ==> exists|z: Option<Z>|
            #[trigger] splines.fits(paired(coords@), z) && r@ == repaneled(
                splines,
                z,
                spacing_knots@,
                n_panels as int,
                whole::<S>(0),
                elementary,
            ),
{
    repanel_with_spacing_and_curvature(
        coords,
        spacing_knots,
        n_panels,
        whole(0),
        splines,
        elementary,
    )
}

/// The list of `n` evenly spaced places of a spline, each followed by the density that
/// curvature asks for there.
pub open spec fn curvature_table<S: Real, Z, P: Splines<S, Z>, E: Elementary<S>>(
    splines: &P,
    z: Option<Z>,
    n: int,
    elementary: &E,
) -> Seq<S> {
    match z {
        Some(z) => Seq::new(
            (2 * n) as nat,
            |k: int|
                if k % 2 == 0 {
                    step::<S>(k / 2, n)
                } else {
                    density_of(elementary, bends(splines, z, n))[k / 2]
                },
        ),
        None => Seq::empty(),
    }
}

/// The number of samples of a curvature table: ten at least.
#[verifier::allow_in_spec]
pub fn table_size(n_samples: usize) -> usize
    returns
        (if n_samples < 10 {
            10
        } else {
            n_samples
        }),
{
    if n_samples < 10 {
        10
    } else {
        n_samples
    }
}

/// The densities that the curvature of an outline asks for, as places and densities in turn.
pub fn compute_curvature_spacing<S: Real, Z, P: Splines<S, Z>, E: Elementary<S>>(
    coords: &[S],
    n_samples: usize,
    splines: &P,
    elementary: &E,
) -> (r: Vec<S>)
    requires
        arithmetic::<S>(),
        splines.lawful(),
        elementary.lawful(),
    ensures
        !outline(coords@) ==> r@.len() == 0,
        outline(coords@) ==> exists|z: Option<Z>|
            #[trigger] splines.fits(paired(coords@), z) && r@ == curvature_table(
                splines,
                z,
                table_size(n_samples) as int,
                elementary,
            ),
{
    if !is_outline(coords) {
        return Vec::new();
    }
    let points: Vec<Point<S>> = points_from_flat(coords);
    let fitted: Option<Z> = splines.from_points(&points);
    assert(splines.fits(paired(coords@), fitted));
    let ghost shown = fitted;
    let spline: Z = match fitted {
        Some(z) => z,
        None => {
            let r: Vec<S> = Vec::new();
            assert(r@ =~= Seq::<S>::empty());
            return r;
        },
    };
    let n: usize = table_size(n_samples);
    let curvatures: Vec<S> = sample_curvature(splines, &spline, n);
    let spacing: Vec<S> = curvature_to_spacing(&curvatures, elementary);
    let ghost table = curvature_table(splines, Some(spline), n as int, elementary);
    let mut r: Vec<S> = Vec::new();
    let mut i: usize = 0;
    while i < n
        invariant
            arithmetic::<S>(),
            10 <= n,
            i <= n,
            spacing@.len() == n,
            spacing@ == density_of(elementary, bends(splines, spline, n as int)),
            table == curvature_table(splines, Some(spline), n as int, elementary),
            r@ == table.subrange(0, 2 * i),
        decreases n - i,
    {
        r.push(count::<S>(i) / count(n - 1));
        r.push(spacing[i]);
        i = i + 1;
        proof {
            assert((2 * i - 2) / 2 == i - 1 && (2 * i - 1) / 2 == i - 1);
            assert(table[2 * i - 2] == step::<S>(i - 1, n as int));
            assert(table[2 * i - 1] == spacing@[i - 1]);
            assert(r@ =~= table.subrange(0, 2 * i));
        }
    }
    assert(r@ =~= table);
    assert(shown == Some(spline));
    r
}

/// Repanels an outline by curvature, with the parameters of the distribution. The list is
/// empty where the outline or the spline is not there.
pub fn repanel_xfoil_with_params<S: Real, Z, P: Splines<S, Z>>(
    coords: &[S],
    n_panels: usize,
    curv_param: S,
    te_le_ratio: S,
    te_spacing_ratio: S,
    splines: &P,
) -> (r: Vec<S>)
    requires
        splines.lawful(),
    ensures
        !outline(coords@) ==> r@.len() == 0,
        outline(coords@) ==> exists|z: Option<Z>|
            {
                &&& #[trigger] splines.fits(paired(coords@), z)
                &&& panels_from(
                    splines,
                    z,
                    n_panels,
                    (curv_param, te_le_ratio, te_spacing_ratio),
                    r@,
                )
            },
{
    if !is_outline(coords) {
        return Vec::new();
    }
    let points: Vec<Point<S>> = points_from_flat(coords);
    let fitted: Option<Z> = splines.from_points(&points);
    assert(splines.fits(paired(coords@), fitted));
    let ghost shown = fitted;
    match fitted {
        Some(z) => {
            let params: (S, S, S) = (curv_param, te_le_ratio, te_spacing_ratio);
            let nodes: Vec<Point<S>> = splines.resample_xfoil(&z, n_panels, params);
            let r: Vec<S> = points_to_flat(&nodes);
            assert(splines.resamples(z, n_panels, params, nodes@));
            assert(panels_from(splines, shown, n_panels, params, r@));
            r
        },
        None => Vec::new(),
    }
}

/// `r` are the coordinates of `n` panels on the spline, or none without it.
pub open spec fn panels_from<S: Real, Z, P: Splines<S, Z>>(
    splines: &P,
    z: Option<Z>,
    n: usize,
    params: (S, S, S),
    r: Seq<S>,
) -> bool {
    match z {
        Some(z) => exists|nodes: Seq<Point<S>>|
            #[trigger] splines.resamples(z, n, params, nodes) && r == flattened(nodes),
        None => r.len() == 0,
    }
}

/// Repanels an outline by curvature.
pub fn repanel_xfoil<S: Real, Z, P: Splines<S, Z>>(coords: &[S], n_panels: usize, splines: &P) -> (r:
    Vec<S>)
    requires
        arithmetic::<S>(),
        splines.lawful(),
    ensures
        !outline(coords@) ==> r@.len() == 0,
        outline(coords@) ==> exists|z: Option<Z>|
            {
                &&& #[trigger] splines.fits(paired(coords@), z)
                &&& panels_from(
                    splines,
                    z,
                    n_panels,
                    (whole::<S>(1), decimal::<S>(15, 100), decimal::<S>(667, 1000)),
                    r@,
                )
            },
{
    repanel_xfoil_with_params(
        coords,
        n_panels,
        whole(1),
        decimal(15, 100),
        decimal(667, 1000),
        splines,
    )
}

} // verus!
