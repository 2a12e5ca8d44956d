//! How the two measures of a step compare, and what a step keeps within bounds.
use super::algebra::{
    lemma_associate, lemma_commute, lemma_difference, lemma_distribute, lemma_opposite,
    lemma_positive_product, lemma_product_order, lemma_quotient, lemma_quotient_order, lemma_zero,
    lemma_zero_over,
};
use super::exact;
use super::relaxation::law_step_is_limited;
use super::spacing::lemma_count;
use crate::closure::BlLaws;
use crate::global_newton::newton_state::{CanonicalNewtonRow, CanonicalNewtonStateView};
use crate::global_newton::system::GlobalNewtonSystem;
use crate::global_newton::update::{
    normalised, rms_of, row_measures_of, rows_updated, velocity_change, GlobalOperatingPreview,
    GlobalUpdateResult, RowForms, Scan, Step, UpdatePoint,
};
use crate::number::{abs, clamp, count, decimal, larger, whole, Formula, Real};
use crate::station::{BlStation, FlowType, Matrix};
use vstd::prelude::*;

verus! {

/// `sqrt` is the square root: the number that is not negative and whose square it is given.
pub open spec fn takes_roots<S: Real>(v: spec_fn(S) -> real, sqrt: spec_fn(S) -> S) -> bool {
    forall|x: S|
        v(x) >= 0real ==> v(#[trigger] sqrt(x)) >= 0real && v(sqrt(x)) * v(sqrt(x)) == v(x)
}

/// The square of a number is at most that of a bound on its magnitude.
proof fn lemma_square(x: real, l: real)
    requires
        -l <= x <= l,
    ensures
        0real <= x * x <= l * l,
{
    lemma_commute(l, x);
    if x >= 0real {
        lemma_product_order(0real, x, x);
        lemma_zero(x);
        lemma_product_order(x, l, x);
        lemma_product_order(x, l, l);
    } else {
        let y = -x;
        lemma_opposite(y, x);
        lemma_commute(y, x);
        lemma_opposite(x, x);
        lemma_product_order(0real, y, y);
        lemma_zero(y);
        lemma_product_order(y, l, y);
        lemma_product_order(y, l, l);
        lemma_commute(l, y);
    }
}

/// The squared changes of the stations of a scan are at most the square of the largest, each.
spec fn bounded<S: Real>(v: spec_fn(S) -> real, scan: Scan<S>) -> bool {
    let l = v(scan.largest);
    &&& l >= 0real
    &&& 0real <= v(scan.squares) <= 4real * ((scan.stations as real) * (l * l))
}

/// One more station.
proof fn lemma_with<S: Real>(v: spec_fn(S) -> real, scan: Scan<S>, dn: [S; 4])
    requires
        exact(v),
        bounded(v, scan),
    ensures
        bounded(v, scan.with(dn)),
{
    let after = scan.with(dn);
    let l = v(scan.largest);
    let m = v(after.largest);
    let n = scan.stations as real;
    assert(v(whole::<S>(0)) == 0real);
    assert(l <= m);
    assert(v(abs(dn[0])) <= m && v(abs(dn[1])) <= m && v(abs(dn[2])) <= m && v(abs(dn[3])) <= m);
    lemma_square(v(dn[0]), m);
    lemma_square(v(dn[1]), m);
    lemma_square(v(dn[2]), m);
    lemma_square(v(dn[3]), m);
    lemma_square(l, m);
    lemma_commute(n, l * l);
    lemma_commute(n, m * m);
    lemma_product_order(l * l, m * m, n);
    assert(after.stations as real == n + 1real);
    lemma_commute(n + 1real, m * m);
    lemma_distribute(m * m, n, 1real);
}

/// The stations of a surface.
proof fn lemma_scanned<S: Real>(
    v: spec_fn(S) -> real,
    step: Step<S>,
    system: &GlobalNewtonSystem<S>,
    surface: int,
    points: Seq<UpdatePoint<S>>,
    u_new: Seq<S>,
    u_ac: Seq<S>,
    from: Scan<S>,
    n: int,
)
    requires
        exact(v),
        bounded(v, from),
    ensures
        bounded(v, step.scanned(system, surface, points, u_new, u_ac, from, n)),
        step.scanned(system, surface, points, u_new, u_ac, from, n).stations <= from.stations + (
        if n >= 0 {
            n
        } else {
            0
        }),
    decreases n,
{
    if n > 1 {
        lemma_scanned(v, step, system, surface, points, u_new, u_ac, from, n - 1);
        let before = step.scanned(system, surface, points, u_new, u_ac, from, n - 1);
        let i = n - 1;
        let due = velocity_change(u_new, u_ac, step.dac, points[i].u, i);
        lemma_with(v, before, normalised(points[i], step.delta(system.row_of(surface, i)), due));
    }
}

/// The root mean square of the changes of a step is at most the largest of them.
pub proof fn law_mean_change_is_within_the_largest<S: Real>(
    v: spec_fn(S) -> real,
    step: Step<S>,
    system: &GlobalNewtonSystem<S>,
    upper: Seq<UpdatePoint<S>>,
    lower: Seq<UpdatePoint<S>>,
    preview: GlobalOperatingPreview<S>,
    relaxation: S,
    sqrt: spec_fn(S) -> S,
)
    requires
        exact(v),
        takes_roots(v, sqrt),
        upper.len() + lower.len() <= usize::MAX,
    ensures
        ({
            let scan = step.scanned_both(system, upper, lower, preview, relaxation);
            0real <= v(rms_of(scan, sqrt)) <= v(scan.largest)
        }),
{
    let zero = whole::<S>(0);
    let start = Scan {
        rlx: clamp(relaxation, zero, whole::<S>(1)),
        squares: zero,
        largest: zero,
        stations: 0,
    };
    assert(v(zero) == 0real);
    lemma_zero(0real);
    let un = preview.upper_u_new@;
    let ua = preview.upper_u_ac@;
    let ln = preview.lower_u_new@;
    let la = preview.lower_u_ac@;
    lemma_scanned(v, step, system, 0, upper, un, ua, start, upper.len() as int);
    let mid = step.scanned(system, 0, upper, un, ua, start, upper.len() as int);
    lemma_scanned(v, step, system, 1, lower, ln, la, mid, lower.len() as int);
    let scan = step.scanned(system, 1, lower, ln, la, mid, lower.len() as int);
    assert(scan == step.scanned_both(system, upper, lower, preview, relaxation));
    if scan.stations > 0 {
        let n = scan.stations as real;
        let l = v(scan.largest);
        let parts = whole::<S>(4) * count::<S>(scan.stations as usize);
        lemma_count(v, scan.stations as usize);
        assert(v(parts) == 4real * n);
        let mean = scan.squares / parts;
        assert(v(mean) == v(scan.squares) / (4real * n));
        lemma_mean(v(scan.squares), n, l * l);
        let r = v(sqrt(mean));
        assert(r * r == v(mean));
        if r > l {
            lemma_larger_square(r, l);
        }
    }
}

/// A mean of numbers is at most a bound on them.
proof fn lemma_mean(sum: real, n: real, bound: real)
    requires
        n > 0real,
        0real <= sum <= 4real * (n * bound),
    ensures
        0real <= sum / (4real * n) <= bound,
{
    let k = 4real * n;
    lemma_quotient(sum, k);
    let q = sum / k;
    lemma_commute(k, q);
    if q > bound {
        lemma_positive_product(q - bound, n);
        lemma_commute(q - bound, n);
        lemma_difference(n, q, bound);
        lemma_associate(4real, n, q);
    }
    if q < 0real {
        lemma_positive_product(-q, k);
        lemma_opposite(k, q);
        lemma_commute(-q, k);
    }
}

/// A larger number has the larger square.
proof fn lemma_larger_square(r: real, l: real)
    requires
        r > l >= 0real,
    ensures
        r * r > l * l,
{
    lemma_product_order(l, r, l);
    lemma_positive_product(r - l, r);
    lemma_commute(r - l, r);
    lemma_difference(r, r, l);
    lemma_commute(r, l);
}

/// The shear stress of a station that a step moves is at most a quarter, where the station is
/// not laminar.
pub proof fn law_stepped_shear_is_limited<S: Real>(
    v: spec_fn(S) -> real,
    step: Step<S>,
    system: &GlobalNewtonSystem<S>,
    surface: int,
    stations: Seq<BlStation<S>>,
    u_new: Seq<S>,
    u_ac: Seq<S>,
    rlx: S,
    msq: S,
    hkin: spec_fn(S, S) -> (S, S),
    i: int,
)
    requires
        exact(v),
        0 < i < stations.len(),
        system.row_of(surface, i) < step.deltas.len(),
        !stations[i].is_laminar,
    ensures
        v(step.moved(system, surface, stations, u_new, u_ac, rlx, msq, hkin, i).ctau) <= 1real
            / 4real,
{
    assert(v(decimal::<S>(1, 4)) == 1real / 4real);
}

/// The scale of a step on the rows of a view lies between zero and the one that was asked
/// for, and the root mean square of its changes is at most the largest of them.
pub proof fn law_stepped_view_is_limited<
    S: Real,
    T,
    A: Fn((CanonicalNewtonRow<S>, FlowType)) -> BlStation<S>,
    C: Fn((CanonicalNewtonRow<S>, BlStation<S>)) -> CanonicalNewtonRow<S>,
>(
    v: spec_fn(S) -> real,
    before: &CanonicalNewtonStateView<S>,
    after: &CanonicalNewtonStateView<S>,
    r: GlobalUpdateResult<S>,
    step: Step<S>,
    system: &GlobalNewtonSystem<S>,
    relaxation: S,
    dij: &Matrix<S>,
    msq: S,
    re: S,
    forms: RowForms<A, C>,
    laws: BlLaws<S, T>,
)
    requires
        exact(v),
        takes_roots(v, laws.sqrt),
        before.upper_rows@.len() + before.lower_rows@.len() <= usize::MAX,
        rows_updated(before, after, r, step, system, relaxation, dij, msq, re, forms, laws),
    ensures
        0real <= v(r.relaxation_used) <= v(clamp(relaxation, whole::<S>(0), whole::<S>(1)))
            <= 1real,
        0real <= v(r.rms_change) <= v(r.max_change),
{
    let upper = row_measures_of(before.upper_rows@);
    let lower = row_measures_of(before.lower_rows@);
    let preview = GlobalOperatingPreview {
        upper_u_new: r.upper_u_new,
        lower_u_new: r.lower_u_new,
        upper_u_ac: r.upper_u_ac,
        lower_u_ac: r.lower_u_ac,
    };
    law_step_is_limited(v, step, *system, upper, lower, preview, relaxation);
    law_mean_change_is_within_the_largest(
        v,
        step,
        system,
        upper,
        lower,
        preview,
        relaxation,
        laws.sqrt,
    );
}

/// What a scan gathers at a station: the squares of its four changes, one station more, and
/// the largest of the changes so far, in size.
pub proof fn law_scan_gathers<S: Real>(v: spec_fn(S) -> real, scan: Scan<S>, dn: [S; 4])
    requires
        exact(v),
        v(scan.largest) >= 0real,
    ensures
        ({
            let r = scan.with(dn);
            let l = v(r.largest);
            &&& v(r.squares) - v(scan.squares) == v(dn[0]) * v(dn[0]) + v(dn[1]) * v(dn[1]) + v(
                dn[2],
            ) * v(dn[2]) + v(dn[3]) * v(dn[3])
            &&& r.stations == scan.stations + 1
            &&& l >= v(scan.largest)
            &&& forall|k: int| 0 <= k < 4 ==> -l <= v(#[trigger] dn[k]) <= l
            &&& l == v(scan.largest) || exists|k: int|
                0 <= k < 4 && (v(#[trigger] dn[k]) == l || v(dn[k]) == -l)
        }),
{
    let r = scan.with(dn);
    let l = v(r.largest);
    let l1 = larger(scan.largest, abs(dn[0]));
    let l2 = larger(l1, abs(dn[1]));
    let l3 = larger(l2, abs(dn[2]));
    assert(r.largest == larger(l3, abs(dn[3])));
    assert(-l <= v(dn[0]) <= l && -l <= v(dn[1]) <= l && -l <= v(dn[2]) <= l && -l <= v(dn[3])
        <= l);
    if l != v(scan.largest) {
        if l == v(abs(dn[0])) {
            assert(v(dn[0]) == l || v(dn[0]) == -l);
        } else if l == v(abs(dn[1])) {
            assert(v(dn[1]) == l || v(dn[1]) == -l);
        } else if l == v(abs(dn[2])) {
            assert(v(dn[2]) == l || v(dn[2]) == -l);
        } else {
            assert(l == v(abs(dn[3])));
            assert(v(dn[3]) == l || v(dn[3]) == -l);
        }
    }
}

/// The root mean square of a step is that of four changes for every station.
pub proof fn law_mean_change_is_that_of_all<S: Real>(
    v: spec_fn(S) -> real,
    scan: Scan<S>,
    sqrt: spec_fn(S) -> S,
)
    requires
        exact(v),
        takes_roots(v, sqrt),
        0 < scan.stations <= usize::MAX,
        v(scan.squares) >= 0real,
    ensures
        ({
            let r = v(rms_of(scan, sqrt));
            r >= 0real && r * r * (4real * scan.stations as real) == v(scan.squares)
        }),
{
    let n = scan.stations as usize;
    lemma_count(v, n);
    let d = 4real * (scan.stations as real);
    let c = whole::<S>(4) * count::<S>(n);
    assert(v(c) == d);
    let q = scan.squares / c;
    lemma_quotient(v(scan.squares), d);
    lemma_quotient_order(0real, v(scan.squares), d);
    lemma_zero_over(d);
    assert(v(q) >= 0real);
    let r = v(sqrt(q));
    assert(r * r == v(q));
}

} // verus!
