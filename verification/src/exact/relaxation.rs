//! A step is scaled so that no variable changes by more than its limits, and the angle of
//! attack is corrected within its own.
use super::algebra::{
    lemma_commute, lemma_difference, lemma_meets, lemma_opposite, lemma_positive_product,
    lemma_positive_quotient, lemma_product_order, lemma_quotient, lemma_sign, lemma_zero,
};
use super::exact;
use crate::global_newton::system::GlobalNewtonSystem;
use crate::global_newton::update::{
    final_relaxation, limited, lower_limit, normalised, upper_limit, velocity_change,
    GlobalOperatingPreview, Scan, Step, UpdatePoint,
};
use crate::number::{clamp, decimal, larger, pi, smaller, whole, Formula, Real};
use crate::viscal::operating::{angle_limit, operating_correction, OperatingMode};
use vstd::prelude::*;

verus! {

/// The scale `t` keeps the changes of a station within the limits: up to three halves, and
/// down to minus one half for all but the velocity.
pub open spec fn keeps_within<S: Real>(v: spec_fn(S) -> real, t: real, dn: [S; 4]) -> bool {
    &&& -1real / 2real <= t * v(dn[0]) <= 3real / 2real
    &&& -1real / 2real <= t * v(dn[1]) <= 3real / 2real
    &&& -1real / 2real <= t * v(dn[2]) <= 3real / 2real
    &&& t * v(dn[3]) <= 3real / 2real
}

/// The scale `r` keeps the changes of a station within the limits.
pub open spec fn admits<S: Real>(v: spec_fn(S) -> real, r: S, dn: [S; 4]) -> bool {
    keeps_within(v, v(r), dn)
}

/// A smaller scale keeps a change within its limits.
proof fn lemma_smaller_scale(a: real, b: real, x: real)
    requires
        0real <= a <= b,
    ensures
        b * x <= 3real / 2real ==> a * x <= 3real / 2real,
        b * x >= -1real / 2real ==> a * x >= -1real / 2real,
{
    if x >= 0real {
        lemma_product_order(a, b, x);
        lemma_product_order(0real, a, x);
        lemma_zero(x);
    } else {
        lemma_product_order(a, b, -x);
        lemma_product_order(0real, a, -x);
        lemma_opposite(a, x);
        lemma_opposite(b, x);
        lemma_zero(-x);
    }
}

/// One change limits the scale.
proof fn lemma_limited<S: Real>(v: spec_fn(S) -> real, r: S, dn: S, two_sided: bool)
    requires
        exact(v),
        v(r) >= 0real,
    ensures
        ({
            let q = v(limited(r, dn, two_sided));
            &&& 0real <= q <= v(r)
            &&& q * v(dn) <= 3real / 2real
            &&& two_sided ==> q * v(dn) >= -1real / 2real
        }),
{
    assert(v(upper_limit::<S>()) == 3real / 2real);
    assert(v(decimal::<S>(1, 2)) == 1real / 2real);
    assert(v(lower_limit::<S>()) == -1real / 2real);
    let x = v(dn);
    let s = v(r) * x;
    if two_sided && s < -1real / 2real {
        lemma_meets(v(r), x, -1real / 2real);
        if x == 0real {
            lemma_zero(v(r));
        }
    } else if s > 3real / 2real {
        lemma_meets(v(r), x, 3real / 2real);
        if x == 0real {
            lemma_zero(v(r));
        }
    }
}

/// A scale that meets a limit exactly is the largest that keeps it.
proof fn lemma_largest(t: real, q: real, x: real, c: real)
    requires
        q * x == c,
    ensures
        x > 0real && t * x <= c ==> t <= q,
        x < 0real && t * x >= c ==> t <= q,
{
    if t > q {
        lemma_commute(t - q, x);
        lemma_difference(x, t, q);
        lemma_commute(x, t);
        lemma_commute(x, q);
        if x > 0real {
            lemma_positive_product(t - q, x);
        } else if x < 0real {
            lemma_positive_product(t - q, -x);
            lemma_opposite(t - q, x);
        }
    }
}

/// No larger scale than the limited one keeps the change within its limits.
proof fn lemma_limited_least<S: Real>(
    v: spec_fn(S) -> real,
    r: S,
    dn: S,
    two_sided: bool,
    t: real,
)
    requires
        exact(v),
        v(r) >= 0real,
        0real <= t <= v(r),
        t * v(dn) <= 3real / 2real,
        two_sided ==> t * v(dn) >= -1real / 2real,
    ensures
        t <= v(limited(r, dn, two_sided)),
{
    assert(v(upper_limit::<S>()) == 3real / 2real);
    assert(v(decimal::<S>(1, 2)) == 1real / 2real);
    assert(v(lower_limit::<S>()) == -1real / 2real);
    let x = v(dn);
    let s = v(r) * x;
    if x == 0real {
        lemma_zero(v(r));
    } else if two_sided && s < -1real / 2real {
        lemma_sign(v(r), x, -1real / 2real);
        lemma_quotient(-1real / 2real, x);
        lemma_largest(t, -1real / 2real / x, x, -1real / 2real);
    } else if s > 3real / 2real {
        lemma_sign(v(r), x, 3real / 2real);
        lemma_quotient(3real / 2real, x);
        lemma_largest(t, 3real / 2real / x, x, 3real / 2real);
    }
}

/// No larger scale than that of the scan keeps the changes of the station within the limits.
proof fn lemma_with_least<S: Real>(v: spec_fn(S) -> real, scan: Scan<S>, dn: [S; 4], t: real)
    requires
        exact(v),
        0real <= t <= v(scan.rlx),
        keeps_within(v, t, dn),
    ensures
        t <= v(scan.with(dn).rlx),
{
    let r1 = limited(scan.rlx, dn[0], true);
    let r2 = limited(r1, dn[1], true);
    let r3 = limited(r2, dn[2], true);
    lemma_limited(v, scan.rlx, dn[0], true);
    lemma_limited(v, r1, dn[1], true);
    lemma_limited(v, r2, dn[2], true);
    lemma_limited_least(v, scan.rlx, dn[0], true, t);
    lemma_limited_least(v, r1, dn[1], true, t);
    lemma_limited_least(v, r2, dn[2], true, t);
    lemma_limited_least(v, r3, dn[3], false, t);
}

/// A station limits the scale.
proof fn lemma_with<S: Real>(v: spec_fn(S) -> real, scan: Scan<S>, dn: [S; 4])
    requires
        exact(v),
        v(scan.rlx) >= 0real,
    ensures
        0real <= v(scan.with(dn).rlx) <= v(scan.rlx),
        admits(v, scan.with(dn).rlx, dn),
{
    let r1 = limited(scan.rlx, dn[0], true);
    let r2 = limited(r1, dn[1], true);
    let r3 = limited(r2, dn[2], true);
    let r4 = limited(r3, dn[3], false);
    lemma_limited(v, scan.rlx, dn[0], true);
    lemma_limited(v, r1, dn[1], true);
    lemma_limited(v, r2, dn[2], true);
    lemma_limited(v, r3, dn[3], false);
    lemma_smaller_scale(v(r4), v(r1), v(dn[0]));
    lemma_smaller_scale(v(r4), v(r2), v(dn[1]));
    lemma_smaller_scale(v(r4), v(r3), v(dn[2]));
}

/// A smaller scale admits what a scale admits.
proof fn lemma_admits<S: Real>(v: spec_fn(S) -> real, a: S, b: S, dn: [S; 4])
    requires
        0real <= v(a) <= v(b),
        admits(v, b, dn),
    ensures
        admits(v, a, dn),
{
    lemma_smaller_scale(v(a), v(b), v(dn[0]));
    lemma_smaller_scale(v(a), v(b), v(dn[1]));
    lemma_smaller_scale(v(a), v(b), v(dn[2]));
    lemma_smaller_scale(v(a), v(b), v(dn[3]));
}

/// The changes of station `i` of a surface, in proportion to its variables.
pub open spec fn changes_at<S: Real>(
    step: Step<S>,
    system: GlobalNewtonSystem<S>,
    surface: int,
    points: Seq<UpdatePoint<S>>,
    u_new: Seq<S>,
    u_ac: Seq<S>,
    i: int,
) -> [S; 4] {
    normalised(
        points[i],
        step.delta(system.row_of(surface, i)),
        velocity_change(u_new, u_ac, step.dac, points[i].u, i),
    )
}

/// The stations of a surface limit the scale.
proof fn lemma_scanned<S: Real>(
    v: spec_fn(S) -> real,
    step: Step<S>,
    system: GlobalNewtonSystem<S>,
    surface: int,
    points: Seq<UpdatePoint<S>>,
    u_new: Seq<S>,
    u_ac: Seq<S>,
    from: Scan<S>,
    n: int,
)
    requires
        exact(v),
        v(from.rlx) >= 0real,
    ensures
        ({
            let r = step.scanned(&system, surface, points, u_new, u_ac, from, n).rlx;
            &&& 0real <= v(r) <= v(from.rlx)
            &&& forall|i: int|
                1 <= i < n && system.row_of(surface, i) < step.deltas.len() ==> admits(
                    v,
                    r,
                    #[trigger] changes_at(step, system, surface, points, u_new, u_ac, i),
                )
        }),
    decreases n,
{
    if n > 1 {
        lemma_scanned(v, step, system, surface, points, u_new, u_ac, from, n - 1);
        let before = step.scanned(&system, surface, points, u_new, u_ac, from, n - 1);
        let k = n - 1;
        if system.row_of(surface, k) < step.deltas.len() {
            let dn = changes_at(step, system, surface, points, u_new, u_ac, k);
            lemma_with(v, before, dn);
            let r = before.with(dn).rlx;
            assert(r == step.scanned(&system, surface, points, u_new, u_ac, from, n).rlx);
            assert forall|i: int|
                1 <= i < n && system.row_of(surface, i) < step.deltas.len() implies admits(
                v,
                r,
                #[trigger] changes_at(step, system, surface, points, u_new, u_ac, i),
            ) by {
                if i < k {
                    lemma_admits(
                        v,
                        r,
                        before.rlx,
                        changes_at(step, system, surface, points, u_new, u_ac, i),
                    );
                }
            }
        }
    }
}

/// The scale `t` keeps the changes of every station of a surface that has a row within the
/// limits.
pub open spec fn keeps_surface<S: Real>(
    v: spec_fn(S) -> real,
    t: real,
    step: Step<S>,
    system: GlobalNewtonSystem<S>,
    surface: int,
    points: Seq<UpdatePoint<S>>,
    u_new: Seq<S>,
    u_ac: Seq<S>,
    n: int,
) -> bool {
    forall|i: int|
        1 <= i < n && system.row_of(surface, i) < step.deltas.len() ==> keeps_within(
            v,
            t,
            #[trigger] changes_at(step, system, surface, points, u_new, u_ac, i),
        )
}

/// No larger scale than that of the scan keeps the changes of the stations within the limits.
proof fn lemma_scanned_least<S: Real>(
    v: spec_fn(S) -> real,
    t: real,
    step: Step<S>,
    system: GlobalNewtonSystem<S>,
    surface: int,
    points: Seq<UpdatePoint<S>>,
    u_new: Seq<S>,
    u_ac: Seq<S>,
    from: Scan<S>,
    n: int,
)
    requires
        exact(v),
        0real <= t <= v(from.rlx),
        keeps_surface(v, t, step, system, surface, points, u_new, u_ac, n),
    ensures
        t <= v(step.scanned(&system, surface, points, u_new, u_ac, from, n).rlx),
    decreases n,
{
    if n > 1 {
        lemma_scanned_least(v, t, step, system, surface, points, u_new, u_ac, from, n - 1);
        let before = step.scanned(&system, surface, points, u_new, u_ac, from, n - 1);
        if system.row_of(surface, n - 1) < step.deltas.len() {
            let dn = changes_at(step, system, surface, points, u_new, u_ac, n - 1);
            lemma_with_least(v, before, dn, t);
        }
    }
}

/// The scale of a step is the largest, of those from zero to the one that was asked for, that
/// keeps the changes of every station with a row within the limits: no other such scale
/// passes it.
pub proof fn law_step_is_not_limited_further<S: Real>(
    v: spec_fn(S) -> real,
    step: Step<S>,
    system: GlobalNewtonSystem<S>,
    upper: Seq<UpdatePoint<S>>,
    lower: Seq<UpdatePoint<S>>,
    preview: GlobalOperatingPreview<S>,
    relaxation: S,
    t: real,
)
    requires
        exact(v),
        0real <= t <= v(clamp(relaxation, whole::<S>(0), whole::<S>(1))),
        keeps_surface(
            v,
            t,
            step,
            system,
            0,
            upper,
            preview.upper_u_new@,
            preview.upper_u_ac@,
            upper.len() as int,
        ),
        keeps_surface(
            v,
            t,
            step,
            system,
            1,
            lower,
            preview.lower_u_new@,
            preview.lower_u_ac@,
            lower.len() as int,
        ),
    ensures
        t <= v(final_relaxation(step.scanned_both(&system, upper, lower, preview, relaxation))),
{
    let zero = whole::<S>(0);
    let one = whole::<S>(1);
    let start = Scan { rlx: clamp(relaxation, zero, one), squares: zero, largest: zero, stations: 0 };
    let un = preview.upper_u_new@;
    let ua = preview.upper_u_ac@;
    let ln = preview.lower_u_new@;
    let la = preview.lower_u_ac@;
    lemma_scanned_least(v, t, step, system, 0, upper, un, ua, start, upper.len() as int);
    let mid = step.scanned(&system, 0, upper, un, ua, start, upper.len() as int);
    lemma_scanned_least(v, t, step, system, 1, lower, ln, la, mid, lower.len() as int);
    let last = step.scanned(&system, 1, lower, ln, la, mid, lower.len() as int);
    assert(last == step.scanned_both(&system, upper, lower, preview, relaxation));
    assert(v(start.rlx) <= 1real);
}

/// The scale of a step lies between zero and the one that was asked for, and keeps the
/// changes of every station that has a row within the limits.
pub proof fn law_step_is_limited<S: Real>(
    v: spec_fn(S) -> real,
    step: Step<S>,
    system: GlobalNewtonSystem<S>,
    upper: Seq<UpdatePoint<S>>,
    lower: Seq<UpdatePoint<S>>,
    preview: GlobalOperatingPreview<S>,
    relaxation: S,
)
    requires
        exact(v),
    ensures
        ({
            let r = final_relaxation(
                step.scanned_both(&system, upper, lower, preview, relaxation),
            );
            &&& 0real <= v(r) <= v(clamp(relaxation, whole::<S>(0), whole::<S>(1))) <= 1real
            &&& forall|i: int|
                1 <= i < upper.len() && system.row_of(0, i) < step.deltas.len() ==> admits(
                    v,
                    r,
                    #[trigger] changes_at(
                        step,
                        system,
                        0,
                        upper,
                        preview.upper_u_new@,
                        preview.upper_u_ac@,
                        i,
                    ),
                )
            &&& forall|i: int|
                1 <= i < lower.len() && system.row_of(1, i) < step.deltas.len() ==> admits(
                    v,
                    r,
                    #[trigger] changes_at(
                        step,
                        system,
                        1,
                        lower,
                        preview.lower_u_new@,
                        preview.lower_u_ac@,
                        i,
                    ),
                )
        }),
{
    let zero = whole::<S>(0);
    let one = whole::<S>(1);
    let start = Scan { rlx: clamp(relaxation, zero, one), squares: zero, largest: zero, stations: 0 };
    assert(0real <= v(start.rlx) <= 1real);
    let un = preview.upper_u_new@;
    let ua = preview.upper_u_ac@;
    let ln = preview.lower_u_new@;
    let la = preview.lower_u_ac@;
    lemma_scanned(v, step, system, 0, upper, un, ua, start, upper.len() as int);
    let mid = step.scanned(&system, 0, upper, un, ua, start, upper.len() as int);
    lemma_scanned(v, step, system, 1, lower, ln, la, mid, lower.len() as int);
    let last = step.scanned(&system, 1, lower, ln, la, mid, lower.len() as int);
    let r = final_relaxation(last);
    assert(last == step.scanned_both(&system, upper, lower, preview, relaxation));
    assert(v(larger(last.rlx, zero)) == v(last.rlx));
    assert(v(smaller(larger(last.rlx, zero), one)) == v(last.rlx));
    assert forall|i: int|
        1 <= i < upper.len() && system.row_of(0, i) < step.deltas.len() implies admits(
        v,
        r,
        #[trigger] changes_at(step, system, 0, upper, un, ua, i),
    ) by {
        lemma_admits(v, r, mid.rlx, changes_at(step, system, 0, upper, un, ua, i));
    }
    assert forall|i: int|
        1 <= i < lower.len() && system.row_of(1, i) < step.deltas.len() implies admits(
        v,
        r,
        #[trigger] changes_at(step, system, 1, lower, ln, la, i),
    ) by {
        lemma_admits(v, r, last.rlx, changes_at(step, system, 1, lower, ln, la, i));
    }
}

/// Half a degree is more than nothing.
pub proof fn lemma_angle_limit<S: Real>(v: spec_fn(S) -> real)
    requires
        exact(v),
    ensures
        v(angle_limit::<S>()) > 0real,
{
    let a = v(whole::<S>(3141592));
    let b = v(whole::<S>(1000000000));
    let c = v(whole::<S>(1000000));
    lemma_positive_product(a, b);
    lemma_positive_product(c, b);
    lemma_positive_quotient(a * b + v(whole::<S>(653589793)), c * b);
    let p = v(pi::<S>());
    lemma_positive_quotient(p, 180real);
    lemma_positive_quotient(5real, 10real);
    lemma_positive_product(5real / 10real, p / 180real);
}

/// The angle of attack is corrected by half a degree at most, and not at all where it is
/// prescribed.
pub proof fn law_correction_is_limited<S: Real>(
    v: spec_fn(S) -> real,
    mode: OperatingMode<S>,
    cl_new: S,
    cl_alpha: S,
    cl_ac: S,
)
    requires
        exact(v),
    ensures
        ({
            let r = v(operating_correction(mode, cl_new, cl_alpha, cl_ac));
            &&& -v(angle_limit::<S>()) <= r <= v(angle_limit::<S>())
            &&& mode is PrescribedAlpha ==> r == 0real
        }),
{
    lemma_angle_limit(v);
}

/// The limits: a scaled change lies between minus one half and three halves, and the angle of
/// attack changes by half a degree at most.
pub proof fn law_limits<S: Real>(v: spec_fn(S) -> real)
    requires
        exact(v),
    ensures
        v(upper_limit::<S>()) == 3real / 2real,
        v(lower_limit::<S>()) == -(1real / 2real),
        v(angle_limit::<S>()) * 360real == v(pi::<S>()),
{
    let k = v(pi::<S>()) / 180real;
    lemma_quotient(v(pi::<S>()), 180real);
    assert(v(decimal::<S>(5, 10)) == 5real / 10real);
    assert(v(angle_limit::<S>()) == 5real / 10real * k);
    assert(v(decimal::<S>(1, 2)) == 1real / 2real);
    assert(v(decimal::<S>(3, 2)) == 3real / 2real);
    lemma_half_turn(k);
}

/// Half a degree, 360 times.
proof fn lemma_half_turn(k: real)
    by (nonlinear_arith)
    ensures
        5real / 10real * k * 360real == k * 180real,
{
}

} // verus!
