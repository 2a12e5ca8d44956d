//! The operating point: what its correction is for, and the lift that it goes by.
use super::algebra::{
    lemma_cancel, lemma_commute, lemma_distribute, lemma_one, lemma_opposite, lemma_product_order,
    lemma_quotient,
};
use super::relaxation::lemma_angle_limit;
use super::{exact, lemma_not_small, lemma_tenths};
use crate::callable::list_value;
use crate::number::{abs, tenths, whole, Formula, Real};
use crate::viscal::operating::{
    angle_limit, any_nonzero, lift_terms, operating_correction, OperatingMode,
};
use vstd::prelude::*;

verus! {

/// The correction brings the trial lift to the prescribed one, to first order in the angle:
/// where it meets its limit, it goes that way. Without an answer of the lift there is none.
pub proof fn law_correction_meets_the_lift<S: Real>(
    v: spec_fn(S) -> real,
    target_cl: S,
    cl_new: S,
    cl_alpha: S,
    cl_ac: S,
)
    requires
        exact(v),
    ensures
        ({
            let r = v(
                operating_correction(
                    OperatingMode::PrescribedCl { target_cl },
                    cl_new,
                    cl_alpha,
                    cl_ac,
                ),
            );
            let answer = v(cl_alpha) + v(cl_ac);
            let limit = v(angle_limit::<S>());
            let missing = v(target_cl) - v(cl_new);
            let small = v(tenths::<S>(12));
            &&& -small < answer < small ==> r == 0real
            &&& !(-small < answer < small) && -limit < r < limit ==> v(cl_new) + answer * r == v(
                target_cl,
            )
            &&& !(-small < answer < small) && answer > 0real ==> (r == limit ==> missing >= answer
                * limit) && (r == -limit ==> missing <= answer * -limit)
            &&& !(-small < answer < small) && answer < 0real ==> (r == limit ==> missing <= answer
                * limit) && (r == -limit ==> missing >= answer * -limit)
        }),
{
    let denominator = -(cl_ac + cl_alpha);
    let answer = v(cl_alpha) + v(cl_ac);
    lemma_tenths(v, 12);
    lemma_angle_limit(v);
    let limit = v(angle_limit::<S>());
    assert(v(denominator) == -answer);
    if !(abs(denominator) < tenths::<S>(12)) {
        lemma_not_small(v, denominator, 12);
        let q = (cl_new - target_cl) / denominator;
        let x = v(q);
        lemma_quotient(v(cl_new) - v(target_cl), -answer);
        assert((-answer) * x == v(cl_new) - v(target_cl));
        lemma_commute(-answer, x);
        lemma_opposite(x, answer);
        lemma_commute(x, answer);
        assert(answer * x == v(target_cl) - v(cl_new));
        if answer > 0real {
            if x >= limit {
                lemma_product_order(limit, x, answer);
            }
            if x <= -limit {
                lemma_product_order(x, -limit, answer);
            }
            lemma_commute(limit, answer);
            lemma_commute(x, answer);
            lemma_commute(-limit, answer);
        } else {
            let a = -answer;
            if x >= limit {
                lemma_product_order(limit, x, a);
            }
            if x <= -limit {
                lemma_product_order(x, -limit, a);
            }
            lemma_opposite(x, answer);
            lemma_opposite(limit, answer);
            lemma_opposite(-limit, answer);
            lemma_commute(limit, answer);
            lemma_commute(-limit, answer);
        }
    }
}

/// The derivative of the lift by the angle of attack is that of the lift, where the lift is
/// linear in the angle; and the derivative by the operating variable is that along the
/// sensitivities of the velocities, where the lift is linear along them.
pub proof fn law_lift_derivatives<S: Real, L: Fn(&Vec<S>, S) -> S>(
    v: spec_fn(S) -> real,
    qnew: Seq<S>,
    qac: Seq<S>,
    alpha: S,
    cl: L,
    by_angle: real,
    along: real,
)
    requires
        exact(v),
        qnew.len() == qac.len(),
        forall|a: S| #[trigger]
            v(list_value(cl, qnew, a)) == v(list_value(cl, qnew, alpha)) + by_angle * (v(a) - v(
                alpha,
            )),
        forall|q: Seq<S>, t: real| #[trigger]
            moved_along(v, qnew, qac, q, t) ==> v(list_value(cl, q, alpha)) == v(
                list_value(cl, qnew, alpha),
            ) + along * t,
    ensures
        lift_terms(qnew, qac, alpha, cl).0 == list_value(cl, qnew, alpha),
        v(lift_terms(qnew, qac, alpha, cl).1) == by_angle,
        v(lift_terms(qnew, qac, alpha, cl).2) == along,
{
    let eps = tenths::<S>(6);
    lemma_tenths(v, 6);
    let e = v(eps);
    let up = list_value(cl, qnew, alpha + eps);
    let down = list_value(cl, qnew, alpha - eps);
    let two = whole::<S>(2);
    assert(v(up) - v(down) == by_angle * e - by_angle * -e);
    lemma_opposite(by_angle, e);
    lemma_distribute(by_angle, e, e);
    assert(v(up) - v(down) == by_angle * (2real * e));
    assert(v(two * eps) == 2real * e);
    lemma_commute(by_angle, 2real * e);
    lemma_cancel(2real * e, by_angle);
    if any_nonzero(qac, qac.len()) {
        let moved = Seq::new(qnew.len(), |i: int| qnew[i] + eps * qac[i]);
        assert(moved_along(v, qnew, qac, moved, e));
        lemma_commute(along, e);
        lemma_cancel(e, along);
    } else {
        lemma_all_zero(v, qac, qac.len());
        assert(moved_along(v, qnew, qac, qnew, 1real)) by {
            assert forall|i: int| 0 <= i < qnew.len() implies v(#[trigger] qnew[i]) == v(qnew[i])
                + 1real * v(qac[i]) by {
                assert(v(qac[i]) == 0real);
            }
        }
        lemma_one(along);
    }
}

/// A distribution that lies `t` sensitivities away from another.
pub open spec fn moved_along<S: Real>(
    v: spec_fn(S) -> real,
    from: Seq<S>,
    by: Seq<S>,
    to: Seq<S>,
    t: real,
) -> bool {
    &&& to.len() == from.len()
    &&& forall|i: int| 0 <= i < from.len() ==> v(#[trigger] to[i]) == v(from[i]) + t * v(by[i])
}

/// Where no value is larger than zero in size, all are zero.
proof fn lemma_all_zero<S: Real>(v: spec_fn(S) -> real, q: Seq<S>, n: nat)
    requires
        exact(v),
        !any_nonzero(q, n),
    ensures
        forall|i: int| 0 <= i < n ==> v(#[trigger] q[i]) == 0real,
    decreases n,
{
    if n > 0 {
        lemma_all_zero(v, q, (n - 1) as nat);
    }
}

} // verus!
