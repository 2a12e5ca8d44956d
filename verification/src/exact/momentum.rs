//! The explicit step of a march: what it does to momentum and shape.
use super::algebra::{
    lemma_associate, lemma_cancel, lemma_commute, lemma_difference, lemma_distribute, lemma_one,
    lemma_opposite, lemma_positive_product, lemma_positive_quotient, lemma_product_order,
    lemma_quotient, lemma_zero, lemma_zero_over,
};
use super::{exact, lemma_tenths, lemma_tenths_small};
use crate::march::station::momentum_step;
use crate::number::{abs, clamp, decimal, larger, smaller, tenths, whole, Formula, Real};
use crate::station::BlStation;
use vstd::prelude::*;

verus! {

/// The magnitude of a number.
pub open spec fn magnitude(x: real) -> real {
    if x < 0real {
        -x
    } else {
        x
    }
}

/// A station from which a step can be taken without a limit on what it starts from, to an
/// arc length that lies far enough ahead.
pub open spec fn steppable<S: Real>(
    v: spec_fn(S) -> real,
    prev: BlStation<S>,
    x_new: S,
    ue_new: S,
) -> bool {
    &&& v(x_new) - v(prev.x) > v(tenths::<S>(12))
    &&& 1real <= v(prev.h) <= 4real
    &&& v(tenths::<S>(12)) <= v(prev.theta) <= 1real / 5real
    &&& v(prev.cf) >= v(tenths::<S>(6))
    &&& magnitude(v(prev.u)) >= v(tenths::<S>(10))
    &&& magnitude(v(ue_new)) >= v(tenths::<S>(10))
}

/// The momentum thickness that the momentum integral equation gives a step on: friction adds
/// to it, and so does a falling velocity, with the mean velocity of the step.
pub open spec fn satisfies_momentum(
    theta: real,
    theta_new: real,
    dx: real,
    cf: real,
    h: real,
    msq: real,
    u: real,
    u_new: real,
) -> bool {
    (u + u_new) / 2real * (theta_new - theta - cf / 2real * dx) == -((h + 2real - msq) * theta * (
    u_new - u))
}

/// A quotient that is multiplied with its divisor once more.
proof fn lemma_slope(k: real, du: real, dx: real)
    requires
        dx != 0real,
    ensures
        k * (du / dx) * dx == k * du,
{
    lemma_associate(k, du / dx, dx);
    lemma_quotient(du, dx);
}

/// The explicit step is a step of the momentum integral equation: the momentum thickness
/// satisfies it, or meets its limit on the side on which it would pass it. It is never less
/// than halved nor more than doubled.
pub proof fn law_momentum_is_balanced<S: Real>(
    v: spec_fn(S) -> real,
    prev: BlStation<S>,
    x_new: S,
    ue_new: S,
    re: S,
    msq: S,
    is_laminar: bool,
    balanced: real,
)
    requires
        exact(v),
        steppable(v, prev, x_new, ue_new),
        satisfies_momentum(
            v(prev.theta),
            balanced,
            v(x_new) - v(prev.x),
            v(prev.cf),
            v(prev.h),
            v(msq),
            magnitude(v(prev.u)),
            magnitude(v(ue_new)),
        ),
    ensures
        ({
            let theta = v(prev.theta);
            let r = v(momentum_step(prev, x_new, ue_new, re, msq, is_laminar).0);
            let low = v(larger(prev.theta * decimal::<S>(1, 2), tenths::<S>(12)));
            &&& theta / 2real <= low
            &&& low <= r <= 2real * theta
            &&& r <= 1real / 10real
            &&& low <= balanced <= 2real * theta && balanced <= 1real / 10real ==> r == balanced
            &&& balanced < low ==> r == low
            &&& balanced > 2real * theta ==> r == 2real * theta || r == 1real / 10real
            &&& balanced > 1real / 10real ==> r == 2real * theta || r == 1real / 10real
        }),
{
    let half = decimal::<S>(1, 2);
    lemma_tenths(v, 12);
    lemma_tenths(v, 10);
    lemma_tenths_small::<S>(v, 12);
    assert(v(half) == 1real / 2real);
    let theta = v(prev.theta);
    let dx = abs(x_new - prev.x);
    assert(v(dx) == v(x_new) - v(prev.x));
    let d = v(dx);
    let u = magnitude(v(prev.u));
    let u_new = magnitude(v(ue_new));
    let ue = larger(abs(prev.u), tenths::<S>(10));
    let ue_next = larger(abs(ue_new), tenths::<S>(10));
    assert(v(ue) == u);
    assert(v(ue_next) == u_new);
    let due_dx = (ue_next - ue) / dx;
    let ue_avg = half * (ue + ue_next);
    let avg = (u + u_new) / 2real;
    lemma_one(u + u_new);
    assert(v(ue_avg) == 1real / 2real * (u + u_new));
    assert(v(ue_avg) == avg);
    let k = (v(prev.h) + 2real - v(msq)) * theta;
    let f = v(prev.cf) / 2real;
    // The loss by the pressure gradient, over the step.
    let p = k / avg * ((u_new - u) / d);
    let h = clamp(prev.h, whole::<S>(1), whole::<S>(4));
    let pressure = (h + whole::<S>(2) - msq) * prev.theta / ue_avg * due_dx;
    assert(v(pressure) == p);
    lemma_slope(k / avg, u_new - u, d);
    let loss = k / avg * (u_new - u);
    assert(p * d == loss);
    // The balanced thickness.
    lemma_associate(avg, k / avg, u_new - u);
    lemma_quotient(k, avg);
    assert(avg * loss == k * (u_new - u));
    let b = theta + f * d - loss;
    lemma_difference(avg, f * d, b - theta);
    let e = b - theta - f * d;
    assert(e == -loss);
    lemma_opposite(avg, loss);
    let w = balanced - theta - f * d;
    assert(avg * w == avg * e);
    lemma_cancel(avg, w);
    lemma_cancel(avg, e);
    assert(balanced == b);
    // What the step makes of it.
    let most = f + 1real / 2real * theta / d;
    lemma_distribute(d, f, 1real / 2real * theta / d);
    lemma_quotient(1real / 2real * theta, d);
    lemma_commute(most, d);
    lemma_commute(f, d);
    assert(most * d == f * d + 1real / 2real * theta);
    let taken = if p > most {
        most
    } else {
        p
    };
    let growth = f - taken;
    lemma_commute(growth, d);
    lemma_difference(d, f, taken);
    lemma_commute(taken, d);
    assert(growth * d == f * d - taken * d);
    if p > most {
        lemma_product_order(most, p, d);
        assert(theta + growth * d == theta - 1real / 2real * theta);
    } else {
        lemma_product_order(p, most, d);
        assert(theta + growth * d == b);
    }
    lemma_one(theta);
}

/// Where the flow slows down the momentum thickness grows by more than friction alone would
/// make it, and where the flow gains speed by less: up to the limits on its growth.
pub proof fn law_pressure_moves_momentum<S: Real>(
    v: spec_fn(S) -> real,
    prev: BlStation<S>,
    x_new: S,
    ue_new: S,
    re: S,
    msq: S,
    is_laminar: bool,
)
    requires
        exact(v),
        steppable(v, prev, x_new, ue_new),
        v(prev.h) + 2real - v(msq) > 0real,
    ensures
        ({
            let theta = v(prev.theta);
            let r = v(momentum_step(prev, x_new, ue_new, re, msq, is_laminar).0);
            let alone = theta + v(prev.cf) / 2real * (v(x_new) - v(prev.x));
            let u = magnitude(v(prev.u));
            let u_new = magnitude(v(ue_new));
            &&& u_new < u ==> r > alone || r == 2real * theta || r == 1real / 10real
            &&& u_new > u ==> r < alone || r == 2real * theta || r == 1real / 10real
            &&& u_new == u ==> r == alone || r == 2real * theta || r == 1real / 10real
        }),
{
    let theta = v(prev.theta);
    let d = v(x_new) - v(prev.x);
    let u = magnitude(v(prev.u));
    let u_new = magnitude(v(ue_new));
    let avg = (u + u_new) / 2real;
    let k = (v(prev.h) + 2real - v(msq)) * theta;
    lemma_tenths(v, 12);
    lemma_tenths(v, 10);
    lemma_tenths(v, 6);
    lemma_positive_product(v(prev.h) + 2real - v(msq), theta);
    let f = v(prev.cf) / 2real;
    lemma_positive_product(f, d);
    let q = k * (u_new - u) / avg;
    lemma_quotient(k * (u_new - u), avg);
    let b = theta + f * d - q;
    lemma_opposite(avg, q);
    assert(avg * (b - theta - f * d) == -(k * (u_new - u)));
    law_momentum_is_balanced(v, prev, x_new, ue_new, re, msq, is_laminar, b);
    let low = v(larger(prev.theta * decimal::<S>(1, 2), tenths::<S>(12)));
    lemma_one(theta);
    assert(low <= theta);
    if u_new < u {
        lemma_positive_product(k, u - u_new);
        lemma_opposite(k, u - u_new);
        if q >= 0real {
            lemma_product_order(0real, q, avg);
            lemma_zero(avg);
        }
    } else if u_new > u {
        lemma_positive_product(k, u_new - u);
        lemma_positive_quotient(k * (u_new - u), avg);
    } else {
        lemma_zero(k);
        lemma_zero_over(avg);
    }
}

/// The pressure gradient parameter of a step: the gradient of the velocity, in terms of the
/// momentum thickness, the Reynolds number and the mean velocity.
pub open spec fn is_gradient<S: Real>(
    v: spec_fn(S) -> real,
    prev: BlStation<S>,
    x_new: S,
    ue_new: S,
    re: S,
    g: real,
) -> bool {
    let u = magnitude(v(prev.u));
    let u_new = magnitude(v(ue_new));
    g * ((u + u_new) / 2real * (v(x_new) - v(prev.x))) == v(prev.theta) * v(prev.theta) * v(re) * (
    u_new - u)
}

/// The shape parameter takes a fifth of the way to that of equilibrium, which is at constant
/// velocity 2.61 for laminar and 1.4 for turbulent flow. It lies from 2 to 4 for laminar flow,
/// falls with the gradient parameter where that is small, and jumps to its ends where it is
/// not; for turbulent flow it rises with the size of the parameter, to 1.5 at most. A
/// turbulent shape parameter stays within 1.2 and 3.
pub proof fn law_shape_relaxes<S: Real>(
    v: spec_fn(S) -> real,
    prev: BlStation<S>,
    x_new: S,
    ue_new: S,
    re: S,
    msq: S,
    is_laminar: bool,
    g: real,
)
    requires
        exact(v),
        steppable(v, prev, x_new, ue_new),
        is_gradient(v, prev, x_new, ue_new, re, g),
    ensures
        ({
            let (theta, delta_star) = momentum_step(prev, x_new, ue_new, re, msq, is_laminar);
            let h = v(prev.h);
            let r = v(delta_star) / v(theta);
            let goal = 5real * r - 4real * h;
            let steady = magnitude(v(prev.u)) == magnitude(v(ue_new));
            let edge = 9real / 100real;
            &&& steady ==> g == 0real
            &&& is_laminar ==> 2real <= goal <= 4real
            &&& is_laminar && g == 0real ==> goal == 261real / 100real
            &&& is_laminar && -edge <= g < 0real ==> 261real / 100real < goal <= 261real / 100real
                - 4real * g
            &&& is_laminar && 0real < g <= edge ==> 261real / 100real - 5real * g < goal < 261real
                / 100real
            &&& is_laminar && g < -edge ==> goal == 2real
            &&& is_laminar && g > edge ==> goal == 4real
            &&& !is_laminar ==> 12real / 10real <= r <= 3real
            &&& !is_laminar && 12real / 10real < r < 3real ==> goal == 14real / 10real + (
            if magnitude(g) > 2real / 10real {
                1real / 10real
            } else {
                magnitude(g) / 2real
            })
        }),
{
    let half = decimal::<S>(1, 2);
    let (theta_new, delta_star) = momentum_step(prev, x_new, ue_new, re, msq, is_laminar);
    lemma_tenths(v, 12);
    lemma_tenths(v, 10);
    lemma_tenths_small::<S>(v, 12);
    let dx = abs(x_new - prev.x);
    let ue = larger(abs(prev.u), tenths::<S>(10));
    let ue_next = larger(abs(ue_new), tenths::<S>(10));
    let due_dx = (ue_next - ue) / dx;
    let ue_avg = half * (ue + ue_next);
    let slope = prev.theta * prev.theta * re * due_dx / ue_avg;
    let lambda = clamp(slope, -half, half);
    assert(v(half) == 1real / 2real);
    assert(-(1real / 2real) <= v(lambda) <= 1real / 2real);
    let u = magnitude(v(prev.u));
    let u_new = magnitude(v(ue_new));
    let avg = (u + u_new) / 2real;
    let d = v(dx);
    let k = v(prev.theta) * v(prev.theta) * v(re);
    assert(v(ue) == u && v(ue_next) == u_new);
    lemma_one(u + u_new);
    assert(v(ue_avg) == 1real / 2real * (u + u_new));
    lemma_half(u + u_new);
    assert(v(ue_avg) == avg);
    assert(d == v(x_new) - v(prev.x));
    // The gradient parameter.
    let q = k * ((u_new - u) / d);
    assert(v(slope) == q / avg);
    lemma_quotient(q, avg);
    lemma_slope(k, u_new - u, d);
    lemma_associate(q / avg, avg, d);
    lemma_positive_product(avg, d);
    let w = avg * d;
    assert(v(slope) * w == k * (u_new - u));
    lemma_commute(v(slope), w);
    lemma_commute(g, w);
    lemma_cancel(w, v(slope));
    lemma_cancel(w, g);
    assert(v(slope) == g);
    if u == u_new {
        lemma_zero(k);
        lemma_zero_over(w);
        assert(g == 0real) by {
            lemma_cancel(w, g);
        }
    }
    let t = v(theta_new);
    assert(t > 0real);
    let h = clamp(prev.h, whole::<S>(1), whole::<S>(4));
    assert(v(h) == v(prev.h));
    let kept = decimal::<S>(8, 10) * h;
    lemma_fifth(v(h));
    assert(v(kept) == 4real / 5real * v(h));
    let bent = decimal::<S>(261, 100) - decimal::<S>(375, 100) * lambda - decimal::<S>(524, 100)
        * lambda * lambda;
    let h_new = if is_laminar {
        let h_eq = if lambda < -decimal::<S>(9, 100) {
            whole::<S>(2)
        } else if lambda > decimal::<S>(9, 100) {
            whole::<S>(4)
        } else {
            clamp(bent, whole::<S>(2), whole::<S>(4))
        };
        lemma_fifth(v(h_eq));
        kept + decimal::<S>(2, 10) * h_eq
    } else {
        let reached = smaller(abs(lambda), decimal::<S>(2, 10));
        let h_eq = decimal::<S>(14, 10) + half * reached;
        lemma_fifth(v(h_eq));
        lemma_one(v(reached));
        lemma_half(v(reached));
        clamp(kept + decimal::<S>(2, 10) * h_eq, decimal::<S>(12, 10), whole::<S>(3))
    };
    assert(delta_star == h_new * theta_new);
    lemma_commute(v(h_new), t);
    lemma_cancel(t, v(h_new));
    let r = v(delta_star) / v(theta_new);
    assert(r == v(h_new));
    let ninth = decimal::<S>(9, 100);
    assert(v(ninth) == 9real / 100real);
    assert(v(-ninth) == -(9real / 100real));
    if is_laminar {
        let l = v(lambda);
        assert(v(bent) == 261real / 100real - 375real / 100real * l - 524real / 100real * l * l);
        lemma_bend(l);
        if -(9real / 100real) <= g <= 9real / 100real {
            assert(l == g);
            assert(h_new == kept + decimal::<S>(2, 10) * bent);
        }
    } else {
        assert(12real / 10real <= r <= 3real);
        if 12real / 10real < r < 3real {
            assert(v(abs(lambda)) == magnitude(v(lambda)));
        }
    }
}

/// The bend of the laminar shape parameter of equilibrium, for small gradients.
proof fn lemma_bend(l: real)
    by (nonlinear_arith)
    ensures
        ({
            let b = 261real / 100real - 375real / 100real * l - 524real / 100real * l * l;
            &&& l == 0real ==> b == 261real / 100real
            &&& -(9real / 100real) <= l < 0real ==> 261real / 100real < b <= 261real / 100real
                - 4real * l
            &&& 0real < l <= 9real / 100real ==> 261real / 100real - 5real * l < b < 261real
                / 100real
        }),
{
}

/// Fifths of a number.
proof fn lemma_fifth(x: real)
    by (nonlinear_arith)
    ensures
        8real / 10real * x == 4real / 5real * x,
        2real / 10real * x == x / 5real,
{
}

/// Half of a number.
proof fn lemma_half(x: real)
    by (nonlinear_arith)
    ensures
        1real / 2real * x == x / 2real,
{
}

} // verus!
