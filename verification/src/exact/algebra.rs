//! Facts of the real numbers.
use vstd::prelude::*;

verus! {

/// A product of positive numbers is positive.
pub proof fn lemma_positive_product(x: real, y: real)
    by (nonlinear_arith)
    requires
        x > 0real,
        y > 0real,
    ensures
        x * y > 0real,
{
}

/// A quotient of positive numbers is positive.
pub proof fn lemma_positive_quotient(x: real, y: real)
    by (nonlinear_arith)
    requires
        x > 0real,
        y > 0real,
    ensures
        x / y > 0real,
{
}

/// A quotient times its divisor.
pub proof fn lemma_quotient(x: real, y: real)
    by (nonlinear_arith)
    requires
        y != 0real,
    ensures
        x / y * y == x,
        y * (x / y) == x,
{
}

/// A product with zero.
pub proof fn lemma_zero(x: real)
    by (nonlinear_arith)
    ensures
        0real * x == 0real,
        x * 0real == 0real,
{
}

/// A product with a difference.
pub proof fn lemma_term(a: real, f: real, k: real, x: real)
    by (nonlinear_arith)
    ensures
        (a - f * k) * x == a * x - f * (k * x),
{
}

/// A product with a sum.
pub proof fn lemma_distribute(f: real, p: real, q: real)
    by (nonlinear_arith)
    ensures
        f * (p + q) == f * p + f * q,
{
}

/// A product with a difference of two numbers.
pub proof fn lemma_difference(f: real, p: real, q: real)
    by (nonlinear_arith)
    ensures
        f * (p - q) == f * p - f * q,
{
}

/// The factors of a product can change places.
pub proof fn lemma_commute(a: real, b: real)
    by (nonlinear_arith)
    ensures
        a * b == b * a,
{
}

/// The factors of a product can be taken together in any way.
pub proof fn lemma_associate(a: real, b: real, c: real)
    by (nonlinear_arith)
    ensures
        a * (b * c) == (a * b) * c,
{
}

/// The first factor of a product of three can change places with either of the others.
pub proof fn lemma_swap(a: real, b: real, c: real)
    ensures
        a * (b * c) == b * (a * c),
        a * (b * c) == c * (b * a),
{
    lemma_associate(a, b, c);
    lemma_associate(b, a, c);
    lemma_commute(a, b);
    lemma_associate(c, b, a);
    lemma_associate(b, c, a);
    lemma_commute(b, c);
    lemma_commute(a, b * c);
}

/// The factors of a product of three can be turned round.
pub proof fn lemma_rotate(a: real, b: real, c: real)
    ensures
        a * (b * c) == b * (c * a),
        a * (b * c) == c * (a * b),
{
    lemma_swap(a, b, c);
    lemma_commute(a, c);
    lemma_commute(b, a);
}

/// The vector product of two vectors is at right angles to both.
pub proof fn lemma_vector_product(p: real, q: real, r: real, x: real, y: real, z: real)
    ensures
        p * (q * z - r * y) + q * (r * x - p * z) + r * (p * y - q * x) == 0real,
        x * (q * z - r * y) + y * (r * x - p * z) + z * (p * y - q * x) == 0real,
{
    lemma_difference(p, q * z, r * y);
    lemma_difference(q, r * x, p * z);
    lemma_difference(r, p * y, q * x);
    lemma_swap(p, q, z);
    lemma_swap(p, r, y);
    lemma_swap(q, r, x);
    lemma_difference(x, q * z, r * y);
    lemma_difference(y, r * x, p * z);
    lemma_difference(z, p * y, q * x);
    lemma_swap(x, q, z);
    lemma_swap(x, r, y);
    lemma_swap(y, p, z);
}

/// The three ways to take the triple product of the vectors `a`, `b` and `c`.
pub proof fn lemma_triple_product(
    a0: real,
    a1: real,
    a2: real,
    b0: real,
    b1: real,
    b2: real,
    c0: real,
    c1: real,
    c2: real,
)
    ensures
        ({
            let t = a0 * (b1 * c2 - b2 * c1) + a1 * (b2 * c0 - b0 * c2) + a2 * (b0 * c1 - b1 * c0);
            &&& b0 * (c1 * a2 - c2 * a1) + b1 * (c2 * a0 - c0 * a2) + b2 * (c0 * a1 - c1 * a0) == t
            &&& c0 * (a1 * b2 - a2 * b1) + c1 * (a2 * b0 - a0 * b2) + c2 * (a0 * b1 - a1 * b0) == t
        }),
{
    lemma_difference(a0, b1 * c2, b2 * c1);
    lemma_difference(a1, b2 * c0, b0 * c2);
    lemma_difference(a2, b0 * c1, b1 * c0);
    lemma_difference(b0, c1 * a2, c2 * a1);
    lemma_difference(b1, c2 * a0, c0 * a2);
    lemma_difference(b2, c0 * a1, c1 * a0);
    lemma_difference(c0, a1 * b2, a2 * b1);
    lemma_difference(c1, a2 * b0, a0 * b2);
    lemma_difference(c2, a0 * b1, a1 * b0);
    lemma_rotate(a0, b1, c2);
    lemma_rotate(a0, b2, c1);
    lemma_rotate(a1, b2, c0);
    lemma_rotate(a1, b0, c2);
    lemma_rotate(a2, b0, c1);
    lemma_rotate(a2, b1, c0);
}

/// A sum of products, each with the same factor.
pub proof fn lemma_scaled(x: real, y: real, z: real, p: real, q: real, r: real, d: real)
    ensures
        x * (p * d) + y * (q * d) + z * (r * d) == (x * p + y * q + z * r) * d,
{
    lemma_associate(x, p, d);
    lemma_associate(y, q, d);
    lemma_associate(z, r, d);
    let s = x * p;
    let t = y * q;
    let u = z * r;
    lemma_commute(s + t + u, d);
    lemma_distribute(d, s + t, u);
    lemma_distribute(d, s, t);
    lemma_commute(s, d);
    lemma_commute(t, d);
    lemma_commute(u, d);
}

/// A product with one.
pub proof fn lemma_one(x: real)
    by (nonlinear_arith)
    ensures
        1real * x == x,
        x * 1real == x,
        x / 1real == x,
{
}

/// A number over itself.
pub proof fn lemma_ratio(x: real)
    by (nonlinear_arith)
    requires
        x != 0real,
    ensures
        x / x == 1real,
{
}

/// A product with the opposite of a number.
pub proof fn lemma_opposite(x: real, y: real)
    by (nonlinear_arith)
    ensures
        x * -y == -(x * y),
{
}

/// A product with a sum of three.
pub proof fn lemma_distribute_three(f: real, p: real, q: real, r: real)
    ensures
        f * (p + q + r) == f * p + f * q + f * r,
{
    lemma_distribute(f, p + q, r);
    lemma_distribute(f, p, q);
}

/// A number times the inverse of another, times that other.
pub proof fn lemma_inverse(c: real, a: real)
    requires
        a != 0real,
    ensures
        a * (c * (1real / a)) == c,
{
    lemma_swap(a, c, 1real / a);
    lemma_quotient(1real, a);
    lemma_one(c);
}

/// Products with the same factor are in order.
pub proof fn lemma_product_order(x: real, y: real, f: real)
    by (nonlinear_arith)
    requires
        x <= y,
        f >= 0real,
    ensures
        x * f <= y * f,
{
}

/// Quotients with the same divisor are in order.
pub proof fn lemma_quotient_order(x: real, y: real, d: real)
    by (nonlinear_arith)
    requires
        x <= y,
        d > 0real,
    ensures
        x / d <= y / d,
{
}

/// A product over one of its factors.
pub proof fn lemma_cancel(d: real, g: real)
    by (nonlinear_arith)
    requires
        d != 0real,
    ensures
        d * g / d == g,
{
}

/// Zero over a number.
pub proof fn lemma_zero_over(d: real)
    by (nonlinear_arith)
    requires
        d != 0real,
    ensures
        0real / d == 0real,
{
}

/// The scale at which a number meets a limit that it passes: the limit and the number have
/// one sign.
pub proof fn lemma_meets(r: real, x: real, limit: real)
    requires
        r >= 0real,
        limit > 0real && r * x > limit || limit < 0real && r * x < limit,
    ensures
        limit / x * x == limit,
        0real <= limit / x <= r,
{
    lemma_sign(r, x, limit);
    lemma_quotient(limit, x);
    let q = limit / x;
    if x > 0real {
        lemma_positive_quotient(limit, x);
        if q > r {
            lemma_product_order(r, q, x);
        }
    } else {
        lemma_negative_quotient(limit, x);
        if q > r {
            lemma_product_order(r, q, -x);
            lemma_opposite(r, x);
            lemma_opposite(q, x);
        }
    }
}

/// A product with a number that is not negative has the sign of the other factor.
pub proof fn lemma_sign(r: real, x: real, limit: real)
    requires
        r >= 0real,
        limit > 0real && r * x > limit || limit < 0real && r * x < limit,
    ensures
        limit > 0real ==> x > 0real,
        limit < 0real ==> x < 0real,
{
    if limit > 0real && x <= 0real {
        lemma_product_order(0real, r, -x);
        lemma_opposite(r, x);
        lemma_zero(-x);
    }
    if limit < 0real && x >= 0real {
        lemma_product_order(0real, r, x);
        lemma_zero(x);
    }
}

/// A quotient of negative numbers is positive.
pub proof fn lemma_negative_quotient(x: real, y: real)
    by (nonlinear_arith)
    requires
        x < 0real,
        y < 0real,
    ensures
        x / y > 0real,
{
}

} // verus!
