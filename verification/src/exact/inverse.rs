//! The inverse of a matrix of three rows undoes it.
use super::algebra::{
    lemma_commute, lemma_difference, lemma_quotient, lemma_scaled, lemma_triple_product,
    lemma_vector_product, lemma_zero,
};
use super::exact;
use super::gauss::lemma_not_negligible;
use crate::march::linear::{determinant, inverse, negligible};
use crate::number::{whole, Formula, Real};
use vstd::prelude::*;

verus! {

/// Entry `(i, j)` of the product of two matrices.
pub open spec fn product<S: Real>(
    v: spec_fn(S) -> real,
    m: [[S; 3]; 3],
    n: [[S; 3]; 3],
    i: int,
    j: int,
) -> real {
    v(m[i][0]) * v(n[0][j]) + v(m[i][1]) * v(n[1][j]) + v(m[i][2]) * v(n[2][j])
}

/// A row of a matrix times the columns of its adjoint over its determinant.
proof fn lemma_adjoint(
    a0: real,
    a1: real,
    a2: real,
    b0: real,
    b1: real,
    b2: real,
    c0: real,
    c1: real,
    c2: real,
    x: real,
    y: real,
    z: real,
    d: real,
)
    ensures
        ({
            let t = (a0 * (b1 * c2 - b2 * c1) - a1 * (b0 * c2 - b2 * c0) + a2 * (b0 * c1 - b1 * c0))
                * d;
            let first = x * ((b1 * c2 - b2 * c1) * d) + y * ((b2 * c0 - b0 * c2) * d) + z * ((b0
                * c1 - b1 * c0) * d);
            let second = x * ((a2 * c1 - a1 * c2) * d) + y * ((a0 * c2 - a2 * c0) * d) + z * ((a1
                * c0 - a0 * c1) * d);
            let third = x * ((a1 * b2 - a2 * b1) * d) + y * ((a2 * b0 - a0 * b2) * d) + z * ((a0
                * b1 - a1 * b0) * d);
            &&& x == a0 && y == a1 && z == a2 ==> first == t && second == 0real && third == 0real
            &&& x == b0 && y == b1 && z == b2 ==> first == 0real && second == t && third == 0real
            &&& x == c0 && y == c1 && z == c2 ==> first == 0real && second == 0real && third == t
        }),
{
    lemma_scaled(x, y, z, b1 * c2 - b2 * c1, b2 * c0 - b0 * c2, b0 * c1 - b1 * c0, d);
    lemma_scaled(x, y, z, a2 * c1 - a1 * c2, a0 * c2 - a2 * c0, a1 * c0 - a0 * c1, d);
    lemma_scaled(x, y, z, a1 * b2 - a2 * b1, a2 * b0 - a0 * b2, a0 * b1 - a1 * b0, d);
    lemma_zero(d);
    lemma_difference(a1, b0 * c2, b2 * c0);
    lemma_difference(a1, b2 * c0, b0 * c2);
    lemma_commute(a2, c1);
    lemma_commute(a1, c2);
    lemma_commute(a0, c2);
    lemma_commute(a2, c0);
    lemma_commute(a1, c0);
    lemma_commute(a0, c1);
    lemma_triple_product(a0, a1, a2, b0, b1, b2, c0, c1, c2);
    lemma_vector_product(b0, b1, b2, c0, c1, c2);
    lemma_vector_product(c0, c1, c2, a0, a1, a2);
    lemma_vector_product(a0, a1, a2, b0, b1, b2);
}

/// A matrix times its inverse is the unit matrix, as long as its determinant is not
/// negligible.
pub proof fn law_inverse<S: Real>(v: spec_fn(S) -> real, m: [[S; 3]; 3])
    requires
        exact(v),
        !negligible(determinant(m)),
    ensures
        forall|i: int, j: int|
            0 <= i < 3 && 0 <= j < 3 ==> #[trigger] product(v, m, inverse(m), i, j) == (if i == j {
                1real
            } else {
                0real
            }),
{
    let det = determinant(m);
    lemma_not_negligible(v, det);
    let one = v(whole::<S>(1));
    let d = one / v(det);
    lemma_quotient(one, v(det));
    assert(v(whole::<S>(1) / det) == d);
    let n = inverse(m);
    let a = m[0];
    let b = m[1];
    let c = m[2];
    assert(v(det) * d == 1real);
    assert forall|i: int, j: int| 0 <= i < 3 && 0 <= j < 3 implies #[trigger] product(
        v,
        m,
        n,
        i,
        j,
    ) == (if i == j {
        1real
    } else {
        0real
    }) by {
        lemma_adjoint(
            v(a[0]),
            v(a[1]),
            v(a[2]),
            v(b[0]),
            v(b[1]),
            v(b[2]),
            v(c[0]),
            v(c[1]),
            v(c[2]),
            v(m[i][0]),
            v(m[i][1]),
            v(m[i][2]),
            d,
        );
        assert(i == 0 || i == 1 || i == 2);
        assert(j == 0 || j == 1 || j == 2);
    }
}

} // verus!
