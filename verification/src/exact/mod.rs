//! What the algorithms come to where the operators do not round.
//!
//! A law in this module speaks of number types whose values are real numbers and whose
//! operators are exact on them, such as rational numbers. With a type that rounds, the
//! same formulas hold up to its rounding.
mod algebra;
pub mod change;
pub mod coupling;
pub mod flow;
pub mod gauss;
pub mod geometry;
pub mod inverse;
pub mod iteration;
pub mod march;
pub mod mixed;
pub mod momentum;
pub mod naca;
pub mod newton;
pub mod operating;
pub mod outline;
pub mod preview;
pub mod relaxation;
pub mod spacing;
pub mod station;
pub mod step;

use crate::number::{abs, same, tens, tenths, whole, Formula, Real};
use self::algebra::{
    lemma_commute, lemma_positive_product, lemma_positive_quotient, lemma_product_order,
    lemma_quotient,
};
use vstd::prelude::*;

verus! {

/// The operators are exact on the values `v`.
pub open spec fn exact<S: Real>(v: spec_fn(S) -> real) -> bool {
    &&& forall|a: S, b: S| #[trigger] v(a + b) == v(a) + v(b)
    &&& forall|a: S, b: S| #[trigger] v(a - b) == v(a) - v(b)
    &&& forall|a: S, b: S| #[trigger] v(a * b) == v(a) * v(b)
    &&& forall|a: S, b: S| v(b) != 0real ==> #[trigger] v(a / b) == v(a) / v(b)
    &&& forall|a: S| #[trigger] v(-a) == -v(a)
    &&& forall|n: u32| #[trigger] v(whole::<S>(n)) == n as real
    &&& forall|a: S, b: S| #[trigger] a.spec_lt(b) <==> v(a) < v(b)
    &&& forall|a: S, b: S| #[trigger] a.spec_le(b) <==> v(a) <= v(b)
    &&& forall|a: S, b: S| #[trigger] a.spec_gt(b) <==> v(a) > v(b)
    &&& forall|a: S, b: S| #[trigger] a.spec_ge(b) <==> v(a) >= v(b)
    &&& forall|a: S, b: S| #[trigger] same(a, b) <==> v(a) == v(b)
}

/// Powers of ten are positive.
pub proof fn lemma_tens<S: Real>(v: spec_fn(S) -> real, k: nat)
    requires
        exact(v),
    ensures
        v(tens::<S>(k)) > 0real,
    decreases k,
{
    if k > 0 {
        lemma_tens(v, (k - 1) as nat);
        let t = v(tens::<S>((k - 1) as nat));
        let ten = v(whole::<S>(10));
        lemma_positive_product(t, ten);
    }
}

/// Negative powers of ten are positive.
pub proof fn lemma_tenths<S: Real>(v: spec_fn(S) -> real, k: nat)
    requires
        exact(v),
    ensures
        v(tenths::<S>(k)) > 0real,
{
    lemma_tens(v, k);
    let one = v(whole::<S>(1));
    if k <= 22 {
        let t = v(tens::<S>(k));
        lemma_positive_quotient(one, t);
    } else {
        lemma_tens(v, (k - 22) as nat);
        lemma_tens(v, 22);
        let t = v(tens::<S>((k - 22) as nat));
        let u = v(tens::<S>(22));
        lemma_positive_quotient(one, t);
        lemma_positive_quotient(one / t, u);
    }
}

/// Powers of ten grow faster than their exponents.
proof fn lemma_tens_grow<S: Real>(v: spec_fn(S) -> real, k: nat)
    requires
        exact(v),
    ensures
        v(tens::<S>(k)) >= 1real + 9real * (k as real),
    decreases k,
{
    if k > 0 {
        lemma_tens_grow(v, (k - 1) as nat);
        assert(v(whole::<S>(10)) == 10real);
    }
}

/// Negative powers of ten are small.
pub proof fn lemma_tenths_small<S: Real>(v: spec_fn(S) -> real, k: nat)
    requires
        exact(v),
        6 <= k <= 22,
    ensures
        0real < v(tenths::<S>(k)) < 1real / 50real,
{
    lemma_tens_grow(v, k);
    lemma_tenths(v, k);
    let t = v(tens::<S>(k));
    lemma_quotient(1real, t);
    if 1real / t >= 1real / 50real {
        lemma_product_order(1real / 50real, 1real / t, t);
        lemma_product_order(55real, t, 1real / 50real);
        lemma_commute(t, 1real / 50real);
    }
}

/// A number as large as a power of ten is not zero.
pub proof fn lemma_not_small<S: Real>(v: spec_fn(S) -> real, x: S, k: nat)
    requires
        exact(v),
        !(abs(x) < tenths::<S>(k)),
    ensures
        v(x) != 0real,
{
    lemma_tenths(v, k);
    if v(x) == 0real {
        assert(x.spec_le(whole::<S>(0)));
        assert(v(whole::<S>(0) - x) == 0real);
    }
}

} // verus!
