//! The number type that the solver computes with.
//!
//! Every algorithm of the library is written for any type with the arithmetic of a
//! machine number: the five operators, comparison, and the embedding of the unsigned
//! integers. `f64` is the type it is used with. Contracts state results as terms over
//! those operators, in the order in which they are applied, so they name results as they
//! come out rounded. They hold where `arithmetic` holds of the type: that its operators,
//! comparison and embedding are functions of their operands. For `f64` this is taken for
//! granted, and proved nowhere.
use core::ops::{Add, Div, Mul, Neg, Sub};
use vstd::prelude::*;
use vstd::std_specs::cmp::{PartialEqSpec, PartialOrdIs, PartialOrdSpec};
use vstd::std_specs::convert::FromSpec;
use vstd::std_specs::ops::{AddSpec, DivSpec, MulSpec, NegSpec, SubSpec};

verus! {

/// A number: what the operators of `core::ops` and `core::cmp` compute with.
pub trait Real: Copy + Add<Output = Self> + Sub<Output = Self> + Mul<Output = Self> + Div<
    Output = Self,
> + Neg<Output = Self> + PartialOrd + From<u32> {

}

impl<
    T: Copy + Add<Output = T> + Sub<Output = T> + Mul<Output = T> + Div<Output = T> + Neg<
        Output = T,
    > + PartialOrd + From<u32>,
> Real for T {

}

/// The operators as they stand in a contract.
pub trait Formula: Sized {
    spec fn spec_add(self, rhs: Self) -> Self;

    spec fn spec_sub(self, rhs: Self) -> Self;

    spec fn spec_mul(self, rhs: Self) -> Self;

    spec fn spec_euclidean_or_real_div(self, rhs: Self) -> Self;

    spec fn spec_neg(self) -> Self;

    spec fn spec_lt(self, rhs: Self) -> bool;

    spec fn spec_le(self, rhs: Self) -> bool;

    spec fn spec_gt(self, rhs: Self) -> bool;

    spec fn spec_ge(self, rhs: Self) -> bool;
}

impl<T: Real> Formula for T {
    open spec fn spec_add(self, rhs: T) -> T {
        self.add_spec(rhs)
    }

    open spec fn spec_sub(self, rhs: T) -> T {
        self.sub_spec(rhs)
    }

    open spec fn spec_mul(self, rhs: T) -> T {
        self.mul_spec(rhs)
    }

    open spec fn spec_euclidean_or_real_div(self, rhs: T) -> T {
        self.div_spec(rhs)
    }

    open spec fn spec_neg(self) -> T {
        self.neg_spec()
    }

    open spec fn spec_lt(self, rhs: T) -> bool {
        self.is_lt(&rhs)
    }

    open spec fn spec_le(self, rhs: T) -> bool {
        self.is_le(&rhs)
    }

    open spec fn spec_gt(self, rhs: T) -> bool {
        self.is_gt(&rhs)
    }

    open spec fn spec_ge(self, rhs: T) -> bool {
        self.is_ge(&rhs)
    }
}

/// The unsigned integers embed by a function.
pub open spec fn counting<S: Real>() -> bool {
    <S as FromSpec<u32>>::obeys_from_spec()
}

/// The operators are functions of their operands, and never panic.
pub open spec fn arithmetic<S: Real>() -> bool {
    &&& counting::<S>()
    &&& S::obeys_add_spec()
    &&& S::obeys_sub_spec()
    &&& S::obeys_mul_spec()
    &&& S::obeys_div_spec()
    &&& S::obeys_neg_spec()
    &&& S::obeys_eq_spec()
    &&& S::obeys_partial_cmp_spec()
    &&& forall|a: S, b: S| #[trigger] a.add_req(b)
    &&& forall|a: S, b: S| #[trigger] a.sub_req(b)
    &&& forall|a: S, b: S| #[trigger] a.mul_req(b)
    &&& forall|a: S, b: S| #[trigger] a.div_req(b)
    &&& forall|a: S| #[trigger] a.neg_req()
}

/// The integer `n`.
#[verifier::allow_in_spec]
pub fn whole<S: Real>(n: u32) -> S
    requires
        arithmetic::<S>(),
    returns
        S::from_spec(n),
{
    S::from(n)
}

/// Whether `a == b` as numbers: no number that is not equal to itself is the same as any.
#[verifier::allow_in_spec]
pub fn same<S: Real>(a: S, b: S) -> bool
    requires
        arithmetic::<S>(),
    returns
        a.eq_spec(&b),
{
    a == b
}

/// `0 - x` where `x` is not positive, else `x`.
#[verifier::allow_in_spec]
pub fn abs<S: Real>(x: S) -> S
    requires
        arithmetic::<S>(),
    returns
        (if x <= whole::<S>(0) {
            whole::<S>(0) - x
        } else {
            x
        }),
{
    let zero: S = whole(0);
    if x <= zero {
        zero - x
    } else {
        x
    }
}

/// The larger of the two; where one of them does not compare with itself, the other.
#[verifier::allow_in_spec]
pub fn larger<S: Real>(a: S, b: S) -> S
    requires
        arithmetic::<S>(),
    returns
        (if a < b || !same(a, a) {
            b
        } else {
            a
        }),
{
    if a < b || !same(a, a) {
        b
    } else {
        a
    }
}

/// The smaller of the two; where one of them does not compare with itself, the other.
#[verifier::allow_in_spec]
pub fn smaller<S: Real>(a: S, b: S) -> S
    requires
        arithmetic::<S>(),
    returns
        (if a > b || !same(a, a) {
            b
        } else {
            a
        }),
{
    if a > b || !same(a, a) {
        b
    } else {
        a
    }
}

/// `x`, moved to the nearer end of `low ..= high` where it lies outside.
#[verifier::allow_in_spec]
pub fn clamp<S: Real>(x: S, low: S, high: S) -> S
    requires
        arithmetic::<S>(),
    returns
        (if x < low {
            low
        } else if x > high {
            high
        } else {
            x
        }),
{
    if x < low {
        low
    } else if x > high {
        high
    } else {
        x
    }
}

/// Whether `x - x` compares with itself: it does not where `x` is infinite or no number.
#[verifier::allow_in_spec]
pub fn is_finite<S: Real>(x: S) -> bool
    requires
        arithmetic::<S>(),
    returns
        same(x - x, x - x),
{
    same(x - x, x - x)
}

/// `x` where it is finite, else zero.
#[verifier::allow_in_spec]
pub fn finite_or_zero<S: Real>(x: S) -> S
    requires
        arithmetic::<S>(),
    returns
        (if is_finite(x) {
            x
        } else {
            whole::<S>(0)
        }),
{
    if is_finite(x) {
        x
    } else {
        whole(0)
    }
}

/// The decimal fraction `n / d`.
#[verifier::allow_in_spec]
pub fn decimal<S: Real>(n: u32, d: u32) -> S
    requires
        arithmetic::<S>(),
    returns
        whole::<S>(n) / whole::<S>(d),
{
    whole::<S>(n) / whole::<S>(d)
}

/// The number of things `n`, as a number.
#[verifier::allow_in_spec]
pub fn count<S: Real>(n: usize) -> S
    requires
        arithmetic::<S>(),
    returns
        (if n <= u32::MAX {
            whole::<S>(n as u32)
        } else {
            whole::<S>((n / 65536 / 65536) as u32) * (whole::<S>(65536) * whole::<S>(65536))
                + whole::<S>((n / 65536 % 65536 * 65536 + n % 65536) as u32)
        }),
{
    if n <= u32::MAX as usize {
        whole(n as u32)
    } else {
        let high: usize = n / 65536 / 65536;
        let middle: usize = n / 65536 % 65536;
        let low: usize = n % 65536;
        assert(middle * 65536 + low <= u32::MAX);
        whole::<S>(high as u32) * (whole::<S>(65536) * whole::<S>(65536)) + whole::<S>(
            (middle * 65536 + low) as u32,
        )
    }
}

/// Ten to the power `k`, as a product of tens.
pub open spec fn tens<S: Real>(k: nat) -> S
    decreases k,
{
    if k == 0 {
        whole::<S>(1)
    } else {
        tens::<S>((k - 1) as nat) * whole::<S>(10)
    }
}

/// Ten to the power `-k`.
pub open spec fn tenths<S: Real>(k: nat) -> S {
    if k <= 22 {
        whole::<S>(1) / tens::<S>(k)
    } else {
        whole::<S>(1) / tens::<S>((k - 22) as nat) / tens::<S>(22)
    }
}

/// Ten to the power `k`. In `f64` the product is exact up to `k = 22`.
pub fn power_of_ten<S: Real>(k: u32) -> (r: S)
    requires
        arithmetic::<S>(),
    ensures
        r == tens::<S>(k as nat),
{
    let mut r: S = whole(1);
    let mut i: u32 = 0;
    while i < k
        invariant
            i <= k,
            arithmetic::<S>(),
            r == tens::<S>(i as nat),
        decreases k - i,
    {
        r = r * whole(10);
        i = i + 1;
    }
    r
}

/// Ten to the power `-k`. Beyond `k = 22` it divides twice, by powers that are exact.
pub fn tiny<S: Real>(k: u32) -> (r: S)
    requires
        arithmetic::<S>(),
    ensures
        r == tenths::<S>(k as nat),
{
    let one: S = whole(1);
    if k <= 22 {
        one / power_of_ten(k)
    } else {
        one / power_of_ten(k - 22) / power_of_ten(22)
    }
}

/// Half a turn in radians. In `f64` it is the double nearest to pi.
#[verifier::allow_in_spec]
pub fn pi<S: Real>() -> S
    requires
        arithmetic::<S>(),
    returns
        (whole::<S>(3141592) * whole::<S>(1000000000) + whole::<S>(653589793)) / (whole::<S>(
            1000000,
        ) * whole::<S>(1000000000)),
{
    (whole::<S>(3141592) * whole::<S>(1000000000) + whole::<S>(653589793)) / (whole::<S>(1000000)
        * whole::<S>(1000000000))
}

/// An angle in degrees, in radians.
#[verifier::allow_in_spec]
pub fn radians<S: Real>(degrees: S) -> S
    requires
        arithmetic::<S>(),
    returns
        degrees * (pi::<S>() / whole::<S>(180)),
{
    degrees * (pi::<S>() / whole::<S>(180))
}

/// What is larger than every finite number: one divided by zero.
#[verifier::allow_in_spec]
pub fn infinity<S: Real>() -> S
    requires
        arithmetic::<S>(),
    returns
        whole::<S>(1) / whole::<S>(0),
{
    whole::<S>(1) / whole::<S>(0)
}

} // verus!
