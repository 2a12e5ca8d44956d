//! The elementary functions of the number type, as the caller hands them in.
use crate::callable::{function, value};
use crate::number::{count, Real};
use vstd::prelude::*;

verus! {

/// A number of things that is an index, and that a double-precision number does not round.
pub open spec fn countable(n: nat) -> bool {
    n <= usize::MAX && n <= 9007199254740992
}

/// Square root, the circular functions, and the integer part.
pub trait Elementary<S: Real> {
    /// Each of them is a function of its argument, and the integer part of a count is what was
    /// counted.
    spec fn lawful(&self) -> bool;

    spec fn sqrt_of(&self, x: S) -> S;

    spec fn sin_of(&self, x: S) -> S;

    spec fn cos_of(&self, x: S) -> S;

    spec fn atan_of(&self, x: S) -> S;

    spec fn integer_part(&self, x: S) -> usize;

    /// The square root of `x`.
    fn sqrt(&self, x: S) -> (r: S)
        requires
            self.lawful(),
        ensures
            r == self.sqrt_of(x),
    ;

    /// The sine of `x`.
    fn sin(&self, x: S) -> (r: S)
        requires
            self.lawful(),
        ensures
            r == self.sin_of(x),
    ;

    /// The cosine of `x`.
    fn cos(&self, x: S) -> (r: S)
        requires
            self.lawful(),
        ensures
            r == self.cos_of(x),
    ;

    /// The angle whose tangent is `x`.
    fn atan(&self, x: S) -> (r: S)
        requires
            self.lawful(),
        ensures
            r == self.atan_of(x),
    ;

    /// `x` without its fraction, as an index.
    fn truncated(&self, x: S) -> (r: usize)
        requires
            self.lawful(),
        ensures
            r == self.integer_part(x),
    ;

    /// A count can be read back.
    proof fn lemma_counts_are_read_back(&self, n: nat)
        requires
            self.lawful(),
            countable(n),
        ensures
            self.integer_part(count::<S>(n as usize)) == n,
    ;
}

/// The elementary functions, one by one.
pub struct ElementaryFunctions<Q, N, C, A, T> {
    pub sqrt: Q,
    pub sin: N,
    pub cos: C,
    pub atan: A,
    pub truncated: T,
}

impl<
    S: Real,
    Q: Fn(S) -> S,
    N: Fn(S) -> S,
    C: Fn(S) -> S,
    A: Fn(S) -> S,
    T: Fn(S) -> usize,
> Elementary<S> for ElementaryFunctions<Q, N, C, A, T> {
    open spec fn lawful(&self) -> bool {
        &&& function(self.sqrt)
        &&& function(self.sin)
        &&& function(self.cos)
        &&& function(self.atan)
        &&& function(self.truncated)
        &&& forall|n: nat|
            countable(n) ==> value(self.truncated, #[trigger] count::<S>(n as usize)) == n
    }

    open spec fn sqrt_of(&self, x: S) -> S {
        value(self.sqrt, x)
    }

    open spec fn sin_of(&self, x: S) -> S {
        value(self.sin, x)
    }

    open spec fn cos_of(&self, x: S) -> S {
        value(self.cos, x)
    }

    open spec fn atan_of(&self, x: S) -> S {
        value(self.atan, x)
    }

    open spec fn integer_part(&self, x: S) -> usize {
        value(self.truncated, x)
    }

    fn sqrt(&self, x: S) -> (r: S) {
        (self.sqrt)(x)
    }

    fn sin(&self, x: S) -> (r: S) {
        (self.sin)(x)
    }

    fn cos(&self, x: S) -> (r: S) {
        (self.cos)(x)
    }

    fn atan(&self, x: S) -> (r: S) {
        (self.atan)(x)
    }

    fn truncated(&self, x: S) -> (r: usize) {
        (self.truncated)(x)
    }

    proof fn lemma_counts_are_read_back(&self, n: nat) {
    }
}

} // verus!
