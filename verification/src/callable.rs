//! Functions that the caller hands in: the elementary functions of the number type, and
//! the closure relations of the boundary layer.
//!
//! A contract speaks of such a function by its value at an argument.
use vstd::prelude::*;

verus! {

/// `f` can be called with any argument, and what it returns depends on the argument alone.
pub open spec fn function<A, B, F: Fn(A) -> B>(f: F) -> bool {
    &&& forall|a: A| #[trigger] call_requires(f, (a,))
    &&& forall|a: A, b: B| #[trigger] call_ensures(f, (a,), b) ==> b == value(f, a)
}

/// The value of `f` at `a`.
pub open spec fn value<A, B, F: Fn(A) -> B>(f: F, a: A) -> B {
    choose|b: B| call_ensures(f, (a,), b)
}

/// `f` can be called with any list and argument, and what it returns depends on the entries
/// of the list and on the argument alone.
pub open spec fn list_function<A, C, B, F: Fn(&Vec<A>, C) -> B>(f: F) -> bool {
    &&& forall|v: Vec<A>, c: C| #[trigger] call_requires(f, (&v, c))
    &&& forall|v: Vec<A>, c: C, b: B| #[trigger]
        call_ensures(f, (&v, c), b) ==> b == list_value(f, v@, c)
}

/// `f` may return `b` for a list with the entries `s`, and `c`.
pub open spec fn list_gives<A, C, B, F: Fn(&Vec<A>, C) -> B>(f: F, s: Seq<A>, c: C, b: B) -> bool {
    exists|v: Vec<A>| v@ == s && #[trigger] call_ensures(f, (&v, c), b)
}

/// The value of `f` at a list with the entries `s`, and at `c`.
pub open spec fn list_value<A, C, B, F: Fn(&Vec<A>, C) -> B>(f: F, s: Seq<A>, c: C) -> B {
    choose|b: B| list_gives(f, s, c, b)
}

/// `f` of every entry of `v`, in order.
pub fn mapped<A: Copy, B, F: Fn(A) -> B>(v: &[A], f: F) -> (r: Vec<B>)
    requires
        forall|i: int| 0 <= i < v@.len() ==> call_requires(f, (#[trigger] v@[i],)),
    ensures
        r@.len() == v@.len(),
        forall|i: int| 0 <= i < v@.len() ==> call_ensures(f, (v@[i],), #[trigger] r@[i]),
{
    let mut r: Vec<B> = Vec::with_capacity(v.len());
    let mut i: usize = 0;
    while i < v.len()
        invariant
            i <= v@.len(),
            r@.len() == i,
            forall|k: int| 0 <= k < v@.len() ==> call_requires(f, (#[trigger] v@[k],)),
            forall|k: int| 0 <= k < i ==> call_ensures(f, (v@[k],), #[trigger] r@[k]),
        decreases v@.len() - i,
    {
        let a: A = v[i];
        r.push(f(a));
        i = i + 1;
    }
    r
}

/// `f` of the numbers below `n`, in order.
pub fn tabulated<B, F: Fn(usize) -> B>(n: usize, f: F) -> (r: Vec<B>)
    requires
        forall|i: usize| i < n ==> #[trigger] call_requires(f, (i,)),
    ensures
        r@.len() == n,
        forall|i: int| 0 <= i < n ==> call_ensures(f, (i as usize,), #[trigger] r@[i]),
{
    let mut r: Vec<B> = Vec::with_capacity(n);
    let mut i: usize = 0;
    while i < n
        invariant
            i <= n,
            r@.len() == i,
            forall|k: usize| k < n ==> #[trigger] call_requires(f, (k,)),
            forall|k: int| 0 <= k < i ==> call_ensures(f, (k as usize,), #[trigger] r@[k]),
        decreases n - i,
    {
        r.push(f(i));
        i = i + 1;
    }
    r
}

} // verus!
