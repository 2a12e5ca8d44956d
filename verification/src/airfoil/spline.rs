//! Splines through the points of an outline, by what is asked of them.
use crate::airfoil::points::Point;
use crate::number::Real;
use vstd::prelude::*;

verus! {

/// Splines of type `Z`: how they are fitted, measured and sampled.
pub trait Splines<S: Real, Z> {
    /// Everything can be called, and measures depend on the spline and the place alone.
    spec fn lawful(&self) -> bool;

    /// `r` is a spline through the points, or says that there is none.
    spec fn fits(&self, points: Seq<Point<S>>, r: Option<Z>) -> bool;

    /// The arc length of a spline.
    spec fn length(&self, z: Z) -> S;

    /// The curvature of a spline at an arc length.
    spec fn bend(&self, z: Z, s: S) -> S;

    /// The point of a spline at an arc length.
    spec fn place(&self, z: Z, s: S) -> Point<S>;

    /// `r` are the nodes of `n` panels, distributed by curvature.
    spec fn resamples(&self, z: Z, n: usize, params: (S, S, S), r: Seq<Point<S>>) -> bool;

    /// `r` are `n` points of the spline with cosine spacing.
    spec fn resamples_cosine(&self, z: Z, n: usize, r: Seq<Point<S>>) -> bool;

    /// A spline through the points.
    fn from_points(&self, points: &Vec<Point<S>>) -> (r: Option<Z>)
        requires
            self.lawful(),
        ensures
            self.fits(points@, r),
    ;

    /// The arc length of a spline.
    fn total_arc_length(&self, z: &Z) -> (r: S)
        requires
            self.lawful(),
        ensures
            r == self.length(*z),
    ;

    /// The curvature of a spline at an arc length.
    fn curvature(&self, z: &Z, s: S) -> (r: S)
        requires
            self.lawful(),
        ensures
            r == self.bend(*z, s),
    ;

    /// The point of a spline at an arc length.
    fn evaluate(&self, z: &Z, s: S) -> (r: Point<S>)
        requires
            self.lawful(),
        ensures
            r == self.place(*z, s),
    ;

    /// The nodes of `n` panels. The parameters are the attraction of curvature, the density
    /// of panels at the trailing edge against the leading edge, and the ratio of the panel
    /// at the trailing edge to the next.
    fn resample_xfoil(&self, z: &Z, n: usize, params: (S, S, S)) -> (r: Vec<Point<S>>)
        requires
            self.lawful(),
        ensures
            self.resamples(*z, n, params, r@),
    ;

    /// `n` points of a spline with cosine spacing.
    fn resample_cosine(&self, z: &Z, n: usize) -> (r: Vec<Point<S>>)
        requires
            self.lawful(),
        ensures
            self.resamples_cosine(*z, n, r@),
    ;
}

/// Splines, function by function.
pub struct SplineFunctions<A, B, C, D, E, F> {
    pub from_points: A,
    pub total_arc_length: B,
    pub curvature: C,
    pub evaluate: D,
    pub resample_xfoil: E,
    pub resample_cosine: F,
}

impl<
    S: Real,
    Z,
    A: Fn(&Vec<Point<S>>) -> Option<Z>,
    B: Fn(&Z) -> S,
    C: Fn(&Z, S) -> S,
    D: Fn(&Z, S) -> Point<S>,
    E: Fn(&Z, usize, (S, S, S)) -> Vec<Point<S>>,
    F: Fn(&Z, usize) -> Vec<Point<S>>,
> Splines<S, Z> for SplineFunctions<A, B, C, D, E, F> {
    open spec fn lawful(&self) -> bool {
        &&& forall|p: Vec<Point<S>>| #[trigger] call_requires(self.from_points, (&p,))
        &&& forall|z: Z| #[trigger] call_requires(self.total_arc_length, (&z,))
        &&& forall|z: Z, r: S| #[trigger]
            call_ensures(self.total_arc_length, (&z,), r) ==> r == self.length(z)
        &&& forall|z: Z, s: S| #[trigger] call_requires(self.curvature, (&z, s))
        &&& forall|z: Z, s: S, r: S| #[trigger]
            call_ensures(self.curvature, (&z, s), r) ==> r == self.bend(z, s)
        &&& forall|z: Z, s: S| #[trigger] call_requires(self.evaluate, (&z, s))
        &&& forall|z: Z, s: S, r: Point<S>| #[trigger]
            call_ensures(self.evaluate, (&z, s), r) ==> r == self.place(z, s)
        &&& forall|z: Z, n: usize, params: (S, S, S)| #[trigger]
            call_requires(self.resample_xfoil, (&z, n, params))
        &&& forall|z: Z, n: usize| #[trigger] call_requires(self.resample_cosine, (&z, n))
    }

    open spec fn fits(&self, points: Seq<Point<S>>, r: Option<Z>) -> bool {
        exists|p: Vec<Point<S>>| p@ == points && #[trigger] call_ensures(self.from_points, (&p,), r)
    }

    open spec fn length(&self, z: Z) -> S {
        choose|r: S| call_ensures(self.total_arc_length, (&z,), r)
    }

    open spec fn bend(&self, z: Z, s: S) -> S {
        choose|r: S| call_ensures(self.curvature, (&z, s), r)
    }

    open spec fn place(&self, z: Z, s: S) -> Point<S> {
        choose|r: Point<S>| call_ensures(self.evaluate, (&z, s), r)
    }

    open spec fn resamples(&self, z: Z, n: usize, params: (S, S, S), r: Seq<Point<S>>) -> bool {
        exists|p: Vec<Point<S>>|
            p@ == r && #[trigger] call_ensures(self.resample_xfoil, (&z, n, params), p)
    }

    open spec fn resamples_cosine(&self, z: Z, n: usize, r: Seq<Point<S>>) -> bool {
        exists|p: Vec<Point<S>>|
            p@ == r && #[trigger] call_ensures(self.resample_cosine, (&z, n), p)
    }

    fn from_points(&self, points: &Vec<Point<S>>) -> (r: Option<Z>) {
        (self.from_points)(points)
    }

    fn total_arc_length(&self, z: &Z) -> (r: S) {
        (self.total_arc_length)(z)
    }

    fn curvature(&self, z: &Z, s: S) -> (r: S) {
        (self.curvature)(z, s)
    }

    fn evaluate(&self, z: &Z, s: S) -> (r: Point<S>) {
        (self.evaluate)(z, s)
    }

    fn resample_xfoil(&self, z: &Z, n: usize, params: (S, S, S)) -> (r: Vec<Point<S>>) {
        (self.resample_xfoil)(z, n, params)
    }

    fn resample_cosine(&self, z: &Z, n: usize) -> (r: Vec<Point<S>>) {
        (self.resample_cosine)(z, n)
    }
}

} // verus!
