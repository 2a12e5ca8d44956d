//! The state that the coupled iteration of both surfaces works on, by its operations.
use crate::global_newton::newton_state::CanonicalNewtonStateView;
use crate::global_newton::update::GlobalUpdateResult;
use crate::march::config::MarchConfig;
use crate::number::Real;
use crate::station::BlStation;
use crate::viscal::control::Forces;
use vstd::prelude::*;

verus! {

/// What the iteration reads of the state directly: the panels of both surfaces, the arc
/// lengths of the lower one, and the stations of the trailing edge.
pub struct StateShape<S> {
    pub upper_panels: Vec<usize>,
    pub lower_panels: Vec<usize>,
    pub lower_x: Vec<S>,
    pub iblte_upper: usize,
    pub iblte_lower: usize,
}

/// The numbers of stations and the stations of the trailing edge.
#[derive(Clone, Copy, Debug, PartialEq, Eq, Structural)]
pub struct Sizes {
    pub n_upper: usize,
    pub n_lower: usize,
    pub iblte_upper: usize,
    pub iblte_lower: usize,
}

impl Sizes {
    /// There are two stations, one of them upper, and the stations can be numbered through,
    /// that behind the lower trailing edge among them.
    pub open spec fn wf(self) -> bool {
        &&& 1 <= self.n_upper
        &&& 2 <= self.n_upper + self.n_lower <= usize::MAX
        &&& self.n_upper + self.iblte_lower <= usize::MAX
    }
}

impl<S> CanonicalNewtonStateView<S> {
    /// There is a row for every station.
    pub open spec fn fits(&self, n: Sizes) -> bool {
        &&& self.upper_rows@.len() == n.n_upper
        &&& self.lower_rows@.len() == n.n_lower
    }
}

/// The state in the form that a Newton iteration solves.
pub struct NewtonForm<S> {
    pub view: CanonicalNewtonStateView<S>,
    pub upper: Vec<BlStation<S>>,
    pub lower: Vec<BlStation<S>>,
}

/// What the march over a surface has met.
#[derive(Clone, Copy, Debug)]
pub struct SurfaceEvents<S> {
    pub x_transition: Option<S>,
    pub x_separation: Option<S>,
    pub transition_index: Option<usize>,
}

/// What is read of the final state: the forces and the positions of transition.
#[derive(Clone, Copy, Debug)]
pub struct StateSummary<S> {
    pub forces: Forces<S>,
    pub xtran_upper: Option<S>,
    pub xtran_lower: Option<S>,
}

/// The operations on the state. Each has a relation between its arguments and what it may
/// return.
pub trait StateOperations<S: Real> {
    type State;

    /// The operations can be called on valid states, and keep them valid; the state before
    /// the first march is one.
    spec fn ready(&self) -> bool;

    /// A state has stations, and they can be numbered.
    spec fn valid(&self, z: Self::State) -> bool;

    /// The numbers of stations of a state.
    spec fn sizes(&self, z: Self::State) -> Sizes;

    /// The state before the first march.
    spec fn start(&self) -> Self::State;

    spec fn marches(
        &self,
        z: Self::State,
        upper: bool,
        re: S,
        msq: S,
        config: MarchConfig<S>,
        r: (Self::State, SurfaceEvents<S>),
    ) -> bool;

    spec fn records(
        &self,
        z: Self::State,
        upper: bool,
        index: Option<usize>,
        x: Option<S>,
        r: Self::State,
    ) -> bool;

    spec fn has_shape(&self, z: Self::State, r: StateShape<S>) -> bool;

    spec fn takes_gaps(&self, z: Self::State, gaps: Seq<S>, r: Self::State) -> bool;

    spec fn refreshes(&self, z: Self::State, r: Self::State) -> bool;

    spec fn has_sensitivities(&self, z: Self::State, upper: Seq<S>, lower: Seq<S>) -> bool;

    spec fn has_stagnation(&self, z: Self::State, r: Option<(S, S)>) -> bool;

    spec fn stagnates(&self, gamma: [S; 2], arc: [S; 2], r: Option<(S, S)>) -> bool;

    spec fn mixes(
        &self,
        z: Self::State,
        upper: bool,
        re: S,
        msq: S,
        config: MarchConfig<S>,
        r: Self::State,
    ) -> bool;

    spec fn has_form(&self, z: Self::State, r: NewtonForm<S>) -> bool;

    spec fn absorbs(
        &self,
        z: Self::State,
        view: CanonicalNewtonStateView<S>,
        update: GlobalUpdateResult<S>,
        dac: S,
        r: Self::State,
    ) -> bool;

    spec fn has_split(&self, z: Self::State, r: usize) -> bool;

    spec fn relocates(&self, z: Self::State, split: usize, r: (Self::State, Option<usize>)) -> bool;

    spec fn adjusts(&self, z: Self::State, old: usize, new: usize, r: Self::State) -> bool;

    spec fn finishes(&self, z: Self::State, r: (Self::State, StateSummary<S>)) -> bool;

    /// The state before the first march.
    fn initial(&self) -> (r: &Self::State)
        ensures
            *r == self.start(),
            self.ready() ==> self.valid(*r),
    ;

    /// Marches over a surface from the stagnation point.
    fn march_surface(
        &self,
        z: &Self::State,
        upper: bool,
        re: S,
        msq: S,
        config: MarchConfig<S>,
    ) -> (r: (Self::State, SurfaceEvents<S>))
        requires
            self.ready(),
            self.valid(*z),
        ensures
            self.marches(*z, upper, re, msq, config, r),
            self.valid(r.0),
            self.sizes(r.0) == self.sizes(*z),
    ;

    /// Records where transition was met.
    fn record_transition(
        &self,
        z: &Self::State,
        upper: bool,
        index: Option<usize>,
        x: Option<S>,
    ) -> (r: Self::State)
        requires
            self.ready(),
            self.valid(*z),
        ensures
            self.records(*z, upper, index, x, r),
            self.valid(r),
            self.sizes(r) == self.sizes(*z),
    ;

    /// The panels, arc lengths and trailing edge stations.
    fn shape(&self, z: &Self::State) -> (r: StateShape<S>)
        requires
            self.ready(),
            self.valid(*z),
        ensures
            self.has_shape(*z, r),
            self.sizes(*z).wf(),
            self.sizes(*z) == (Sizes {
                n_upper: r.upper_panels@.len() as usize,
                n_lower: r.lower_panels@.len() as usize,
                iblte_upper: r.iblte_upper,
                iblte_lower: r.iblte_lower,
            }),
            r.upper_panels@.len() <= usize::MAX,
            r.lower_panels@.len() <= usize::MAX,
            r.lower_x@.len() == r.lower_panels@.len(),
    ;

    /// Sets the wake gaps of the lower stations behind the trailing edge.
    fn take_gaps(&self, z: &Self::State, gaps: &Vec<S>) -> (r: Self::State)
        requires
            self.ready(),
            self.valid(*z),
        ensures
            self.takes_gaps(*z, gaps@, r),
            self.valid(r),
            self.sizes(r) == self.sizes(*z),
    ;

    /// Brings the panel arrays up to date.
    fn refresh(&self, z: &Self::State) -> (r: Self::State)
        requires
            self.ready(),
            self.valid(*z),
        ensures
            self.refreshes(*z, r),
            self.valid(r),
            self.sizes(r) == self.sizes(*z),
    ;

    /// The sensitivities of the edge velocities to the angle of attack.
    fn sensitivities(&self, z: &Self::State) -> (r: (Vec<S>, Vec<S>))
        requires
            self.ready(),
            self.valid(*z),
        ensures
            self.has_sensitivities(*z, r.0@, r.1@),
    ;

    /// The derivatives of the stagnation arc length, where there is a stagnation point.
    fn stagnation(&self, z: &Self::State) -> (r: Option<(S, S)>)
        requires
            self.ready(),
            self.valid(*z),
        ensures
            self.has_stagnation(*z, r),
    ;

    /// The derivatives of the stagnation arc length between two points.
    fn stagnation_between(&self, gamma: [S; 2], arc: [S; 2]) -> (r: Option<(S, S)>)
        requires
            self.ready(),
        ensures
            self.stagnates(gamma, arc, r),
    ;

    /// Runs the mixed march over a surface.
    fn mixed_march(
        &self,
        z: &Self::State,
        upper: bool,
        re: S,
        msq: S,
        config: MarchConfig<S>,
    ) -> (r: Self::State)
        requires
            self.ready(),
            self.valid(*z),
        ensures
            self.mixes(*z, upper, re, msq, config, r),
            self.valid(r),
            self.sizes(r) == self.sizes(*z),
    ;

    /// The form that a Newton iteration solves.
    fn newton_form(&self, z: &Self::State) -> (r: NewtonForm<S>)
        requires
            self.ready(),
            self.valid(*z),
        ensures
            self.has_form(*z, r),
            r.upper@.len() == self.sizes(*z).n_upper,
            r.lower@.len() == self.sizes(*z).n_lower,
            r.view.upper_rows@.len() == self.sizes(*z).n_upper,
            r.view.lower_rows@.len() == self.sizes(*z).n_lower,
    ;

    /// Takes over the rows and velocities of an update.
    fn absorb(
        &self,
        z: &Self::State,
        view: &CanonicalNewtonStateView<S>,
        update: &GlobalUpdateResult<S>,
        dac: S,
    ) -> (r: Self::State)
        requires
            self.ready(),
            self.valid(*z),
            view.fits(self.sizes(*z)),
        ensures
            self.absorbs(*z, *view, *update, dac, r),
            self.valid(r),
    ;

    /// The panel before the stagnation point.
    fn split(&self, z: &Self::State) -> (r: usize)
        requires
            self.ready(),
            self.valid(*z),
        ensures
            self.has_split(*z, r),
    ;

    /// Moves the stagnation point to where the vorticity changes sign, and tells the panel
    /// before it where there is one.
    fn relocate(&self, z: &Self::State, split: usize) -> (r: (Self::State, Option<usize>))
        requires
            self.ready(),
            self.valid(*z),
        ensures
            self.relocates(*z, split, r),
            self.valid(r.0),
    ;

    /// Moves the records of transition with the stagnation point.
    fn adjust(&self, z: &Self::State, old: usize, new: usize) -> (r: Self::State)
        requires
            self.ready(),
            self.valid(*z),
        ensures
            self.adjusts(*z, old, new, r),
            self.valid(r),
    ;

    /// Brings the state to its final form, and reads it.
    fn finish(&self, z: &Self::State) -> (r: (Self::State, StateSummary<S>))
        requires
            self.ready(),
            self.valid(*z),
        ensures
            self.finishes(*z, r),
    ;
}

/// Operations on a state that are handed in one by one.
pub struct StateFunctions<Z, A, B, C, D, E, F, G, H, I, J, K, L, M, N, O> {
    pub initial: Z,
    pub march_surface: A,
    pub record_transition: B,
    pub shape: C,
    pub take_gaps: D,
    pub refresh: E,
    pub sensitivities: F,
    pub stagnation: G,
    pub stagnation_between: H,
    pub mixed_march: I,
    pub newton_form: J,
    pub absorb: K,
    pub split: L,
    pub relocate: M,
    pub adjust: N,
    pub finish: O,
}

/// The numbers of stations of a shape.
pub open spec fn shape_sizes<S>(r: StateShape<S>) -> Sizes {
    Sizes {
        n_upper: r.upper_panels@.len() as usize,
        n_lower: r.lower_panels@.len() as usize,
        iblte_upper: r.iblte_upper,
        iblte_lower: r.iblte_lower,
    }
}

/// `shape` may return a shape with the numbers `n` for `z`.
pub open spec fn shape_gives<S: Real, Z, C: Fn(&Z) -> StateShape<S>>(
    shape: C,
    z: Z,
    n: Sizes,
) -> bool {
    exists|r: StateShape<S>| #[trigger] call_ensures(shape, (&z,), r) && shape_sizes(r) == n
}

impl<
    S: Real,
    Z,
    A: Fn(&Z, bool, S, S, MarchConfig<S>) -> (Z, SurfaceEvents<S>),
    B: Fn(&Z, bool, Option<usize>, Option<S>) -> Z,
    C: Fn(&Z) -> StateShape<S>,
    D: Fn(&Z, &Vec<S>) -> Z,
    E: Fn(&Z) -> Z,
    F: Fn(&Z) -> (Vec<S>, Vec<S>),
    G: Fn(&Z) -> Option<(S, S)>,
    H: Fn([S; 2], [S; 2]) -> Option<(S, S)>,
    I: Fn(&Z, bool, S, S, MarchConfig<S>) -> Z,
    J: Fn(&Z) -> NewtonForm<S>,
    K: Fn(&Z, &CanonicalNewtonStateView<S>, &GlobalUpdateResult<S>, S) -> Z,
    L: Fn(&Z) -> usize,
    M: Fn(&Z, usize) -> (Z, Option<usize>),
    N: Fn(&Z, usize, usize) -> Z,
    O: Fn(&Z) -> (Z, StateSummary<S>),
> StateOperations<S> for StateFunctions<Z, A, B, C, D, E, F, G, H, I, J, K, L, M, N, O> {
    type State = Z;

    open spec fn ready(&self) -> bool {
        &&& self.valid(self.initial)
        &&& forall|z: Z, upper: bool, re: S, msq: S, config: MarchConfig<S>|
            self.valid(z) ==> #[trigger] call_requires(
                self.march_surface,
                (&z, upper, re, msq, config),
            )
        &&& forall|z: Z, upper: bool, index: Option<usize>, x: Option<S>|
            self.valid(z) ==> #[trigger] call_requires(
                self.record_transition,
                (&z, upper, index, x),
            )
        &&& forall|z: Z| self.valid(z) ==> #[trigger] call_requires(self.shape, (&z,))
        &&& forall|z: Z, gaps: Vec<S>|
            self.valid(z) ==> #[trigger] call_requires(self.take_gaps, (&z, &gaps))
        &&& forall|z: Z| self.valid(z) ==> #[trigger] call_requires(self.refresh, (&z,))
        &&& forall|z: Z| self.valid(z) ==> #[trigger] call_requires(self.sensitivities, (&z,))
        &&& forall|z: Z| self.valid(z) ==> #[trigger] call_requires(self.stagnation, (&z,))
        &&& forall|gamma: [S; 2], arc: [S; 2]| #[trigger]
            call_requires(self.stagnation_between, (gamma, arc))
        &&& forall|z: Z, upper: bool, re: S, msq: S, config: MarchConfig<S>|
            self.valid(z) ==> #[trigger] call_requires(
                self.mixed_march,
                (&z, upper, re, msq, config),
            )
        &&& forall|z: Z| self.valid(z) ==> #[trigger] call_requires(self.newton_form, (&z,))
        &&& forall|
            z: Z,
            view: CanonicalNewtonStateView<S>,
            update: GlobalUpdateResult<S>,
            dac: S,
        |
            self.valid(z) && view.fits(self.sizes(z)) ==> #[trigger] call_requires(
                self.absorb,
                (&z, &view, &update, dac),
            )
        &&& forall|z: Z| self.valid(z) ==> #[trigger] call_requires(self.split, (&z,))
        &&& forall|z: Z, split: usize|
            self.valid(z) ==> #[trigger] call_requires(self.relocate, (&z, split))
        &&& forall|z: Z, old: usize, new: usize|
            self.valid(z) ==> #[trigger] call_requires(self.adjust, (&z, old, new))
        &&& forall|z: Z| self.valid(z) ==> #[trigger] call_requires(self.finish, (&z,))
        &&& forall|
            z: Z,
            upper: bool,
            re: S,
            msq: S,
            config: MarchConfig<S>,
            r: (Z, SurfaceEvents<S>),
        | #[trigger]
            call_ensures(self.march_surface, (&z, upper, re, msq, config), r) && self.valid(z)
                ==> self.sizes(r.0) == self.sizes(z)
        &&& forall|z: Z, upper: bool, index: Option<usize>, x: Option<S>, r: Z| #[trigger]
            call_ensures(self.record_transition, (&z, upper, index, x), r) && self.valid(z)
                ==> self.sizes(r) == self.sizes(z)
        &&& forall|z: Z, r: StateShape<S>| #[trigger]
            call_ensures(self.shape, (&z,), r) && self.valid(z) ==> {
                &&& self.sizes(z) == shape_sizes(r)
                &&& r.upper_panels@.len() <= usize::MAX
                &&& r.lower_panels@.len() <= usize::MAX
                &&& r.lower_x@.len() == r.lower_panels@.len()
            }
        &&& forall|z: Z, gaps: Vec<S>, r: Z| #[trigger]
            call_ensures(self.take_gaps, (&z, &gaps), r) && self.valid(z) ==> self.sizes(r)
                == self.sizes(z)
        &&& forall|z: Z, r: Z| #[trigger]
            call_ensures(self.refresh, (&z,), r) && self.valid(z) ==> self.sizes(r)
                == self.sizes(z)
        &&& forall|z: Z, upper: bool, re: S, msq: S, config: MarchConfig<S>, r: Z| #[trigger]
            call_ensures(self.mixed_march, (&z, upper, re, msq, config), r) && self.valid(z)
                ==> self.sizes(r) == self.sizes(z)
        &&& forall|z: Z, r: NewtonForm<S>| #[trigger]
            call_ensures(self.newton_form, (&z,), r) && self.valid(z) ==> {
                &&& r.upper@.len() == self.sizes(z).n_upper
                &&& r.lower@.len() == self.sizes(z).n_lower
                &&& r.view.upper_rows@.len() == self.sizes(z).n_upper
                &&& r.view.lower_rows@.len() == self.sizes(z).n_lower
            }
        &&& forall|
            z: Z,
            view: CanonicalNewtonStateView<S>,
            update: GlobalUpdateResult<S>,
            dac: S,
            r: Z,
        | #[trigger]
            call_ensures(self.absorb, (&z, &view, &update, dac), r) && self.valid(z)
                && view.fits(self.sizes(z)) ==> self.valid(r)
        &&& forall|z: Z, split: usize, r: (Z, Option<usize>)| #[trigger]
            call_ensures(self.relocate, (&z, split), r) && self.valid(z) ==> self.valid(r.0)
        &&& forall|z: Z, old: usize, new: usize, r: Z| #[trigger]
            call_ensures(self.adjust, (&z, old, new), r) && self.valid(z) ==> self.valid(r)
    }

    open spec fn valid(&self, z: Z) -> bool {
        self.sizes(z).wf()
    }

    open spec fn sizes(&self, z: Z) -> Sizes {
        choose|n: Sizes| shape_gives(self.shape, z, n)
    }

    open spec fn start(&self) -> Z {
        self.initial
    }

    open spec fn marches(
        &self,
        z: Z,
        upper: bool,
        re: S,
        msq: S,
        config: MarchConfig<S>,
        r: (Z, SurfaceEvents<S>),
    ) -> bool {
        call_ensures(self.march_surface, (&z, upper, re, msq, config), r)
    }

    open spec fn records(
        &self,
        z: Z,
        upper: bool,
        index: Option<usize>,
        x: Option<S>,
        r: Z,
    ) -> bool {
        call_ensures(self.record_transition, (&z, upper, index, x), r)
    }

    open spec fn has_shape(&self, z: Z, r: StateShape<S>) -> bool {
        call_ensures(self.shape, (&z,), r)
    }

    open spec fn takes_gaps(&self, z: Z, gaps: Seq<S>, r: Z) -> bool {
        exists|v: Vec<S>| v@ == gaps && #[trigger] call_ensures(self.take_gaps, (&z, &v), r)
    }

    open spec fn refreshes(&self, z: Z, r: Z) -> bool {
        call_ensures(self.refresh, (&z,), r)
    }

    open spec fn has_sensitivities(&self, z: Z, upper: Seq<S>, lower: Seq<S>) -> bool {
        exists|r: (Vec<S>, Vec<S>)|
            r.0@ == upper && r.1@ == lower && #[trigger] call_ensures(self.sensitivities, (&z,), r)
    }

    open spec fn has_stagnation(&self, z: Z, r: Option<(S, S)>) -> bool {
        call_ensures(self.stagnation, (&z,), r)
    }

    open spec fn stagnates(&self, gamma: [S; 2], arc: [S; 2], r: Option<(S, S)>) -> bool {
        call_ensures(self.stagnation_between, (gamma, arc), r)
    }

    open spec fn mixes(
        &self,
        z: Z,
        upper: bool,
        re: S,
        msq: S,
        config: MarchConfig<S>,
        r: Z,
    ) -> bool {
        call_ensures(self.mixed_march, (&z, upper, re, msq, config), r)
    }

    open spec fn has_form(&self, z: Z, r: NewtonForm<S>) -> bool {
        call_ensures(self.newton_form, (&z,), r)
    }

    open spec fn absorbs(
        &self,
        z: Z,
        view: CanonicalNewtonStateView<S>,
        update: GlobalUpdateResult<S>,
        dac: S,
        r: Z,
    ) -> bool {
        call_ensures(self.absorb, (&z, &view, &update, dac), r)
    }

    open spec fn has_split(&self, z: Z, r: usize) -> bool {
        call_ensures(self.split, (&z,), r)
    }

    open spec fn relocates(&self, z: Z, split: usize, r: (Z, Option<usize>)) -> bool {
        call_ensures(self.relocate, (&z, split), r)
    }

    open spec fn adjusts(&self, z: Z, old: usize, new: usize, r: Z) -> bool {
        call_ensures(self.adjust, (&z, old, new), r)
    }

    open spec fn finishes(&self, z: Z, r: (Z, StateSummary<S>)) -> bool {
        call_ensures(self.finish, (&z,), r)
    }

    fn initial(&self) -> (r: &Z) {
        &self.initial
    }

    fn march_surface(
        &self,
        z: &Z,
        upper: bool,
        re: S,
        msq: S,
        config: MarchConfig<S>,
    ) -> (r: (Z, SurfaceEvents<S>)) {
        (self.march_surface)(z, upper, re, msq, config)
    }

    fn record_transition(
        &self,
        z: &Z,
        upper: bool,
        index: Option<usize>,
        x: Option<S>,
    ) -> (r: Z) {
        (self.record_transition)(z, upper, index, x)
    }

    fn shape(&self, z: &Z) -> (r: StateShape<S>) {
        (self.shape)(z)
    }

    fn take_gaps(&self, z: &Z, gaps: &Vec<S>) -> (r: Z) {
        (self.take_gaps)(z, gaps)
    }

    fn refresh(&self, z: &Z) -> (r: Z) {
        (self.refresh)(z)
    }

    fn sensitivities(&self, z: &Z) -> (r: (Vec<S>, Vec<S>)) {
        (self.sensitivities)(z)
    }

    fn stagnation(&self, z: &Z) -> (r: Option<(S, S)>) {
        (self.stagnation)(z)
    }

    fn stagnation_between(&self, gamma: [S; 2], arc: [S; 2]) -> (r: Option<(S, S)>) {
        (self.stagnation_between)(gamma, arc)
    }

    fn mixed_march(&self, z: &Z, upper: bool, re: S, msq: S, config: MarchConfig<S>) -> (r: Z) {
        (self.mixed_march)(z, upper, re, msq, config)
    }

    fn newton_form(&self, z: &Z) -> (r: NewtonForm<S>) {
        (self.newton_form)(z)
    }

    fn absorb(
        &self,
        z: &Z,
        view: &CanonicalNewtonStateView<S>,
        update: &GlobalUpdateResult<S>,
        dac: S,
    ) -> (r: Z) {
        (self.absorb)(z, view, update, dac)
    }

    fn split(&self, z: &Z) -> (r: usize) {
        (self.split)(z)
    }

    fn relocate(&self, z: &Z, split: usize) -> (r: (Z, Option<usize>)) {
        (self.relocate)(z, split)
    }

    fn adjust(&self, z: &Z, old: usize, new: usize) -> (r: Z) {
        (self.adjust)(z, old, new)
    }

    fn finish(&self, z: &Z) -> (r: (Z, StateSummary<S>)) {
        (self.finish)(z)
    }
}

} // verus!
