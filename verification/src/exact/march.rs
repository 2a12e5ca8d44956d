//! A march whose stations do not answer to their mass.
use super::algebra::{lemma_quotient, lemma_zero};
use super::exact;
use crate::closure::BlLaws;
use crate::march::coupled::own_influence;
use crate::march::laws::keeps_regime;
use crate::march::surface::MarchFlow;
use crate::number::{whole, Formula, Real};
use crate::station::{BlStation, Matrix};
use vstd::prelude::*;

verus! {

/// Where the diagonal of the influence matrix is zero, a march with an answering velocity
/// keeps the velocities that it is given, as long as neither the secondary variables nor the
/// mass defect of a station decide its velocity.
pub proof fn law_no_influence_keeps_the_velocities<S: Real, T>(
    v: spec_fn(S) -> real,
    flow: MarchFlow<S>,
    x: Seq<S>,
    ue: Seq<S>,
    dij: &Matrix<S>,
    laws: BlLaws<S, T>,
    n: nat,
    k: int,
)
    requires
        exact(v),
        keeps_regime(laws),
        forall|s: BlStation<S>| (#[trigger] (laws.refreshed)(s)).u == s.u,
        forall|i: int|
            1 <= i < n ==> (#[trigger] own_influence(dij, i) matches Some(c) ==> v(c) == 0real),
        0 <= k < n,
    ensures
        flow.explicit_march(x, ue, |i: int| own_influence(dij, i), laws, n).stations.len() == n,
        v(flow.explicit_march(x, ue, |i: int| own_influence(dij, i), laws, n).stations[k].u)
            == v(ue[k]),
    decreases n,
{
    let influence = |i: int| own_influence(dij, i);
    if n > 1 {
        let m = flow.explicit_march(x, ue, influence, laws, (n - 1) as nat);
        if k < n - 1 {
            law_no_influence_keeps_the_velocities(v, flow, x, ue, dij, laws, (n - 1) as nat, k);
        } else {
            law_no_influence_keeps_the_velocities(v, flow, x, ue, dij, laws, (n - 1) as nat, 0);
            let prev = m.stations.last();
            let s = flow.explicit_station(prev, m.laminar, x[n - 1], ue[n - 1], laws);
            assert(s.u == ue[n - 1]);
            match own_influence(dij, n - 1) {
                Some(c) => {
                    let dm = s.u * s.delta_star - prev.mass_defect;
                    let thousand = whole::<S>(1000);
                    lemma_zero(v(dm));
                    lemma_zero(v(flow.config.senswt));
                    lemma_quotient(0real, 1000real);
                    assert(v(c * dm * flow.config.senswt) == 0real);
                    assert(v(c * dm * flow.config.senswt / thousand) == 0real / 1000real);
                    assert(v(flow.displaced(prev, s, m.laminar, c, laws).u) == v(ue[n - 1]));
                },
                None => {},
            }
        }
    }
}

} // verus!
