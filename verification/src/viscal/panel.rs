//! Values at the panel nodes of the airfoil, from values at the stations.
use crate::global_newton::newton_state::CanonicalNewtonRow;
use crate::number::{arithmetic, whole, Formula, Real};
use crate::station::{entry_or, filled, seq_or, BlStation};
use vstd::prelude::*;

verus! {

/// Which surface has the last word at a node that both surfaces write.
#[derive(Clone, Copy, Debug, PartialEq, Eq, Structural)]
pub enum GammaWriteOrder {
    /// The value that was written first stays.
    PreserveFirstWriter,
    /// The lower surface overwrites the upper one.
    LowerOverwritesShared,
}

/// The value of a station for the node that it belongs to.
#[derive(Clone, Copy, Debug)]
pub struct NodeValue<S> {
    pub panel_idx: usize,
    /// A station in the wake belongs to no node.
    pub is_wake: bool,
    pub value: S,
}

/// Whether the value is one for node `p`.
pub open spec fn writes<S>(v: NodeValue<S>, p: int) -> bool {
    !v.is_wake && v.panel_idx == p
}

/// The last of the values before `n`, but for the one of the stagnation point, that is one
/// for node `p`; zero where there is none.
pub open spec fn last_writer<S>(values: Seq<NodeValue<S>>, p: int, n: int) -> int
    decreases n,
{
    if n <= 1 {
        0
    } else if writes(values[n - 1], p) {
        n - 1
    } else {
        last_writer(values, p, n - 1)
    }
}

/// The first of the values before `n`, but for the one of the stagnation point, that is one
/// for node `p`; zero where there is none.
pub open spec fn first_writer<S>(values: Seq<NodeValue<S>>, p: int, n: int) -> int
    decreases n,
{
    if n <= 1 {
        0
    } else {
        let before = first_writer(values, p, n - 1);
        if before == 0 && writes(values[n - 1], p) {
            n - 1
        } else {
            before
        }
    }
}

/// The value at node `p`: that of the upper surface, or the one of the lower surface with
/// its sign turned, or zero.
pub open spec fn node_value<S: Real>(
    upper: Seq<NodeValue<S>>,
    lower: Seq<NodeValue<S>>,
    order: GammaWriteOrder,
    p: int,
) -> S {
    let u = last_writer(upper, p, upper.len() as int);
    let from_upper = if u > 0 {
        upper[u].value
    } else {
        whole::<S>(0)
    };
    match order {
        GammaWriteOrder::PreserveFirstWriter => {
            let l = first_writer(lower, p, lower.len() as int);
            if u == 0 && l > 0 {
                -lower[l].value
            } else {
                from_upper
            }
        },
        GammaWriteOrder::LowerOverwritesShared => {
            let l = last_writer(lower, p, lower.len() as int);
            if l > 0 {
                -lower[l].value
            } else {
                from_upper
            }
        },
    }
}

/// The values at `n` nodes.
pub fn node_values<S: Real>(
    upper: &[NodeValue<S>],
    lower: &[NodeValue<S>],
    n: usize,
    order: GammaWriteOrder,
) -> (r: Vec<S>)
    requires
        arithmetic::<S>(),
    ensures
        r@ == Seq::new(n as nat, |p: int| node_value(upper@, lower@, order, p)),
{
    let zero: S = whole(0);
    let mut gamma: Vec<S> = filled(zero, n);
    let mut taken: Vec<bool> = filled(false, n);
    let mut i: usize = 1;
    while i < upper.len()
        invariant
            zero == whole::<S>(0),
            1 <= i,
            i <= upper@.len() || i == 1,
            gamma@.len() == n,
            taken@.len() == n,
            forall|p: int|
                0 <= p < n ==> #[trigger] gamma@[p] == (if last_writer(upper@, p, i as int) > 0 {
                    upper@[last_writer(upper@, p, i as int)].value
                } else {
                    zero
                }),
            forall|p: int|
                0 <= p < n ==> #[trigger] taken@[p] == (last_writer(upper@, p, i as int) > 0),
        decreases upper@.len() - i,
    {
        let v: NodeValue<S> = upper[i];
        if v.panel_idx < n && !v.is_wake {
            gamma[v.panel_idx] = v.value;
            taken[v.panel_idx] = true;
        }
        i = i + 1;
    }
    proof {
        assert forall|p: int| 0 <= p < n implies last_writer(upper@, p, i as int) == last_writer(
            upper@,
            p,
            upper@.len() as int,
        ) by {}
    }
    let ghost from_upper = gamma@;
    let mut j: usize = 1;
    while j < lower.len()
        invariant
            arithmetic::<S>(),
            zero == whole::<S>(0),
            1 <= j,
            j <= lower@.len() || j == 1,
            gamma@.len() == n,
            taken@.len() == n,
            from_upper.len() == n,
            forall|p: int|
                0 <= p < n ==> #[trigger] from_upper[p] == (if last_writer(
                    upper@,
                    p,
                    upper@.len() as int,
                ) > 0 {
                    upper@[last_writer(upper@, p, upper@.len() as int)].value
                } else {
                    zero
                }),
            forall|p: int|
                0 <= p < n ==> #[trigger] taken@[p] == (last_writer(upper@, p, upper@.len() as int)
                    > 0 || first_writer(lower@, p, j as int) > 0),
            forall|p: int|
                0 <= p < n ==> #[trigger] gamma@[p] == ({
                    let first = first_writer(lower@, p, j as int);
                    let last = last_writer(lower@, p, j as int);
                    match order {
                        GammaWriteOrder::PreserveFirstWriter => if last_writer(
                            upper@,
                            p,
                            upper@.len() as int,
                        ) == 0 && first > 0 {
                            -lower@[first].value
                        } else {
                            from_upper[p]
                        },
                        GammaWriteOrder::LowerOverwritesShared => if last > 0 {
                            -lower@[last].value
                        } else {
                            from_upper[p]
                        },
                    }
                }),
        decreases lower@.len() - j,
    {
        let v: NodeValue<S> = lower[j];
        proof {
            lemma_writers(lower@, v.panel_idx as int, j as int);
            lemma_writers(upper@, v.panel_idx as int, upper@.len() as int);
        }
        if v.panel_idx < n && !v.is_wake {
            let lower_writes: bool = match order {
                GammaWriteOrder::PreserveFirstWriter => !taken[v.panel_idx],
                GammaWriteOrder::LowerOverwritesShared => true,
            };
            if lower_writes {
                gamma[v.panel_idx] = v.value.neg();
            }
            taken[v.panel_idx] = true;
        }
        j = j + 1;
    }
    proof {
        assert forall|p: int| 0 <= p < n implies gamma@[p] == node_value(
            upper@,
            lower@,
            order,
            p,
        ) by {
            lemma_writers(lower@, p, lower@.len() as int);
            lemma_writers(upper@, p, upper@.len() as int);
        }
    }
    gamma
}

/// Writers are found behind the stagnation point, and either search finds one where there
/// is one.
proof fn lemma_writers<S>(values: Seq<NodeValue<S>>, p: int, n: int)
    ensures
        0 <= last_writer(values, p, n),
        0 <= first_writer(values, p, n),
        n >= 1 ==> last_writer(values, p, n) < n,
        n >= 1 ==> first_writer(values, p, n) < n,
        (last_writer(values, p, n) > 0) == (first_writer(values, p, n) > 0),
    decreases n,
{
    if n > 1 {
        lemma_writers(values, p, n - 1);
    }
}

/// The values of the stations for the nodes: their velocities.
pub open spec fn station_values<S>(stations: Seq<BlStation<S>>) -> Seq<NodeValue<S>> {
    stations.map_values(
        |s: BlStation<S>| NodeValue { panel_idx: s.panel_idx, is_wake: s.is_wake, value: s.u },
    )
}

/// The values of the stations for the nodes: `values`, or their velocities where it ends.
pub open spec fn given_values<S>(
    stations: Seq<BlStation<S>>,
    values: Seq<S>,
) -> Seq<NodeValue<S>> {
    stations.map(
        |i: int, s: BlStation<S>|
            NodeValue {
                panel_idx: s.panel_idx,
                is_wake: s.is_wake,
                value: seq_or(values, i, s.u),
            },
    )
}

/// The values of the rows for the nodes: `values`, or their velocities where it ends.
pub open spec fn given_row_values<S>(
    rows: Seq<CanonicalNewtonRow<S>>,
    values: Seq<S>,
) -> Seq<NodeValue<S>> {
    rows.map(
        |i: int, s: CanonicalNewtonRow<S>|
            NodeValue {
                panel_idx: s.panel_idx,
                is_wake: s.is_wake,
                value: seq_or(values, i, s.uedg),
            },
    )
}

/// The values of the stations for the nodes.
fn collect_station_values<S: Real>(stations: &[BlStation<S>], values: &[S]) -> (r: Vec<
    NodeValue<S>,
>)
    ensures
        r@ == given_values(stations@, values@),
{
    let mut r: Vec<NodeValue<S>> = Vec::with_capacity(stations.len());
    let mut i: usize = 0;
    while i < stations.len()
        invariant
            i <= stations@.len(),
            r@.len() == i,
            forall|k: int|
                0 <= k < i ==> #[trigger] r@[k] == given_values(stations@, values@)[k],
        decreases stations@.len() - i,
    {
        let s: BlStation<S> = stations[i];
        r.push(
            NodeValue {
                panel_idx: s.panel_idx,
                is_wake: s.is_wake,
                value: entry_or(values, i, s.u),
            },
        );
        i = i + 1;
    }
    r
}

/// The values of the rows for the nodes.
fn collect_row_values<S: Real>(rows: &[CanonicalNewtonRow<S>], values: &[S]) -> (r: Vec<
    NodeValue<S>,
>)
    ensures
        r@ == given_row_values(rows@, values@),
{
    let mut r: Vec<NodeValue<S>> = Vec::with_capacity(rows.len());
    let mut i: usize = 0;
    while i < rows.len()
        invariant
            i <= rows@.len(),
            r@.len() == i,
            forall|k: int|
                0 <= k < i ==> #[trigger] r@[k] == given_row_values(rows@, values@)[k],
        decreases rows@.len() - i,
    {
        let s: CanonicalNewtonRow<S> = rows[i];
        r.push(
            NodeValue {
                panel_idx: s.panel_idx,
                is_wake: s.is_wake,
                value: entry_or(values, i, s.uedg),
            },
        );
        i = i + 1;
    }
    r
}

/// The vorticity at the panel nodes: the edge velocity of the upper surface, and that of the
/// lower one with its sign turned.
pub fn build_panel_gamma_from_stations<S: Real>(
    upper_stations: &[BlStation<S>],
    lower_stations: &[BlStation<S>],
    n_panels: usize,
    order: GammaWriteOrder,
) -> (r: Vec<S>)
    requires
        arithmetic::<S>(),
    ensures
        r@ == Seq::new(
            n_panels as nat,
            |p: int|
                node_value(
                    station_values(upper_stations@),
                    station_values(lower_stations@),
                    order,
                    p,
                ),
        ),
{
    let none: Vec<S> = Vec::new();
    let upper: Vec<NodeValue<S>> = collect_station_values(upper_stations, &none);
    let lower: Vec<NodeValue<S>> = collect_station_values(lower_stations, &none);
    assert(upper@ =~= station_values(upper_stations@));
    assert(lower@ =~= station_values(lower_stations@));
    node_values(&upper, &lower, n_panels, order)
}

/// The values at the panel nodes, with nothing at the last one, which closes the contour.
pub open spec fn closed_values<S: Real>(
    upper: Seq<NodeValue<S>>,
    lower: Seq<NodeValue<S>>,
    n: nat,
) -> Seq<S> {
    Seq::new(
        n,
        |p: int|
            if p == n - 1 {
                whole::<S>(0)
            } else {
                node_value(upper, lower, GammaWriteOrder::LowerOverwritesShared, p)
            },
    )
}

/// The values at the panel nodes, from values of the stations.
pub fn build_panel_values_from_surface_values<S: Real>(
    upper_stations: &[BlStation<S>],
    lower_stations: &[BlStation<S>],
    upper_values: &[S],
    lower_values: &[S],
    n_panel_nodes: usize,
) -> (r: Vec<S>)
    requires
        arithmetic::<S>(),
    ensures
        r@ == closed_values(
            given_values(upper_stations@, upper_values@),
            given_values(lower_stations@, lower_values@),
            n_panel_nodes as nat,
        ),
{
    let upper: Vec<NodeValue<S>> = collect_station_values(upper_stations, upper_values);
    let lower: Vec<NodeValue<S>> = collect_station_values(lower_stations, lower_values);
    let mut r: Vec<S> = node_values(
        &upper,
        &lower,
        n_panel_nodes,
        GammaWriteOrder::LowerOverwritesShared,
    );
    if n_panel_nodes > 0 {
        r[n_panel_nodes - 1] = whole(0);
    }
    r
}

/// The values at the panel nodes, from values of the rows.
pub fn build_panel_values_from_row_values<S: Real>(
    upper_rows: &[CanonicalNewtonRow<S>],
    lower_rows: &[CanonicalNewtonRow<S>],
    upper_values: &[S],
    lower_values: &[S],
    n_panel_nodes: usize,
) -> (r: Vec<S>)
    requires
        arithmetic::<S>(),
    ensures
        r@ == closed_values(
            given_row_values(upper_rows@, upper_values@),
            given_row_values(lower_rows@, lower_values@),
            n_panel_nodes as nat,
        ),
{
    let upper: Vec<NodeValue<S>> = collect_row_values(upper_rows, upper_values);
    let lower: Vec<NodeValue<S>> = collect_row_values(lower_rows, lower_values);
    let mut r: Vec<S> = node_values(
        &upper,
        &lower,
        n_panel_nodes,
        GammaWriteOrder::LowerOverwritesShared,
    );
    if n_panel_nodes > 0 {
        r[n_panel_nodes - 1] = whole(0);
    }
    r
}

/// A node that the upper surface writes keeps its value under the first order, one that the
/// lower surface writes takes that value under the second, and a node that the lower surface
/// does not write is the same under both. A node that nothing writes is zero.
pub proof fn law_write_order<S: Real>(
    upper: Seq<NodeValue<S>>,
    lower: Seq<NodeValue<S>>,
    p: int,
)
    ensures
        last_writer(upper, p, upper.len() as int) > 0 ==> node_value(
            upper,
            lower,
            GammaWriteOrder::PreserveFirstWriter,
            p,
        ) == upper[last_writer(upper, p, upper.len() as int)].value,
        last_writer(lower, p, lower.len() as int) > 0 ==> node_value(
            upper,
            lower,
            GammaWriteOrder::LowerOverwritesShared,
            p,
        ) == -lower[last_writer(lower, p, lower.len() as int)].value,
        last_writer(lower, p, lower.len() as int) == 0 ==> node_value(
            upper,
            lower,
            GammaWriteOrder::PreserveFirstWriter,
            p,
        ) == node_value(upper, lower, GammaWriteOrder::LowerOverwritesShared, p),
        last_writer(upper, p, upper.len() as int) == 0 && last_writer(lower, p, lower.len() as int)
            == 0 ==> node_value(upper, lower, GammaWriteOrder::PreserveFirstWriter, p) == whole::<
            S,
        >(0),
{
    lemma_writers(upper, p, upper.len() as int);
    lemma_writers(lower, p, lower.len() as int);
}

} // verus!
