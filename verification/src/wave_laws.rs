//! What holds of DAG runs over several waves.
use crate::acyclic::{depends, lemma_comes_before, well_named};
use crate::dag::{DAGNodeView, NodeStatus};
use crate::graph::{GraphView, NodeOutput};
use crate::merge::{merged_all, Merge};
use crate::money::{over, Eur};
use crate::readiness::{
    as_indices, is_done, is_ready, launched, lemma_ready_below, pending_names, ready_below,
    ready_wave, waiting_below, with_status,
};
use crate::schedule::{held, is_schedule, lemma_distinct_bounded, met, schedulable};
use crate::tasks::TaskTiming;
use crate::waves::{
    is_collected, is_next_wave, is_settled, put, results, Collected, DagRun, MergedWave, NextWave,
    Settled, Wave,
};
use vstd::prelude::*;
use vstd::seq_lib::*;

verus! {

/// Whether every node waits or is done, as between the waves of a run in which
/// nothing failed or yielded.
pub open spec fn between_waves(nodes: Seq<DAGNodeView>) -> bool {
    forall|i: int|
        0 <= i < nodes.len() ==> (#[trigger] nodes[i]).status == NodeStatus::Pending
            || nodes[i].status == NodeStatus::Done
}

/// The nodes after all nodes of the wave succeeded.
pub open spec fn after_wave(nodes: Seq<DAGNodeView>) -> Seq<DAGNodeView> {
    Seq::new(
        nodes.len(),
        |i: int|
            if is_ready(nodes, i) {
                DAGNodeView { status: NodeStatus::Done, ..nodes[i] }
            } else {
                nodes[i]
            },
    )
}

/// Launching starts exactly the pending nodes whose dependencies are done, and
/// leaves all others as they are.
pub proof fn law_launch_respects_dependencies(nodes: Seq<DAGNodeView>, i: int)
    requires
        0 <= i < nodes.len(),
    ensures
        launched(nodes)[i].status != nodes[i].status <==> is_ready(nodes, i),
        launched(nodes)[i].status != nodes[i].status ==> launched(nodes)[i].status
            == NodeStatus::Running && nodes[i].status == NodeStatus::Pending && forall|k: int|
            0 <= k < nodes[i].depends_on.len() ==> is_done(
                nodes,
                #[trigger] nodes[i].depends_on[k],
            ),
        ready_wave(nodes).contains(i) <==> is_ready(nodes, i),
{
    let wave = ready_wave(nodes);
    lemma_ready_below(nodes, nodes.len());
    if wave.contains(i) {
        let k = wave.index_of(i);
        assert(is_ready(nodes, wave[k]));
    }
}

/// The pending nodes of an acyclic DAG never all wait: between waves, some node
/// can run, so that the run does not deadlock.
pub proof fn law_no_deadlock(nodes: Seq<DAGNodeView>)
    requires
        well_named(nodes),
        schedulable(nodes),
        between_waves(nodes),
    ensures
        ready_wave(nodes).len() == 0 ==> pending_names(nodes).len() == 0,
{
    if pending_names(nodes).len() > 0 {
        lemma_some_pending(nodes, nodes.len());
        let order = choose|order: Seq<int>| is_schedule(nodes, order);
        lemma_distinct_bounded(order, nodes.len());
        let i = choose|i: int|
            0 <= i < nodes.len() && (#[trigger] nodes[i]).status == NodeStatus::Pending;
        assert(order.contains(i));
        let p = lemma_first_pending(nodes, order, order.index_of(i));
        let first = order[p];
        assert forall|k: int| 0 <= k < nodes[first].depends_on.len() implies is_done(
            nodes,
            #[trigger] nodes[first].depends_on[k],
        ) by {
            let d = nodes[first].depends_on[k];
            assert(nodes[first].depends_on.contains(d));
            let j = choose|j: int| 0 <= j < nodes.len() && (#[trigger] nodes[j]).id == d;
            assert(depends(nodes, first, j));
            lemma_comes_before(nodes, order, first, j);
            assert(order[order.index_of(first)] == first);
            assert(order.index_of(first) == p);
            assert(order[order.index_of(j)] == j);
            assert(nodes[j].status != NodeStatus::Pending);
        }
        assert(is_ready(nodes, first));
        lemma_ready_below(nodes, nodes.len());
        assert(ready_wave(nodes).contains(first));
    }
}

/// A name in the list of pending nodes belongs to a pending node.
proof fn lemma_some_pending(nodes: Seq<DAGNodeView>, n: nat)
    requires
        n <= nodes.len(),
        waiting_below(nodes, n, false).len() > 0,
    ensures
        exists|i: int| 0 <= i < n && (#[trigger] nodes[i]).status == NodeStatus::Pending,
    decreases n,
{
    if nodes[n - 1].status == NodeStatus::Pending {
    } else {
        lemma_some_pending(nodes, (n - 1) as nat);
    }
}

/// The place of the first pending node in an order.
proof fn lemma_first_pending(nodes: Seq<DAGNodeView>, order: Seq<int>, from: int) -> (p: int)
    requires
        0 <= from < order.len(),
        nodes[order[from]].status == NodeStatus::Pending,
    ensures
        0 <= p <= from,
        nodes[order[p]].status == NodeStatus::Pending,
        forall|q: int| 0 <= q < p ==> nodes[#[trigger] order[q]].status != NodeStatus::Pending,
    decreases from,
{
    if exists|q: int|
        0 <= q < from && nodes[#[trigger] order[q]].status == NodeStatus::Pending {
        let q = choose|q: int|
            0 <= q < from && nodes[#[trigger] order[q]].status == NodeStatus::Pending;
        lemma_first_pending(nodes, order, q)
    } else {
        from
    }
}

/// A run of an acyclic DAG in which nothing failed or yielded is not told that
/// it deadlocked, and where it finishes, all its nodes are done.
pub proof fn law_finished_means_done<S, N, D, C>(
    graph: GraphView<N, D, C>,
    run: DagRun<S>,
    n: u64,
    next: NextWave<S>,
)
    requires
        is_next_wave(graph, run, n, next),
        well_named(run.dag@.nodes),
        schedulable(run.dag@.nodes),
        between_waves(run.dag@.nodes),
    ensures
        !(next matches NextWave::Failed(failure) && failure.error@ is DAGDeadlock),
        next is Finished ==> forall|i: int|
            0 <= i < run.dag@.nodes.len() ==> (#[trigger] run.dag@.nodes[i]).status
                == NodeStatus::Done,
{
    let nodes = run.dag@.nodes;
    law_no_deadlock(nodes);
    if pending_names(nodes).len() == 0 {
        lemma_none_pending(nodes, nodes.len());
    }
}

proof fn lemma_none_pending(nodes: Seq<DAGNodeView>, n: nat)
    requires
        n <= nodes.len(),
        waiting_below(nodes, n, false).len() == 0,
    ensures
        forall|i: int| 0 <= i < n ==> (#[trigger] nodes[i]).status != NodeStatus::Pending,
    decreases n,
{
    if n > 0 {
        lemma_none_pending(nodes, (n - 1) as nat);
    }
}

/// A wave whose nodes all succeed leaves the DAG between waves, with the same
/// topology and as many fewer pending nodes as the wave had: a DAG of `n` nodes
/// is done after at most `n` waves.
pub proof fn law_wave_makes_progress(nodes: Seq<DAGNodeView>)
    requires
        between_waves(nodes),
    ensures
        between_waves(after_wave(nodes)),
        pending_names(after_wave(nodes)).len() == pending_names(nodes).len() - ready_wave(
            nodes,
        ).len(),
        well_named(nodes) && schedulable(nodes) && pending_names(nodes).len() > 0
            ==> pending_names(after_wave(nodes)).len() < pending_names(nodes).len(),
        forall|i: int|
            0 <= i < nodes.len() ==> {
                &&& (#[trigger] after_wave(nodes)[i]).id == nodes[i].id
                &&& after_wave(nodes)[i].depends_on == nodes[i].depends_on
                &&& after_wave(nodes)[i].step_type == nodes[i].step_type
                &&& nodes[i].status == NodeStatus::Done ==> after_wave(nodes)[i].status
                    == NodeStatus::Done
            },
{
    lemma_fewer_pending(nodes, nodes.len());
    if well_named(nodes) && schedulable(nodes) {
        law_no_deadlock(nodes);
    }
}

proof fn lemma_fewer_pending(nodes: Seq<DAGNodeView>, n: nat)
    requires
        n <= nodes.len(),
    ensures
        waiting_below(after_wave(nodes), n, false).len() == waiting_below(nodes, n, false).len()
            - ready_below(nodes, n).len(),
    decreases n,
{
    if n > 0 {
        lemma_fewer_pending(nodes, (n - 1) as nat);
    }
}

/// The nodes after those at the given indices were marked done, one after the
/// other.
pub open spec fn with_done(nodes: Seq<DAGNodeView>, order: Seq<int>) -> Seq<DAGNodeView>
    decreases order.len(),
{
    if order.len() == 0 {
        nodes
    } else {
        with_status(with_done(nodes, order.drop_last()), order.last(), NodeStatus::Done)
    }
}

proof fn lemma_with_done(nodes: Seq<DAGNodeView>, order: Seq<int>)
    requires
        forall|p: int| 0 <= p < order.len() ==> 0 <= #[trigger] order[p] < nodes.len(),
    ensures
        with_done(nodes, order).len() == nodes.len(),
        forall|i: int|
            0 <= i < nodes.len() ==> #[trigger] with_done(nodes, order)[i] == (if order.contains(
                i,
            ) {
                DAGNodeView { status: NodeStatus::Done, ..nodes[i] }
            } else {
                nodes[i]
            }),
    decreases order.len(),
{
    if order.len() > 0 {
        let rest = order.drop_last();
        assert forall|p: int| 0 <= p < rest.len() implies 0 <= #[trigger] rest[p] < nodes.len() by {
            assert(rest[p] == order[p]);
        }
        lemma_with_done(nodes, rest);
        assert(order[order.len() - 1] == order.last());
        assert forall|i: int| 0 <= i < nodes.len() implies #[trigger] with_done(nodes, order)[i]
            == (if order.contains(i) {
            DAGNodeView { status: NodeStatus::Done, ..nodes[i] }
        } else {
            nodes[i]
        }) by {
            if rest.contains(i) {
                let k = rest.index_of(i);
                assert(order[k] == i);
            }
            if order.contains(i) && i != order.last() {
                let k = order.index_of(i);
                assert(rest[k] == i);
            }
        }
    }
}

/// However the nodes of a wave arrive, once all of them succeeded the DAG is
/// the one after the wave.
pub proof fn law_collected_wave_is_done(nodes: Seq<DAGNodeView>, order: Seq<int>)
    requires
        forall|i: int| #[trigger] order.contains(i) <==> ready_wave(nodes).contains(i),
    ensures
        with_done(launched(nodes), order) == after_wave(nodes),
{
    lemma_ready_below(nodes, nodes.len());
    let wave = ready_wave(nodes);
    assert forall|i: int| #[trigger] order.contains(i) implies 0 <= i < nodes.len() && is_ready(
        nodes,
        i,
    ) by {
        assert(wave.contains(i));
        let k = wave.index_of(i);
        assert(is_ready(nodes, wave[k]));
    }
    assert forall|p: int| 0 <= p < order.len() implies 0 <= #[trigger] order[p] < launched(
        nodes,
    ).len() by {
        assert(order.contains(order[p]));
    }
    lemma_with_done(launched(nodes), order);
    assert forall|i: int| 0 <= i < nodes.len() implies with_done(launched(nodes), order)[i]
        == after_wave(nodes)[i] by {
        if is_ready(nodes, i) {
            assert(wave.contains(i));
            assert(order.contains(i));
        }
    }
    assert(with_done(launched(nodes), order) =~= after_wave(nodes));
}

/// The nodes after `k` waves whose nodes all succeeded.
pub open spec fn after_waves(nodes: Seq<DAGNodeView>, k: nat) -> Seq<DAGNodeView>
    decreases k,
{
    if k == 0 {
        nodes
    } else {
        after_wave(after_waves(nodes, (k - 1) as nat))
    }
}

/// Whether two lists of nodes differ at most in the statuses.
pub open spec fn same_topology(a: Seq<DAGNodeView>, b: Seq<DAGNodeView>) -> bool {
    &&& a.len() == b.len()
    &&& forall|i: int|
        0 <= i < a.len() ==> (#[trigger] a[i]).id == b[i].id && a[i].depends_on == b[i].depends_on
}

proof fn lemma_same_met(a: Seq<DAGNodeView>, b: Seq<DAGNodeView>, order: Seq<int>, i: int)
    requires
        same_topology(a, b),
        0 <= i < a.len(),
        forall|p: int| 0 <= p < order.len() ==> 0 <= #[trigger] order[p] < a.len(),
        met(a, order, i),
    ensures
        met(b, order, i),
{
    assert(a[i].depends_on == b[i].depends_on);
    assert forall|k: int| 0 <= k < b[i].depends_on.len() implies held(
        b,
        order,
        #[trigger] b[i].depends_on[k],
    ) by {
        let id = a[i].depends_on[k];
        assert(held(a, order, id));
        let p = choose|p: int| 0 <= p < order.len() && a[#[trigger] order[p]].id == id;
        assert(a[order[p]].id == b[order[p]].id);
    }
}

/// Whether nodes can be scheduled does not depend on their statuses.
pub(crate) proof fn lemma_same_schedule(a: Seq<DAGNodeView>, b: Seq<DAGNodeView>)
    requires
        same_topology(a, b),
        well_named(a),
        schedulable(a),
    ensures
        well_named(b),
        schedulable(b),
{
    assert(well_named(b)) by {
        assert forall|i: int, j: int|
            0 <= i < b.len() && 0 <= j < b.len() && (#[trigger] b[i]).id == (
            #[trigger] b[j]).id implies i == j by {
            assert(a[i].id == b[i].id && a[j].id == b[j].id);
        }
        assert forall|i: int, d: u128|
            0 <= i < b.len() && #[trigger] b[i].depends_on.contains(d) implies exists|j: int|
            0 <= j < b.len() && (#[trigger] b[j]).id == d by {
            assert(a[i].depends_on == b[i].depends_on);
            assert(a[i].depends_on.contains(d));
            let j = choose|j: int| 0 <= j < a.len() && (#[trigger] a[j]).id == d;
            assert(b[j].id == d);
        }
    }
    let order = choose|order: Seq<int>| is_schedule(a, order);
    assert(is_schedule(b, order)) by {
        assert forall|p: int| 0 <= p < order.len() implies met(
            b,
            order.take(p),
            #[trigger] order[p],
        ) by {
            let before = order.take(p);
            assert forall|q: int| 0 <= q < before.len() implies 0 <= #[trigger] before[q]
                < a.len() by {
                assert(before[q] == order[q]);
            }
            lemma_same_met(a, b, before, order[p]);
        }
    }
}

proof fn lemma_after_waves(nodes: Seq<DAGNodeView>, k: nat)
    requires
        well_named(nodes),
        schedulable(nodes),
        between_waves(nodes),
    ensures
        same_topology(nodes, after_waves(nodes, k)),
        between_waves(after_waves(nodes, k)),
        pending_names(after_waves(nodes, k)).len() == 0 || pending_names(
            after_waves(nodes, k),
        ).len() + k <= pending_names(nodes).len(),
    decreases k,
{
    if k > 0 {
        let before = after_waves(nodes, (k - 1) as nat);
        lemma_after_waves(nodes, (k - 1) as nat);
        lemma_same_schedule(nodes, before);
        law_wave_makes_progress(before);
        assert forall|i: int| 0 <= i < nodes.len() implies (#[trigger] nodes[i]).id == after_waves(
            nodes,
            k,
        )[i].id && nodes[i].depends_on == after_waves(nodes, k)[i].depends_on by {
            assert(after_wave(before)[i].id == before[i].id);
        }
    }
}

proof fn lemma_pending_bounded(nodes: Seq<DAGNodeView>, n: nat)
    requires
        n <= nodes.len(),
    ensures
        waiting_below(nodes, n, false).len() <= n,
    decreases n,
{
    if n > 0 {
        lemma_pending_bounded(nodes, (n - 1) as nat);
    }
}

/// An acyclic DAG whose nodes all succeed is done after as many waves as it has
/// nodes, if not before.
pub proof fn law_acyclic_dag_completes(nodes: Seq<DAGNodeView>)
    requires
        well_named(nodes),
        schedulable(nodes),
        between_waves(nodes),
    ensures
        forall|i: int|
            0 <= i < nodes.len() ==> (#[trigger] after_waves(nodes, nodes.len())[i]).status
                == NodeStatus::Done,
{
    let n = nodes.len();
    let done = after_waves(nodes, n);
    lemma_after_waves(nodes, n);
    lemma_pending_bounded(nodes, n);
    if pending_names(done).len() > 0 {
        lemma_pending_bounded(done, done.len());
        assert(false);
    }
    lemma_none_pending(done, done.len());
}

/// Whether results come in the order of their node indices, one for each.
pub open spec fn ascending<S>(states: Seq<(usize, S)>) -> bool {
    forall|a: int, b: int|
        0 <= a < b < states.len() ==> (#[trigger] states[a]).0 < (#[trigger] states[b]).0
}

/// The results of a wave after they arrived in the given order.
pub open spec fn arrived<S>(arrivals: Seq<(usize, S)>) -> Seq<(usize, S)>
    decreases arrivals.len(),
{
    if arrivals.len() == 0 {
        Seq::empty()
    } else {
        put(arrived(arrivals.drop_last()), arrivals.last().0, arrivals.last().1)
    }
}

/// Whether no two arrivals are of the same node.
pub open spec fn distinct_nodes<S>(arrivals: Seq<(usize, S)>) -> bool {
    forall|a: int, b: int|
        0 <= a < arrivals.len() && 0 <= b < arrivals.len() && (#[trigger] arrivals[a]).0 == (
        #[trigger] arrivals[b]).0 ==> a == b
}

/// Putting a result of a new node keeps the order and adds the one result.
proof fn lemma_put<S>(states: Seq<(usize, S)>, index: usize, state: S)
    requires
        ascending(states),
        forall|j: int| 0 <= j < states.len() ==> (#[trigger] states[j]).0 != index,
    ensures
        ascending(put(states, index, state)),
        put(states, index, state).len() == states.len() + 1,
        put(states, index, state).to_multiset() == states.to_multiset().insert((index, state)),
        forall|j: int|
            0 <= j < put(states, index, state).len() ==> (#[trigger] put(states, index, state)[j]).0
                <= index || exists|m: int|
                0 <= m < states.len() && states[m] == put(states, index, state)[j],
    decreases states.len(),
{
    broadcast use group_to_multiset_ensures;

    let more = put(states, index, state);
    if states.len() == 0 || states.last().0 <= index {
        assert forall|a: int, b: int| 0 <= a < b < more.len() implies (#[trigger] more[a]).0 < (
        #[trigger] more[b]).0 by {
            if b == states.len() {
                if a < states.len() - 1 {
                    assert(states[a].0 < states[states.len() - 1].0);
                }
                assert(states[states.len() - 1].0 != index);
            }
        }
        assert forall|j: int| 0 <= j < more.len() implies (#[trigger] more[j]).0 <= index
            || exists|m: int| 0 <= m < states.len() && states[m] == more[j] by {
            if j < states.len() {
                assert(states[j] == more[j]);
            }
        }
    } else {
        let rest = states.drop_last();
        assert forall|a: int, b: int| 0 <= a < b < rest.len() implies (#[trigger] rest[a]).0 < (
        #[trigger] rest[b]).0 by {
            assert(rest[a] == states[a] && rest[b] == states[b]);
        }
        assert forall|j: int| 0 <= j < rest.len() implies (#[trigger] rest[j]).0 != index by {
            assert(rest[j] == states[j]);
        }
        lemma_put(rest, index, state);
        let inner = put(rest, index, state);
        assert(more == inner.push(states.last()));
        assert forall|a: int, b: int| 0 <= a < b < more.len() implies (#[trigger] more[a]).0 < (
        #[trigger] more[b]).0 by {
            if b == inner.len() {
                let x = inner[a];
                if x.0 > index {
                    let m = choose|m: int| 0 <= m < rest.len() && rest[m] == inner[a];
                    assert(states[m].0 < states[states.len() - 1].0);
                }
            } else {
                assert(more[a] == inner[a] && more[b] == inner[b]);
            }
        }
        assert forall|j: int| 0 <= j < more.len() implies (#[trigger] more[j]).0 <= index
            || exists|m: int| 0 <= m < states.len() && states[m] == more[j] by {
            if j < inner.len() {
                assert(more[j] == inner[j]);
                if inner[j].0 > index {
                    let m = choose|m: int| 0 <= m < rest.len() && rest[m] == inner[j];
                    assert(states[m] == more[j]);
                }
            } else {
                assert(states[states.len() - 1] == more[j]);
            }
        }
        assert(states =~= rest.push(states.last()));
        assert(more.to_multiset() =~= states.to_multiset().insert((index, state)));
    }
}

/// Results that arrived are in order, and are the arrivals.
proof fn lemma_arrived<S>(arrivals: Seq<(usize, S)>)
    requires
        distinct_nodes(arrivals),
    ensures
        ascending(arrived(arrivals)),
        arrived(arrivals).to_multiset() == arrivals.to_multiset(),
    decreases arrivals.len(),
{
    broadcast use group_to_multiset_ensures;

    if arrivals.len() > 0 {
        let rest = arrivals.drop_last();
        let last = arrivals.last();
        assert forall|a: int, b: int|
            0 <= a < rest.len() && 0 <= b < rest.len() && (#[trigger] rest[a]).0 == (
            #[trigger] rest[b]).0 implies a == b by {
            assert(rest[a] == arrivals[a] && rest[b] == arrivals[b]);
        }
        lemma_arrived(rest);
        let before = arrived(rest);
        assert forall|j: int| 0 <= j < before.len() implies (#[trigger] before[j]).0 != last.0 by {
            assert(before.contains(before[j]));
            assert(before.to_multiset().count(before[j]) > 0);
            assert(rest.to_multiset().count(before[j]) > 0);
            assert(rest.contains(before[j]));
            let k = rest.index_of(before[j]);
            assert(arrivals[k] == before[j]);
            assert(arrivals[arrivals.len() - 1] == last);
        }
        lemma_put(before, last.0, last.1);
        assert(arrivals =~= rest.push(last));
    } else {
        assert(arrived(arrivals) =~= arrivals);
    }
}

/// Two lists in order with the same results are the same.
proof fn lemma_ascending_unique<S>(a: Seq<(usize, S)>, b: Seq<(usize, S)>)
    requires
        ascending(a),
        ascending(b),
        a.to_multiset() == b.to_multiset(),
    ensures
        a == b,
    decreases a.len(),
{
    broadcast use group_to_multiset_ensures;

    assert(a.len() == a.to_multiset().len());
    assert(b.len() == b.to_multiset().len());
    if a.len() == 0 {
        assert(a =~= b);
    } else {
        let x = a.last();
        let y = b.last();
        assert(a.contains(a[a.len() - 1]));
        assert(b.contains(b[b.len() - 1]));
        assert(b.to_multiset().count(x) > 0);
        assert(a.to_multiset().count(y) > 0);
        assert(b.contains(x));
        assert(a.contains(y));
        let p = b.index_of(x);
        let q = a.index_of(y);
        if p < b.len() - 1 {
            assert(b[p].0 < b[b.len() - 1].0);
            if q < a.len() - 1 {
                assert(a[q].0 < a[a.len() - 1].0);
            }
        }
        assert(x == y);
        let ra = a.drop_last();
        let rb = b.drop_last();
        assert(a =~= ra.push(x));
        assert(b =~= rb.push(x));
        assert(a.to_multiset() == ra.to_multiset().insert(x));
        assert(b.to_multiset() == rb.to_multiset().insert(x));
        assert(ra.to_multiset() =~= a.to_multiset().remove(x));
        assert(rb.to_multiset() =~= b.to_multiset().remove(x));
        assert forall|i: int, j: int| 0 <= i < j < ra.len() implies (#[trigger] ra[i]).0 < (
        #[trigger] ra[j]).0 by {
            assert(ra[i] == a[i] && ra[j] == a[j]);
        }
        assert forall|i: int, j: int| 0 <= i < j < rb.len() implies (#[trigger] rb[i]).0 < (
        #[trigger] rb[j]).0 by {
            assert(rb[i] == b[i] && rb[j] == b[j]);
        }
        lemma_ascending_unique(ra, rb);
    }
}

/// The order in which the nodes of a wave end does not matter: their results
/// are merged in the order of the node indices, whatever the order of arrival.
pub proof fn law_merge_order_ignores_arrival<S>(a: Seq<(usize, S)>, b: Seq<(usize, S)>)
    requires
        distinct_nodes(a),
        distinct_nodes(b),
        a.to_multiset() == b.to_multiset(),
    ensures
        arrived(a) == arrived(b),
        ascending(arrived(a)),
        results(arrived(a)) == results(arrived(b)),
{
    lemma_arrived(a);
    lemma_arrived(b);
    lemma_ascending_unique(arrived(a), arrived(b));
}

/// A wave is merged only where none of its nodes failed and, unless one
/// yielded, the budget holds; all its results go into the state, in order, and
/// the DAG stays as the nodes left it.
pub proof fn law_merged_wave_is_clean<S: Merge, N, D, C>(
    graph: GraphView<N, D, C>,
    wave: Wave<S>,
    spent: Eur,
    after: Settled<S>,
    merged: MergedWave<S>,
)
    requires
        is_settled(graph, wave, spent, after),
        after == Settled::Merged(merged),
    ensures
        wave.failed@.len() == 0,
        wave.yielded is Some || !over(graph.budget_eur, merged.run.spent),
        merged.yielded == wave.yielded,
        merged_all(wave.run.state, results(wave.states@), merged.run.state),
        merged.run.dag == wave.run.dag,
        merged.run.thread_id == wave.run.thread_id,
{
}

/// Whether collecting the success of a node leads from one wave to the next.
pub open spec fn collects_to<S, N, D, C>(
    graph: GraphView<N, D, C>,
    wave: Wave<S>,
    index: usize,
    output: NodeOutput<S>,
    timing: TaskTiming,
    next: Wave<S>,
) -> bool {
    exists|after: Collected<S>| #[trigger]
        is_collected(graph, wave, index, output, timing, after) && after == Collected::Continue(
            next,
        )
}

/// Whether the waves come about by collecting the outputs one after the other.
pub open spec fn is_collection<S, N, D, C>(
    graph: GraphView<N, D, C>,
    waves: Seq<Wave<S>>,
    indices: Seq<usize>,
    outputs: Seq<NodeOutput<S>>,
    times: Seq<TaskTiming>,
) -> bool {
    &&& waves.len() == indices.len() + 1
    &&& outputs.len() == indices.len()
    &&& times.len() == indices.len()
    &&& forall|i: int|
        0 <= i < indices.len() ==> {
            &&& (#[trigger] indices[i]) < waves[0].run.dag@.nodes.len()
            &&& collects_to(graph, waves[i], indices[i], outputs[i], times[i], waves[i + 1])
        }
}

/// The arrivals of a collection.
pub open spec fn arrivals_of<S>(
    indices: Seq<usize>,
    outputs: Seq<NodeOutput<S>>,
) -> Seq<(usize, S)> {
    Seq::new(indices.len(), |i: int| (indices[i], outputs[i].state))
}

/// Collecting puts every result in its place, marks the nodes done, and changes
/// nothing else of the run.
pub proof fn law_collection_adds_up<S, N, D, C>(
    graph: GraphView<N, D, C>,
    waves: Seq<Wave<S>>,
    indices: Seq<usize>,
    outputs: Seq<NodeOutput<S>>,
    times: Seq<TaskTiming>,
)
    requires
        is_collection(graph, waves, indices, outputs, times),
        waves[0].states@.len() == 0,
    ensures
        waves.last().states@ == arrived(arrivals_of(indices, outputs)),
        waves.last().run.dag@.nodes == with_done(waves[0].run.dag@.nodes, as_indices(indices)),
        waves.last().members == waves[0].members,
        waves.last().failed == waves[0].failed,
        waves.last().yielded == waves[0].yielded,
        waves.last().run.state == waves[0].run.state,
        waves.last().run.spent == waves[0].run.spent,
        waves.last().run.thread_id == waves[0].run.thread_id,
    decreases indices.len(),
{
    let arrivals = arrivals_of(indices, outputs);
    if indices.len() == 0 {
        assert(waves.last().states@ =~= arrived(arrivals));
    } else {
        let last = indices.len() - 1;
        let fewer = waves.drop_last();
        let some = indices.drop_last();
        assert forall|i: int| 0 <= i < some.len() implies {
            &&& (#[trigger] some[i]) < fewer[0].run.dag@.nodes.len()
            &&& collects_to(
                graph,
                fewer[i],
                some[i],
                outputs.drop_last()[i],
                times.drop_last()[i],
                fewer[i + 1],
            )
        } by {
            assert(indices[i] < waves[0].run.dag@.nodes.len());
        }
        law_collection_adds_up(graph, fewer, some, outputs.drop_last(), times.drop_last());
        assert(indices[last] < waves[0].run.dag@.nodes.len());
        assert(collects_to(
            graph,
            waves[last],
            indices[last],
            outputs[last],
            times[last],
            waves[last + 1],
        ));
        assert(fewer.last() == waves[last]);
        assert(arrivals.drop_last() =~= arrivals_of(some, outputs.drop_last()));
        assert(as_indices(indices).drop_last() =~= as_indices(some));
    }
}

/// Two collections of the same wave that get the same results in another order
/// end with the same results to merge and the same DAG.
pub proof fn law_arrival_order_is_irrelevant<S, N, D, C>(
    graph: GraphView<N, D, C>,
    a: Seq<Wave<S>>,
    a_indices: Seq<usize>,
    a_outputs: Seq<NodeOutput<S>>,
    a_times: Seq<TaskTiming>,
    b: Seq<Wave<S>>,
    b_indices: Seq<usize>,
    b_outputs: Seq<NodeOutput<S>>,
    b_times: Seq<TaskTiming>,
)
    requires
        is_collection(graph, a, a_indices, a_outputs, a_times),
        is_collection(graph, b, b_indices, b_outputs, b_times),
        a[0] == b[0],
        a[0].states@.len() == 0,
        a_indices.no_duplicates(),
        b_indices.no_duplicates(),
        arrivals_of(a_indices, a_outputs).to_multiset() == arrivals_of(
            b_indices,
            b_outputs,
        ).to_multiset(),
    ensures
        results(a.last().states@) == results(b.last().states@),
        a.last().run.dag@.nodes == b.last().run.dag@.nodes,
{
    broadcast use group_to_multiset_ensures;

    let xs = arrivals_of(a_indices, a_outputs);
    let ys = arrivals_of(b_indices, b_outputs);
    law_collection_adds_up(graph, a, a_indices, a_outputs, a_times);
    law_collection_adds_up(graph, b, b_indices, b_outputs, b_times);
    assert forall|p: int, q: int|
        0 <= p < xs.len() && 0 <= q < xs.len() && (#[trigger] xs[p]).0 == (
        #[trigger] xs[q]).0 implies p == q by {
        assert(a_indices[p] == a_indices[q]);
    }
    assert forall|p: int, q: int|
        0 <= p < ys.len() && 0 <= q < ys.len() && (#[trigger] ys[p]).0 == (
        #[trigger] ys[q]).0 implies p == q by {
        assert(b_indices[p] == b_indices[q]);
    }
    law_merge_order_ignores_arrival(xs, ys);
    let nodes = a[0].run.dag@.nodes;
    lemma_same_members(xs, ys, a_indices, a_outputs, b_indices, b_outputs);
    lemma_with_done(nodes, as_indices(a_indices));
    lemma_with_done(nodes, as_indices(b_indices));
    assert(with_done(nodes, as_indices(a_indices)) =~= with_done(nodes, as_indices(b_indices)));
}

/// Collections with the same results are of the same nodes.
proof fn lemma_same_members<S>(
    xs: Seq<(usize, S)>,
    ys: Seq<(usize, S)>,
    a_indices: Seq<usize>,
    a_outputs: Seq<NodeOutput<S>>,
    b_indices: Seq<usize>,
    b_outputs: Seq<NodeOutput<S>>,
)
    requires
        xs == arrivals_of(a_indices, a_outputs),
        ys == arrivals_of(b_indices, b_outputs),
        xs.to_multiset() == ys.to_multiset(),
    ensures
        forall|i: int| #[trigger]
            as_indices(a_indices).contains(i) <==> as_indices(b_indices).contains(i),
{
    broadcast use group_to_multiset_ensures;

    assert forall|i: int| as_indices(a_indices).contains(i) implies #[trigger] as_indices(
        b_indices,
    ).contains(i) by {
        let p = as_indices(a_indices).index_of(i);
        let x = xs[p];
        assert(xs.contains(x));
        assert(xs.to_multiset().count(x) > 0);
        assert(ys.contains(x));
        let q = ys.index_of(x);
        assert(as_indices(b_indices)[q] == i);
    }
    assert forall|i: int| as_indices(b_indices).contains(i) implies #[trigger] as_indices(
        a_indices,
    ).contains(i) by {
        let p = as_indices(b_indices).index_of(i);
        let y = ys[p];
        assert(ys.contains(y));
        assert(ys.to_multiset().count(y) > 0);
        assert(xs.contains(y));
        let q = xs.index_of(y);
        assert(as_indices(a_indices)[q] == i);
    }
}

} // verus!
