//! What a schedule says about dependency cycles.
use crate::dag::{
    all_known, all_random, cyclic_entries, depends_on_entry, first_unknown, ids_by_name,
    is_entry_cycle,
    is_last_named, is_named, resolved_nodes, restored_nodes, status_of, DAGBuilder, DAGNodeView,
    EntryView, NodeStatus, DAG,
};
use crate::identity::made_distinct;
use crate::plan_laws::lemma_status_of_last;
use crate::schedule::{
    dependencies_first, distinct_indices, held, is_schedule, lemma_distinct_bounded, lemma_take_up,
    met, schedulable, unique_ids,
};
use vstd::prelude::*;

verus! {

/// Whether nodes have identifiers of their own and depend on nodes only.
pub open spec fn well_named(nodes: Seq<DAGNodeView>) -> bool {
    &&& unique_ids(nodes)
    &&& forall|i: int, d: u128|
        0 <= i < nodes.len() && #[trigger] nodes[i].depends_on.contains(d) ==> exists|j: int|
            0 <= j < nodes.len() && (#[trigger] nodes[j]).id == d
}

/// Whether node `i` depends on node `j`.
pub open spec fn depends(nodes: Seq<DAGNodeView>, i: int, j: int) -> bool {
    nodes[i].depends_on.contains(nodes[j].id)
}

/// Whether each node of `path` depends on the next one, and the last on the
/// first.
pub open spec fn is_cycle(nodes: Seq<DAGNodeView>, path: Seq<int>) -> bool {
    &&& path.len() > 0
    &&& forall|k: int| 0 <= k < path.len() ==> 0 <= #[trigger] path[k] < nodes.len()
    &&& forall|k: int|
        0 <= k < path.len() - 1 ==> depends(nodes, #[trigger] path[k], path[k + 1])
    &&& depends(nodes, path.last(), path[0])
}

/// Whether some nodes depend on each other in a circle.
pub open spec fn cyclic(nodes: Seq<DAGNodeView>) -> bool {
    exists|path: Seq<int>| is_cycle(nodes, path)
}

/// An order that holds what a node depends on holds every node that it depends
/// on.
pub(crate) proof fn lemma_met_holds(nodes: Seq<DAGNodeView>, order: Seq<int>, i: int, j: int)
    requires
        unique_ids(nodes),
        distinct_indices(nodes, order),
        0 <= i < nodes.len(),
        0 <= j < nodes.len(),
        met(nodes, order, i),
        depends(nodes, i, j),
    ensures
        order.contains(j),
{
    let k = nodes[i].depends_on.index_of(nodes[j].id);
    assert(held(nodes, order, nodes[i].depends_on[k]));
    let p = choose|p: int|
        0 <= p < order.len() && nodes[#[trigger] order[p]].id == nodes[j].id;
    let a = nodes[order[p]];
    let b = nodes[j];
    assert(order[p] == j);
}

/// Along a cycle the places in a schedule only go down.
proof fn lemma_places_fall(nodes: Seq<DAGNodeView>, order: Seq<int>, path: Seq<int>, k: int)
    requires
        well_named(nodes),
        is_schedule(nodes, order),
        is_cycle(nodes, path),
        0 <= k < path.len(),
    ensures
        order.contains(path[k]),
        order.contains(path[0]),
        order.index_of(path[k]) <= order.index_of(path[0]) - k,
    decreases k,
{
    lemma_distinct_bounded(order, nodes.len());
    assert(order.contains(path[k]));
    assert(order.contains(path[0]));
    if k > 0 {
        lemma_places_fall(nodes, order, path, k - 1);
        lemma_comes_before(nodes, order, path[k - 1], path[k]);
    }
}

/// In a schedule, what a node depends on comes before it.
pub(crate) proof fn lemma_comes_before(nodes: Seq<DAGNodeView>, order: Seq<int>, i: int, j: int)
    requires
        well_named(nodes),
        is_schedule(nodes, order),
        0 <= i < nodes.len(),
        0 <= j < nodes.len(),
        depends(nodes, i, j),
    ensures
        order.contains(i),
        order.contains(j),
        order.index_of(j) < order.index_of(i),
{
    lemma_distinct_bounded(order, nodes.len());
    assert(order.contains(i));
    assert(order.contains(j));
    let p = order.index_of(i);
    let before = order.take(p);
    lemma_prefix(nodes, order, p);
    lemma_met_holds(nodes, before, i, j);
    lemma_place(order, p, j);
}

/// A prefix of a schedule holds no index twice and meets what comes next.
proof fn lemma_prefix(nodes: Seq<DAGNodeView>, order: Seq<int>, p: int)
    requires
        is_schedule(nodes, order),
        0 <= p < order.len(),
    ensures
        distinct_indices(nodes, order.take(p)),
        met(nodes, order.take(p), order[p]),
{
    let before = order.take(p);
    assert forall|q: int| 0 <= q < before.len() implies 0 <= #[trigger] before[q] < nodes.len() by {
        assert(before[q] == order[q]);
    }
    assert forall|a: int, b: int|
        0 <= a < before.len() && 0 <= b < before.len() && a != b implies before[a] != before[b] by {
        assert(before[a] == order[a] && before[b] == order[b]);
    }
}

/// What a prefix holds has its place in that prefix.
proof fn lemma_place(order: Seq<int>, p: int, j: int)
    requires
        order.no_duplicates(),
        0 <= p <= order.len(),
        order.take(p).contains(j),
    ensures
        0 <= order.index_of(j) < p,
{
    let q = order.take(p).index_of(j);
    assert(order[q] == j);
    assert(order.contains(j));
    assert(order[order.index_of(j)] == j);
}

/// Extends an order until it has taken up every node whose dependencies it
/// meets.
proof fn lemma_greedy(nodes: Seq<DAGNodeView>, order: Seq<int>) -> (full: Seq<int>)
    requires
        distinct_indices(nodes, order),
        dependencies_first(nodes, order),
    ensures
        distinct_indices(nodes, full),
        dependencies_first(nodes, full),
        forall|i: int| 0 <= i < nodes.len() && #[trigger] met(nodes, full, i) ==> full.contains(i),
    decreases nodes.len() - order.len(),
{
    lemma_distinct_bounded(order, nodes.len());
    if exists|i: int| 0 <= i < nodes.len() && #[trigger] met(nodes, order, i) && !order.contains(i) {
        let i = choose|i: int|
            0 <= i < nodes.len() && #[trigger] met(nodes, order, i) && !order.contains(i);
        lemma_take_up(nodes, order, i);
        lemma_distinct_bounded(order.push(i), nodes.len());
        lemma_greedy(nodes, order.push(i))
    } else {
        order
    }
}

/// A node outside `order` that `i` depends on.
spec fn blocker(nodes: Seq<DAGNodeView>, order: Seq<int>, i: int) -> int {
    choose|j: int|
        0 <= j < nodes.len() && !order.contains(j) && #[trigger] depends(nodes, i, j)
}

/// The node reached from `start` after `k` steps from node to blocker.
spec fn blocked_walk(nodes: Seq<DAGNodeView>, order: Seq<int>, start: int, k: nat) -> int
    decreases k,
{
    if k == 0 {
        start
    } else {
        blocker(nodes, order, blocked_walk(nodes, order, start, (k - 1) as nat))
    }
}

/// Every node that a closed order leaves out is blocked by another one.
proof fn lemma_blocked(nodes: Seq<DAGNodeView>, order: Seq<int>, i: int)
    requires
        well_named(nodes),
        distinct_indices(nodes, order),
        forall|i: int| 0 <= i < nodes.len() && #[trigger] met(nodes, order, i) ==> order.contains(i),
        0 <= i < nodes.len(),
        !order.contains(i),
    ensures
        0 <= blocker(nodes, order, i) < nodes.len(),
        !order.contains(blocker(nodes, order, i)),
        depends(nodes, i, blocker(nodes, order, i)),
{
    let ids = nodes[i].depends_on;
    if forall|j: int|
        0 <= j < nodes.len() && #[trigger] depends(nodes, i, j) ==> order.contains(j) {
        assert forall|k: int| 0 <= k < ids.len() implies held(
            nodes,
            order,
            #[trigger] ids[k],
        ) by {
            assert(nodes[i].depends_on.contains(ids[k]));
            let j = choose|j: int| 0 <= j < nodes.len() && (#[trigger] nodes[j]).id == ids[k];
            assert(depends(nodes, i, j));
            let p = order.index_of(j);
            assert(nodes[order[p]].id == ids[k]);
        }
        assert(met(nodes, order, i));
        assert(false);
    }
}

proof fn lemma_walk_blocked(nodes: Seq<DAGNodeView>, order: Seq<int>, start: int, k: nat)
    requires
        well_named(nodes),
        distinct_indices(nodes, order),
        forall|i: int| 0 <= i < nodes.len() && #[trigger] met(nodes, order, i) ==> order.contains(i),
        0 <= start < nodes.len(),
        !order.contains(start),
    ensures
        0 <= blocked_walk(nodes, order, start, k) < nodes.len(),
        !order.contains(blocked_walk(nodes, order, start, k)),
        depends(
            nodes,
            blocked_walk(nodes, order, start, k),
            blocked_walk(nodes, order, start, k + 1),
        ),
    decreases k,
{
    if k > 0 {
        lemma_walk_blocked(nodes, order, start, (k - 1) as nat);
        lemma_blocked(nodes, order, blocked_walk(nodes, order, start, (k - 1) as nat));
    }
    lemma_blocked(nodes, order, blocked_walk(nodes, order, start, k));
}

/// Nodes that cannot be scheduled depend on each other in a circle.
proof fn lemma_unscheduled_cyclic(nodes: Seq<DAGNodeView>)
    requires
        well_named(nodes),
        !schedulable(nodes),
    ensures
        cyclic(nodes),
{
    let empty = Seq::<int>::empty();
    assert(distinct_indices(nodes, empty));
    assert(dependencies_first(nodes, empty));
    let order = lemma_greedy(nodes, empty);
    lemma_distinct_bounded(order, nodes.len());
    if order.len() == nodes.len() {
        assert(is_schedule(nodes, order));
    }
    let start = lemma_missing(nodes, order);
    let n = nodes.len();
    let walk = Seq::new(n + 1, |k: int| blocked_walk(nodes, order, start, k as nat));
    assert forall|k: int| 0 <= k < walk.len() implies 0 <= #[trigger] walk[k] < n by {
        lemma_walk_blocked(nodes, order, start, k as nat);
    }
    if walk.no_duplicates() {
        lemma_distinct_bounded(walk, n);
    }
    let (a, b) = choose|a: int, b: int| 0 <= a < b < walk.len() && walk[a] == walk[b];
    let path = walk.subrange(a, b);
    assert forall|k: int| 0 <= k < path.len() implies 0 <= #[trigger] path[k] < nodes.len() by {
        assert(path[k] == walk[a + k]);
    }
    assert forall|k: int| 0 <= k < path.len() - 1 implies depends(
        nodes,
        #[trigger] path[k],
        path[k + 1],
    ) by {
        lemma_walk_blocked(nodes, order, start, (a + k) as nat);
        assert(path[k] == walk[a + k]);
        assert(path[k + 1] == walk[a + k + 1]);
    }
    lemma_walk_blocked(nodes, order, start, (b - 1) as nat);
    assert(path.last() == walk[b - 1]);
    assert(path[0] == walk[b]);
    assert(is_cycle(nodes, path));
}

/// An order shorter than the nodes misses one.
proof fn lemma_missing(nodes: Seq<DAGNodeView>, order: Seq<int>) -> (i: int)
    requires
        distinct_indices(nodes, order),
        order.len() < nodes.len(),
    ensures
        0 <= i < nodes.len(),
        !order.contains(i),
{
    if forall|i: int| 0 <= i < nodes.len() ==> order.contains(i) {
        let range = vstd::set_lib::set_int_range(0, nodes.len() as int);
        vstd::set_lib::lemma_int_range(0, nodes.len() as int);
        order.unique_seq_to_set();
        assert(range.subset_of(order.to_set())) by {
            assert forall|v: int| range.contains(v) implies order.to_set().contains(v) by {
                assert(order.contains(v));
            }
        }
        vstd::set_lib::lemma_len_subset(range, order.to_set());
        assert(false);
    }
    choose|i: int| 0 <= i < nodes.len() && !order.contains(i)
}

/// Nodes can be scheduled exactly where no dependency cycle exists.
pub proof fn law_schedulable_iff_acyclic(nodes: Seq<DAGNodeView>)
    requires
        well_named(nodes),
    ensures
        schedulable(nodes) <==> !cyclic(nodes),
{
    if !schedulable(nodes) {
        lemma_unscheduled_cyclic(nodes);
    }
    if schedulable(nodes) && cyclic(nodes) {
        let order = choose|order: Seq<int>| is_schedule(nodes, order);
        let path = choose|path: Seq<int>| is_cycle(nodes, path);
        let last = path.len() - 1;
        lemma_places_fall(nodes, order, path, last);
        lemma_comes_before(nodes, order, path[last], path[0]);
        assert(false);
    }
}

/// The last of the entries with a known name.
proof fn lemma_last_exists(entries: Seq<EntryView>, name: Seq<char>) -> (j: int)
    requires
        is_named(entries, name),
    ensures
        0 <= j < entries.len(),
        entries[j].step_type == name,
        is_last_named(entries, j),
    decreases entries.len(),
{
    let i = choose|i: int| 0 <= i < entries.len() && (#[trigger] entries[i]).step_type == name;
    let rest = entries.drop_last();
    if entries.last().step_type == name {
        entries.len() - 1
    } else {
        assert(rest[i].step_type == name);
        let j = lemma_last_exists(rest, name);
        assert(entries[j] == rest[j]);
        assert forall|m: int| j < m < entries.len() implies (#[trigger] entries[m]).step_type
            != entries[j].step_type by {
            if m < rest.len() {
                assert(rest[m] == entries[m]);
            }
        }
        j
    }
}

/// A name stands for the identifier of the last entry that has it.
proof fn lemma_last_id(entries: Seq<EntryView>, ids: Seq<u128>, j: int)
    requires
        0 <= j < entries.len(),
        is_last_named(entries, j),
    ensures
        ids_by_name(entries, ids).contains_key(entries[j].step_type),
        ids_by_name(entries, ids)[entries[j].step_type] == ids[j],
    decreases entries.len(),
{
    let rest = entries.drop_last();
    if j < rest.len() {
        assert forall|m: int| j < m < rest.len() implies (#[trigger] rest[m]).step_type
            != rest[j].step_type by {
            assert(rest[m] == entries[m] && rest[j] == entries[j]);
        }
        lemma_last_id(rest, ids, j);
        assert(rest[j] == entries[j]);
        assert(entries[entries.len() - 1] == entries.last());
    }
}

/// Entries that depend on each other by name are nodes that depend on each
/// other by identifier, and the other way round.
proof fn lemma_depends_by_name(entries: Seq<EntryView>, ids: Seq<u128>, i: int, j: int)
    requires
        all_known(entries),
        ids.len() == entries.len(),
        ids.no_duplicates(),
        0 <= i < entries.len(),
        0 <= j < entries.len(),
    ensures
        depends(resolved_nodes(entries, ids), i, j) <==> depends_on_entry(entries, i, j),
{
    let nodes = resolved_nodes(entries, ids);
    if depends_on_entry(entries, i, j) {
        lemma_last_id(entries, ids, j);
        let k = entries[i].depends_on.index_of(entries[j].step_type);
        assert(nodes[i].depends_on[k] == nodes[j].id);
    }
    if depends(nodes, i, j) {
        let k = nodes[i].depends_on.index_of(nodes[j].id);
        let name = entries[i].depends_on[k];
        assert(is_named(entries, name));
        let m = lemma_last_exists(entries, name);
        lemma_last_id(entries, ids, m);
        assert(ids[m] == ids[j]);
        assert(m == j);
        assert(entries[i].depends_on[k] == entries[j].step_type);
    }
}

/// Nodes built with identifiers of their own are well named.
pub(crate) proof fn lemma_resolved_well_named(entries: Seq<EntryView>, ids: Seq<u128>)
    requires
        all_known(entries),
        ids.len() == entries.len(),
        ids.no_duplicates(),
    ensures
        well_named(resolved_nodes(entries, ids)),
{
    let nodes = resolved_nodes(entries, ids);
    assert forall|i: int, j: int|
        0 <= i < nodes.len() && 0 <= j < nodes.len() && (#[trigger] nodes[i]).id == (
        #[trigger] nodes[j]).id implies i == j by {
        assert(ids[i] == ids[j]);
    }
    assert forall|i: int, d: u128|
        0 <= i < nodes.len() && #[trigger] nodes[i].depends_on.contains(d) implies exists|j: int|
        0 <= j < nodes.len() && (#[trigger] nodes[j]).id == d by {
        let k = nodes[i].depends_on.index_of(d);
        let name = entries[i].depends_on[k];
        assert(is_named(entries, name));
        let m = lemma_last_exists(entries, name);
        lemma_last_id(entries, ids, m);
        assert(nodes[m].id == d);
    }
}

/// The nodes that entries become can be scheduled exactly where no dependency
/// chain of the entries returns to its start; then each has an identifier of
/// its own and depends on nodes only.
pub proof fn law_builder_refuses_exactly_cycles(entries: Seq<EntryView>, ids: Seq<u128>)
    requires
        all_known(entries),
        ids.len() == entries.len(),
        ids.no_duplicates(),
    ensures
        well_named(resolved_nodes(entries, ids)),
        schedulable(resolved_nodes(entries, ids)) <==> !cyclic_entries(entries),
{
    let nodes = resolved_nodes(entries, ids);
    lemma_resolved_well_named(entries, ids);
    law_schedulable_iff_acyclic(nodes);
    assert forall|path: Seq<int>| is_entry_cycle(entries, path) <==> is_cycle(nodes, path) by {
        if path.len() > 0 && (forall|k: int|
            0 <= k < path.len() ==> 0 <= #[trigger] path[k] < entries.len()) {
            assert(path.last() == path[path.len() - 1]);
            lemma_depends_by_name(entries, ids, path.last(), path[0]);
            assert forall|k: int| 0 <= k < path.len() - 1 implies (depends(
                nodes,
                #[trigger] path[k],
                path[k + 1],
            ) <==> depends_on_entry(entries, path[k], path[k + 1])) by {
                assert(0 <= path[k + 1] < entries.len());
                lemma_depends_by_name(entries, ids, path[k], path[k + 1]);
            }
        }
    }
    if cyclic(nodes) {
        let path = choose|path: Seq<int>| is_cycle(nodes, path);
        assert(is_entry_cycle(entries, path));
    }
    if cyclic_entries(entries) {
        let path = choose|path: Seq<int>| is_entry_cycle(entries, path);
        assert(is_cycle(nodes, path));
    }
}

proof fn lemma_own_status(nodes: Seq<DAGNodeView>, i: int)
    requires
        forall|a: int, b: int|
            0 <= a < nodes.len() && 0 <= b < nodes.len() && (#[trigger] nodes[a]).id == (
            #[trigger] nodes[b]).id ==> a == b,
        0 <= i < nodes.len(),
    ensures
        status_of(nodes, nodes[i].id) == Some(nodes[i].status),
    decreases nodes.len(),
{
    let rest = nodes.drop_last();
    if i < rest.len() {
        assert forall|a: int, b: int|
            0 <= a < rest.len() && 0 <= b < rest.len() && (#[trigger] rest[a]).id == (
            #[trigger] rest[b]).id implies a == b by {
            assert(nodes[a] == rest[a] && nodes[b] == rest[b]);
        }
        lemma_own_status(rest, i);
        assert(rest[i] == nodes[i]);
        assert(nodes[nodes.len() - 1] == nodes.last());
    }
}

/// A DAG restored from a snapshot of the same nodes is that snapshot.
pub proof fn law_restored_dag_is_the_snapshot(
    nodes: Seq<DAGNodeView>,
    saved: Seq<DAGNodeView>,
)
    requires
        nodes.len() == saved.len(),
        forall|i: int|
            0 <= i < nodes.len() ==> (#[trigger] nodes[i]).id == saved[i].id && nodes[i].step_type
                == saved[i].step_type && nodes[i].depends_on == saved[i].depends_on,
        forall|a: int, b: int|
            0 <= a < saved.len() && 0 <= b < saved.len() && (#[trigger] saved[a]).id == (
            #[trigger] saved[b]).id ==> a == b,
    ensures
        restored_nodes(nodes, saved) == saved,
{
    assert forall|i: int| 0 <= i < nodes.len() implies restored_nodes(nodes, saved)[i]
        == saved[i] by {
        lemma_own_status(saved, i);
        assert(nodes[i].id == saved[i].id);
    }
    assert(restored_nodes(nodes, saved) =~= saved);
}

/// A DAG restored from its own snapshot is unchanged, and restoring changes
/// nothing but statuses.
pub proof fn law_restore_own_statuses(nodes: Seq<DAGNodeView>, saved: Seq<DAGNodeView>)
    requires
        forall|a: int, b: int|
            0 <= a < nodes.len() && 0 <= b < nodes.len() && (#[trigger] nodes[a]).id == (
            #[trigger] nodes[b]).id ==> a == b,
    ensures
        restored_nodes(nodes, nodes) == nodes,
        restored_nodes(nodes, saved).len() == nodes.len(),
        forall|i: int|
            0 <= i < nodes.len() ==> {
                &&& (#[trigger] restored_nodes(nodes, saved)[i]).id == nodes[i].id
                &&& restored_nodes(nodes, saved)[i].step_type == nodes[i].step_type
                &&& restored_nodes(nodes, saved)[i].depends_on == nodes[i].depends_on
            },
        restored_nodes(restored_nodes(nodes, saved), saved) == restored_nodes(nodes, saved),
{
    assert forall|i: int| 0 <= i < nodes.len() implies restored_nodes(nodes, nodes)[i]
        == nodes[i] by {
        lemma_own_status(nodes, i);
    }
    assert(restored_nodes(nodes, nodes) =~= nodes);
    assert(restored_nodes(restored_nodes(nodes, saved), saved) =~= restored_nodes(nodes, saved));
}

/// What a DAG that was built holds: a pending node for each entry, in their
/// order and under their names, each with an identifier of its own, that depends
/// on the nodes it names; of several with one name, on the last.
pub proof fn law_built_nodes_follow_the_entries(
    builder: DAGBuilder,
    built: Result<DAG, String>,
    i: int,
    k: int,
    j: int,
)
    requires
        call_ensures(DAGBuilder::build, (builder,), built),
        built is Ok,
        0 <= i < builder@.len(),
        0 <= k < builder@[i].depends_on.len(),
        0 <= j < builder@.len(),
        builder@[j].step_type == builder@[i].depends_on[k],
        forall|m: int|
            j < m < builder@.len() ==> (#[trigger] builder@[m]).step_type != builder@[j].step_type,
    ensures
        ({
            let nodes = built->Ok_0@.nodes;
            &&& nodes.len() == builder@.len()
            &&& nodes[i].depends_on.len() == builder@[i].depends_on.len()
            &&& nodes[i].depends_on[k] == nodes[j].id
            &&& i != j ==> nodes[i].id != nodes[j].id
        }),
        forall|m: int|
            0 <= m < builder@.len() ==> (#[trigger] built->Ok_0@.nodes[m]).step_type
                == builder@[m].step_type && built->Ok_0@.nodes[m].status == NodeStatus::Pending,
{
    let entries = builder@;
    let (drawn, ids) = choose|drawn: Seq<u128>, ids: Seq<u128>|
        all_random(drawn) && drawn.len() == entries.len() && #[trigger] made_distinct(drawn, ids)
            && built->Ok_0@.nodes == resolved_nodes(entries, ids);
    let nodes = built->Ok_0@.nodes;
    assert(is_last_named(entries, j));
    lemma_last_id(entries, ids, j);
    assert(nodes[i].id == ids[i] && nodes[j].id == ids[j]);
}

/// A DAG that was built can be ordered: the nodes can be given places such that
/// whatever a node depends on comes before it.
pub proof fn law_built_dags_can_be_ordered(builder: DAGBuilder, built: Result<DAG, String>) -> (places:
    Seq<int>)
    requires
        call_ensures(DAGBuilder::build, (builder,), built),
        built is Ok,
    ensures
        places.len() == built->Ok_0@.nodes.len(),
        forall|i: int, j: int|
            0 <= i < places.len() && 0 <= j < places.len() && (
            #[trigger] built->Ok_0@.nodes[i]).depends_on.contains((
            #[trigger] built->Ok_0@.nodes[j]).id) ==> places[j] < places[i],
{
    let entries = builder@;
    let (drawn, ids) = choose|drawn: Seq<u128>, ids: Seq<u128>|
        all_random(drawn) && drawn.len() == entries.len() && #[trigger] made_distinct(drawn, ids)
            && built->Ok_0@.nodes == resolved_nodes(entries, ids);
    let nodes = built->Ok_0@.nodes;
    law_builder_refuses_exactly_cycles(entries, ids);
    let order = choose|order: Seq<int>| is_schedule(nodes, order);
    let places = Seq::new(nodes.len(), |i: int| order.index_of(i));
    assert forall|i: int, j: int|
        0 <= i < places.len() && 0 <= j < places.len() && (#[trigger] nodes[i]).depends_on.contains(
            (#[trigger] nodes[j]).id,
        ) implies places[j] < places[i] by {
        assert(depends(nodes, i, j));
        lemma_comes_before(nodes, order, i, j);
    }
    places
}

/// Along a cycle of entries the places only go down.
proof fn lemma_entry_places_fall(
    entries: Seq<EntryView>,
    places: Seq<int>,
    path: Seq<int>,
    k: int,
)
    requires
        is_entry_cycle(entries, path),
        forall|i: int, j: int|
            0 <= i < entries.len() && 0 <= j < entries.len() && #[trigger] depends_on_entry(
                entries,
                i,
                j,
            ) ==> places[j] < places[i],
        0 <= k < path.len(),
    ensures
        places[path[k]] <= places[path[0]] - k,
    decreases k,
{
    if k > 0 {
        lemma_entry_places_fall(entries, places, path, k - 1);
        assert(depends_on_entry(entries, path[k - 1], path[k - 1 + 1]));
        assert(0 <= path[k] < entries.len());
    }
}

/// Whatever can be ordered is built: where every dependency names an entry and
/// the entries can be given places such that what an entry depends on comes
/// before it, building succeeds, however often a dependency is listed. A
/// dependency that names no entry is refused.
pub proof fn law_ordered_entries_are_built(
    builder: DAGBuilder,
    built: Result<DAG, String>,
    places: Seq<int>,
)
    requires
        call_ensures(DAGBuilder::build, (builder,), built),
    ensures
        (forall|i: int, k: int|
            0 <= i < builder@.len() && 0 <= k < builder@[i].depends_on.len() ==> exists|j: int|
                0 <= j < builder@.len() && (#[trigger] builder@[j]).step_type
                    == #[trigger] builder@[i].depends_on[k]) && (forall|i: int, j: int|
            0 <= i < builder@.len() && 0 <= j < builder@.len()
                && #[trigger] builder@[i].depends_on.contains((#[trigger] builder@[j]).step_type)
                && (forall|m: int|
                j < m < builder@.len() ==> (#[trigger] builder@[m]).step_type
                    != builder@[j].step_type) ==> places[j] < places[i]) ==> built is Ok,
        forall|i: int, k: int|
            0 <= i < builder@.len() && 0 <= k < builder@[i].depends_on.len() && (forall|j: int|
                0 <= j < builder@.len() ==> (#[trigger] builder@[j]).step_type
                    != #[trigger] builder@[i].depends_on[k]) ==> built is Err,
{
    let entries = builder@;
    if (forall|i: int, k: int|
        0 <= i < entries.len() && 0 <= k < entries[i].depends_on.len() ==> exists|j: int|
            0 <= j < entries.len() && (#[trigger] entries[j]).step_type
                == #[trigger] entries[i].depends_on[k]) && (forall|i: int, j: int|
        0 <= i < entries.len() && 0 <= j < entries.len() && #[trigger] entries[i].depends_on.contains(
            (#[trigger] entries[j]).step_type,
        ) && (forall|m: int|
            j < m < entries.len() ==> (#[trigger] entries[m]).step_type != entries[j].step_type)
            ==> places[j] < places[i]) {
        assert(all_known(entries)) by {
            assert forall|i: int, k: int|
                0 <= i < entries.len() && 0 <= k < entries[i].depends_on.len() implies is_named(
                entries,
                #[trigger] entries[i].depends_on[k],
            ) by {
                let name = entries[i].depends_on[k];
                let j = choose|j: int|
                    0 <= j < entries.len() && (#[trigger] entries[j]).step_type == name;
                assert(entries[j].step_type == name);
            }
        }
        if cyclic_entries(entries) {
            let path = choose|path: Seq<int>| is_entry_cycle(entries, path);
            assert forall|i: int, j: int|
                0 <= i < entries.len() && 0 <= j < entries.len() && #[trigger] depends_on_entry(
                    entries,
                    i,
                    j,
                ) implies places[j] < places[i] by {
                assert(entries[i].depends_on.contains(entries[j].step_type));
            }
            let last = path.len() - 1;
            lemma_entry_places_fall(entries, places, path, last);
            assert(0 <= path[last] < entries.len() && 0 <= path[0] < entries.len());
            assert(depends_on_entry(entries, path[last], path[0]));
            assert(false);
        }
    }
    assert forall|i: int, k: int|
        0 <= i < entries.len() && 0 <= k < entries[i].depends_on.len() && (forall|j: int|
            0 <= j < entries.len() ==> (#[trigger] entries[j]).step_type
                != #[trigger] entries[i].depends_on[k]) implies built is Err by {
        if built is Ok {
            assert(is_named(entries, entries[i].depends_on[k]));
        }
    }
}

/// Which status a restored node has: that of the last node of the snapshot with
/// its identifier, or its own where the snapshot has none; nothing else changes.
pub proof fn law_statuses_are_restored_by_identifier(
    nodes: Seq<DAGNodeView>,
    saved: Seq<DAGNodeView>,
    i: int,
    j: int,
)
    requires
        0 <= i < nodes.len(),
        -1 <= j < saved.len(),
        j >= 0 ==> saved[j].id == nodes[i].id,
        forall|m: int|
            j < m < saved.len() && 0 <= m ==> (#[trigger] saved[m]).id != nodes[i].id,
    ensures
        restored_nodes(nodes, saved).len() == nodes.len(),
        j >= 0 ==> restored_nodes(nodes, saved)[i] == (DAGNodeView {
            status: saved[j].status,
            ..nodes[i]
        }),
        j < 0 ==> restored_nodes(nodes, saved)[i] == nodes[i],
{
    lemma_status_of_last(saved, nodes[i].id, j);
}

/// What is said of a dependency that names no entry: the first such one in the
/// order of the entries, and the node that lists it.
pub proof fn law_unknown_dependencies_are_named(
    builder: DAGBuilder,
    built: Result<DAG, String>,
    i: int,
    j: int,
)
    requires
        call_ensures(DAGBuilder::build, (builder,), built),
        0 <= i < builder@.len(),
        0 <= j < builder@[i].depends_on.len(),
        forall|m: int|
            0 <= m < builder@.len() ==> (#[trigger] builder@[m]).step_type
                != builder@[i].depends_on[j],
        forall|a: int, b: int|
            0 <= a < builder@.len() && 0 <= b < builder@[a].depends_on.len() && (a < i || (a == i
                && b < j)) ==> exists|m: int|
                0 <= m < builder@.len() && (#[trigger] builder@[m]).step_type
                    == #[trigger] builder@[a].depends_on[b],
    ensures
        built is Err,
        built->Err_0@ == "Dependency '"@ + builder@[i].depends_on[j] + "' not found for node '"@
            + builder@[i].step_type + "'"@,
{
    let entries = builder@;
    assert forall|a: int, b: int|
        0 <= a < entries.len() && 0 <= b < entries[a].depends_on.len() && (a < i || (a == i && b
            < j)) implies is_named(entries, #[trigger] entries[a].depends_on[b]) by {
        let name = entries[a].depends_on[b];
        let m = choose|m: int|
            0 <= m < entries.len() && (#[trigger] entries[m]).step_type == name;
        assert(entries[m].step_type == name);
    }
    assert(first_unknown(entries, i, j));
}

} // verus!
