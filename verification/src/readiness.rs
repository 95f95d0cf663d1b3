//! Which nodes of a DAG can run, which still wait, and under which names.
use crate::dag::{dag_nodes, DAGNode, DAGNodeView, NodeStatus};
use crate::text::text_list;
use std::collections::HashSet;
use vstd::prelude::*;
use vstd::string::*;

verus! {

/// Whether a node with the identifier is done.
pub open spec fn is_done(nodes: Seq<DAGNodeView>, id: u128) -> bool {
    exists|j: int|
        0 <= j < nodes.len() && (#[trigger] nodes[j]).id == id && nodes[j].status
            == NodeStatus::Done
}

/// Whether node `i` can run: it is pending, and what it depends on is done.
pub open spec fn is_ready(nodes: Seq<DAGNodeView>, i: int) -> bool {
    &&& nodes[i].status == NodeStatus::Pending
    &&& forall|k: int|
        0 <= k < nodes[i].depends_on.len() ==> is_done(nodes, #[trigger] nodes[i].depends_on[k])
}

/// The indices below `n` of the nodes that can run, ascending.
pub open spec fn ready_below(nodes: Seq<DAGNodeView>, n: nat) -> Seq<int>
    decreases n,
{
    if n == 0 {
        Seq::empty()
    } else if is_ready(nodes, n - 1) {
        ready_below(nodes, (n - 1) as nat).push(n - 1)
    } else {
        ready_below(nodes, (n - 1) as nat)
    }
}

/// The indices of the nodes that can run together next, ascending.
pub open spec fn ready_wave(nodes: Seq<DAGNodeView>) -> Seq<int> {
    ready_below(nodes, nodes.len())
}

/// Indices as integers.
pub open spec fn as_indices(indices: Seq<usize>) -> Seq<int> {
    indices.map_values(|i: usize| i as int)
}

/// Whether a status is that of a node which waits: pending, or also yielded
/// where those count.
pub open spec fn waits(status: NodeStatus, count_yielded: bool) -> bool {
    status == NodeStatus::Pending || (count_yielded && status == NodeStatus::Yielded)
}

/// The names of the waiting nodes among the first `n`.
pub open spec fn waiting_below(
    nodes: Seq<DAGNodeView>,
    n: nat,
    count_yielded: bool,
) -> Seq<Seq<char>>
    decreases n,
{
    if n == 0 {
        Seq::empty()
    } else if waits(nodes[n - 1].status, count_yielded) {
        waiting_below(nodes, (n - 1) as nat, count_yielded).push(nodes[n - 1].step_type)
    } else {
        waiting_below(nodes, (n - 1) as nat, count_yielded)
    }
}

/// The names of the pending nodes.
pub open spec fn pending_names(nodes: Seq<DAGNodeView>) -> Seq<Seq<char>> {
    waiting_below(nodes, nodes.len(), false)
}

/// The names of the nodes that are pending or have yielded.
pub open spec fn unfinished_names(nodes: Seq<DAGNodeView>) -> Seq<Seq<char>> {
    waiting_below(nodes, nodes.len(), true)
}

/// The names of the nodes at the given indices.
pub open spec fn names_at(nodes: Seq<DAGNodeView>, indices: Seq<int>) -> Seq<Seq<char>> {
    indices.map_values(|i: int| nodes[i].step_type)
}

/// Whether some name of the list is in the set.
pub open spec fn any_in(names: Seq<Seq<char>>, set: Set<Seq<char>>) -> bool {
    exists|k: int| 0 <= k < names.len() && set.contains(#[trigger] names[k])
}

/// The nodes after those that can run were started.
pub open spec fn launched(nodes: Seq<DAGNodeView>) -> Seq<DAGNodeView> {
    Seq::new(
        nodes.len(),
        |i: int|
            if is_ready(nodes, i) {
                DAGNodeView { status: NodeStatus::Running, ..nodes[i] }
            } else {
                nodes[i]
            },
    )
}

/// The nodes with the status of node `i` changed.
pub open spec fn with_status(
    nodes: Seq<DAGNodeView>,
    i: int,
    status: NodeStatus,
) -> Seq<DAGNodeView> {
    nodes.update(i, DAGNodeView { status, ..nodes[i] })
}

/// The list of ready nodes is ascending and holds exactly those that can run.
pub(crate) proof fn lemma_ready_below(nodes: Seq<DAGNodeView>, n: nat)
    ensures
        forall|k: int|
            0 <= k < ready_below(nodes, n).len() ==> 0 <= #[trigger] ready_below(nodes, n)[k] < n
                && is_ready(nodes, ready_below(nodes, n)[k]),
        forall|i: int| 0 <= i < n && is_ready(nodes, i) ==> ready_below(nodes, n).contains(i),
        forall|a: int, b: int|
            0 <= a < b < ready_below(nodes, n).len() ==> #[trigger] ready_below(nodes, n)[a]
                < #[trigger] ready_below(nodes, n)[b],
    decreases n,
{
    if n > 0 {
        let before = ready_below(nodes, (n - 1) as nat);
        let all = ready_below(nodes, n);
        lemma_ready_below(nodes, (n - 1) as nat);
        assert forall|k: int| 0 <= k < all.len() implies 0 <= #[trigger] all[k] < n && is_ready(
            nodes,
            all[k],
        ) by {
            if k < before.len() {
                assert(all[k] == before[k]);
            }
        }
        assert forall|i: int| 0 <= i < n && is_ready(nodes, i) implies all.contains(i) by {
            if i < n - 1 {
                assert(before.contains(i));
                let k = before.index_of(i);
                assert(all[k] == i);
            } else {
                assert(all[before.len() as int] == i);
            }
        }
        assert forall|a: int, b: int| 0 <= a < b < all.len() implies #[trigger] all[a]
            < #[trigger] all[b] by {
            assert(all[a] == before[a]);
            if b < before.len() {
                assert(all[b] == before[b]);
            }
        }
    }
}

/// The identifiers of the nodes that are done.
fn done_ids(nodes: &Vec<DAGNode>) -> (ids: HashSet<u128>)
    ensures
        forall|id: u128| #[trigger] ids@.contains(id) <==> is_done(dag_nodes(nodes@), id),
{
    broadcast use vstd::std_specs::hash::group_hash_axioms;

    let ghost views = dag_nodes(nodes@);
    let mut ids: HashSet<u128> = HashSet::new();
    let mut i: usize = 0;
    while i < nodes.len()
        invariant
            i <= nodes@.len() == views.len(),
            views == dag_nodes(nodes@),
            forall|id: u128| #[trigger]
                ids@.contains(id) <==> exists|j: int|
                    0 <= j < i && (#[trigger] views[j]).id == id && views[j].status
                        == NodeStatus::Done,
        decreases nodes.len() - i,
    {
        let ghost before = ids@;
        assert(views[i as int] == nodes@[i as int]@);
        if nodes[i].status == NodeStatus::Done {
            ids.insert(nodes[i].id);
        }
        proof {
            assert forall|id: u128| #[trigger]
                ids@.contains(id) <==> exists|j: int|
                    0 <= j < i + 1 && (#[trigger] views[j]).id == id && views[j].status
                        == NodeStatus::Done by {
                if before.contains(id) {
                    let j = choose|j: int|
                        0 <= j < i && (#[trigger] views[j]).id == id && views[j].status
                            == NodeStatus::Done;
                    assert(0 <= j < i + 1 && views[j].id == id);
                }
                if ids@.contains(id) && !before.contains(id) {
                    assert(views[i as int].id == id);
                }
                if exists|j: int|
                    0 <= j < i + 1 && (#[trigger] views[j]).id == id && views[j].status
                        == NodeStatus::Done {
                    let j = choose|j: int|
                        0 <= j < i + 1 && (#[trigger] views[j]).id == id && views[j].status
                            == NodeStatus::Done;
                    if j < i {
                        assert(before.contains(id));
                    }
                }
            }
        }
        i = i + 1;
    }
    ids
}

/// Finds the nodes that can run together next.
pub(crate) fn find_ready(nodes: &Vec<DAGNode>) -> (ready: Vec<usize>)
    ensures
        as_indices(ready@) == ready_wave(dag_nodes(nodes@)),
        forall|k: int| 0 <= k < ready@.len() ==> (#[trigger] ready@[k]) < nodes@.len(),
{
    broadcast use vstd::std_specs::hash::group_hash_axioms;

    let ghost views = dag_nodes(nodes@);
    let completed = done_ids(nodes);
    let mut ready: Vec<usize> = Vec::new();
    let mut i: usize = 0;
    while i < nodes.len()
        invariant
            i <= nodes@.len() == views.len(),
            views == dag_nodes(nodes@),
            forall|id: u128| #[trigger] completed@.contains(id) <==> is_done(views, id),
            as_indices(ready@) == ready_below(views, i as nat),
            forall|k: int| 0 <= k < ready@.len() ==> (#[trigger] ready@[k]) < i,
        decreases nodes.len() - i,
    {
        let node = &nodes[i];
        assert(views[i as int] == node@);
        let mut free = node.status == NodeStatus::Pending;
        let mut k: usize = 0;
        while k < node.depends_on.len()
            invariant
                k <= node.depends_on@.len(),
                views[i as int] == node@,
                forall|id: u128| #[trigger] completed@.contains(id) <==> is_done(views, id),
                free <==> node.status == NodeStatus::Pending && forall|m: int|
                    0 <= m < k ==> is_done(views, #[trigger] views[i as int].depends_on[m]),
            decreases node.depends_on.len() - k,
        {
            let found = completed.contains(&node.depends_on[k]);
            assert(found == is_done(views, views[i as int].depends_on[k as int]));
            free = free && found;
            k = k + 1;
        }
        assert(free == is_ready(views, i as int));
        let ghost before = ready@;
        if free {
            ready.push(i);
            assert(as_indices(ready@) =~= as_indices(before).push(i as int));
        }
        i = i + 1;
    }
    ready
}

/// The names of the waiting nodes.
pub(crate) fn waiting_names(nodes: &Vec<DAGNode>, count_yielded: bool) -> (names: Vec<String>)
    ensures
        text_list(names@) == waiting_below(dag_nodes(nodes@), nodes@.len(), count_yielded),
{
    let ghost views = dag_nodes(nodes@);
    let mut names: Vec<String> = Vec::new();
    let mut i: usize = 0;
    assert(text_list(names@) =~= Seq::empty());
    while i < nodes.len()
        invariant
            i <= nodes@.len() == views.len(),
            views == dag_nodes(nodes@),
            text_list(names@) == waiting_below(views, i as nat, count_yielded),
        decreases nodes.len() - i,
    {
        assert(views[i as int] == nodes@[i as int]@);
        let status = nodes[i].status;
        let ghost before = text_list(names@);
        if status == NodeStatus::Pending || (count_yielded && status == NodeStatus::Yielded) {
            names.push(nodes[i].step_type.clone());
            assert(text_list(names@) =~= before.push(views[i as int].step_type));
        }
        i = i + 1;
    }
    names
}

/// The names of the nodes at the given indices.
pub(crate) fn collect_names(nodes: &Vec<DAGNode>, indices: &Vec<usize>) -> (names: Vec<String>)
    requires
        forall|k: int| 0 <= k < indices@.len() ==> (#[trigger] indices@[k]) < nodes@.len(),
    ensures
        text_list(names@) == names_at(dag_nodes(nodes@), as_indices(indices@)),
{
    let mut names: Vec<String> = Vec::new();
    let mut k: usize = 0;
    while k < indices.len()
        invariant
            k <= indices@.len(),
            names@.len() == k,
            forall|m: int| 0 <= m < indices@.len() ==> (#[trigger] indices@[m]) < nodes@.len(),
            forall|m: int|
                0 <= m < k ==> (#[trigger] names@[m])@ == nodes@[indices@[m] as int].step_type@,
        decreases indices.len() - k,
    {
        names.push(nodes[indices[k]].step_type.clone());
        k = k + 1;
    }
    assert(text_list(names@) =~= names_at(dag_nodes(nodes@), as_indices(indices@)));
    names
}

/// Marks the nodes that can run as running.
pub(crate) fn mark_running(nodes: &mut Vec<DAGNode>, ready: &Vec<usize>)
    requires
        as_indices(ready@) == ready_wave(dag_nodes(old(nodes)@)),
        forall|k: int| 0 <= k < ready@.len() ==> (#[trigger] ready@[k]) < old(nodes)@.len(),
    ensures
        dag_nodes(final(nodes)@) == launched(dag_nodes(old(nodes)@)),
{
    let ghost views = dag_nodes(nodes@);
    proof {
        lemma_ready_below(views, views.len());
    }
    let mut k: usize = 0;
    while k < ready.len()
        invariant
            k <= ready@.len(),
            as_indices(ready@) == ready_wave(views),
            views == dag_nodes(old(nodes)@),
            nodes@.len() == views.len(),
            forall|m: int| 0 <= m < ready@.len() ==> (#[trigger] ready@[m]) < views.len(),
            forall|i: int|
                0 <= i < views.len() ==> (#[trigger] nodes@[i])@ == (if exists|m: int|
                    0 <= m < k && (#[trigger] ready@[m]) == i {
                    DAGNodeView { status: NodeStatus::Running, ..views[i] }
                } else {
                    views[i]
                }),
        decreases ready.len() - k,
    {
        let at: usize = ready[k];
        let ghost before = nodes@;
        nodes[at].status = NodeStatus::Running;
        proof {
            assert forall|i: int| 0 <= i < views.len() implies (#[trigger] nodes@[i])@ == (
            if exists|m: int| 0 <= m < k + 1 && (#[trigger] ready@[m]) == i {
                DAGNodeView { status: NodeStatus::Running, ..views[i] }
            } else {
                views[i]
            }) by {
                assert(before[i]@ == (if exists|m: int|
                    0 <= m < k && (#[trigger] ready@[m]) == i {
                    DAGNodeView { status: NodeStatus::Running, ..views[i] }
                } else {
                    views[i]
                }));
                if i == at {
                    assert(ready@[k as int] == i);
                } else {
                    if exists|m: int| 0 <= m < k && (#[trigger] ready@[m]) == i {
                        let m = choose|m: int| 0 <= m < k && (#[trigger] ready@[m]) == i;
                        assert(0 <= m < k + 1 && ready@[m] == i);
                    }
                }
            }
        }
        k = k + 1;
    }
    proof {
        let wave = ready_wave(views);
        assert forall|i: int| 0 <= i < views.len() implies dag_nodes(nodes@)[i] == launched(
            views,
        )[i] by {
            assert(nodes@[i]@ == dag_nodes(nodes@)[i]);
            if is_ready(views, i) {
                assert(wave.contains(i));
                let m = wave.index_of(i);
                assert(as_indices(ready@)[m] == i);
                assert(ready@[m] == i);
            }
            if exists|m: int| 0 <= m < ready@.len() && (#[trigger] ready@[m]) == i {
                let m = choose|m: int| 0 <= m < ready@.len() && (#[trigger] ready@[m]) == i;
                assert(as_indices(ready@)[m] == i);
                assert(wave[m] == i);
            }
        }
        assert(dag_nodes(nodes@) =~= launched(views));
    }
}

} // verus!
