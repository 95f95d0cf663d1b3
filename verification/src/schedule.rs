//! Whether the nodes of a DAG can be put in an order that respects their
//! dependencies.
use crate::dag::{dag_nodes, DAGNode, DAGNodeView};
use std::collections::VecDeque;
use vstd::prelude::*;

verus! {

/// Whether no two nodes share an identifier.
pub open spec fn unique_ids(nodes: Seq<DAGNodeView>) -> bool {
    forall|i: int, j: int|
        0 <= i < nodes.len() && 0 <= j < nodes.len() && (#[trigger] nodes[i]).id == (
        #[trigger] nodes[j]).id ==> i == j
}

/// Whether a node in `order` has the identifier.
pub open spec fn held(nodes: Seq<DAGNodeView>, order: Seq<int>, id: u128) -> bool {
    exists|p: int| 0 <= p < order.len() && nodes[#[trigger] order[p]].id == id
}

/// Whether everything that node `i` depends on is in `order`.
pub open spec fn met(nodes: Seq<DAGNodeView>, order: Seq<int>, i: int) -> bool {
    forall|k: int|
        0 <= k < nodes[i].depends_on.len() ==> held(
            nodes,
            order,
            #[trigger] nodes[i].depends_on[k],
        )
}

/// Whether `order` holds node indices, none twice.
pub open spec fn distinct_indices(nodes: Seq<DAGNodeView>, order: Seq<int>) -> bool {
    &&& order.no_duplicates()
    &&& forall|p: int| 0 <= p < order.len() ==> 0 <= #[trigger] order[p] < nodes.len()
}

/// Whether every node of `order` comes after everything that it depends on.
pub open spec fn dependencies_first(nodes: Seq<DAGNodeView>, order: Seq<int>) -> bool {
    forall|p: int| 0 <= p < order.len() ==> met(nodes, order.take(p), #[trigger] order[p])
}

/// Whether `order` goes through all nodes, each after what it depends on.
pub open spec fn is_schedule(nodes: Seq<DAGNodeView>, order: Seq<int>) -> bool {
    &&& order.len() == nodes.len()
    &&& distinct_indices(nodes, order)
    &&& dependencies_first(nodes, order)
}

/// Whether the nodes can be ordered so that each comes after what it depends on.
pub open spec fn schedulable(nodes: Seq<DAGNodeView>) -> bool {
    exists|order: Seq<int>| is_schedule(nodes, order)
}

/// More nodes hold at least as many identifiers.
pub(crate) proof fn lemma_met_subset(
    nodes: Seq<DAGNodeView>,
    part: Seq<int>,
    whole: Seq<int>,
    i: int,
)
    requires
        met(nodes, part, i),
        forall|p: int| 0 <= p < part.len() ==> whole.contains(#[trigger] part[p]),
    ensures
        met(nodes, whole, i),
{
    assert forall|k: int| 0 <= k < nodes[i].depends_on.len() implies held(
        nodes,
        whole,
        #[trigger] nodes[i].depends_on[k],
    ) by {
        let id = nodes[i].depends_on[k];
        assert(held(nodes, part, id));
        let p = choose|p: int| 0 <= p < part.len() && nodes[#[trigger] part[p]].id == id;
        let q = whole.index_of(part[p]);
        assert(nodes[whole[q]].id == id);
    }
}

/// Distinct numbers below `n` are at most `n` many.
pub(crate) proof fn lemma_distinct_bounded(order: Seq<int>, n: nat)
    requires
        order.no_duplicates(),
        forall|p: int| 0 <= p < order.len() ==> 0 <= #[trigger] order[p] < n,
    ensures
        order.len() <= n,
        order.len() == n ==> forall|i: int| 0 <= i < n ==> order.contains(i),
{
    let values = order.to_set();
    let range = vstd::set_lib::set_int_range(0, n as int);
    vstd::set_lib::lemma_int_range(0, n as int);
    order.unique_seq_to_set();
    assert(values.subset_of(range)) by {
        assert forall|v: int| values.contains(v) implies range.contains(v) by {
            assert(order.contains(v));
        }
    }
    vstd::set_lib::lemma_len_subset(values, range);
    if order.len() == n {
        vstd::set_lib::lemma_subset_equality(values, range);
        assert forall|i: int| 0 <= i < n implies order.contains(i) by {
            assert(range.contains(i));
            assert(values.contains(i));
        }
    }
}

/// Where an order has taken up every node whose dependencies it holds and yet
/// misses a node, there is no schedule.
proof fn lemma_stuck(nodes: Seq<DAGNodeView>, order: Seq<int>)
    requires
        distinct_indices(nodes, order),
        order.len() < nodes.len(),
        forall|i: int| 0 <= i < nodes.len() && #[trigger] met(nodes, order, i) ==> order.contains(i),
    ensures
        !schedulable(nodes),
{
    if schedulable(nodes) {
        let full = choose|full: Seq<int>| is_schedule(nodes, full);
        lemma_follows(nodes, order, full, full.len());
        assert(full.no_duplicates());
        assert(full.to_set().subset_of(order.to_set())) by {
            assert forall|v: int| full.to_set().contains(v) implies order.to_set().contains(v) by {
                let p = full.index_of(v);
                assert(full[p] == v);
            }
        }
        full.unique_seq_to_set();
        order.unique_seq_to_set();
        vstd::set_lib::lemma_len_subset(full.to_set(), order.to_set());
        assert(false);
    }
}

/// A closed order holds every prefix of a schedule.
proof fn lemma_follows(nodes: Seq<DAGNodeView>, order: Seq<int>, full: Seq<int>, p: nat)
    requires
        distinct_indices(nodes, order),
        is_schedule(nodes, full),
        p <= full.len(),
        forall|i: int| 0 <= i < nodes.len() && #[trigger] met(nodes, order, i) ==> order.contains(i),
    ensures
        forall|q: int| 0 <= q < p ==> order.contains(#[trigger] full[q]),
    decreases p,
{
    if p > 0 {
        lemma_follows(nodes, order, full, (p - 1) as nat);
        let i = full[p - 1];
        let before = full.take(p - 1);
        assert forall|q: int| 0 <= q < before.len() implies order.contains(
            #[trigger] before[q],
        ) by {
            assert(before[q] == full[q]);
        }
        assert(met(nodes, before, i));
        lemma_met_subset(nodes, before, order, i);
    }
}

/// How many of the first `n` dependencies of node `i` are not in `order`.
spec fn open_below(nodes: Seq<DAGNodeView>, order: Seq<int>, i: int, n: nat) -> nat
    decreases n,
{
    if n == 0 {
        0
    } else {
        open_below(nodes, order, i, (n - 1) as nat) + if held(
            nodes,
            order,
            nodes[i].depends_on[n - 1],
        ) {
            0nat
        } else {
            1nat
        }
    }
}

/// How many dependencies of node `i` are not in `order`.
spec fn open_count(nodes: Seq<DAGNodeView>, order: Seq<int>, i: int) -> nat {
    open_below(nodes, order, i, nodes[i].depends_on.len())
}

/// How often `id` is among the first `n` of `ids`.
spec fn times_below(ids: Seq<u128>, id: u128, n: nat) -> nat
    decreases n,
{
    if n == 0 {
        0
    } else {
        times_below(ids, id, (n - 1) as nat) + if ids[n - 1] == id {
            1nat
        } else {
            0nat
        }
    }
}

/// Nothing is open exactly where all dependencies are held.
proof fn lemma_nothing_open(nodes: Seq<DAGNodeView>, order: Seq<int>, i: int, n: nat)
    requires
        n <= nodes[i].depends_on.len(),
    ensures
        open_below(nodes, order, i, n) == 0 <==> forall|k: int|
            0 <= k < n ==> held(nodes, order, #[trigger] nodes[i].depends_on[k]),
        order.len() == 0 ==> open_below(nodes, order, i, n) == n,
    decreases n,
{
    if n > 0 {
        lemma_nothing_open(nodes, order, i, (n - 1) as nat);
        if open_below(nodes, order, i, n) == 0 {
            assert forall|k: int| 0 <= k < n implies held(
                nodes,
                order,
                #[trigger] nodes[i].depends_on[k],
            ) by {
                if k == n - 1 {
                    assert(held(nodes, order, nodes[i].depends_on[n - 1]));
                }
            }
        }
        if forall|k: int|
            0 <= k < n ==> held(nodes, order, #[trigger] nodes[i].depends_on[k]) {
            assert(held(nodes, order, nodes[i].depends_on[n - 1]));
        }
    }
}

/// A node whose identifier was not held closes every occurrence of it.
proof fn lemma_open_falls(nodes: Seq<DAGNodeView>, order: Seq<int>, idx: int, i: int, n: nat)
    requires
        !held(nodes, order, nodes[idx].id),
        n <= nodes[i].depends_on.len(),
    ensures
        open_below(nodes, order, i, n) == open_below(nodes, order.push(idx), i, n) + times_below(
            nodes[i].depends_on,
            nodes[idx].id,
            n,
        ),
    decreases n,
{
    if n > 0 {
        lemma_open_falls(nodes, order, idx, i, (n - 1) as nat);
        let id = nodes[i].depends_on[n - 1];
        let taken = order.push(idx);
        if held(nodes, order, id) {
            let p = choose|p: int| 0 <= p < order.len() && nodes[#[trigger] order[p]].id == id;
            assert(nodes[taken[p]].id == id);
        }
        if id == nodes[idx].id {
            assert(nodes[taken[order.len() as int]].id == id);
        }
        if held(nodes, taken, id) && id != nodes[idx].id {
            let p = choose|p: int| 0 <= p < taken.len() && nodes[#[trigger] taken[p]].id == id;
            assert(nodes[order[p]].id == id);
        }
    }
}

/// A node that was not taken up has an identifier that is not held.
proof fn lemma_not_held(nodes: Seq<DAGNodeView>, order: Seq<int>, idx: int)
    requires
        unique_ids(nodes),
        distinct_indices(nodes, order),
        0 <= idx < nodes.len(),
        !order.contains(idx),
    ensures
        !held(nodes, order, nodes[idx].id),
{
    if held(nodes, order, nodes[idx].id) {
        let p = choose|p: int|
            0 <= p < order.len() && nodes[#[trigger] order[p]].id == nodes[idx].id;
        let a = nodes[order[p]];
        let b = nodes[idx];
        assert(order[p] == idx);
    }
}

/// How often `ids` holds `id`.
fn count_id(ids: &Vec<u128>, id: u128) -> (times: usize)
    ensures
        times == times_below(ids@, id, ids@.len()),
        times <= ids@.len(),
{
    let mut times: usize = 0;
    let mut k: usize = 0;
    while k < ids.len()
        invariant
            k <= ids@.len(),
            times <= k,
            times == times_below(ids@, id, k as nat),
        decreases ids.len() - k,
    {
        if ids[k] == id {
            times = times + 1;
        }
        k = k + 1;
    }
    times
}

/// The bookkeeping of the search: `order` is what was taken up so far, `queue`
/// what can be taken up next, and `degree` what each node still waits for.
spec fn searching(
    nodes: Seq<DAGNodeView>,
    order: Seq<int>,
    queue: Seq<usize>,
    degree: Seq<usize>,
) -> bool {
    &&& distinct_indices(nodes, order)
    &&& dependencies_first(nodes, order)
    &&& degree.len() == nodes.len() <= usize::MAX
    &&& queue.no_duplicates()
    &&& forall|q: int| 0 <= q < queue.len() ==> #[trigger] queue[q] < nodes.len()
    &&& forall|q: int| 0 <= q < queue.len() ==> !order.contains(#[trigger] queue[q] as int)
    &&& forall|i: int|
        0 <= i < nodes.len() ==> (#[trigger] degree[i] == 0 <==> order.contains(i)
            || queue.contains(i as usize))
}

/// Decides whether the nodes can be ordered so that each comes after what it
/// depends on.
pub(crate) fn has_schedule(nodes: &Vec<DAGNode>) -> (found: bool)
    requires
        unique_ids(dag_nodes(nodes@)),
    ensures
        found == schedulable(dag_nodes(nodes@)),
{
    let ghost views = dag_nodes(nodes@);
    let n: usize = nodes.len();
    let mut degree: Vec<usize> = Vec::new();
    let mut queue: VecDeque<usize> = VecDeque::new();
    let ghost mut order: Seq<int> = Seq::empty();
    let mut k: usize = 0;
    while k < n
        invariant
            k <= n == nodes@.len() == views.len(),
            views == dag_nodes(nodes@),
            degree@.len() == k,
            order == Seq::<int>::empty(),
            queue@.no_duplicates(),
            forall|q: int| 0 <= q < queue@.len() ==> #[trigger] queue@[q] < k,
            forall|i: int| 0 <= i < k ==> #[trigger] degree@[i] == open_count(views, order, i),
            forall|i: int|
                0 <= i < k ==> (#[trigger] degree@[i] == 0 <==> queue@.contains(i as usize)),
        decreases n - k,
    {
        let waiting: usize = nodes[k].depends_on.len();
        let ghost old_queue = queue@;
        degree.push(waiting);
        if waiting == 0 {
            queue.push_back(k);
        }
        proof {
            lemma_nothing_open(views, order, k as int, views[k as int].depends_on.len());
            assert forall|i: int| 0 <= i < k + 1 implies (#[trigger] degree@[i] == 0
                <==> queue@.contains(i as usize)) by {
                if waiting == 0 {
                    assert(queue@ == old_queue.push(k));
                    if i < k {
                        assert(degree@[i] == 0 <==> old_queue.contains(i as usize));
                        if old_queue.contains(i as usize) {
                            let at = old_queue.index_of(i as usize);
                            assert(queue@[at] == i);
                        }
                        if queue@.contains(i as usize) {
                            let at = queue@.index_of(i as usize);
                            assert(at < old_queue.len());
                            assert(old_queue[at] == i as usize);
                        }
                    } else {
                        assert(queue@[old_queue.len() as int] == k);
                    }
                } else {
                    if i == k {
                        if queue@.contains(k) {
                            let at = queue@.index_of(k);
                            assert(queue@[at] < k);
                        }
                    }
                }
            }
        }
        k = k + 1;
    }
    let mut visited: usize = 0;
    assert(searching(views, order, queue@, degree@));
    loop
        invariant_except_break
            searching(views, order, queue@, degree@),
            forall|i: int|
                0 <= i < views.len() ==> #[trigger] degree@[i] == open_count(views, order, i),
        invariant
            n == nodes@.len() == views.len(),
            views == dag_nodes(nodes@),
            unique_ids(views),
            visited == order.len(),
            visited <= n,
        ensures
            distinct_indices(views, order),
            dependencies_first(views, order),
            forall|i: int|
                0 <= i < views.len() && #[trigger] met(views, order, i) ==> order.contains(i),
        decreases n - visited,
    {
        let ghost queue_before = queue@;
        let next = queue.pop_front();
        if next.is_none() {
            proof {
                assert forall|i: int|
                    0 <= i < views.len() && #[trigger] met(views, order, i) implies order.contains(
                    i,
                ) by {
                    lemma_nothing_open(views, order, i, views[i].depends_on.len());
                    assert(degree@[i] == 0);
                }
            }
            break;
        }
        let idx: usize = next.unwrap();
        let ghost taken = order.push(idx as int);
        proof {
            assert(queue_before[0] == idx);
            assert(queue@ =~= queue_before.drop_first());
            assert(queue_before.contains(idx));
            assert(degree@[idx as int] == 0);
            lemma_nothing_open(views, order, idx as int, views[idx as int].depends_on.len());
            assert(met(views, order, idx as int));
            lemma_take_up(views, order, idx as int);
            lemma_distinct_bounded(taken, views.len());
            lemma_pop(views, order, queue_before, degree@);
            lemma_not_held(views, order, idx as int);
        }
        visited = visited + 1;
        let id: u128 = nodes[idx].id;
        let mut i: usize = 0;
        while i < n
            invariant
                i <= n == nodes@.len() == views.len(),
                views == dag_nodes(nodes@),
                idx < n,
                id == views[idx as int].id,
                !held(views, order, id),
                taken == order.push(idx as int),
                searching(views, taken, queue@, degree@),
                forall|j: int|
                    0 <= j < i ==> #[trigger] degree@[j] == open_count(views, taken, j),
                forall|j: int|
                    i <= j < n ==> #[trigger] degree@[j] == open_count(views, order, j),
            decreases n - i,
        {
            let ghost degree_old = degree@;
            let ghost queue_old = queue@;
            proof {
                lemma_open_falls(
                    views,
                    order,
                    idx as int,
                    i as int,
                    views[i as int].depends_on.len(),
                );
            }
            let left: usize = degree[i];
            let closed: usize = count_id(&nodes[i].depends_on, id);
            if closed > 0 {
                degree.set(i, left - closed);
                if left == closed {
                    queue.push_back(i);
                    proof {
                        lemma_enqueue(views, taken, queue_old, degree_old, i);
                    }
                } else {
                    proof {
                        lemma_lower(
                            views,
                            taken,
                            queue_old,
                            degree_old,
                            i,
                            (left - closed) as usize,
                        );
                    }
                }
            }
            i = i + 1;
        }
        proof {
            order = taken;
        }
    }
    proof {
        if visited == n {
            assert(is_schedule(views, order));
        } else {
            lemma_stuck(views, order);
        }
    }
    visited == n
}

/// Taking up a node that waits for nothing keeps the order in order.
pub(crate) proof fn lemma_take_up(nodes: Seq<DAGNodeView>, order: Seq<int>, idx: int)
    requires
        distinct_indices(nodes, order),
        dependencies_first(nodes, order),
        0 <= idx < nodes.len(),
        !order.contains(idx),
        met(nodes, order, idx),
    ensures
        distinct_indices(nodes, order.push(idx)),
        dependencies_first(nodes, order.push(idx)),
{
    let taken = order.push(idx);
    assert forall|p: int| 0 <= p < taken.len() implies met(
        nodes,
        taken.take(p),
        #[trigger] taken[p],
    ) by {
        assert(taken.take(p) =~= order.take(p));
        if p == order.len() {
            assert(order.take(p) =~= order);
        } else {
            assert(taken[p] == order[p]);
        }
    }
}

/// Moving the head of the queue to the order keeps the books.
proof fn lemma_pop(
    nodes: Seq<DAGNodeView>,
    order: Seq<int>,
    queue: Seq<usize>,
    degree: Seq<usize>,
)
    requires
        searching(nodes, order, queue, degree),
        queue.len() > 0,
        distinct_indices(nodes, order.push(queue[0] as int)),
        dependencies_first(nodes, order.push(queue[0] as int)),
    ensures
        searching(nodes, order.push(queue[0] as int), queue.drop_first(), degree),
{
    let taken = order.push(queue[0] as int);
    let rest = queue.drop_first();
    assert forall|q: int| 0 <= q < rest.len() implies !taken.contains(#[trigger] rest[q] as int) by {
        assert(rest[q] == queue[q + 1]);
        if taken.contains(rest[q] as int) {
            let at = taken.index_of(rest[q] as int);
            if at < order.len() {
                assert(order[at] == queue[q + 1] as int);
            } else {
                assert(queue[0] == queue[q + 1]);
            }
        }
    }
    assert forall|i: int| 0 <= i < nodes.len() implies (#[trigger] degree[i] == 0
        <==> taken.contains(i) || rest.contains(i as usize)) by {
        if order.contains(i) {
            let at = order.index_of(i);
            assert(taken[at] == i);
        }
        if queue.contains(i as usize) {
            let at = queue.index_of(i as usize);
            if at == 0 {
                assert(taken[order.len() as int] == i);
            } else {
                assert(rest[at - 1] == i as usize);
            }
        }
        if taken.contains(i) {
            let at = taken.index_of(i);
            if at < order.len() {
                assert(order[at] == i);
            } else {
                assert(queue[0] == i as usize);
            }
        }
        if rest.contains(i as usize) {
            let at = rest.index_of(i as usize);
            assert(queue[at + 1] == i as usize);
        }
    }
}

/// Queueing a node whose last dependency was met keeps the books.
proof fn lemma_enqueue(
    nodes: Seq<DAGNodeView>,
    order: Seq<int>,
    queue: Seq<usize>,
    degree: Seq<usize>,
    i: usize,
)
    requires
        searching(nodes, order, queue, degree),
        i < nodes.len(),
        degree[i as int] > 0,
    ensures
        searching(nodes, order, queue.push(i), degree.update(i as int, 0)),
{
    let longer = queue.push(i);
    let lower = degree.update(i as int, 0);
    assert(!order.contains(i as int));
    assert(!queue.contains(i as int as usize));
    assert forall|j: int| 0 <= j < nodes.len() implies (#[trigger] lower[j] == 0 <==> order.contains(
        j,
    ) || longer.contains(j as usize)) by {
        if j == i {
            assert(longer[queue.len() as int] == i);
        } else {
            assert(lower[j] == degree[j]);
            if queue.contains(j as usize) {
                let at = queue.index_of(j as usize);
                assert(longer[at] == j as usize);
            }
            if longer.contains(j as usize) {
                let at = longer.index_of(j as usize);
                assert(at < queue.len());
                assert(queue[at] == j as usize);
            }
        }
    }
}

/// A node that still waits after some dependencies were met changes nothing
/// else.
proof fn lemma_lower(
    nodes: Seq<DAGNodeView>,
    order: Seq<int>,
    queue: Seq<usize>,
    degree: Seq<usize>,
    i: usize,
    left: usize,
)
    requires
        searching(nodes, order, queue, degree),
        i < nodes.len(),
        degree[i as int] > 0,
        left > 0,
    ensures
        searching(nodes, order, queue, degree.update(i as int, left)),
{
    let lower = degree.update(i as int, left);
    assert forall|j: int| 0 <= j < nodes.len() implies (#[trigger] lower[j] == 0 <==> order.contains(
        j,
    ) || queue.contains(j as usize)) by {
        assert(degree[j] == 0 <==> order.contains(j) || queue.contains(j as usize));
    }
}

} // verus!
